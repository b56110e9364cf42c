//! The two keyed stores of the server: the registered identities, which are
//! created once and never change, and the login attempts in flight, of which
//! each identity has at most one.

use crate::integer::Integer;
use std::collections::HashMap;
use vstd::prelude::*;

verus! {

broadcast use vstd::std_specs::hash::group_hash_axioms;

/// The long-term verification values of one identity.
#[derive(Debug)]
pub struct IdentityRecord {
    pub y1: Integer,
    pub y2: Integer,
}

impl View for IdentityRecord {
    type V = (int, int);

    open spec fn view(&self) -> (int, int) {
        (self.y1@, self.y2@)
    }
}

/// The identities by identifier. Its view maps each registered identifier to
/// `(y1, y2)`.
#[derive(Debug)]
pub struct IdentityRegistry {
    records: HashMap<u64, IdentityRecord>,
}

impl View for IdentityRegistry {
    type V = Map<u64, (int, int)>;

    closed spec fn view(&self) -> Map<u64, (int, int)> {
        self.records@.map_values(|r: IdentityRecord| r@)
    }
}

impl IdentityRegistry {
    /// A registry without identities.
    pub fn new() -> (r: IdentityRegistry)
        ensures
            r@ == Map::<u64, (int, int)>::empty(),
    {
        let r = IdentityRegistry { records: HashMap::new() };
        assert(r@ =~= Map::<u64, (int, int)>::empty());
        r
    }

    /// Whether `id` is registered.
    pub fn contains(&self, id: u64) -> (r: bool)
        ensures
            r == self@.contains_key(id),
    {
        self.records.contains_key(&id)
    }

    /// The values registered under `id`.
    pub fn get(&self, id: u64) -> (r: Option<IdentityRecord>)
        ensures
            match r {
                Some(record) => self@.contains_key(id) && record@ == self@[id],
                None => !self@.contains_key(id),
            },
    {
        match self.records.get(&id) {
            Some(record) => Some(IdentityRecord { y1: record.y1.clone(), y2: record.y2.clone() }),
            None => None,
        }
    }

    /// Registers `(y1, y2)` under `id` unless `id` is registered already, and
    /// says whether it did.
    pub fn put(&mut self, id: u64, y1: Integer, y2: Integer) -> (created: bool)
        ensures
            created == !old(self)@.contains_key(id),
            final(self)@ == (if created {
                old(self)@.insert(id, (y1@, y2@))
            } else {
                old(self)@
            }),
    {
        if self.records.contains_key(&id) {
            false
        } else {
            self.records.insert(id, IdentityRecord { y1, y2 });
            assert(self@ =~= old(self)@.insert(id, (y1@, y2@)));
            true
        }
    }
}

/// A login attempt in flight: the prover's commitment and the challenge that
/// was issued against it.
#[derive(Debug)]
pub struct PendingChallenge {
    pub r1: Integer,
    pub r2: Integer,
    pub c: Integer,
}

impl View for PendingChallenge {
    type V = (int, int, int);

    open spec fn view(&self) -> (int, int, int) {
        (self.r1@, self.r2@, self.c@)
    }
}

/// The login attempts in flight by identifier. Its view maps each identifier
/// with an outstanding challenge to `(r1, r2, c)`.
#[derive(Debug)]
pub struct PendingChallenges {
    entries: HashMap<u64, PendingChallenge>,
}

impl View for PendingChallenges {
    type V = Map<u64, (int, int, int)>;

    closed spec fn view(&self) -> Map<u64, (int, int, int)> {
        self.entries@.map_values(|e: PendingChallenge| e@)
    }
}

impl PendingChallenges {
    /// A store without attempts.
    pub fn new() -> (r: PendingChallenges)
        ensures
            r@ == Map::<u64, (int, int, int)>::empty(),
    {
        let r = PendingChallenges { entries: HashMap::new() };
        assert(r@ =~= Map::<u64, (int, int, int)>::empty());
        r
    }

    /// Whether a challenge is outstanding for `id`.
    pub fn contains(&self, id: u64) -> (r: bool)
        ensures
            r == self@.contains_key(id),
    {
        self.entries.contains_key(&id)
    }

    /// Records the attempt under `id`, in place of an earlier one if there is one.
    pub fn put(&mut self, id: u64, r1: Integer, r2: Integer, c: Integer)
        ensures
            final(self)@ == old(self)@.insert(id, (r1@, r2@, c@)),
    {
        self.entries.insert(id, PendingChallenge { r1, r2, c });
        assert(self@ =~= old(self)@.insert(id, (r1@, r2@, c@)));
    }

    /// The attempt in flight under `id`.
    pub fn get(&self, id: u64) -> (r: Option<PendingChallenge>)
        ensures
            match r {
                Some(entry) => self@.contains_key(id) && entry@ == self@[id],
                None => !self@.contains_key(id),
            },
    {
        match self.entries.get(&id) {
            Some(entry) => Some(
                PendingChallenge {
                    r1: entry.r1.clone(),
                    r2: entry.r2.clone(),
                    c: entry.c.clone(),
                },
            ),
            None => None,
        }
    }

    /// Removes the attempt under `id`, if there is one.
    pub fn delete(&mut self, id: u64)
        ensures
            final(self)@ == old(self)@.remove(id),
    {
        self.entries.remove(&id);
        assert(self@ =~= old(self)@.remove(id));
    }

    /// Removes the attempt under `id` and hands it out, if there is one.
    pub fn take(&mut self, id: u64) -> (r: Option<PendingChallenge>)
        ensures
            final(self)@ == old(self)@.remove(id),
            match r {
                Some(entry) => old(self)@.contains_key(id) && entry@ == old(self)@[id],
                None => !old(self)@.contains_key(id),
            },
    {
        let r = self.entries.remove(&id);
        assert(self@ =~= old(self)@.remove(id));
        r
    }
}

} // verus!
