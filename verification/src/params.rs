//! The public parameters of the proof: a modulus, the order of a subgroup of
//! its multiplicative group, and two generators of that subgroup.

use crate::arith::{mod_exp, mod_pow};
use crate::error::AuthError;
use crate::integer::Integer;
use vstd::prelude::*;

verus! {

/// The parameters as mathematical integers.
pub struct Group {
    pub p: int,
    pub q: int,
    pub g: int,
    pub h: int,
}

/// What the library checks of a parameter set: the modulus is at least 2, the
/// order leaves room for nonces and challenges, both generators lie strictly
/// between 1 and the modulus, and raising either to the order gives 1.
pub open spec fn valid_group(v: Group) -> bool {
    &&& v.p >= 2
    &&& v.q >= 5
    &&& 1 < v.g < v.p
    &&& 1 < v.h < v.p
    &&& mod_pow(v.g, v.q as nat, v.p) == 1
    &&& mod_pow(v.h, v.q as nat, v.p) == 1
}

/// A parameter set that passed [`valid_group`]. It cannot be changed once made.
#[derive(Debug)]
pub struct PublicParameters {
    p: Integer,
    q: Integer,
    g: Integer,
    h: Integer,
}

impl View for PublicParameters {
    type V = Group;

    closed spec fn view(&self) -> Group {
        Group { p: self.p@, q: self.q@, g: self.g@, h: self.h@ }
    }
}

impl Clone for PublicParameters {
    fn clone(&self) -> (r: Self)
        ensures
            r@ == self@,
    {
        proof {
            use_type_invariant(self);
        }
        PublicParameters {
            p: self.p.clone(),
            q: self.q.clone(),
            g: self.g.clone(),
            h: self.h.clone(),
        }
    }
}

impl PublicParameters {
    /// Every parameter set in executable code is valid.
    #[verifier::type_invariant]
    pub open spec fn inv(&self) -> bool {
        valid_group(self@)
    }

    /// Checks the four numbers and makes a parameter set of them, or reports
    /// `MalformedInput` where they are not a valid group.
    pub fn new(p: Integer, q: Integer, g: Integer, h: Integer) -> (r: Result<
        PublicParameters,
        AuthError,
    >)
        ensures
            r is Ok <==> valid_group(Group { p: p@, q: q@, g: g@, h: h@ }),
            r is Ok ==> r->Ok_0@ == (Group { p: p@, q: q@, g: g@, h: h@ }),
            r is Err ==> r->Err_0 == AuthError::MalformedInput,
    {
        let one = Integer::from_u64(1);
        let four = Integer::from_u64(4);
        if !p.greater_than(&one) || !q.greater_than(&four) {
            return Err(AuthError::MalformedInput);
        }
        if !g.greater_than(&one) || !p.greater_than(&g) {
            return Err(AuthError::MalformedInput);
        }
        if !h.greater_than(&one) || !p.greater_than(&h) {
            return Err(AuthError::MalformedInput);
        }
        if !mod_exp(&g, &q, &p).equals(&one) || !mod_exp(&h, &q, &p).equals(&one) {
            return Err(AuthError::MalformedInput);
        }
        Ok(PublicParameters { p, q, g, h })
    }

    /// The modulus.
    pub fn p(&self) -> (r: &Integer)
        ensures
            r@ == self@.p,
    {
        &self.p
    }

    /// The order of the subgroup.
    pub fn q(&self) -> (r: &Integer)
        ensures
            r@ == self@.q,
    {
        &self.q
    }

    /// The first generator.
    pub fn g(&self) -> (r: &Integer)
        ensures
            r@ == self@.g,
    {
        &self.g
    }

    /// The second generator.
    pub fn h(&self) -> (r: &Integer)
        ensures
            r@ == self@.h,
    {
        &self.h
    }
}

} // verus!
