//! The server's side of the protocol: a state machine over the registered
//! identities and the login attempts in flight. A login attempt is created by
//! a challenge, replaced by the next challenge for the same identity, and
//! consumed by the first answer, whether that answer verifies or not.

use crate::arith::{mod_pow, random_big_int};
use crate::error::AuthError;
use crate::ids::{
    auth_id_text, auth_id_value, identify, is_session_token, parse_auth_id, random_string, user_id,
};
use crate::integer::{hex_parse, hex_text, Integer};
use crate::messages::{
    AuthenticationAnswerRequest, AuthenticationAnswerResponse, AuthenticationChallengeRequest,
    AuthenticationChallengeResponse, RegisterRequest, RegisterResponse,
};
use crate::params::{valid_group, Group, PublicParameters};
use crate::protocol::{
    check_challenge, check_residue, is_challenge, is_residue, lemma_honest_prover_verifies,
    parse_residue, read_residue, response, verification_holds, verify,
};
use crate::registry::{IdentityRecord, IdentityRegistry, PendingChallenges};
use vstd::arithmetic::div_mod::lemma_mod_bound;
use vstd::arithmetic::power::pow;
use vstd::prelude::*;

verus! {

/// The server's state: the registered identities, each with `(y1, y2)`, and
/// the login attempts in flight, each with `(r1, r2, c)`.
#[verifier::ext_equal]
pub struct ServiceState {
    pub identities: Map<u64, (int, int)>,
    pub pending: Map<u64, (int, int, int)>,
}

impl ServiceState {
    /// The state of a server that has seen no request.
    pub open spec fn empty() -> ServiceState {
        ServiceState { identities: Map::empty(), pending: Map::empty() }
    }

    /// What every reachable state satisfies: the registered values are
    /// residues modulo `p`; an attempt is in flight only for a registered
    /// identity, its commitment is a pair of residues modulo `p`, and its
    /// challenge is one that may be issued.
    pub open spec fn consistent(self, grp: Group) -> bool {
        &&& forall|id: u64| #[trigger]
            self.identities.contains_key(id) ==> is_residue(self.identities[id].0, grp.p)
                && is_residue(self.identities[id].1, grp.p)
        &&& forall|id: u64| #[trigger]
            self.pending.contains_key(id) ==> self.identities.contains_key(id) && is_residue(
                self.pending[id].0,
                grp.p,
            ) && is_residue(self.pending[id].1, grp.p) && is_challenge(self.pending[id].2, grp.q)
    }

    /// The outcome of a registration of `(y1, y2)` under `id`: whether a new
    /// record was made, or `MalformedInput` where a value is no residue
    /// modulo `p`.
    pub open spec fn register_outcome(self, grp: Group, id: u64, y1: int, y2: int) -> Result<
        bool,
        AuthError,
    > {
        if !is_residue(y1, grp.p) || !is_residue(y2, grp.p) {
            Err(AuthError::MalformedInput)
        } else {
            Ok(!self.identities.contains_key(id))
        }
    }

    /// The state after a registration of `(y1, y2)` under `id`: a new record
    /// where the values are residues modulo `p` and `id` was free, no change
    /// otherwise.
    pub open spec fn register(self, grp: Group, id: u64, y1: int, y2: int) -> ServiceState {
        if self.register_outcome(grp, id, y1, y2) == Ok::<bool, AuthError>(true) {
            ServiceState { identities: self.identities.insert(id, (y1, y2)), ..self }
        } else {
            self
        }
    }

    /// The outcome of a request for a challenge under `id` with commitment
    /// `(r1, r2)`, where `c` is the challenge that was drawn: `MalformedInput`
    /// where a value is out of range, else `UnknownIdentity` where `id` is not
    /// registered.
    pub open spec fn challenge_outcome(
        self,
        grp: Group,
        id: u64,
        r1: int,
        r2: int,
        c: int,
    ) -> Result<(), AuthError> {
        if !is_residue(r1, grp.p) || !is_residue(r2, grp.p) || !is_challenge(c, grp.q) {
            Err(AuthError::MalformedInput)
        } else if !self.identities.contains_key(id) {
            Err(AuthError::UnknownIdentity)
        } else {
            Ok(())
        }
    }

    /// The state after a request for a challenge: where the request is
    /// accepted, the attempt `(r1, r2, c)` takes the place of any earlier one
    /// under `id`; where it is refused, nothing changes.
    pub open spec fn challenge(
        self,
        grp: Group,
        id: u64,
        r1: int,
        r2: int,
        c: int,
    ) -> ServiceState {
        if self.challenge_outcome(grp, id, r1, r2, c) is Ok {
            ServiceState { pending: self.pending.insert(id, (r1, r2, c)), ..self }
        } else {
            self
        }
    }

    /// The outcome of the answer `s` under `id`.
    pub open spec fn answer_outcome(self, grp: Group, id: u64, s: int) -> Result<(), AuthError> {
        if !self.pending.contains_key(id) {
            Err(AuthError::NoPendingChallenge)
        } else if !self.identities.contains_key(id) {
            Err(AuthError::UnknownIdentity)
        } else if !is_residue(s, grp.q) {
            Err(AuthError::MalformedInput)
        } else if verification_holds(
            grp,
            self.identities[id].0,
            self.identities[id].1,
            self.pending[id].0,
            self.pending[id].1,
            self.pending[id].2 as nat,
            s as nat,
        ) {
            Ok(())
        } else {
            Err(AuthError::ProofMismatch)
        }
    }

    /// The state after an answer under `id`, whatever the answer was: no
    /// attempt is in flight for `id`.
    pub open spec fn consume(self, id: u64) -> ServiceState {
        ServiceState { pending: self.pending.remove(id), ..self }
    }
}

/// The server. Its view is its [`ServiceState`].
#[derive(Debug)]
pub struct AuthService {
    params: PublicParameters,
    identities: IdentityRegistry,
    pending: PendingChallenges,
}

impl View for AuthService {
    type V = ServiceState;

    closed spec fn view(&self) -> ServiceState {
        ServiceState { identities: self.identities@, pending: self.pending@ }
    }
}

impl AuthService {
    /// The group that the server verifies in.
    pub closed spec fn group(&self) -> Group {
        self.params@
    }

    /// The server's invariant: its state is consistent over a valid group.
    /// [`AuthService::new`] establishes it and every method keeps it.
    pub open spec fn wf(&self) -> bool {
        valid_group(self.group()) && self@.consistent(self.group())
    }

    /// A server over `params` that has seen no request.
    pub fn new(params: PublicParameters) -> (r: AuthService)
        ensures
            r.wf(),
            r@ == ServiceState::empty(),
            r.group() == params@,
    {
        proof {
            use_type_invariant(&params);
        }
        AuthService {
            params,
            identities: IdentityRegistry::new(),
            pending: PendingChallenges::new(),
        }
    }

    /// The parameters that the server verifies with.
    pub fn params(&self) -> (r: &PublicParameters)
        ensures
            r@ == self.group(),
    {
        &self.params
    }

    /// Whether an identity is registered under `id`.
    pub fn is_registered(&self, id: u64) -> (r: bool)
        ensures
            r == self@.identities.contains_key(id),
    {
        self.identities.contains(id)
    }

    /// The values registered under `id`.
    pub fn identity(&self, id: u64) -> (r: Option<IdentityRecord>)
        ensures
            match r {
                Some(record) => self@.identities.contains_key(id) && record@
                    == self@.identities[id],
                None => !self@.identities.contains_key(id),
            },
    {
        self.identities.get(id)
    }

    /// Whether a challenge is outstanding for `id`.
    pub fn has_pending(&self, id: u64) -> (r: bool)
        ensures
            r == self@.pending.contains_key(id),
    {
        self.pending.contains(id)
    }

    /// Reads a registration request: the identifier of the user and the two
    /// values. A value that is not a number, or that is no residue modulo `p`,
    /// is reported as `MalformedInput`.
    pub fn read_registration(&self, request: &RegisterRequest) -> (r: Result<
        (u64, Integer, Integer),
        AuthError,
    >)
        ensures
            match (
                parse_residue(request.y1@, self.group().p),
                parse_residue(request.y2@, self.group().p),
            ) {
                (Some(y1), Some(y2)) => {
                    &&& r is Ok
                    &&& r->Ok_0.0 == user_id(request.user@)
                    &&& r->Ok_0.1@ == y1
                    &&& r->Ok_0.2@ == y2
                },
                _ => r is Err && r->Err_0 == AuthError::MalformedInput,
            },
    {
        let y1 = match read_residue(request.y1.as_str(), self.params.p()) {
            Some(v) => v,
            None => {
                return Err(AuthError::MalformedInput);
            },
        };
        let y2 = match read_residue(request.y2.as_str(), self.params.p()) {
            Some(v) => v,
            None => {
                return Err(AuthError::MalformedInput);
            },
        };
        Ok((identify(request.user.as_str()), y1, y2))
    }

    /// Registers `(y1, y2)` under `id` and says whether a new record was
    /// made: none is where `id` is taken. Values that are no residues modulo
    /// `p` are reported as `MalformedInput`, and nothing is registered then.
    pub fn register_identity(&mut self, id: u64, y1: Integer, y2: Integer) -> (r: Result<
        bool,
        AuthError,
    >)
        requires
            old(self).wf(),
        ensures
            final(self).wf(),
            final(self).group() == old(self).group(),
            r == old(self)@.register_outcome(old(self).group(), id, y1@, y2@),
            final(self)@ == old(self)@.register(old(self).group(), id, y1@, y2@),
    {
        if !check_residue(&y1, self.params.p()) || !check_residue(&y2, self.params.p()) {
            return Err(AuthError::MalformedInput);
        }
        proof {
            lemma_transitions_keep_consistency(old(self)@, self.group(), id, y1@, y2@, 0);
        }
        Ok(self.identities.put(id, y1, y2))
    }

    /// Serves a registration request. The request is acknowledged whether or
    /// not the user was registered before. A value that is not a number, or
    /// that is no residue modulo `p`, is reported as `MalformedInput`, and
    /// nothing is registered then.
    pub fn register(&mut self, request: &RegisterRequest) -> (r: Result<
        RegisterResponse,
        AuthError,
    >)
        requires
            old(self).wf(),
        ensures
            final(self).wf(),
            final(self).group() == old(self).group(),
            match (
                parse_residue(request.y1@, old(self).group().p),
                parse_residue(request.y2@, old(self).group().p),
            ) {
                (Some(y1), Some(y2)) => r is Ok && final(self)@ == old(self)@.register(
                    old(self).group(),
                    user_id(request.user@),
                    y1,
                    y2,
                ),
                _ => {
                    &&& r is Err
                    &&& r->Err_0 == AuthError::MalformedInput
                    &&& final(self)@ == old(self)@
                },
            },
    {
        let (id, y1, y2) = match self.read_registration(request) {
            Ok(registration) => registration,
            Err(e) => {
                return Err(e);
            },
        };
        match self.register_identity(id, y1, y2) {
            Ok(_) => Ok(RegisterResponse {  }),
            Err(e) => Err(e),
        }
    }

    /// Opens a login attempt under `id` with commitment `(r1, r2)` and
    /// challenge `c`. A commitment that is no pair of residues modulo `p`, or
    /// a challenge that may not be issued, is reported as `MalformedInput`; an
    /// identifier that is not registered as `UnknownIdentity`. Nothing changes
    /// in either case.
    pub fn issue_challenge(&mut self, id: u64, r1: Integer, r2: Integer, c: Integer) -> (r: Result<
        (),
        AuthError,
    >)
        requires
            old(self).wf(),
        ensures
            final(self).wf(),
            final(self).group() == old(self).group(),
            r == old(self)@.challenge_outcome(old(self).group(), id, r1@, r2@, c@),
            final(self)@ == old(self)@.challenge(old(self).group(), id, r1@, r2@, c@),
    {
        if !check_residue(&r1, self.params.p()) || !check_residue(&r2, self.params.p())
            || !check_challenge(&c, self.params.q()) {
            return Err(AuthError::MalformedInput);
        }
        if !self.identities.contains(id) {
            return Err(AuthError::UnknownIdentity);
        }
        proof {
            lemma_transitions_keep_consistency(old(self)@, self.group(), id, r1@, r2@, c@);
        }
        self.pending.put(id, r1, r2, c);
        Ok(())
    }

    /// Serves a request for a challenge: draws a random challenge, opens the
    /// login attempt and answers with the identifier and the challenge. A
    /// commitment that is not a number, or that is no residue modulo `p`, is
    /// reported as `MalformedInput`, a user that is not registered as
    /// `UnknownIdentity`; nothing changes in either case.
    pub fn create_authentication_challenge(
        &mut self,
        request: &AuthenticationChallengeRequest,
    ) -> (r: Result<AuthenticationChallengeResponse, AuthError>)
        requires
            old(self).wf(),
        ensures
            final(self).wf(),
            final(self).group() == old(self).group(),
            match (
                parse_residue(request.r1@, old(self).group().p),
                parse_residue(request.r2@, old(self).group().p),
            ) {
                (Some(r1), Some(r2)) => {
                    let id = user_id(request.user@);
                    if old(self)@.identities.contains_key(id) {
                        &&& r is Ok
                        &&& final(self)@.pending.contains_key(id)
                        &&& is_challenge(final(self)@.pending[id].2, old(self).group().q)
                        &&& final(self)@ == old(self)@.challenge(
                            old(self).group(),
                            id,
                            r1,
                            r2,
                            final(self)@.pending[id].2,
                        )
                        &&& r->Ok_0.auth_id@ == hex_text(id as int)
                        &&& auth_id_value(r->Ok_0.auth_id@) == Some(id)
                        &&& r->Ok_0.c@ == hex_text(final(self)@.pending[id].2)
                        &&& hex_parse(r->Ok_0.c@) == Some(final(self)@.pending[id].2)
                    } else {
                        &&& r is Err
                        &&& r->Err_0 == AuthError::UnknownIdentity
                        &&& final(self)@ == old(self)@
                    }
                },
                _ => {
                    &&& r is Err
                    &&& r->Err_0 == AuthError::MalformedInput
                    &&& final(self)@ == old(self)@
                },
            },
    {
        let r1 = match read_residue(request.r1.as_str(), self.params.p()) {
            Some(v) => v,
            None => {
                return Err(AuthError::MalformedInput);
            },
        };
        let r2 = match read_residue(request.r2.as_str(), self.params.p()) {
            Some(v) => v,
            None => {
                return Err(AuthError::MalformedInput);
            },
        };
        let id = identify(request.user.as_str());
        let one = Integer::from_u64(1);
        let c = random_big_int(Integer::from_u64(2), self.params.q().minus(&one));
        let c_text = c.to_hex();
        match self.issue_challenge(id, r1, r2, c) {
            Ok(()) => Ok(AuthenticationChallengeResponse { auth_id: auth_id_text(id), c: c_text }),
            Err(e) => Err(e),
        }
    }

    /// Takes the answer `s` to the challenge outstanding for `id`. The
    /// attempt is consumed before the answer is looked at, so that it can be
    /// answered once only. An answer that is no residue modulo `q` is reported
    /// as `MalformedInput`, one that fails verification as `ProofMismatch`.
    pub fn check_answer(&mut self, id: u64, s: &Integer) -> (r: Result<(), AuthError>)
        requires
            old(self).wf(),
        ensures
            final(self).wf(),
            final(self).group() == old(self).group(),
            r == old(self)@.answer_outcome(old(self).group(), id, s@),
            final(self)@ == old(self)@.consume(id),
            !final(self)@.pending.contains_key(id),
    {
        proof {
            lemma_transitions_keep_consistency(old(self)@, self.group(), id, 0, 0, 0);
        }
        let attempt = match self.pending.take(id) {
            Some(a) => a,
            None => {
                return Err(AuthError::NoPendingChallenge);
            },
        };
        let record = match self.identities.get(id) {
            Some(v) => v,
            None => {
                return Err(AuthError::UnknownIdentity);
            },
        };
        if !check_residue(s, self.params.q()) {
            return Err(AuthError::MalformedInput);
        }
        if verify(&self.params, &record.y1, &record.y2, &attempt.r1, &attempt.r2, &attempt.c, s) {
            Ok(())
        } else {
            Err(AuthError::ProofMismatch)
        }
    }

    /// Serves an answer. An identifier that the server never gave out, or
    /// whose challenge was answered already, is reported as
    /// `NoPendingChallenge`. Otherwise the attempt is consumed; an answer that
    /// is not a number, or that is no residue modulo `q`, is then reported as
    /// `MalformedInput`, one that fails verification as `ProofMismatch`, and
    /// one that passes opens a session under a fresh random token.
    pub fn verify_authentication(&mut self, request: &AuthenticationAnswerRequest) -> (r: Result<
        AuthenticationAnswerResponse,
        AuthError,
    >)
        requires
            old(self).wf(),
        ensures
            final(self).wf(),
            final(self).group() == old(self).group(),
            match auth_id_value(request.auth_id@) {
                None => {
                    &&& r is Err
                    &&& r->Err_0 == AuthError::NoPendingChallenge
                    &&& final(self)@ == old(self)@
                },
                Some(id) => {
                    &&& final(self)@ == old(self)@.consume(id)
                    &&& if !old(self)@.pending.contains_key(id) {
                        r is Err && r->Err_0 == AuthError::NoPendingChallenge
                    } else {
                        match hex_parse(request.s@) {
                            None => r is Err && r->Err_0 == AuthError::MalformedInput,
                            Some(s) => match old(self)@.answer_outcome(old(self).group(), id, s) {
                                Ok(_) => r is Ok && is_session_token(r->Ok_0.session_id@),
                                Err(e) => r is Err && r->Err_0 == e,
                            },
                        }
                    }
                },
            },
    {
        let id = match parse_auth_id(request.auth_id.as_str()) {
            Some(id) => id,
            None => {
                return Err(AuthError::NoPendingChallenge);
            },
        };
        let s = match Integer::from_hex(request.s.as_str()) {
            Some(s) => s,
            None => {
                proof {
                    lemma_transitions_keep_consistency(old(self)@, self.group(), id, 0, 0, 0);
                }
                return match self.pending.take(id) {
                    Some(_) => Err(AuthError::MalformedInput),
                    None => Err(AuthError::NoPendingChallenge),
                };
            },
        };
        match self.check_answer(id, &s) {
            Ok(()) => Ok(AuthenticationAnswerResponse { session_id: random_string() }),
            Err(e) => Err(e),
        }
    }
}

/// Every transition leads from a consistent state to a consistent state: a
/// registration, a request for a challenge, and the consumption of an attempt.
pub proof fn lemma_transitions_keep_consistency(
    state: ServiceState,
    grp: Group,
    id: u64,
    a: int,
    b: int,
    c: int,
)
    requires
        state.consistent(grp),
    ensures
        ServiceState::empty().consistent(grp),
        state.register(grp, id, a, b).consistent(grp),
        state.challenge(grp, id, a, b, c).consistent(grp),
        state.consume(id).consistent(grp),
{
    let registered = state.register(grp, id, a, b);
    assert forall|k: u64| #[trigger] registered.identities.contains_key(k) implies is_residue(
        registered.identities[k].0,
        grp.p,
    ) && is_residue(registered.identities[k].1, grp.p) by {
        if !(k == id && registered != state) {
            assert(state.identities.contains_key(k));
        }
    }
    assert forall|k: u64| #[trigger] registered.pending.contains_key(k) implies
        registered.identities.contains_key(k) by {
        assert(state.pending.contains_key(k));
    }
    let challenged = state.challenge(grp, id, a, b, c);
    assert forall|k: u64| #[trigger] challenged.pending.contains_key(k) implies
        challenged.identities.contains_key(k) && is_residue(challenged.pending[k].0, grp.p)
        && is_residue(challenged.pending[k].1, grp.p) && is_challenge(
        challenged.pending[k].2,
        grp.q,
    ) by {
        if !(k == id && challenged != state) {
            assert(state.pending.contains_key(k));
        }
    }
    let consumed = state.consume(id);
    assert forall|k: u64| #[trigger] consumed.pending.contains_key(k) implies
        state.pending.contains_key(k) by {}
}

/// In a consistent state an answer is never refused for want of an identity:
/// where a challenge is outstanding, the identity it was issued to is there.
pub proof fn lemma_answer_finds_identity(state: ServiceState, grp: Group, id: u64, s: int)
    requires
        state.consistent(grp),
    ensures
        state.answer_outcome(grp, id, s) != Err::<(), AuthError>(AuthError::UnknownIdentity),
{
    if state.pending.contains_key(id) {
        assert(state.identities.contains_key(id));
    }
}

/// Registration is idempotent: a registration repeated with the same values
/// changes nothing, and once `id` is registered, registering it again with
/// other values changes nothing either. In particular the values found under
/// `id` are those of the first registration that was accepted.
pub proof fn lemma_register_idempotent(
    state: ServiceState,
    grp: Group,
    id: u64,
    y1: int,
    y2: int,
    z1: int,
    z2: int,
)
    ensures
        state.register(grp, id, y1, y2).register(grp, id, y1, y2) == state.register(
            grp,
            id,
            y1,
            y2,
        ),
        state.register(grp, id, y1, y2).identities.contains_key(id) ==> state.register(
            grp,
            id,
            y1,
            y2,
        ).register(grp, id, z1, z2) == state.register(grp, id, y1, y2),
        state.register_outcome(grp, id, y1, y2) == Ok::<bool, AuthError>(true) ==> state.register(
            grp,
            id,
            y1,
            y2,
        ).register(grp, id, z1, z2).identities[id] == (y1, y2),
{
}

/// A challenge can be answered once: after an answer under `id`, whatever it
/// was and however it was judged, the next answer under `id` finds no
/// challenge outstanding and is not looked at.
pub proof fn lemma_answer_is_single_use(state: ServiceState, grp: Group, id: u64, s: int)
    ensures
        state.consume(id).answer_outcome(grp, id, s) == Err::<(), AuthError>(
            AuthError::NoPendingChallenge,
        ),
        state.consume(id).consume(id) == state.consume(id),
{
    assert(state.consume(id).pending.remove(id) =~= state.consume(id).pending);
}

/// A request for a challenge under an identifier that is not registered is
/// refused and leaves the state as it was, so that an answer under that
/// identifier finds no challenge outstanding.
pub proof fn lemma_unregistered_login_fails(
    state: ServiceState,
    grp: Group,
    id: u64,
    r1: int,
    r2: int,
    c: int,
    s: int,
)
    requires
        state.consistent(grp),
        !state.identities.contains_key(id),
    ensures
        state.challenge_outcome(grp, id, r1, r2, c) is Err,
        is_residue(r1, grp.p) && is_residue(r2, grp.p) && is_challenge(c, grp.q)
            ==> state.challenge_outcome(grp, id, r1, r2, c) == Err::<(), AuthError>(
            AuthError::UnknownIdentity,
        ),
        state.challenge(grp, id, r1, r2, c) == state,
        !state.challenge(grp, id, r1, r2, c).pending.contains_key(id),
        state.challenge(grp, id, r1, r2, c).answer_outcome(grp, id, s) == Err::<(), AuthError>(
            AuthError::NoPendingChallenge,
        ),
{
}

/// A login that follows the protocol succeeds: where `id` is registered with
/// the values of secret `x`, and a challenge `c` is issued against the
/// commitment to nonce `k`, the response computed from `k`, `c` and `x` is
/// accepted.
pub proof fn lemma_honest_login_succeeds(
    state: ServiceState,
    grp: Group,
    id: u64,
    x: nat,
    k: nat,
    c: nat,
)
    requires
        valid_group(grp),
        !state.identities.contains_key(id),
        is_challenge(c as int, grp.q),
    ensures
        ({
            let registered = state.register(
                grp,
                id,
                mod_pow(grp.g, x, grp.p),
                mod_pow(grp.h, x, grp.p),
            );
            let challenged = registered.challenge(
                grp,
                id,
                mod_pow(grp.g, k, grp.p),
                mod_pow(grp.h, k, grp.p),
                c as int,
            );
            challenged.answer_outcome(grp, id, response(k as int, c as int, x as int, grp.q))
                == Ok::<(), AuthError>(())
        }),
{
    lemma_honest_prover_verifies(grp, x, k, c);
    lemma_mod_bound(pow(grp.g, x), grp.p);
    lemma_mod_bound(pow(grp.h, x), grp.p);
    lemma_mod_bound(pow(grp.g, k), grp.p);
    lemma_mod_bound(pow(grp.h, k), grp.p);
    lemma_mod_bound(k - c * x, grp.q);
}

} // verus!
