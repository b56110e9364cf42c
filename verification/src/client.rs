//! The prover's side of the protocol: the secret behind a password, and the
//! three requests that a client sends.

use crate::arith::{mod_pow, random_big_int};
use crate::error::AuthError;
use crate::integer::{hex_parse, hex_text, unsigned_le, Integer};
use crate::messages::{
    AuthenticationAnswerRequest, AuthenticationChallengeRequest, AuthenticationChallengeResponse,
    RegisterRequest,
};
use crate::params::PublicParameters;
use crate::protocol::{
    compute_commitment, compute_registration_values, compute_response, is_residue,
    parse_challenge, parse_residue, read_challenge, response,
};
use vstd::prelude::*;
use vstd::string::StringSliceAdditionalSpecFns;

verus! {

/// The secret behind `password`: the number whose base-256 digits, least
/// significant first, are the bytes of the password.
pub fn derive_secret(password: &str) -> (x: Integer)
    ensures
        x@ == unsigned_le(password.spec_bytes()),
        x@ >= 0,
{
    Integer::from_bytes_le(password.as_bytes())
}

/// A fresh nonce `k` for one login attempt, with `2 <= k < q - 2`.
pub fn fresh_nonce(params: &PublicParameters) -> (k: Integer)
    ensures
        2 <= k@ < params@.q - 2,
{
    proof {
        use_type_invariant(params);
    }
    let two = Integer::from_u64(2);
    random_big_int(Integer::from_u64(2), params.q().minus(&two))
}

/// The request that registers `username` with the values of secret `x`.
pub fn zkp_register(params: &PublicParameters, username: &str, x: &Integer) -> (request:
    RegisterRequest)
    requires
        x@ >= 0,
    ensures
        request.user@ == username@,
        request.y1@ == hex_text(mod_pow(params@.g, x@ as nat, params@.p)),
        request.y2@ == hex_text(mod_pow(params@.h, x@ as nat, params@.p)),
        parse_residue(request.y1@, params@.p) == Some(mod_pow(params@.g, x@ as nat, params@.p)),
        parse_residue(request.y2@, params@.p) == Some(mod_pow(params@.h, x@ as nat, params@.p)),
{
    let (y1, y2) = compute_registration_values(params, x);
    RegisterRequest { user: username.to_owned(), y1: y1.to_hex(), y2: y2.to_hex() }
}

/// The request that opens a login of `username` with the commitment to nonce `k`.
pub fn zkp_authentication_challenge(
    params: &PublicParameters,
    username: &str,
    k: &Integer,
) -> (request: AuthenticationChallengeRequest)
    requires
        k@ >= 0,
    ensures
        request.user@ == username@,
        request.r1@ == hex_text(mod_pow(params@.g, k@ as nat, params@.p)),
        request.r2@ == hex_text(mod_pow(params@.h, k@ as nat, params@.p)),
        parse_residue(request.r1@, params@.p) == Some(mod_pow(params@.g, k@ as nat, params@.p)),
        parse_residue(request.r2@, params@.p) == Some(mod_pow(params@.h, k@ as nat, params@.p)),
{
    let (r1, r2) = compute_commitment(params, k);
    AuthenticationChallengeRequest { user: username.to_owned(), r1: r1.to_hex(), r2: r2.to_hex() }
}

/// The request that answers the challenge issued under `auth_id` with `s`.
pub fn zkp_verify_authentication(s: &Integer, auth_id: &str) -> (request:
    AuthenticationAnswerRequest)
    ensures
        request.auth_id@ == auth_id@,
        request.s@ == hex_text(s@),
        hex_parse(request.s@) == Some(s@),
{
    AuthenticationAnswerRequest { auth_id: auth_id.to_owned(), s: s.to_hex() }
}

/// The answer to the challenge `c`, for the prover of secret `x` that
/// committed to nonce `k`: the request that carries `k - c * x (mod q)`.
pub fn answer_to(
    params: &PublicParameters,
    k: &Integer,
    x: &Integer,
    c: &Integer,
    auth_id: &str,
) -> (request: AuthenticationAnswerRequest)
    ensures
        request.auth_id@ == auth_id@,
        request.s@ == hex_text(response(k@, c@, x@, params@.q)),
        hex_parse(request.s@) == Some(response(k@, c@, x@, params@.q)),
        is_residue(response(k@, c@, x@, params@.q), params@.q),
{
    proof {
        use_type_invariant(params);
    }
    let s = compute_response(k, c, x, params.q());
    zkp_verify_authentication(&s, auth_id)
}

/// Reads the server's challenge and answers it. A challenge that is not a
/// number, or not one that may be issued in the group, is reported as
/// `MalformedInput`.
pub fn answer_challenge(
    params: &PublicParameters,
    k: &Integer,
    x: &Integer,
    challenge: &AuthenticationChallengeResponse,
) -> (r: Result<AuthenticationAnswerRequest, AuthError>)
    ensures
        match parse_challenge(challenge.c@, params@.q) {
            Some(c) => {
                &&& r is Ok
                &&& r->Ok_0.auth_id@ == challenge.auth_id@
                &&& r->Ok_0.s@ == hex_text(response(k@, c, x@, params@.q))
                &&& hex_parse(r->Ok_0.s@) == Some(response(k@, c, x@, params@.q))
            },
            None => r is Err && r->Err_0 == AuthError::MalformedInput,
        },
{
    match read_challenge(challenge.c.as_str(), params.q()) {
        Some(c) => Ok(answer_to(params, k, x, &c, challenge.auth_id.as_str())),
        None => Err(AuthError::MalformedInput),
    }
}

} // verus!
