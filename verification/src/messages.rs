//! The messages that client and server exchange. Every number travels as
//! hexadecimal text.

use vstd::prelude::*;

verus! {

/// A request to register `user` with the values `y1`, `y2`.
#[derive(Debug, Clone)]
pub struct RegisterRequest {
    pub user: String,
    pub y1: String,
    pub y2: String,
}

/// The acknowledgement of a registration. It says nothing of whether the user
/// was new.
#[derive(Debug, Clone)]
pub struct RegisterResponse {}

/// The opening of a login: `user` commits to `r1`, `r2`.
#[derive(Debug, Clone)]
pub struct AuthenticationChallengeRequest {
    pub user: String,
    pub r1: String,
    pub r2: String,
}

/// The server's challenge `c`, and the identifier under which it expects the
/// answer.
#[derive(Debug, Clone)]
pub struct AuthenticationChallengeResponse {
    pub auth_id: String,
    pub c: String,
}

/// The answer `s` to the challenge issued under `auth_id`.
#[derive(Debug, Clone)]
pub struct AuthenticationAnswerRequest {
    pub auth_id: String,
    pub s: String,
}

/// The token of the session that a verified answer opens.
#[derive(Debug, Clone)]
pub struct AuthenticationAnswerResponse {
    pub session_id: String,
}

} // verus!
