//! Password authentication by a Chaum-Pedersen zero-knowledge proof over a
//! prime-order subgroup: a client proves that it knows the secret behind a
//! password without sending it.
//!
//! * [`integer`]: arbitrary-precision integers, computed by `num-bigint`.
//! * [`arith`]: modular exponentiation, reduction and random sampling.
//! * [`params`]: the public parameters of the group.
//! * [`protocol`]: registration values, commitment, response and
//!   verification, with the proofs that an honest prover is accepted and that
//!   a wrong secret is not.
//! * [`messages`], [`ids`]: what travels between client and server.
//! * [`client`]: the requests of the prover.
//! * [`registry`], [`service`]: the server's stores and its state machine.
//! * [`error`]: the outcomes other than success.

pub mod arith;
pub mod client;
pub mod error;
pub mod ids;
pub mod integer;
pub mod messages;
pub mod params;
pub mod protocol;
pub mod registry;
pub mod service;
