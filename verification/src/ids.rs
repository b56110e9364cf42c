//! Identifiers: the hash that stands for a user name, its text form on the
//! wire, and the random token of a session.

use crate::integer::{hex_parse, hex_text, Integer};
use rand::distributions::Alphanumeric;
use rand::Rng;
use std::collections::hash_map::DefaultHasher;
use std::hash::{Hash, Hasher};
use vstd::prelude::*;
use vstd::std_specs::hash::DefaultHasherAdditionalSpecFns;

verus! {

/// The bytes that hashing the string `name` feeds to a hasher, write by write.
pub uninterp spec fn str_hash_writes(name: Seq<char>) -> Seq<Seq<u8>>;

/// Trusted: `Hash::hash` of `str`. What it writes to the hasher depends on the
/// string alone and comes after what the hasher was fed before.
#[verifier::external_body]
fn feed_str(name: &str, state: &mut DefaultHasher)
    ensures
        final(state)@ == old(state)@ + str_hash_writes(name@),
{
    name.hash(state)
}

/// The identifier of the user called `name`: the default hasher's digest of
/// the name.
pub open spec fn user_id(name: Seq<char>) -> u64 {
    DefaultHasher::spec_finish(Seq::<Seq<u8>>::empty() + str_hash_writes(name))
}

/// The identifier that the text `auth_id` spells, if it is the hexadecimal
/// text of one: exactly the text that [`auth_id_text`] gives for it.
pub open spec fn auth_id_value(auth_id: Seq<char>) -> Option<u64> {
    match hex_parse(auth_id) {
        Some(v) => if 0 <= v <= u64::MAX && hex_text(v) == auth_id {
            Some(v as u64)
        } else {
            None
        },
        None => None,
    }
}

/// Whether `c` is an ASCII letter or digit.
pub open spec fn is_alphanumeric(c: char) -> bool {
    ('0' <= c && c <= '9') || ('a' <= c && c <= 'z') || ('A' <= c && c <= 'Z')
}

/// What holds of every session token: seven ASCII letters and digits.
pub open spec fn is_session_token(token: Seq<char>) -> bool {
    token.len() == 7 && forall|i: int| 0 <= i < token.len() ==> is_alphanumeric(#[trigger] token[i])
}

/// The identifier of the user called `name`.
pub fn identify(name: &str) -> (id: u64)
    ensures
        id == user_id(name@),
{
    let mut hasher = DefaultHasher::new();
    feed_str(name, &mut hasher);
    hasher.finish()
}

/// The identifier of the user called `obj`, as an integer.
pub fn default_hash(obj: &str) -> (r: Integer)
    ensures
        r@ == user_id(obj@),
{
    Integer::from_u64(identify(obj))
}

/// The text that stands for identifier `id` on the wire, which
/// [`parse_auth_id`] reads back.
pub fn auth_id_text(id: u64) -> (r: String)
    ensures
        r@ == hex_text(id as int),
        auth_id_value(r@) == Some(id),
{
    Integer::from_u64(id).to_hex()
}

/// Reads an identifier back from its text. Text that is not exactly what
/// [`auth_id_text`] writes for some identifier gives `None`.
pub fn parse_auth_id(auth_id: &str) -> (r: Option<u64>)
    ensures
        r == auth_id_value(auth_id@),
{
    match Integer::from_hex(auth_id) {
        None => None,
        Some(value) => match value.to_u64() {
            None => None,
            Some(id) => {
                if value.to_hex() == auth_id.to_owned() {
                    Some(id)
                } else {
                    None
                }
            },
        },
    }
}

/// Trusted: seven samples of `rand`'s `Alphanumeric` distribution from the
/// thread's random generator, collected into a string. Each sample is an
/// ASCII letter or digit; which ones is left open.
#[verifier::external_body]
pub fn random_string() -> (r: String)
    ensures
        is_session_token(r@),
{
    rand::thread_rng().sample_iter(&Alphanumeric).take(7).map(char::from).collect()
}

} // verus!
