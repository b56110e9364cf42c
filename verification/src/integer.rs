//! Arbitrary-precision signed integers.
//!
//! An [`Integer`] holds its value as two's-complement bytes, least significant
//! byte first; [`signed_le`] says which integer a byte string denotes. The
//! arithmetic itself is done by `num-bigint`. Each operation of that crate is
//! reached through one small wrapper on byte slices, which reads its arguments
//! with `BigInt::from_signed_bytes_le` and writes its result with
//! `BigInt::to_signed_bytes_le`. The contracts of these wrappers are not
//! proved: they state what `num-bigint` computes.

use num_bigint::{BigInt, ParseBigIntError, RandBigInt, Sign};
use num_traits::{Num, ToPrimitive};
use vstd::arithmetic::power::{lemma_pow0, lemma_pow_positive, pow};
use vstd::arithmetic::power2::pow2;
use vstd::prelude::*;

verus! {

/// The natural number whose base-256 digits, least significant first, are `bytes`.
pub open spec fn unsigned_le(bytes: Seq<u8>) -> nat
    decreases bytes.len(),
{
    if bytes.len() == 0 {
        0
    } else {
        bytes[0] as nat + 256 * unsigned_le(bytes.drop_first())
    }
}

/// The integer that `bytes` denotes in two's complement, least significant
/// byte first. The empty sequence denotes zero.
pub open spec fn signed_le(bytes: Seq<u8>) -> int {
    if bytes.len() > 0 && bytes.last() >= 128 {
        unsigned_le(bytes) - pow(256, bytes.len())
    } else {
        unsigned_le(bytes) as int
    }
}

/// The absolute value of `v`.
pub open spec fn magnitude(v: int) -> int {
    if v < 0 {
        -v
    } else {
        v
    }
}

/// The remainder of the division that rounds toward zero: it has the sign of
/// the dividend `a`, and its magnitude is `|a|` modulo `|b|`.
pub open spec fn trunc_rem(a: int, b: int) -> int {
    if a >= 0 {
        a % magnitude(b)
    } else {
        -((-a) % magnitude(b))
    }
}

/// The lower-case hexadecimal digit of `d`, for `0 <= d < 16`.
pub open spec fn hex_digit(d: int) -> char {
    seq!['0', '1', '2', '3', '4', '5', '6', '7', '8', '9', 'a', 'b', 'c', 'd', 'e', 'f'][d]
}

/// The hexadecimal digits of `n`, most significant first, without leading
/// zeros; zero is the single digit `0`.
pub open spec fn hex_digits(n: nat) -> Seq<char>
    decreases n,
{
    if n < 16 {
        seq![hex_digit(n as int)]
    } else {
        hex_digits(n / 16).push(hex_digit((n % 16) as int))
    }
}

/// The hexadecimal text of `v`: a minus sign where `v` is negative, then the
/// digits of its magnitude.
pub open spec fn hex_text(v: int) -> Seq<char> {
    if v < 0 {
        seq!['-'] + hex_digits((-v) as nat)
    } else {
        hex_digits(v as nat)
    }
}

/// What `num-bigint` reads from `text` as a hexadecimal integer: the value, or
/// `None` where it rejects the text.
pub uninterp spec fn hex_parse(text: Seq<char>) -> Option<int>;

/// Trusted: `num-bigint`'s error for text that is no number, carried through
/// unopened.
#[verifier::external_type_specification]
#[verifier::external_body]
pub struct ExParseBigIntError(ParseBigIntError);

/// Trusted: `BigInt`'s `+`. The sum of the two denoted integers.
#[verifier::external_body]
fn bytes_add(a: &[u8], b: &[u8]) -> (r: Vec<u8>)
    ensures
        signed_le(r@) == signed_le(a@) + signed_le(b@),
{
    (BigInt::from_signed_bytes_le(a) + BigInt::from_signed_bytes_le(b)).to_signed_bytes_le()
}

/// Trusted: `BigInt`'s `-`. The difference of the two denoted integers.
#[verifier::external_body]
fn bytes_sub(a: &[u8], b: &[u8]) -> (r: Vec<u8>)
    ensures
        signed_le(r@) == signed_le(a@) - signed_le(b@),
{
    (BigInt::from_signed_bytes_le(a) - BigInt::from_signed_bytes_le(b)).to_signed_bytes_le()
}

/// Trusted: `BigInt`'s `*`. The product of the two denoted integers.
#[verifier::external_body]
fn bytes_mul(a: &[u8], b: &[u8]) -> (r: Vec<u8>)
    ensures
        signed_le(r@) == signed_le(a@) * signed_le(b@),
{
    (BigInt::from_signed_bytes_le(a) * BigInt::from_signed_bytes_le(b)).to_signed_bytes_le()
}

/// Trusted: `BigInt`'s `%`, which panics on a zero divisor and otherwise gives
/// the remainder of the division that rounds toward zero.
#[verifier::external_body]
fn bytes_rem(a: &[u8], b: &[u8]) -> (r: Vec<u8>)
    requires
        signed_le(b@) != 0,
    ensures
        signed_le(r@) == trunc_rem(signed_le(a@), signed_le(b@)),
{
    (BigInt::from_signed_bytes_le(a) % BigInt::from_signed_bytes_le(b)).to_signed_bytes_le()
}

/// Trusted: `BigInt`'s `>>` by `shift` bits, which rounds toward negative
/// infinity: the quotient of the floor division by `2^shift`.
#[verifier::external_body]
fn bytes_shr(a: &[u8], shift: u32) -> (r: Vec<u8>)
    ensures
        signed_le(r@) == signed_le(a@) / (pow2(shift as nat) as int),
{
    (BigInt::from_signed_bytes_le(a) >> shift).to_signed_bytes_le()
}

/// Trusted: `BigInt`'s `==`. Whether the two byte strings denote one integer.
#[verifier::external_body]
fn bytes_eq(a: &[u8], b: &[u8]) -> (r: bool)
    ensures
        r == (signed_le(a@) == signed_le(b@)),
{
    BigInt::from_signed_bytes_le(a) == BigInt::from_signed_bytes_le(b)
}

/// Trusted: `BigInt`'s `>`. Whether the first denoted integer is the greater.
#[verifier::external_body]
fn bytes_gt(a: &[u8], b: &[u8]) -> (r: bool)
    ensures
        r == (signed_le(a@) > signed_le(b@)),
{
    BigInt::from_signed_bytes_le(a) > BigInt::from_signed_bytes_le(b)
}

/// Trusted: `BigInt::from_bytes_le` with a plus sign. The result denotes the
/// natural number whose base-256 digits are `digits`.
#[verifier::external_body]
fn bytes_from_unsigned(digits: &[u8]) -> (r: Vec<u8>)
    ensures
        signed_le(r@) == unsigned_le(digits@),
{
    BigInt::from_bytes_le(Sign::Plus, digits).to_signed_bytes_le()
}

/// Trusted: `BigInt`'s `to_u64`. The denoted integer where it fits a `u64`,
/// else `None`.
#[verifier::external_body]
fn bytes_to_u64(a: &[u8]) -> (r: Option<u64>)
    ensures
        r == (if 0 <= signed_le(a@) <= u64::MAX {
            Some(signed_le(a@) as u64)
        } else {
            None
        }),
{
    BigInt::from_signed_bytes_le(a).to_u64()
}

/// Trusted: `BigInt::to_str_radix` with radix 16. The text is an optional
/// minus sign and the lower-case digits of the magnitude, without leading
/// zeros, and `from_str_radix` reads it back as the same integer.
#[verifier::external_body]
fn bytes_to_hex(a: &[u8]) -> (r: String)
    ensures
        r@ == hex_text(signed_le(a@)),
        hex_parse(r@) == Some(signed_le(a@)),
{
    BigInt::from_signed_bytes_le(a).to_str_radix(16)
}

/// Trusted: `BigInt::from_str_radix` with radix 16. Names what that function
/// reads from the text, and claims no more of it.
#[verifier::external_body]
fn bytes_from_hex(text: &str) -> (r: Result<Vec<u8>, ParseBigIntError>)
    ensures
        match hex_parse(text@) {
            Some(v) => r is Ok && signed_le(r->Ok_0@) == v,
            None => r is Err,
        },
{
    match BigInt::from_str_radix(text, 16) {
        Ok(v) => Ok(v.to_signed_bytes_le()),
        Err(e) => Err(e),
    }
}

/// Trusted: `gen_bigint_range` on the thread's random generator, which panics
/// unless the lower bound is below the upper one. Of the integer that comes
/// back only the range is known.
#[verifier::external_body]
fn bytes_random_range(low: &[u8], high: &[u8]) -> (r: Vec<u8>)
    requires
        signed_le(low@) < signed_le(high@),
    ensures
        signed_le(low@) <= signed_le(r@) < signed_le(high@),
{
    rand::thread_rng().gen_bigint_range(
        &BigInt::from_signed_bytes_le(low),
        &BigInt::from_signed_bytes_le(high),
    ).to_signed_bytes_le()
}

/// Appending a digit adds it at the weight of its position.
pub proof fn lemma_unsigned_le_push(bytes: Seq<u8>, last: u8)
    ensures
        unsigned_le(bytes.push(last)) == unsigned_le(bytes) + pow(256, bytes.len()) * last,
    decreases bytes.len(),
{
    if bytes.len() == 0 {
        lemma_pow0(256);
        assert(bytes.push(last).drop_first() =~= Seq::<u8>::empty());
        assert(unsigned_le(bytes.push(last).drop_first()) == 0);
    } else {
        let tail = bytes.drop_first();
        lemma_unsigned_le_push(tail, last);
        assert(bytes.push(last).drop_first() =~= tail.push(last));
        let w = pow(256, tail.len());
        assert(pow(256, bytes.len()) == 256 * w) by {
            reveal(pow);
        }
        assert(256 * (w * last) == (256 * w) * last) by (nonlinear_arith);
    }
}

/// A digit string of length `n` denotes a number below `256^n`.
pub proof fn lemma_unsigned_le_bound(bytes: Seq<u8>)
    ensures
        unsigned_le(bytes) < pow(256, bytes.len()),
    decreases bytes.len(),
{
    if bytes.len() == 0 {
        lemma_pow0(256);
    } else {
        lemma_unsigned_le_bound(bytes.drop_first());
        assert(pow(256, bytes.len()) == 256 * pow(256, bytes.drop_first().len())) by {
            reveal(pow);
        }
    }
}

/// An arbitrary-precision signed integer. Its view is the integer it denotes.
#[derive(Debug)]
pub struct Integer {
    bytes: Vec<u8>,
}

impl View for Integer {
    type V = int;

    closed spec fn view(&self) -> int {
        signed_le(self.bytes@)
    }
}

impl Clone for Integer {
    fn clone(&self) -> (r: Self)
        ensures
            r@ == self@,
    {
        let bytes = self.bytes.clone();
        assert(bytes@ =~= self.bytes@);
        Integer { bytes }
    }
}

impl Integer {
    /// The integer `v`.
    pub fn from_u64(v: u64) -> (r: Integer)
        ensures
            r@ == v,
    {
        let mut bytes: Vec<u8> = Vec::new();
        let mut rest: u64 = v;
        let mut i: usize = 0;
        proof {
            lemma_pow0(256);
        }
        while i < 8
            invariant
                i <= 8,
                bytes@.len() == i,
                unsigned_le(bytes@) + pow(256, i as nat) * rest == v,
            decreases 8 - i,
        {
            let low: u8 = (rest % 256) as u8;
            proof {
                lemma_unsigned_le_push(bytes@, low);
                let w = pow(256, i as nat);
                assert(pow(256, (i + 1) as nat) == 256 * w) by {
                    reveal(pow);
                }
                assert(w * rest == w * low + (256 * w) * (rest / 256)) by (nonlinear_arith)
                    requires
                        rest == low + 256 * (rest / 256),
                ;
            }
            bytes.push(low);
            rest = rest / 256;
            i = i + 1;
        }
        proof {
            lemma_unsigned_le_bound(bytes@);
            lemma_pow_positive(256, 8);
            let w = pow(256, 8);
            assert(w == 0x1_0000_0000_0000_0000) by {
                reveal_with_fuel(pow, 9);
            }
            assert(rest == 0) by (nonlinear_arith)
                requires
                    w * rest <= v,
                    v < w,
                    rest >= 0,
                    w > 0,
            ;
            assert(w * rest == 0) by (nonlinear_arith)
                requires
                    rest == 0,
            ;
            lemma_unsigned_le_push(bytes@, 0u8);
            assert(pow(256, 8) * 0 == 0) by (nonlinear_arith);
        }
        bytes.push(0);
        Integer { bytes }
    }

    /// The natural number whose base-256 digits, least significant first, are
    /// `digits`.
    pub fn from_bytes_le(digits: &[u8]) -> (r: Integer)
        ensures
            r@ == unsigned_le(digits@),
    {
        Integer { bytes: bytes_from_unsigned(digits) }
    }

    /// Whether the integer is below zero.
    pub fn is_negative(&self) -> (r: bool)
        ensures
            r == (self@ < 0),
    {
        let n = self.bytes.len();
        proof {
            lemma_unsigned_le_bound(self.bytes@);
        }
        n > 0 && self.bytes[n - 1] >= 128
    }

    /// The sum `self + other`.
    pub fn plus(&self, other: &Integer) -> (r: Integer)
        ensures
            r@ == self@ + other@,
    {
        Integer { bytes: bytes_add(self.bytes.as_slice(), other.bytes.as_slice()) }
    }

    /// The difference `self - other`.
    pub fn minus(&self, other: &Integer) -> (r: Integer)
        ensures
            r@ == self@ - other@,
    {
        Integer { bytes: bytes_sub(self.bytes.as_slice(), other.bytes.as_slice()) }
    }

    /// The product `self * other`.
    pub fn times(&self, other: &Integer) -> (r: Integer)
        ensures
            r@ == self@ * other@,
    {
        Integer { bytes: bytes_mul(self.bytes.as_slice(), other.bytes.as_slice()) }
    }

    /// The remainder of `self` divided by `divisor`, with the sign of `self`.
    pub fn rem(&self, divisor: &Integer) -> (r: Integer)
        requires
            divisor@ != 0,
        ensures
            r@ == trunc_rem(self@, divisor@),
    {
        Integer { bytes: bytes_rem(self.bytes.as_slice(), divisor.bytes.as_slice()) }
    }

    /// `self` shifted right by `shift` bits, rounding toward negative infinity.
    pub fn shr(&self, shift: u32) -> (r: Integer)
        ensures
            r@ == self@ / (pow2(shift as nat) as int),
    {
        Integer { bytes: bytes_shr(self.bytes.as_slice(), shift) }
    }

    /// Whether the two integers are equal.
    pub fn equals(&self, other: &Integer) -> (r: bool)
        ensures
            r == (self@ == other@),
    {
        bytes_eq(self.bytes.as_slice(), other.bytes.as_slice())
    }

    /// Whether `self` is greater than `other`.
    pub fn greater_than(&self, other: &Integer) -> (r: bool)
        ensures
            r == (self@ > other@),
    {
        bytes_gt(self.bytes.as_slice(), other.bytes.as_slice())
    }

    /// The integer as a `u64`, where it is one.
    pub fn to_u64(&self) -> (r: Option<u64>)
        ensures
            r == (if 0 <= self@ <= u64::MAX {
                Some(self@ as u64)
            } else {
                None
            }),
    {
        bytes_to_u64(self.bytes.as_slice())
    }

    /// The integer as hexadecimal text, which [`Integer::from_hex`] reads back.
    pub fn to_hex(&self) -> (r: String)
        ensures
            r@ == hex_text(self@),
            hex_parse(r@) == Some(self@),
    {
        bytes_to_hex(self.bytes.as_slice())
    }

    /// The integer that `text` spells in hexadecimal, or `None` where the
    /// text is not a number.
    pub fn from_hex(text: &str) -> (r: Option<Integer>)
        ensures
            match hex_parse(text@) {
                Some(v) => r is Some && r->Some_0@ == v,
                None => r is None,
            },
    {
        match bytes_from_hex(text) {
            Ok(bytes) => Some(Integer { bytes }),
            Err(_) => None,
        }
    }

    /// A random integer `r` with `low <= r < high`.
    pub fn random_in_range(low: &Integer, high: &Integer) -> (r: Integer)
        requires
            low@ < high@,
        ensures
            low@ <= r@ < high@,
    {
        Integer { bytes: bytes_random_range(low.bytes.as_slice(), high.bytes.as_slice()) }
    }
}

} // verus!
