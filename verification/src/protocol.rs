//! The three phases of the proof: the values a prover registers, the
//! commitment it opens a login with, its response to a challenge, and the
//! verifier's check.

use crate::arith::{mod_exp, mod_normalize, mod_pow};
use crate::integer::{hex_parse, Integer};
use crate::params::{valid_group, Group, PublicParameters};
use vstd::arithmetic::div_mod::{
    lemma_fundamental_div_mod, lemma_mod_bound, lemma_mod_multiples_vanish,
    lemma_mul_mod_noop_general, lemma_small_mod,
};
use vstd::arithmetic::mul::lemma_mul_nonnegative;
use vstd::arithmetic::power::{
    lemma1_pow, lemma_pow0, lemma_pow_adds, lemma_pow_mod_noop, lemma_pow_multiplies, pow,
};
use vstd::prelude::*;

verus! {

/// Whether `v` is a residue modulo `m`: an integer of `[0, m)`. The
/// registration values and the commitment are residues modulo `p`, the
/// response is one modulo `q`.
pub open spec fn is_residue(v: int, m: int) -> bool {
    0 <= v < m
}

/// Whether `c` may be issued as a challenge in a group of order `q`: an
/// integer of `[2, q - 2]`.
pub open spec fn is_challenge(c: int, q: int) -> bool {
    2 <= c < q - 1
}

/// The residue modulo `m` that `text` spells in hexadecimal, or `None` where
/// the text is no number or the number is out of range.
pub open spec fn parse_residue(text: Seq<char>, m: int) -> Option<int> {
    match hex_parse(text) {
        Some(v) => if is_residue(v, m) {
            Some(v)
        } else {
            None
        },
        None => None,
    }
}

/// The challenge of a group of order `q` that `text` spells in hexadecimal, or
/// `None` where the text is no number or the number is out of range.
pub open spec fn parse_challenge(text: Seq<char>, q: int) -> Option<int> {
    match hex_parse(text) {
        Some(c) => if is_challenge(c, q) {
            Some(c)
        } else {
            None
        },
        None => None,
    }
}

/// The prover's response to challenge `c`: `k - c * x`, reduced modulo `q`
/// into `[0, q)`.
pub open spec fn response(k: int, c: int, x: int, q: int) -> int {
    (k - c * x) % q
}

/// One of the two verification equations: `r == base^s * y^c (mod p)`.
pub open spec fn equation_holds(p: int, base: int, y: int, r: int, c: nat, s: nat) -> bool {
    r == (mod_pow(base, s, p) * mod_pow(y, c, p)) % p
}

/// The verifier's decision: both equations hold, the first over `g`, `y1`,
/// `r1` and the second over `h`, `y2`, `r2`.
pub open spec fn verification_holds(
    grp: Group,
    y1: int,
    y2: int,
    r1: int,
    r2: int,
    c: nat,
    s: nat,
) -> bool {
    equation_holds(grp.p, grp.g, y1, r1, c, s) && equation_holds(grp.p, grp.h, y2, r2, c, s)
}

/// Whether `v` is a residue modulo `modulus`.
pub fn check_residue(v: &Integer, modulus: &Integer) -> (r: bool)
    ensures
        r == is_residue(v@, modulus@),
{
    !v.is_negative() && modulus.greater_than(v)
}

/// Whether `c` may be issued as a challenge in a group of order `q`.
pub fn check_challenge(c: &Integer, q: &Integer) -> (r: bool)
    ensures
        r == is_challenge(c@, q@),
{
    let one = Integer::from_u64(1);
    c.greater_than(&one) && q.minus(&one).greater_than(c)
}

/// Reads a residue modulo `modulus` from hexadecimal text.
pub fn read_residue(text: &str, modulus: &Integer) -> (r: Option<Integer>)
    ensures
        match parse_residue(text@, modulus@) {
            Some(v) => r is Some && r->Some_0@ == v,
            None => r is None,
        },
{
    match Integer::from_hex(text) {
        Some(v) => if check_residue(&v, modulus) {
            Some(v)
        } else {
            None
        },
        None => None,
    }
}

/// Reads a challenge of a group of order `q` from hexadecimal text.
pub fn read_challenge(text: &str, q: &Integer) -> (r: Option<Integer>)
    ensures
        match parse_challenge(text@, q@) {
            Some(c) => r is Some && r->Some_0@ == c,
            None => r is None,
        },
{
    match Integer::from_hex(text) {
        Some(c) => if check_challenge(&c, q) {
            Some(c)
        } else {
            None
        },
        None => None,
    }
}

/// The registration values of secret `x`: `(g^x mod p, h^x mod p)`.
pub fn compute_registration_values(params: &PublicParameters, x: &Integer) -> (y: (
    Integer,
    Integer,
))
    requires
        x@ >= 0,
    ensures
        y.0@ == mod_pow(params@.g, x@ as nat, params@.p),
        y.1@ == mod_pow(params@.h, x@ as nat, params@.p),
        is_residue(y.0@, params@.p),
        is_residue(y.1@, params@.p),
{
    proof {
        use_type_invariant(params);
    }
    (mod_exp(params.g(), x, params.p()), mod_exp(params.h(), x, params.p()))
}

/// The commitment to nonce `k`: `(g^k mod p, h^k mod p)`.
pub fn compute_commitment(params: &PublicParameters, k: &Integer) -> (r: (Integer, Integer))
    requires
        k@ >= 0,
    ensures
        r.0@ == mod_pow(params@.g, k@ as nat, params@.p),
        r.1@ == mod_pow(params@.h, k@ as nat, params@.p),
        is_residue(r.0@, params@.p),
        is_residue(r.1@, params@.p),
{
    proof {
        use_type_invariant(params);
    }
    (mod_exp(params.g(), k, params.p()), mod_exp(params.h(), k, params.p()))
}

/// The response `s = k - c * x (mod q)`, in `[0, q)`. The subtraction is done
/// in full precision before the reduction.
pub fn compute_response(k: &Integer, c: &Integer, x: &Integer, q: &Integer) -> (s: Integer)
    requires
        q@ >= 1,
    ensures
        s@ == response(k@, c@, x@, q@),
        is_residue(s@, q@),
{
    let product = c.times(x);
    let difference = k.minus(&product);
    mod_normalize(&difference, q)
}

/// Whether the response `s` to challenge `c` proves knowledge of the secret
/// behind `(y1, y2)`, given the commitment `(r1, r2)`.
pub fn verify(
    params: &PublicParameters,
    y1: &Integer,
    y2: &Integer,
    r1: &Integer,
    r2: &Integer,
    c: &Integer,
    s: &Integer,
) -> (ok: bool)
    requires
        c@ >= 0,
        s@ >= 0,
    ensures
        ok == verification_holds(params@, y1@, y2@, r1@, r2@, c@ as nat, s@ as nat),
{
    proof {
        use_type_invariant(params);
    }
    let p = params.p();
    let left1 = mod_exp(params.g(), s, p);
    let right1 = mod_exp(y1, c, p);
    let part1 = mod_normalize(&left1.times(&right1), p);
    let left2 = mod_exp(params.h(), s, p);
    let right2 = mod_exp(y2, c, p);
    let part2 = mod_normalize(&left2.times(&right2), p);
    r1.equals(&part1) && r2.equals(&part2)
}

/// Where `b^q` is 1 modulo `p`, adding a multiple of `q` to an exponent of `b`
/// does not change the power modulo `p`.
pub proof fn lemma_pow_period(b: int, p: int, q: nat, e: nat, n: nat)
    requires
        p >= 2,
        mod_pow(b, q, p) == 1,
    ensures
        q * n >= 0,
        mod_pow(b, e + q * n, p) == mod_pow(b, e, p),
{
    lemma_mul_nonnegative(q as int, n as int);
    let cycle = pow(pow(b, q), n);
    lemma_pow_adds(b, e, q * n);
    lemma_pow_multiplies(b, q, n);
    assert(pow(b, e + q * n) == pow(b, e) * cycle);
    assert(cycle % p == 1) by {
        lemma_pow_mod_noop(pow(b, q), n, p);
        lemma1_pow(n);
        lemma_small_mod(1, p as nat);
    }
    lemma_mul_mod_noop_general(pow(b, e), cycle, p);
    assert(pow(b, e) * 1 == pow(b, e)) by (nonlinear_arith);
}

/// With `y = b^x mod p`, the right side of a verification equation is a single
/// power of `b`: `b^s * y^c = b^(s + x * c) (mod p)`.
pub proof fn lemma_equation_exponent(b: int, p: int, x: nat, c: nat, s: nat)
    requires
        p >= 2,
    ensures
        x * c >= 0,
        (mod_pow(b, s, p) * mod_pow(mod_pow(b, x, p), c, p)) % p == mod_pow(
            b,
            s + x * c,
            p,
        ),
{
    lemma_mul_nonnegative(x as int, c as int);
    let t: nat = x * c;
    lemma_pow_mod_noop(pow(b, x), c, p);
    lemma_pow_multiplies(b, x, c);
    lemma_mul_mod_noop_general(pow(b, s), pow(b, t), p);
    lemma_pow_adds(b, s, t);
}

/// One verification equation holds of honestly computed values: with
/// `y = b^x`, `r = b^k` and `s = k - c * x (mod q)`, all modulo `p`, and
/// `b^q = 1`, it is `b^s * y^c = r`.
pub proof fn lemma_equation_complete(b: int, p: int, q: int, x: nat, k: nat, c: nat)
    requires
        p >= 2,
        q >= 1,
        mod_pow(b, q as nat, p) == 1,
    ensures
        response(k as int, c as int, x as int, q) >= 0,
        equation_holds(
            p,
            b,
            mod_pow(b, x, p),
            mod_pow(b, k, p),
            c,
            response(k as int, c as int, x as int, q) as nat,
        ),
{
    let t: nat = x * c;
    lemma_mul_nonnegative(x as int, c as int);
    assert(c * x == x * c) by (nonlinear_arith);
    let s_int = response(k as int, c as int, x as int, q);
    lemma_mod_bound(k - t, q);
    let s: nat = s_int as nat;
    let d = (k - t) / q;
    lemma_fundamental_div_mod(k - t, q);
    assert(k - t == q * d + s);

    lemma_equation_exponent(b, p, x, c, s);
    // s + x * c and k differ by a multiple of q
    if d <= 0 {
        let n: nat = (-d) as nat;
        assert(s + t == k + q * n) by (nonlinear_arith)
            requires
                k - t == q * d + s,
                n == -d,
        ;
        lemma_pow_period(b, p, q as nat, k, n);
    } else {
        let n: nat = d as nat;
        assert(k == (s + t) + q * n) by (nonlinear_arith)
            requires
                k - t == q * d + s,
                n == d,
        ;
        lemma_pow_period(b, p, q as nat, s + t, n);
    }
}

/// Completeness: for every secret `x`, nonce `k` and challenge `c`, the
/// response computed from them passes verification against the registration
/// values of `x` and the commitment to `k`.
pub proof fn lemma_honest_prover_verifies(grp: Group, x: nat, k: nat, c: nat)
    requires
        valid_group(grp),
    ensures
        response(k as int, c as int, x as int, grp.q) >= 0,
        verification_holds(
            grp,
            mod_pow(grp.g, x, grp.p),
            mod_pow(grp.h, x, grp.p),
            mod_pow(grp.g, k, grp.p),
            mod_pow(grp.h, k, grp.p),
            c,
            response(k as int, c as int, x as int, grp.q) as nat,
        ),
{
    lemma_equation_complete(grp.g, grp.p, grp.q, x, k, c);
    lemma_equation_complete(grp.h, grp.p, grp.q, x, k, c);
}

/// `b` has order exactly `q` modulo `p`: the exponents that take it to 1 are
/// the multiples of `q`, and no others.
pub open spec fn has_order(b: int, q: int, p: int) -> bool {
    forall|e: nat| #[trigger] mod_pow(b, e, p) == 1 ==> e % (q as nat) == 0
}

/// Where `b^q` is 1 modulo `p`, two powers of `b` that agree modulo `p` have
/// exponents whose difference takes `b` to 1.
pub proof fn lemma_pow_cancel(b: int, p: int, q: nat, low: nat, high: nat)
    requires
        p >= 2,
        q >= 1,
        mod_pow(b, q, p) == 1,
        low <= high,
        mod_pow(b, low, p) == mod_pow(b, high, p),
    ensures
        mod_pow(b, (high - low) as nat, p) == 1,
{
    // multiply both powers by b^w, where low + w is a multiple of q
    let n: nat = low;
    assert(q * n >= low) by (nonlinear_arith)
        requires
            q >= 1,
            n == low,
    ;
    let w: nat = (q * n - low) as nat;
    let gap: nat = (high - low) as nat;
    lemma_pow_adds(b, low, w);
    lemma_pow_adds(b, high, w);
    lemma_mul_mod_noop_general(pow(b, low), pow(b, w), p);
    lemma_mul_mod_noop_general(pow(b, high), pow(b, w), p);
    assert(mod_pow(b, low + w, p) == mod_pow(b, high + w, p));
    lemma_pow_period(b, p, q, 0, n);
    lemma_pow_period(b, p, q, gap, n);
    assert(low + w == 0 + q * n);
    assert(high + w == gap + q * n);
    lemma_pow0(b);
    lemma_small_mod(1, p as nat);
}

/// Soundness against a wrong secret, where the first generator has order
/// exactly `q`: a response computed from `other` in place of the registered
/// secret `x` fails verification, unless `c * (x - other)` is a multiple of
/// `q`. For a prime `q` that leaves out only a challenge that is a multiple of
/// `q` and a secret congruent to `x`.
pub proof fn lemma_wrong_secret_fails(grp: Group, x: nat, other: nat, k: nat, c: nat)
    requires
        valid_group(grp),
        has_order(grp.g, grp.q, grp.p),
        (c * (x - other)) % grp.q != 0,
    ensures
        response(k as int, c as int, other as int, grp.q) >= 0,
        !verification_holds(
            grp,
            mod_pow(grp.g, x, grp.p),
            mod_pow(grp.h, x, grp.p),
            mod_pow(grp.g, k, grp.p),
            mod_pow(grp.h, k, grp.p),
            c,
            response(k as int, c as int, other as int, grp.q) as nat,
        ),
{
    let (p, q, g) = (grp.p, grp.q, grp.g);
    let s_int = response(k as int, c as int, other as int, q);
    lemma_mod_bound(k - c * other, q);
    let s: nat = s_int as nat;
    let d = (k - c * other) / q;
    lemma_fundamental_div_mod(k - c * other, q);
    lemma_equation_exponent(g, p, x, c, s);
    let a: nat = s + x * c;
    if equation_holds(p, g, mod_pow(g, x, p), mod_pow(g, k, p), c, s) {
        assert(mod_pow(g, a, p) == mod_pow(g, k, p));
        // a - k == c * (x - other) - q * d
        assert(a - k == q * (-d) + c * (x - other)) by (nonlinear_arith)
            requires
                k - c * other == q * d + s,
                a == s + x * c,
        ;
        lemma_mod_multiples_vanish(-d, c * (x - other), q);
        assert((a - k) % q != 0);
        if a >= k {
            lemma_pow_cancel(g, p, q as nat, k, a);
            assert(((a - k) as nat) % (q as nat) == 0);
            assert(false);
        } else {
            lemma_pow_cancel(g, p, q as nat, a, k);
            assert(((k - a) as nat) % (q as nat) == 0);
            let m = (k - a) / q;
            lemma_fundamental_div_mod(k - a, q);
            assert(a - k == q * (-m) + 0) by (nonlinear_arith)
                requires
                    k - a == q * m + 0,
            ;
            lemma_mod_multiples_vanish(-m, 0, q);
            lemma_small_mod(0, q as nat);
            assert(false);
        }
    }
}

} // verus!
