//! Modular arithmetic on [`Integer`]s: exponentiation by squaring, reduction
//! into the least nonnegative residue, and random sampling from a range.

use crate::integer::{trunc_rem, Integer};
use vstd::arithmetic::div_mod::{
    lemma_fundamental_div_mod, lemma_mod_add_multiples_vanish, lemma_mod_bound,
    lemma_mod_multiples_vanish, lemma_mod_twice, lemma_mul_mod_noop_general, lemma_small_mod,
};
use vstd::arithmetic::power::{
    lemma_pow0, lemma_pow1, lemma_pow_adds, lemma_pow_mod_noop, lemma_pow_multiplies, pow,
};
use vstd::arithmetic::power2::{lemma2_to64, pow2};
use vstd::prelude::*;

verus! {

/// `base` to the power `exponent`, reduced to the least nonnegative residue
/// modulo `modulus`.
pub open spec fn mod_pow(base: int, exponent: nat, modulus: int) -> int {
    pow(base, exponent) % modulus
}

/// The two edges of modular exponentiation: modulo 1 every power is 0, and
/// modulo anything greater the power with exponent 0 is 1.
pub proof fn lemma_mod_pow_edges(base: int, exponent: nat, modulus: int)
    ensures
        mod_pow(base, exponent, 1) == 0,
        modulus > 1 ==> mod_pow(base, 0, modulus) == 1,
{
    if modulus > 1 {
        lemma_pow0(base);
        lemma_small_mod(1, modulus as nat);
    }
}

/// The remainder that rounds toward zero lies strictly between `-m` and `m`
/// and is congruent to the dividend.
pub proof fn lemma_trunc_rem_congruent(a: int, m: int)
    requires
        m > 0,
    ensures
        -m < trunc_rem(a, m) < m,
        a >= 0 ==> trunc_rem(a, m) == a % m,
        trunc_rem(a, m) % m == a % m,
{
    if a >= 0 {
        lemma_mod_bound(a, m);
        lemma_mod_twice(a, m);
    } else {
        let r = (-a) % m;
        let k = (-a) / m;
        lemma_mod_bound(-a, m);
        lemma_fundamental_div_mod(-a, m);
        assert(a == m * (-k) + (-r)) by (nonlinear_arith)
            requires
                -a == m * k + r,
        ;
        lemma_mod_multiples_vanish(-k, -r, m);
    }
}

/// One round of square-and-multiply keeps `acc * base^exp` in its residue
/// class, where the new values are taken modulo `m` in any representative.
pub proof fn lemma_square_and_multiply(
    acc: int,
    base: int,
    exp: nat,
    m: int,
    next_acc: int,
    next_base: int,
)
    requires
        m > 0,
        next_base % m == (base * base) % m,
        next_acc % m == (if exp % 2 == 1 {
            acc * base
        } else {
            acc
        }) % m,
    ensures
        (next_acc * pow(next_base, exp / 2)) % m == (acc * pow(base, exp)) % m,
{
    let h: nat = exp / 2;
    let sq = base * base;
    let step = if exp % 2 == 1 {
        acc * base
    } else {
        acc
    };
    // base^exp == (base^2)^h * base^(exp % 2)
    assert(pow(base, 2) == sq) by {
        lemma_pow1(base);
        lemma_pow_adds(base, 1, 1);
    }
    lemma_pow_multiplies(base, 2, h);
    assert(pow(sq, h) == pow(base, 2 * h));
    lemma_pow_adds(base, 2 * h, exp % 2);
    assert(acc * pow(base, exp) == step * pow(sq, h)) by {
        let t = pow(sq, h);
        if exp % 2 == 1 {
            lemma_pow1(base);
            assert(acc * (t * base) == (acc * base) * t) by (nonlinear_arith);
        } else {
            lemma_pow0(base);
            assert(acc * (t * 1) == acc * t) by (nonlinear_arith);
        }
    }
    // the residues of the new accumulator and of the new base stand for them
    lemma_pow_mod_noop(next_base, h, m);
    lemma_pow_mod_noop(sq, h, m);
    lemma_mul_mod_noop_general(next_acc, pow(next_base, h), m);
    lemma_mul_mod_noop_general(step, pow(sq, h), m);
}

/// Modular exponentiation by repeated squaring: `g^x mod q`, as the least
/// nonnegative residue. Modulo 1 the result is 0 whatever the base and the
/// exponent are, a negative exponent included; modulo anything greater the
/// exponent must not be negative, and the power with exponent 0 is 1.
pub fn mod_exp(g: &Integer, x: &Integer, q: &Integer) -> (r: Integer)
    requires
        q@ >= 1,
        x@ >= 0 || q@ == 1,
    ensures
        x@ >= 0 ==> r@ == mod_pow(g@, x@ as nat, q@),
        0 <= r@ < q@,
        q@ == 1 ==> r@ == 0,
        x@ == 0 && q@ > 1 ==> r@ == 1,
{
    let one = Integer::from_u64(1);
    let zero = Integer::from_u64(0);
    let two = one.plus(&one);

    proof {
        lemma_mod_bound(pow(g@, x@ as nat), q@);
        lemma_mod_pow_edges(g@, x@ as nat, q@);
        if x@ == 0 && q@ > 1 {
            lemma_pow0(g@);
            lemma_small_mod(1, q@ as nat);
        }
    }
    if q.equals(&one) {
        return zero;
    }
    let mut result = Integer::from_u64(1);
    let mut base = g.rem(q);
    let mut exp = x.clone();
    proof {
        lemma_trunc_rem_congruent(g@, q@);
        lemma_pow_mod_noop(base@, x@ as nat, q@);
        lemma_pow_mod_noop(g@, x@ as nat, q@);
        assert(result@ * pow(base@, exp@ as nat) == pow(base@, x@ as nat)) by (nonlinear_arith)
            requires
                result@ == 1,
                exp@ == x@,
        ;
    }
    while exp.greater_than(&zero)
        invariant
            q@ > 1,
            x@ >= 0,
            exp@ >= 0,
            zero@ == 0,
            one@ == 1,
            two@ == 2,
            -q@ < result@ < q@,
            (result@ * pow(base@, exp@ as nat)) % q@ == pow(g@, x@ as nat) % q@,
        decreases exp@,
    {
        let ghost acc = result@;
        let ghost b = base@;
        let ghost e = exp@ as nat;
        proof {
            lemma_trunc_rem_congruent(e as int, 2);
        }
        if exp.rem(&two).equals(&one) {
            result = result.times(&base).rem(q);
            proof {
                lemma_trunc_rem_congruent(acc * b, q@);
            }
        }
        exp = exp.shr(1);
        base = base.times(&base).rem(q);
        proof {
            lemma2_to64();
            assert(pow2(1) == 2);
            lemma_trunc_rem_congruent(b * b, q@);
            lemma_square_and_multiply(acc, b, e, q@, result@, base@);
        }
    }
    proof {
        assert(exp@ == 0);
        lemma_pow0(base@);
        assert(result@ * pow(base@, 0) == result@) by (nonlinear_arith)
            requires
                pow(base@, 0) == 1,
        ;
        // the accumulator never left (-q, q), so the last remainder is the residue
        lemma_mod_add_multiples_vanish(result@, q@);
        lemma_trunc_rem_congruent(result@ + q@, q@);
    }
    result.plus(q).rem(q)
}

/// The least nonnegative residue of `value` modulo `modulus`.
pub fn mod_normalize(value: &Integer, modulus: &Integer) -> (r: Integer)
    requires
        modulus@ >= 1,
    ensures
        r@ == value@ % modulus@,
        0 <= r@ < modulus@,
{
    let t = value.rem(modulus);
    let r = t.plus(modulus).rem(modulus);
    proof {
        lemma_trunc_rem_congruent(value@, modulus@);
        lemma_trunc_rem_congruent(t@ + modulus@, modulus@);
        lemma_mod_add_multiples_vanish(t@, modulus@);
        lemma_mod_bound(value@, modulus@);
    }
    r
}

/// A random integer `r` with `from <= r < to`.
pub fn random_big_int(from: Integer, to: Integer) -> (r: Integer)
    requires
        from@ < to@,
    ensures
        from@ <= r@ < to@,
{
    Integer::random_in_range(&from, &to)
}

} // verus!
