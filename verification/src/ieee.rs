//! The IEEE 754 binary32 encoding as integers.
//!
//! A single-precision datum is a sign and a magnitude. Every finite
//! magnitude is a whole multiple of 2^-149, so the value of a finite datum,
//! counted in that unit, is an integer: `weight` gives it for a magnitude's
//! bit pattern, and `nearest` rounds a non-negative rational to the
//! magnitude that IEEE 754 calls round-to-nearest, ties-to-even.

use vstd::prelude::*;
use vstd::arithmetic::power2::pow2;
use vstd::arithmetic::power2::lemma_pow2_pos;
use vstd::arithmetic::power2::lemma_pow2_unfold;
use vstd::arithmetic::power2::lemma2_to64;

verus! {

/// The sign bit of a bit pattern.
pub const SIGN_BIT: u32 = 0x8000_0000;

/// The magnitude bits of an infinity.
pub const INFINITY_BITS: u32 = 0x7f80_0000;

/// The quiet NaN that every invalid operation of this library returns.
pub const NAN_BITS: u32 = 0x7fc0_0000;

/// The weight of the significand's leading bit, 2^23.
pub const HIDDEN_BIT: u32 = 0x80_0000;

/// The significand that the magnitude bits `m` encode, with the hidden bit
/// where the exponent field is not zero.
pub open spec fn significand(m: int) -> int {
    if m < 0x80_0000 {
        m
    } else {
        0x80_0000 + m % 0x80_0000
    }
}

/// The power of two, in units of 2^-149, that one step of the significand
/// of the magnitude bits `m` is worth.
pub open spec fn ulp_exponent(m: int) -> nat {
    if m < 0x100_0000 {
        0
    } else {
        (m / 0x80_0000 - 1) as nat
    }
}

/// The magnitude that the bits `m` encode, in units of 2^-149. For the bits
/// of infinity it is 2^128 in those units, the first magnitude that no finite
/// datum reaches.
pub open spec fn weight(m: int) -> int {
    significand(m) * pow2(ulp_exponent(m))
}

/// `m` is the greatest finite magnitude that does not exceed `num / den`.
pub open spec fn is_floor(m: int, num: int, den: int) -> bool {
    &&& 0 <= m < INFINITY_BITS
    &&& weight(m) * den <= num
    &&& num < weight(m + 1) * den
}

/// Of the neighbours `m` and `m + 1`, the one nearer to `num / den`; the one
/// with an even bit pattern where both are equally near.
pub open spec fn nearer(m: int, num: int, den: int) -> int {
    let twice_mid = (weight(m) + weight(m + 1)) * den;
    if 2 * num < twice_mid || (2 * num == twice_mid && m % 2 == 0) {
        m
    } else {
        m + 1
    }
}

/// The magnitude bits that `num / den`, a non-negative rational in units of
/// 2^-149, rounds to: the nearest magnitude, ties to even, and infinity from
/// halfway between the largest finite magnitude and 2^128.
pub open spec fn nearest(num: int, den: int) -> int
    recommends
        0 <= num,
        0 < den,
{
    if num >= weight(INFINITY_BITS as int) * den {
        INFINITY_BITS as int
    } else {
        nearer(choose|m: int| is_floor(m, num, den), num, den)
    }
}

/// A magnitude below 2^24 is its own weight.
pub proof fn lemma_weight_small(m: int)
    requires
        0 <= m < 0x100_0000,
    ensures
        weight(m) == m,
{
    lemma_weight_of_parts(m, 0);
    lemma2_to64();
}

/// The bits `q + u * 2^23` encode the significand `q` and the exponent `u`.
pub proof fn lemma_weight_of_parts(q: int, u: nat)
    requires
        0 <= q < 0x100_0000,
        u > 0 ==> q >= 0x80_0000,
    ensures
        significand(q + u * 0x80_0000) == q,
        ulp_exponent(q + u * 0x80_0000) == u,
        weight(q + u * 0x80_0000) == q * pow2(u),
{
    let m = q + u * 0x80_0000;
    if u == 0 {
        lemma2_to64();
    } else {
        assert(m / 0x80_0000 == u + 1);
        assert(m % 0x80_0000 == q - 0x80_0000);
    }
}

/// Every magnitude is made of its significand and its exponent.
pub proof fn lemma_parts_of_bits(m: int)
    requires
        0 <= m,
    ensures
        m == significand(m) + ulp_exponent(m) * 0x80_0000,
        0 <= significand(m) < 0x100_0000,
        ulp_exponent(m) > 0 ==> significand(m) >= 0x80_0000,
        m < 0x100_0000 <==> ulp_exponent(m) == 0,
{
}

/// From one magnitude to the next the weight grows by one unit in the last
/// place.
pub proof fn lemma_weight_step(m: int)
    requires
        0 <= m,
    ensures
        weight(m + 1) == weight(m) + pow2(ulp_exponent(m)),
        weight(m) >= 0,
{
    let q = significand(m);
    let u = ulp_exponent(m);
    lemma_parts_of_bits(m);
    lemma_weight_of_parts(q, u);
    lemma_pow2_pos(u);
    let p = pow2(u) as int;
    assert(q * p >= 0) by (nonlinear_arith)
        requires
            q >= 0,
            p > 0,
    ;
    assert((q + 1) * p == q * p + p) by (nonlinear_arith);
    if q + 1 < 0x100_0000 {
        lemma_weight_of_parts(q + 1, u);
    } else {
        lemma_weight_of_parts(0x80_0000, u + 1);
        lemma_pow2_unfold(u + 1);
        assert(m + 1 == 0x80_0000 + (u + 1) * 0x80_0000);
        assert(0x80_0000 * (2 * p) == (q + 1) * p) by (nonlinear_arith)
            requires
                q + 1 == 0x100_0000,
        ;
    }
}

/// The weight grows with the bits.
pub proof fn lemma_weight_increases(a: int, b: int)
    requires
        0 <= a <= b,
    ensures
        0 <= weight(a) <= weight(b),
        a < b ==> weight(a) < weight(b),
    decreases b - a,
{
    lemma_weight_step(a);
    if a < b {
        lemma_weight_step(b - 1);
        lemma_pow2_pos(ulp_exponent(b - 1));
        lemma_weight_increases(a, b - 1);
    }
}

/// At most one magnitude is the floor of a rational.
pub proof fn lemma_floor_unique(m1: int, m2: int, num: int, den: int)
    requires
        den > 0,
        is_floor(m1, num, den),
        is_floor(m2, num, den),
    ensures
        m1 == m2,
{
    if m1 < m2 {
        lemma_weight_increases(m1 + 1, m2);
        lemma_scaled_order(weight(m1 + 1), weight(m2), den);
    } else if m2 < m1 {
        lemma_weight_increases(m2 + 1, m1);
        lemma_scaled_order(weight(m2 + 1), weight(m1), den);
    }
}

/// Multiplying by a positive number keeps the order.
pub proof fn lemma_scaled_order(a: int, b: int, c: int)
    by (nonlinear_arith)
    requires
        a <= b,
        c > 0,
    ensures
        a * c <= b * c,
        a < b ==> a * c < b * c,
{
}

/// A rational with the floor `m` rounds to `m` or to its upper neighbour,
/// whichever `nearer` picks.
pub proof fn lemma_nearest_from_floor(m: int, num: int, den: int)
    requires
        den > 0,
        is_floor(m, num, den),
    ensures
        nearest(num, den) == nearer(m, num, den),
        num < weight(INFINITY_BITS as int) * den,
{
    lemma_weight_increases(m + 1, INFINITY_BITS as int);
    lemma_scaled_order(weight(m + 1), weight(INFINITY_BITS as int), den);
    let chosen = choose|k: int| is_floor(k, num, den);
    lemma_floor_unique(m, chosen, num, den);
}

/// A rational below the weight of the bits `hi` has a floor below `hi`.
pub proof fn lemma_floor_below(num: int, den: int, hi: int)
    requires
        den > 0,
        0 < hi <= INFINITY_BITS,
        0 <= num < weight(hi) * den,
    ensures
        exists|m: int| is_floor(m, num, den),
    decreases hi,
{
    if weight(hi - 1) * den <= num {
        assert(is_floor(hi - 1, num, den));
    } else {
        if hi == 1 {
            lemma_weight_small(0);
            assert(weight(0) * den == 0);
        } else {
            lemma_floor_below(num, den, hi - 1);
        }
    }
}

/// What a rational that is not negative rounds to is the bits of a
/// magnitude: of a finite one or of infinity.
pub proof fn lemma_nearest_range(num: int, den: int)
    requires
        0 <= num,
        0 < den,
    ensures
        0 <= nearest(num, den) <= INFINITY_BITS,
{
    if num < weight(INFINITY_BITS as int) * den {
        lemma_floor_below(num, den, INFINITY_BITS as int);
    }
}

/// Rounding does not go below a magnitude that the rational reaches.
pub proof fn lemma_nearest_at_least(num: int, den: int, m: int)
    requires
        den > 0,
        0 <= m <= INFINITY_BITS,
        weight(m) * den <= num,
    ensures
        m <= nearest(num, den) <= INFINITY_BITS,
{
    lemma_weight_increases(0, m);
    lemma_scaled_order(0, weight(m), den);
    lemma_nearest_range(num, den);
    if num < weight(INFINITY_BITS as int) * den {
        lemma_floor_below(num, den, INFINITY_BITS as int);
        let f = choose|f: int| is_floor(f, num, den);
        if f < m {
            lemma_weight_increases(f + 1, m);
            lemma_scaled_order(weight(f + 1), weight(m), den);
        }
    }
}

/// Rounding does not go above a magnitude that the rational stays under.
pub proof fn lemma_nearest_at_most(num: int, den: int, m: int)
    requires
        den > 0,
        0 <= m <= INFINITY_BITS,
        0 <= num <= weight(m) * den,
    ensures
        0 <= nearest(num, den) <= m,
{
    lemma_nearest_range(num, den);
    if m < INFINITY_BITS {
        lemma_weight_increases(m, INFINITY_BITS as int);
        lemma_scaled_order(weight(m), weight(INFINITY_BITS as int), den);
        lemma_floor_below(num, den, INFINITY_BITS as int);
        let f = choose|f: int| is_floor(f, num, den);
        lemma_weight_step(m);
        lemma_pow2_pos(ulp_exponent(m));
        if f > m {
            lemma_weight_increases(m, f);
            lemma_scaled_order(weight(m), weight(f), den);
        } else if f == m {
            lemma_scaled_order(weight(m), weight(m + 1), den);
            assert((weight(m) + weight(m + 1)) * den == weight(m) * den + weight(m + 1) * den)
                by (nonlinear_arith);
        }
    }
}

} // verus!
