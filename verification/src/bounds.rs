//! Bounds on sums, products and quotients of data: how large or how small a
//! rounded result can be, from how large or how small its operands are.
//! The bounds are on magnitudes, as bit patterns; signs are another matter.

use vstd::prelude::*;
use vstd::arithmetic::power2::pow2;
use vstd::arithmetic::power2::lemma_pow2_pos;
use vstd::arithmetic::power2::lemma_pow2_adds;
use vstd::arithmetic::power2::lemma2_to64;
use crate::ieee::INFINITY_BITS;
use crate::ieee::weight;
use crate::ieee::lemma_weight_small;
use crate::ieee::lemma_weight_of_parts;
use crate::ieee::lemma_weight_increases;
use crate::ieee::lemma_nearest_at_least;
use crate::ieee::lemma_nearest_at_most;
use crate::single::F32;

verus! {

/// The magnitude bits of the power of two 2^(k - 126): an exponent field of
/// `k + 1` over an empty fraction.
pub open spec fn power_bits(k: nat) -> int {
    (k + 1) as int * 0x80_0000
}

/// The weight of a power of two.
pub proof fn lemma_weight_of_power(k: nat)
    requires
        k <= 253,
    ensures
        0 < power_bits(k) < INFINITY_BITS,
        weight(power_bits(k)) == pow2(k + 23),
{
    lemma_weight_of_parts(0x80_0000, k);
    lemma_pow2_adds(23, k);
    lemma2_to64();
}

/// The sum of two finite data is no larger than the sum of bounds on them.
pub proof fn lemma_add_at_most(a: F32, b: F32, hi_a: int, hi_b: int, r: int)
    requires
        a.magnitude() <= hi_a < INFINITY_BITS,
        b.magnitude() <= hi_b < INFINITY_BITS,
        0 <= r <= INFINITY_BITS,
        weight(hi_a) + weight(hi_b) <= weight(r),
    ensures
        !a.spec_add(b).is_nan(),
        a.spec_add(b).magnitude() <= r,
{
    reveal(F32::spec_add);
    lemma_weight_small(0);
    lemma_weight_increases(0, a.magnitude());
    lemma_weight_increases(0, b.magnitude());
    lemma_weight_increases(a.magnitude(), hi_a);
    lemma_weight_increases(b.magnitude(), hi_b);
    let s = a.value() + b.value();
    if s > 0 {
        lemma_nearest_at_most(s, 1, r);
    } else if s < 0 {
        lemma_nearest_at_most(-s, 1, r);
    }
}

/// The sum of two data that are not negative is no smaller than the first.
pub proof fn lemma_add_at_least(a: F32, b: F32)
    requires
        !a.is_negative(),
        !b.is_negative(),
        !a.is_nan(),
        !b.is_nan(),
    ensures
        !a.spec_add(b).is_nan(),
        !a.spec_add(b).is_negative(),
        a.spec_add(b).magnitude() >= a.magnitude(),
{
    reveal(F32::spec_add);
    lemma_weight_small(0);
    if a.is_finite() && b.is_finite() {
        lemma_weight_increases(0, a.magnitude());
        lemma_weight_increases(0, b.magnitude());
        let s = a.value() + b.value();
        if s == 0 {
            if a.magnitude() > 0 {
                lemma_weight_increases(1, a.magnitude());
                lemma_weight_small(1);
            }
        } else {
            lemma_nearest_at_least(s, 1, a.magnitude());
        }
    }
}

/// The product of two data is no larger than that of bounds on them.
pub proof fn lemma_mul_at_most(a: F32, b: F32, hi_a: int, hi_b: int, r: int)
    requires
        a.magnitude() <= hi_a < INFINITY_BITS,
        b.magnitude() <= hi_b < INFINITY_BITS,
        0 <= r <= INFINITY_BITS,
        weight(hi_a) * weight(hi_b) <= weight(r) * pow2(149),
    ensures
        !a.spec_mul(b).is_nan(),
        a.spec_mul(b).magnitude() <= r,
{
    reveal(F32::spec_mul);
    let wa = weight(a.magnitude());
    let wb = weight(b.magnitude());
    lemma_weight_increases(0, a.magnitude());
    lemma_weight_increases(0, b.magnitude());
    lemma_weight_increases(a.magnitude(), hi_a);
    lemma_weight_increases(b.magnitude(), hi_b);
    lemma_pow2_pos(149);
    assert(0 <= wa * wb <= weight(hi_a) * weight(hi_b)) by (nonlinear_arith)
        requires
            0 <= wa <= weight(hi_a),
            0 <= wb <= weight(hi_b),
    ;
    lemma_nearest_at_most(wa * wb, pow2(149) as int, r);
}

/// The product of two data is no smaller than that of bounds on them that
/// are above zero.
pub proof fn lemma_mul_at_least(a: F32, b: F32, lo_a: int, lo_b: int, r: int)
    requires
        !a.is_nan(),
        !b.is_nan(),
        0 < lo_a <= a.magnitude(),
        0 < lo_b <= b.magnitude(),
        0 <= r <= INFINITY_BITS,
        weight(r) * pow2(149) <= weight(lo_a) * weight(lo_b),
    ensures
        !a.spec_mul(b).is_nan(),
        a.spec_mul(b).magnitude() >= r,
{
    reveal(F32::spec_mul);
    if a.is_finite() && b.is_finite() {
        let wa = weight(a.magnitude());
        let wb = weight(b.magnitude());
        lemma_weight_increases(0, lo_a);
        lemma_weight_increases(0, lo_b);
        lemma_weight_increases(lo_a, a.magnitude());
        lemma_weight_increases(lo_b, b.magnitude());
        lemma_pow2_pos(149);
        assert(weight(lo_a) * weight(lo_b) <= wa * wb) by (nonlinear_arith)
            requires
                0 <= weight(lo_a) <= wa,
                0 <= weight(lo_b) <= wb,
        ;
        lemma_nearest_at_least(wa * wb, pow2(149) as int, r);
    }
}

/// The quotient of two data is no smaller than that of a bound above zero
/// on the first by a bound on the second.
pub proof fn lemma_div_at_least(a: F32, b: F32, lo_a: int, hi_b: int, r: int)
    requires
        !a.is_nan(),
        0 < lo_a <= a.magnitude(),
        b.magnitude() <= hi_b < INFINITY_BITS,
        0 <= r <= INFINITY_BITS,
        weight(r) * weight(hi_b) <= weight(lo_a) * pow2(149),
    ensures
        !a.spec_div(b).is_nan(),
        a.spec_div(b).magnitude() >= r,
{
    reveal(F32::spec_div);
    if a.is_finite() && !b.is_zero() {
        let wa = weight(a.magnitude());
        let wb = weight(b.magnitude());
        lemma_weight_small(1);
        lemma_weight_increases(0, lo_a);
        lemma_weight_increases(0, r);
        lemma_weight_increases(lo_a, a.magnitude());
        lemma_weight_increases(1, b.magnitude());
        lemma_weight_increases(b.magnitude(), hi_b);
        lemma_pow2_pos(149);
        assert(weight(r) * wb <= wa * pow2(149)) by (nonlinear_arith)
            requires
                weight(r) * weight(hi_b) <= weight(lo_a) * pow2(149),
                0 <= weight(lo_a) <= wa,
                0 < wb <= weight(hi_b),
                weight(r) >= 0,
                pow2(149) > 0,
        ;
        lemma_nearest_at_least(wa * pow2(149), wb, r);
    }
}

/// The quotient of two data is no larger than that of a bound on the first
/// by a bound above zero on the second.
pub proof fn lemma_div_at_most(a: F32, b: F32, hi_a: int, lo_b: int, r: int)
    requires
        a.magnitude() <= hi_a < INFINITY_BITS,
        !b.is_nan(),
        0 < lo_b <= b.magnitude(),
        0 <= r <= INFINITY_BITS,
        weight(hi_a) * pow2(149) <= weight(r) * weight(lo_b),
    ensures
        !a.spec_div(b).is_nan(),
        a.spec_div(b).magnitude() <= r,
{
    reveal(F32::spec_div);
    if b.is_finite() {
        let wa = weight(a.magnitude());
        let wb = weight(b.magnitude());
        lemma_weight_small(1);
        lemma_weight_increases(0, a.magnitude());
        lemma_weight_increases(0, r);
        lemma_weight_increases(a.magnitude(), hi_a);
        lemma_weight_increases(1, lo_b);
        lemma_weight_increases(lo_b, b.magnitude());
        lemma_pow2_pos(149);
        assert(0 <= wa * pow2(149) <= weight(r) * wb) by (nonlinear_arith)
            requires
                weight(hi_a) * pow2(149) <= weight(r) * weight(lo_b),
                0 <= wa <= weight(hi_a),
                0 < weight(lo_b) <= wb,
                weight(r) >= 0,
                pow2(149) > 0,
        ;
        lemma_nearest_at_most(wa * pow2(149), wb, r);
    }
}

} // verus!
