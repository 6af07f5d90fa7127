//! Addition, subtraction, multiplication and division of `F32`.

use vstd::prelude::*;
use vstd::arithmetic::power2::pow2;
use vstd::arithmetic::power2::lemma_pow2_pos;
use vstd::arithmetic::power2::lemma_pow2_adds;
use vstd::arithmetic::power2::lemma_pow2_unfold;
use vstd::arithmetic::power2::lemma_pow2_strictly_increases;
use vstd::arithmetic::power2::lemma2_to64;
use crate::ieee::INFINITY_BITS;
use crate::ieee::NAN_BITS;
use crate::ieee::significand;
use crate::ieee::ulp_exponent;
use crate::ieee::weight;
use crate::ieee::is_floor;
use crate::ieee::nearest;
use crate::ieee::lemma_parts_of_bits;
use crate::ieee::lemma_weight_of_parts;
use crate::ieee::lemma_weight_step;
use crate::ieee::lemma_weight_increases;
use crate::ieee::lemma_nearest_from_floor;
use crate::rounding::round_ratio;
use crate::rounding::same_ratio;
use crate::single::F32;
use crate::single::signed;
use crate::single::rounded;
use crate::single::decompose;
use crate::single::power_of_two;

verus! {

/// A finite magnitude rounds to itself.
pub proof fn lemma_nearest_exact(m: int)
    requires
        0 <= m < INFINITY_BITS,
    ensures
        nearest(weight(m), 1) == m,
{
    lemma_weight_step(m);
    lemma_pow2_pos(ulp_exponent(m));
    assert(is_floor(m, weight(m), 1));
    lemma_nearest_from_floor(m, weight(m), 1);
}

/// A magnitude whose exponent is at least 26 above that of another absorbs
/// it: their sum and their difference both round to the larger.
pub proof fn lemma_absorb(ma: int, mb: int)
    requires
        0 <= ma < INFINITY_BITS,
        0 < mb < INFINITY_BITS,
        ulp_exponent(ma) >= ulp_exponent(mb) + 26,
    ensures
        nearest(weight(ma) + weight(mb), 1) == ma,
        nearest(weight(ma) - weight(mb), 1) == ma,
        weight(ma) - weight(mb) > 0,
{
    let ua = ulp_exponent(ma);
    let ub = ulp_exponent(mb);
    let sb = significand(mb);
    let wa = weight(ma);
    let wb = weight(mb);
    let unit = pow2(ua) as int;
    let quarter = pow2((ua - 2) as nat) as int;
    lemma_parts_of_bits(ma);
    lemma_parts_of_bits(mb);
    lemma_weight_of_parts(significand(ma), ua);
    lemma_weight_of_parts(sb, ub);
    lemma_weight_step(ma);
    lemma_weight_step(ma - 1);
    lemma_weight_increases(0, mb);
    lemma_weight_increases(1, mb);
    crate::ieee::lemma_weight_small(0);
    crate::ieee::lemma_weight_small(1);
    lemma_pow2_pos(ub);
    lemma_pow2_pos((ua - 2) as nat);
    lemma_pow2_unfold(ua);
    lemma_pow2_unfold((ua - 1) as nat);
    lemma2_to64();
    lemma_pow2_adds(24, ub);
    if ub + 24 < ua - 2 {
        lemma_pow2_strictly_increases(ub + 24, (ua - 2) as nat);
    }
    let pb = pow2(ub) as int;
    assert(sb * pb < 0x100_0000 * pb) by (nonlinear_arith)
        requires
            sb < 0x100_0000,
            pb > 0,
    ;
    assert(wb < quarter);
    assert(unit == 4 * quarter);
    // The sum.
    assert(is_floor(ma, wa + wb, 1));
    lemma_nearest_from_floor(ma, wa + wb, 1);
    // The difference.
    let below = pow2(ulp_exponent(ma - 1)) as int;
    assert(ulp_exponent(ma - 1) == ua || ulp_exponent(ma - 1) == ua - 1);
    assert(below >= 2 * quarter);
    assert(is_floor(ma - 1, wa - wb, 1));
    lemma_nearest_from_floor(ma - 1, wa - wb, 1);
}

/// The product of `sa * 2^ua` and `sb * 2^ub`, over 2^149, is
/// `sa * sb * 2^(ua + ub - 149)`.
proof fn lemma_product_ratio(sa: int, ua: nat, sb: int, ub: nat)
    ensures
        same_ratio(
            (sa * pow2(ua)) * (sb * pow2(ub)),
            pow2(149) as int,
            sa * sb,
            1,
            ua + ub - 149,
        ),
{
    let exp = ua + ub - 149;
    let pa = pow2(ua) as int;
    let pb = pow2(ub) as int;
    let k = pow2(149) as int;
    lemma_pow2_adds(ua, ub);
    if exp >= 0 {
        let a = pow2(exp as nat) as int;
        lemma_pow2_adds(exp as nat, 149);
        assert((sa * pa) * (sb * pb) * 1 * 1 == (sa * sb) * a * k) by (nonlinear_arith)
            requires
                pa * pb == a * k,
        ;
    } else {
        let b = pow2((-exp) as nat) as int;
        lemma_pow2_adds((ua + ub) as nat, (-exp) as nat);
        assert((sa * pa) * (sb * pb) * 1 * b == (sa * sb) * 1 * k) by (nonlinear_arith)
            requires
                pa * pb * b == k,
        ;
    }
}

/// The quotient of `sa * 2^ua` by `sb * 2^ub`, times 2^149, is
/// `sa / sb * 2^(ua - ub + 149)`.
proof fn lemma_quotient_ratio(sa: int, ua: nat, sb: int, ub: nat)
    ensures
        same_ratio(
            (sa * pow2(ua)) * pow2(149),
            sb * pow2(ub),
            sa,
            sb,
            ua - ub + 149,
        ),
{
    let exp = ua - ub + 149;
    let pa = pow2(ua) as int;
    let pb = pow2(ub) as int;
    let k = pow2(149) as int;
    lemma_pow2_adds(ua, 149);
    if exp >= 0 {
        let a = pow2(exp as nat) as int;
        lemma_pow2_adds(exp as nat, ub);
        assert((sa * pa) * k * sb * 1 == sa * a * (sb * pb)) by (nonlinear_arith)
            requires
                pa * k == a * pb,
        ;
    } else {
        let b = pow2((-exp) as nat) as int;
        lemma_pow2_adds((ua + 149) as nat, (-exp) as nat);
        assert((sa * pa) * k * sb * b == sa * 1 * (sb * pb)) by (nonlinear_arith)
            requires
                pa * k * b == pb,
        ;
    }
}

/// The weight of the magnitude bits `m` under the sign `negative`.
pub open spec fn signed_weight(negative: bool, m: int) -> int {
    if negative {
        -weight(m)
    } else {
        weight(m)
    }
}

/// The sum of two finite data, neither zero, whose exponents are at most 38
/// apart: both are brought to the smaller exponent, where their sum is an
/// integer of fewer than 63 bits, and that integer is rounded.
fn add_aligned(na: bool, ma: u32, nb: bool, mb: u32) -> (r: F32)
    requires
        0 < ma < INFINITY_BITS,
        0 < mb < INFINITY_BITS,
        ulp_exponent(ma as int) <= ulp_exponent(mb as int) + 38,
        ulp_exponent(mb as int) <= ulp_exponent(ma as int) + 38,
    ensures
        r == if signed_weight(na, ma as int) + signed_weight(nb, mb as int) == 0 {
            signed(na && nb, 0)
        } else {
            rounded(signed_weight(na, ma as int) + signed_weight(nb, mb as int), 1)
        },
{
    let (sa, ua) = decompose(ma);
    let (sb, ub) = decompose(mb);
    let lo: u32 = if ua < ub { ua } else { ub };
    let pa: u64 = power_of_two(ua - lo);
    let pb: u64 = power_of_two(ub - lo);
    proof {
        lemma2_to64();
        vstd::arithmetic::power2::lemma2_to64_rest();
        if ua - lo < 38 {
            lemma_pow2_strictly_increases((ua - lo) as nat, 38);
        }
        if ub - lo < 38 {
            lemma_pow2_strictly_increases((ub - lo) as nat, 38);
        }
        assert(sa * pa <= 0xff_ffff * 0x40_0000_0000) by (nonlinear_arith)
            requires
                sa <= 0xff_ffff,
                pa <= 0x40_0000_0000,
        ;
        assert(sb * pb <= 0xff_ffff * 0x40_0000_0000) by (nonlinear_arith)
            requires
                sb <= 0xff_ffff,
                pb <= 0x40_0000_0000,
        ;
    }
    let xa: u64 = (sa as u64) * pa;
    let xb: u64 = (sb as u64) * pb;
    let ghost unit = pow2(lo as nat) as int;
    proof {
        lemma_pow2_adds((ua - lo) as nat, lo as nat);
        lemma_pow2_adds((ub - lo) as nat, lo as nat);
        lemma_pow2_pos(lo as nat);
        assert(weight(ma as int) == xa * unit) by (nonlinear_arith)
            requires
                weight(ma as int) == sa * pow2(ua as nat),
                pow2(ua as nat) == pa * unit,
                xa == sa * pa,
        ;
        assert(weight(mb as int) == xb * unit) by (nonlinear_arith)
            requires
                weight(mb as int) == sb * pow2(ub as nat),
                pow2(ub as nat) == pb * unit,
                xb == sb * pb,
        ;
    }
    let negative: bool;
    let n: u64;
    if na == nb {
        negative = na;
        n = xa + xb;
    } else if xa >= xb {
        negative = na;
        n = xa - xb;
    } else {
        negative = nb;
        n = xb - xa;
    }
    let ghost total = signed_weight(na, ma as int) + signed_weight(nb, mb as int);
    let ghost num = n * unit;
    proof {
        assert((xa + xb) * unit == xa * unit + xb * unit) by (nonlinear_arith);
        assert((xa - xb) * unit == xa * unit - xb * unit) by (nonlinear_arith);
        assert((xb - xa) * unit == xb * unit - xa * unit) by (nonlinear_arith);
        assert(total == if negative { -num } else { num });
        assert(n > 0 ==> num > 0) by (nonlinear_arith)
            requires
                num == n * unit,
                unit > 0,
        ;
        assert(n == 0 ==> num == 0);
    }
    if n == 0 {
        return F32::with_sign(na && nb, 0);
    }
    proof {
        assert(same_ratio(num, 1, n as int, 1, lo as int));
    }
    let m = round_ratio(n, 1, lo as i32, Ghost(num), Ghost(1));
    F32::with_sign(negative, m)
}

impl F32 {
    /// The correctly rounded sum.
    #[verifier::opaque]
    pub open spec fn spec_add(self, rhs: F32) -> F32 {
        if self.is_nan() || rhs.is_nan() {
            F32 { bits: NAN_BITS }
        } else if self.is_infinite() {
            if rhs.is_infinite() && self.is_negative() != rhs.is_negative() {
                F32 { bits: NAN_BITS }
            } else {
                self
            }
        } else if rhs.is_infinite() {
            rhs
        } else if self.value() + rhs.value() == 0 {
            signed(self.is_negative() && rhs.is_negative(), 0)
        } else {
            rounded(self.value() + rhs.value(), 1)
        }
    }

    /// The correctly rounded difference.
    pub open spec fn spec_sub(self, rhs: F32) -> F32 {
        self.spec_add(rhs.spec_neg())
    }

    /// The correctly rounded product.
    #[verifier::opaque]
    pub open spec fn spec_mul(self, rhs: F32) -> F32 {
        let negative = self.is_negative() != rhs.is_negative();
        if self.is_nan() || rhs.is_nan() {
            F32 { bits: NAN_BITS }
        } else if self.is_infinite() || rhs.is_infinite() {
            if self.is_zero() || rhs.is_zero() {
                F32 { bits: NAN_BITS }
            } else {
                signed(negative, INFINITY_BITS as int)
            }
        } else {
            signed(
                negative,
                nearest(weight(self.magnitude()) * weight(rhs.magnitude()), pow2(149) as int),
            )
        }
    }

    /// The correctly rounded quotient.
    #[verifier::opaque]
    pub open spec fn spec_div(self, rhs: F32) -> F32 {
        let negative = self.is_negative() != rhs.is_negative();
        if self.is_nan() || rhs.is_nan() {
            F32 { bits: NAN_BITS }
        } else if self.is_infinite() {
            if rhs.is_infinite() {
                F32 { bits: NAN_BITS }
            } else {
                signed(negative, INFINITY_BITS as int)
            }
        } else if rhs.is_infinite() {
            signed(negative, 0)
        } else if rhs.is_zero() {
            if self.is_zero() {
                F32 { bits: NAN_BITS }
            } else {
                signed(negative, INFINITY_BITS as int)
            }
        } else {
            signed(
                negative,
                nearest(weight(self.magnitude()) * pow2(149), weight(rhs.magnitude())),
            )
        }
    }

    /// `self + rhs`, rounded to nearest, ties to even.
    #[verifier::when_used_as_spec(spec_add)]
    pub fn add(self, rhs: F32) -> (r: F32)
        ensures
            r == self.spec_add(rhs),
    {
        reveal(F32::spec_add);
        let (na, ma) = self.parts();
        let (nb, mb) = rhs.parts();
        if ma > INFINITY_BITS || mb > INFINITY_BITS {
            return F32 { bits: NAN_BITS };
        }
        if ma == INFINITY_BITS {
            if mb == INFINITY_BITS && na != nb {
                return F32 { bits: NAN_BITS };
            }
            return self;
        }
        if mb == INFINITY_BITS {
            return rhs;
        }
        let (sa, ua) = decompose(ma);
        let (sb, ub) = decompose(mb);
        proof {
            lemma_weight_increases(0, ma as int);
            lemma_weight_increases(0, mb as int);
            lemma_weight_increases(1, if ma >= 1 { ma as int } else { 1 });
            lemma_weight_increases(1, if mb >= 1 { mb as int } else { 1 });
            crate::ieee::lemma_weight_small(0);
            crate::ieee::lemma_weight_small(1);
        }
        if ma == 0 {
            if mb == 0 {
                return F32::with_sign(na && nb, 0);
            }
            proof {
                lemma_nearest_exact(mb as int);
            }
            return rhs;
        }
        if mb == 0 {
            proof {
                lemma_nearest_exact(ma as int);
            }
            return self;
        }
        if ua > ub + 38 {
            proof {
                lemma_absorb(ma as int, mb as int);
            }
            return self;
        }
        if ub > ua + 38 {
            proof {
                lemma_absorb(mb as int, ma as int);
            }
            return rhs;
        }
        add_aligned(na, ma, nb, mb)
    }

    /// `self * rhs`, rounded to nearest, ties to even.
    #[verifier::when_used_as_spec(spec_mul)]
    pub fn mul(self, rhs: F32) -> (r: F32)
        ensures
            r == self.spec_mul(rhs),
    {
        reveal(F32::spec_mul);
        let (na, ma) = self.parts();
        let (nb, mb) = rhs.parts();
        let negative = na != nb;
        if ma > INFINITY_BITS || mb > INFINITY_BITS {
            return F32 { bits: NAN_BITS };
        }
        if ma == INFINITY_BITS || mb == INFINITY_BITS {
            if ma == 0 || mb == 0 {
                return F32 { bits: NAN_BITS };
            }
            return F32::with_sign(negative, INFINITY_BITS);
        }
        let (sa, ua) = decompose(ma);
        let (sb, ub) = decompose(mb);
        proof {
            assert(sa * sb <= 0x100_0000 * 0x100_0000) by (nonlinear_arith)
                requires
                    sa <= 0x100_0000,
                    sb <= 0x100_0000,
            ;
        }
        let n: u64 = (sa as u64) * (sb as u64);
        let exp: i32 = (ua as i32) + (ub as i32) - 149;
        let ghost num = weight(ma as int) * weight(mb as int);
        let ghost den = pow2(149) as int;
        proof {
            lemma_pow2_pos(149);
            lemma_product_ratio(sa as int, ua as nat, sb as int, ub as nat);
        }
        let m = round_ratio(n, 1, exp, Ghost(num), Ghost(den));
        F32::with_sign(negative, m)
    }

    /// `self / rhs`, rounded to nearest, ties to even.
    #[verifier::when_used_as_spec(spec_div)]
    pub fn div(self, rhs: F32) -> (r: F32)
        ensures
            r == self.spec_div(rhs),
    {
        reveal(F32::spec_div);
        let (na, ma) = self.parts();
        let (nb, mb) = rhs.parts();
        let negative = na != nb;
        if ma > INFINITY_BITS || mb > INFINITY_BITS {
            return F32 { bits: NAN_BITS };
        }
        if ma == INFINITY_BITS {
            if mb == INFINITY_BITS {
                return F32 { bits: NAN_BITS };
            }
            return F32::with_sign(negative, INFINITY_BITS);
        }
        if mb == INFINITY_BITS {
            return F32::with_sign(negative, 0);
        }
        if mb == 0 {
            if ma == 0 {
                return F32 { bits: NAN_BITS };
            }
            return F32::with_sign(negative, INFINITY_BITS);
        }
        let (sa, ua) = decompose(ma);
        let (sb, ub) = decompose(mb);
        let exp: i32 = (ua as i32) - (ub as i32) + 149;
        let ghost num = weight(ma as int) * pow2(149);
        let ghost den = weight(mb as int);
        proof {
            lemma_pow2_pos(ub as nat);
            assert(den > 0) by (nonlinear_arith)
                requires
                    den == sb * pow2(ub as nat),
                    sb > 0,
                    pow2(ub as nat) > 0,
            ;
            lemma_quotient_ratio(sa as int, ua as nat, sb as int, ub as nat);
        }
        let m = round_ratio(sa as u64, sb as u64, exp, Ghost(num), Ghost(den));
        F32::with_sign(negative, m)
    }

    /// `self - rhs`, rounded to nearest, ties to even.
    #[verifier::when_used_as_spec(spec_sub)]
    pub fn sub(self, rhs: F32) -> (r: F32)
        ensures
            r == self.spec_sub(rhs),
    {
        self.add(rhs.neg())
    }
}

/// `v`, in units of 2^-149, is the value of a finite datum.
pub open spec fn representable(v: int) -> bool {
    exists|m: int| 0 <= m < INFINITY_BITS && weight(m) == if v < 0 {
        -v
    } else {
        v
    }
}

/// The value of a finite datum is representable.
pub proof fn lemma_value_representable(a: F32)
    requires
        a.is_finite(),
    ensures
        representable(a.value()),
{
    let m = a.magnitude();
    lemma_weight_increases(0, m);
    assert(0 <= m < INFINITY_BITS && weight(m) == if a.value() < 0 {
        -a.value()
    } else {
        a.value()
    });
}

/// Where the exact sum of two finite data is representable, their sum is
/// that datum: nothing is rounded away.
pub proof fn lemma_add_exact(a: F32, b: F32)
    requires
        a.is_finite(),
        b.is_finite(),
        representable(a.value() + b.value()),
    ensures
        a.spec_add(b).is_finite(),
        a.spec_add(b).value() == a.value() + b.value(),
{
    reveal(F32::spec_add);
    let s = a.value() + b.value();
    crate::ieee::lemma_weight_small(0);
    if s != 0 {
        let m = choose|m: int| 0 <= m < INFINITY_BITS && weight(m) == if s < 0 {
            -s
        } else {
            s
        };
        lemma_nearest_exact(m);
    }
}

/// A whole number below 2^24, times a power of two that keeps it below
/// 2^128, is the value of a finite datum.
pub proof fn lemma_scaled_representable(k: int, u: nat)
    requires
        0 <= k < 0x100_0000,
        u <= 253,
    ensures
        representable(k * pow2(u)),
    decreases u,
{
    lemma_pow2_pos(u);
    assert(k * pow2(u) >= 0) by (nonlinear_arith)
        requires
            k >= 0,
            pow2(u) > 0,
    ;
    if k >= 0x80_0000 || u == 0 {
        lemma_weight_of_parts(k, u);
        let m = k + u * 0x80_0000;
        assert(0 <= m < INFINITY_BITS && weight(m) == k * pow2(u));
    } else {
        lemma_scaled_representable(2 * k, (u - 1) as nat);
        lemma_pow2_unfold(u);
        let half = pow2((u - 1) as nat);
        assert((2 * k) * half == k * (2 * half)) by (nonlinear_arith);
    }
}

/// A rational that is the value of a finite datum rounds to that datum.
pub proof fn lemma_nearest_of_weight(m: int, den: int)
    requires
        0 <= m < INFINITY_BITS,
        den > 0,
    ensures
        nearest(weight(m) * den, den) == m,
{
    lemma_weight_step(m);
    lemma_pow2_pos(ulp_exponent(m));
    let w = weight(m);
    let next = weight(m + 1);
    assert(w * den < next * den && (w + next) * den == w * den + next * den) by (nonlinear_arith)
        requires
            w < next,
            den > 0,
    ;
    assert(is_floor(m, w * den, den));
    lemma_nearest_from_floor(m, w * den, den);
}

/// Where the exact product of two finite data is representable, their
/// product is that datum: nothing is rounded away.
pub proof fn lemma_mul_exact(a: F32, b: F32, v: int)
    requires
        a.is_finite(),
        b.is_finite(),
        a.value() * b.value() == v * pow2(149),
        representable(v),
    ensures
        a.spec_mul(b).is_finite(),
        a.spec_mul(b).value() == v,
{
    reveal(F32::spec_mul);
    crate::ieee::lemma_weight_small(0);
    lemma_pow2_pos(149);
    let wa = weight(a.magnitude());
    let wb = weight(b.magnitude());
    let k = pow2(149) as int;
    lemma_weight_increases(0, a.magnitude());
    lemma_weight_increases(0, b.magnitude());
    let size = if v < 0 {
        -v
    } else {
        v
    };
    let m = choose|m: int| 0 <= m < INFINITY_BITS && weight(m) == size;
    let va = a.value();
    let vb = b.value();
    if v == 0 {
        assert(wa * wb == 0) by (nonlinear_arith)
            requires
                va * vb == 0 * k,
                va == wa || va == -wa,
                vb == wb || vb == -wb,
        ;
        assert(weight(0) * k == 0);
        lemma_nearest_of_weight(0, k);
    } else {
        assert(va != 0 && vb != 0) by (nonlinear_arith)
            requires
                va * vb == v * k,
                v != 0,
                k > 0,
        ;
        assert(wa * wb == size * k) by (nonlinear_arith)
            requires
                va * vb == v * k,
                (va == wa && !a.is_negative()) || (va == -wa && a.is_negative()),
                (vb == wb && !b.is_negative()) || (vb == -wb && b.is_negative()),
                wa > 0,
                wb > 0,
                k > 0,
                (size == v && v > 0) || (size == -v && v < 0),
        ;
        assert(v < 0 <==> a.is_negative() != b.is_negative()) by (nonlinear_arith)
            requires
                va * vb == v * k,
                (va == wa && !a.is_negative()) || (va == -wa && a.is_negative()),
                (vb == wb && !b.is_negative()) || (vb == -wb && b.is_negative()),
                wa > 0,
                wb > 0,
                k > 0,
                v != 0,
        ;
        lemma_nearest_of_weight(m, k);
    }
}

/// The sum does not depend on the order of its terms.
pub proof fn lemma_add_commutes(a: F32, b: F32)
    ensures
        a.spec_add(b) == b.spec_add(a),
{
    reveal(F32::spec_add);
}

/// A difference and the difference the other way round are both NaN, or
/// have the same magnitude.
pub proof fn lemma_difference_mirrored(a: F32, b: F32)
    ensures
        a.spec_sub(b).is_nan() == b.spec_sub(a).is_nan(),
        a.spec_sub(b).magnitude() == b.spec_sub(a).magnitude(),
{
    reveal(F32::spec_add);
    crate::ieee::lemma_weight_small(0);
    if a.is_finite() && b.is_finite() {
        let s = a.value() + b.spec_neg().value();
        let t = b.value() + a.spec_neg().value();
        assert(t == -s);
        if s > 0 {
            crate::ieee::lemma_nearest_range(s, 1);
        } else if s < 0 {
            crate::ieee::lemma_nearest_range(-s, 1);
        }
    }
}

/// A datum's square depends on its magnitude alone.
pub proof fn lemma_square_by_magnitude(x: F32, y: F32)
    requires
        x.magnitude() == y.magnitude(),
    ensures
        x.spec_mul(x) == y.spec_mul(y),
{
    reveal(F32::spec_mul);
}

/// The square of a difference does not depend on the order of its terms.
pub proof fn lemma_square_of_difference(a: F32, b: F32)
    ensures
        a.spec_sub(b).spec_mul(a.spec_sub(b)) == b.spec_sub(a).spec_mul(b.spec_sub(a)),
{
    lemma_difference_mirrored(a, b);
    lemma_square_by_magnitude(a.spec_sub(b), b.spec_sub(a));
}

/// The sign of a product is that of its factors taken together, and a
/// product with a zero is a zero, wherever the product is a number.
pub proof fn lemma_mul_sign(a: F32, b: F32)
    ensures
        a.spec_mul(b).is_negative() ==> a.is_negative() != b.is_negative(),
        !a.spec_mul(b).is_nan() ==> a.spec_mul(b).is_negative() == (a.is_negative()
            != b.is_negative()),
        !a.spec_mul(b).is_nan() && (a.is_zero() || b.is_zero()) ==> a.spec_mul(b).is_zero(),
        a.is_nan() || b.is_nan() ==> a.spec_mul(b).is_nan(),
        a.is_finite() && b.is_finite() ==> !a.spec_mul(b).is_nan(),
{
    reveal(F32::spec_mul);
    crate::ieee::lemma_weight_small(0);
    if a.is_finite() && b.is_finite() {
        let wa = weight(a.magnitude());
        let wb = weight(b.magnitude());
        lemma_weight_increases(0, a.magnitude());
        lemma_weight_increases(0, b.magnitude());
        lemma_pow2_pos(149);
        assert(wa * wb >= 0) by (nonlinear_arith)
            requires
                wa >= 0,
                wb >= 0,
        ;
        crate::ieee::lemma_nearest_range(wa * wb, pow2(149) as int);
        if a.is_zero() || b.is_zero() {
            assert(wa * wb == 0) by (nonlinear_arith)
                requires
                    wa == 0 || wb == 0,
            ;
            assert(weight(0) * pow2(149) == 0);
            lemma_nearest_of_weight(0, pow2(149) as int);
        }
    }
}

/// The sign of a quotient is that of its terms taken together, and zero
/// over anything is a zero, wherever the quotient is a number.
pub proof fn lemma_div_sign(a: F32, b: F32)
    ensures
        a.spec_div(b).is_negative() ==> a.is_negative() != b.is_negative(),
        !a.spec_div(b).is_nan() ==> a.spec_div(b).is_negative() == (a.is_negative()
            != b.is_negative()),
        !a.spec_div(b).is_nan() && a.is_zero() ==> a.spec_div(b).is_zero(),
        a.is_nan() || b.is_nan() ==> a.spec_div(b).is_nan(),
        a.is_finite() && !b.is_nan() && !b.is_zero() ==> !a.spec_div(b).is_nan(),
{
    reveal(F32::spec_div);
    crate::ieee::lemma_weight_small(0);
    crate::ieee::lemma_weight_small(1);
    if a.is_finite() && b.is_finite() && !b.is_zero() {
        let wa = weight(a.magnitude());
        let wb = weight(b.magnitude());
        lemma_weight_increases(0, a.magnitude());
        lemma_weight_increases(1, b.magnitude());
        lemma_pow2_pos(149);
        assert(wa * pow2(149) >= 0) by (nonlinear_arith)
            requires
                wa >= 0,
                pow2(149) > 0,
        ;
        crate::ieee::lemma_nearest_range(wa * pow2(149), wb);
        if a.is_zero() {
            assert(wa * pow2(149) == 0) by (nonlinear_arith)
                requires
                    wa == 0,
            ;
            assert(weight(0) * wb == 0);
            lemma_nearest_of_weight(0, wb);
        }
    }
}

/// Adding a zero changes neither the size of a datum nor, where the datum
/// is no zero itself, its sign.
pub proof fn lemma_add_zero(a: F32, zero: F32)
    requires
        zero.is_zero(),
        !a.is_nan(),
    ensures
        !a.spec_add(zero).is_nan(),
        a.spec_add(zero).magnitude() == a.magnitude(),
        !a.is_zero() ==> a.spec_add(zero).is_negative() == a.is_negative(),
        a.spec_add(zero).is_negative() ==> a.is_negative(),
        zero.spec_add(a) == a.spec_add(zero),
{
    reveal(F32::spec_add);
    lemma_add_commutes(a, zero);
    crate::ieee::lemma_weight_small(0);
    if a.is_finite() {
        lemma_weight_increases(0, a.magnitude());
        if a.magnitude() > 0 {
            lemma_weight_increases(1, a.magnitude());
            crate::ieee::lemma_weight_small(1);
            lemma_nearest_exact(a.magnitude());
        }
    }
}

} // verus!
