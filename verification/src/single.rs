//! Single-precision arithmetic on bit patterns.
//!
//! `F32` holds an IEEE 754 binary32 datum by its bits. Its operations are
//! integer code: each states the datum it returns as the correctly rounded
//! result of the exact operation on the operands' values.

use vstd::prelude::*;
use vstd::arithmetic::power2::pow2;
use vstd::arithmetic::power2::lemma_pow2_unfold;
use vstd::arithmetic::power2::lemma_pow2_strictly_increases;
use vstd::arithmetic::power2::lemma2_to64;
use vstd::arithmetic::power2::lemma2_to64_rest;
use crate::ieee::SIGN_BIT;
use crate::ieee::INFINITY_BITS;
use crate::ieee::HIDDEN_BIT;
use crate::ieee::significand;
use crate::ieee::ulp_exponent;
use crate::ieee::weight;
use crate::ieee::nearest;

verus! {

/// An IEEE 754 binary32 datum, held as its bit pattern.
#[derive(Clone, Copy, Debug)]
pub struct F32 {
    pub bits: u32,
}

/// The magnitude bits `m` under the sign `negative`.
pub open spec fn signed(negative: bool, m: int) -> F32 {
    F32 { bits: (if negative { m + SIGN_BIT } else { m }) as u32 }
}

/// The datum nearest to `v / den`, a rational in units of 2^-149 with
/// `den` positive: the sign of `v` over the rounded magnitude.
pub open spec fn rounded(v: int, den: int) -> F32 {
    if v < 0 {
        signed(true, nearest(-v, den))
    } else {
        signed(false, nearest(v, den))
    }
}

impl F32 {
    /// The sign bit is set.
    pub open spec fn is_negative(self) -> bool {
        self.bits >= SIGN_BIT
    }

    /// The bits without the sign.
    pub open spec fn magnitude(self) -> int {
        if self.bits >= SIGN_BIT {
            self.bits - SIGN_BIT
        } else {
            self.bits as int
        }
    }

    pub open spec fn is_nan(self) -> bool {
        self.magnitude() > INFINITY_BITS
    }

    pub open spec fn is_infinite(self) -> bool {
        self.magnitude() == INFINITY_BITS
    }

    pub open spec fn is_finite(self) -> bool {
        self.magnitude() < INFINITY_BITS
    }

    pub open spec fn is_zero(self) -> bool {
        self.magnitude() == 0
    }

    /// The value of a finite datum, in units of 2^-149.
    pub open spec fn value(self) -> int {
        if self.is_negative() {
            -weight(self.magnitude())
        } else {
            weight(self.magnitude())
        }
    }

    /// Where the datum stands in the order of all data that are not NaN:
    /// the magnitude bits, negated under a set sign. Both zeros stand at 0.
    pub open spec fn position(self) -> int {
        if self.is_negative() {
            -self.magnitude()
        } else {
            self.magnitude()
        }
    }

    /// The datum with the other sign.
    pub open spec fn spec_neg(self) -> F32 {
        signed(!self.is_negative(), self.magnitude())
    }

    /// `self < rhs`: neither is NaN and `self` stands before `rhs`.
    pub open spec fn spec_lt(self, rhs: F32) -> bool {
        !self.is_nan() && !rhs.is_nan() && self.position() < rhs.position()
    }

    /// `self <= rhs`: neither is NaN and `self` does not stand after `rhs`.
    pub open spec fn spec_le(self, rhs: F32) -> bool {
        !self.is_nan() && !rhs.is_nan() && self.position() <= rhs.position()
    }

    /// `self > rhs`.
    pub open spec fn spec_gt(self, rhs: F32) -> bool {
        rhs.spec_lt(self)
    }

    /// `self >= rhs`.
    pub open spec fn spec_ge(self, rhs: F32) -> bool {
        rhs.spec_le(self)
    }

    pub fn from_bits(bits: u32) -> (r: F32)
        ensures
            r.bits == bits,
    {
        F32 { bits }
    }

    pub fn to_bits(self) -> (r: u32)
        ensures
            r == self.bits,
    {
        self.bits
    }

    /// The sign bit and the magnitude bits.
    pub fn parts(self) -> (r: (bool, u32))
        ensures
            r.0 == self.is_negative(),
            r.1 == self.magnitude(),
    {
        if self.bits >= SIGN_BIT {
            (true, self.bits - SIGN_BIT)
        } else {
            (false, self.bits)
        }
    }

    /// The datum of the magnitude bits `m` under the sign `negative`.
    pub(crate) fn with_sign(negative: bool, m: u32) -> (r: F32)
        requires
            m < SIGN_BIT,
        ensures
            r == signed(negative, m as int),
            r.is_negative() == negative,
            r.magnitude() == m,
    {
        if negative {
            F32 { bits: m + SIGN_BIT }
        } else {
            F32 { bits: m }
        }
    }

    #[verifier::when_used_as_spec(spec_neg)]
    pub fn neg(self) -> (r: F32)
        ensures
            r == self.spec_neg(),
    {
        let (negative, m) = self.parts();
        F32::with_sign(!negative, m)
    }

    #[verifier::when_used_as_spec(spec_lt)]
    pub fn lt(self, rhs: F32) -> (r: bool)
        ensures
            r == self.spec_lt(rhs),
    {
        let (na, ma) = self.parts();
        let (nb, mb) = rhs.parts();
        if ma > INFINITY_BITS || mb > INFINITY_BITS {
            false
        } else if na {
            if nb {
                ma > mb
            } else {
                ma > 0 || mb > 0
            }
        } else {
            !nb && ma < mb
        }
    }

    #[verifier::when_used_as_spec(spec_le)]
    pub fn le(self, rhs: F32) -> (r: bool)
        ensures
            r == self.spec_le(rhs),
    {
        let (na, ma) = self.parts();
        let (nb, mb) = rhs.parts();
        if ma > INFINITY_BITS || mb > INFINITY_BITS {
            false
        } else if na {
            if nb {
                ma >= mb
            } else {
                true
            }
        } else if nb {
            ma == 0 && mb == 0
        } else {
            ma <= mb
        }
    }

    #[verifier::when_used_as_spec(spec_gt)]
    pub fn gt(self, rhs: F32) -> (r: bool)
        ensures
            r == self.spec_gt(rhs),
    {
        rhs.lt(self)
    }

    #[verifier::when_used_as_spec(spec_ge)]
    pub fn ge(self, rhs: F32) -> (r: bool)
        ensures
            r == self.spec_ge(rhs),
    {
        rhs.le(self)
    }
}

/// The significand and the exponent that the magnitude bits `m` encode.
pub(crate) fn decompose(m: u32) -> (r: (u32, u32))
    requires
        m < INFINITY_BITS,
    ensures
        r.0 == significand(m as int),
        r.1 == ulp_exponent(m as int),
        r.0 < 0x100_0000,
        r.1 <= 253,
        r.1 > 0 ==> r.0 >= 0x80_0000,
        weight(m as int) == r.0 * pow2(r.1 as nat),
        r.0 == 0 <==> m == 0,
{
    let e: u32 = m / HIDDEN_BIT;
    let f: u32 = m % HIDDEN_BIT;
    if e == 0 {
        (f, 0)
    } else {
        (HIDDEN_BIT + f, e - 1)
    }
}

/// 2^k.
pub(crate) fn power_of_two(k: u32) -> (r: u64)
    requires
        k <= 62,
    ensures
        r == pow2(k as nat),
        r <= 0x4000_0000_0000_0000,
{
    let mut r: u64 = 1;
    let mut i: u32 = 0;
    proof {
        lemma2_to64();
        lemma2_to64_rest();
    }
    while i < k
        invariant
            i <= k <= 62,
            r == pow2(i as nat),
            pow2(62) == 0x4000_0000_0000_0000,
        decreases k - i,
    {
        proof {
            lemma_pow2_unfold((i + 1) as nat);
            if i + 1 < 62 {
                lemma_pow2_strictly_increases((i + 1) as nat, 62);
            }
        }
        r = r * 2;
        i = i + 1;
    }
    proof {
        if k < 62 {
            lemma_pow2_strictly_increases(k as nat, 62);
        }
    }
    r
}

} // verus!
