//! Conversions between `F32` and the integer types.

use vstd::prelude::*;
use vstd::arithmetic::power2::pow2;
use vstd::arithmetic::power2::lemma_pow2_pos;
use vstd::arithmetic::power2::lemma_pow2_adds;
use vstd::arithmetic::power2::lemma_pow2_strictly_increases;
use vstd::arithmetic::power2::lemma2_to64;
use vstd::arithmetic::div_mod::lemma_div_by_multiple;
use vstd::arithmetic::div_mod::lemma_div_multiples_vanish_quotient;
use vstd::arithmetic::div_mod::lemma_basic_div;
use crate::ieee::INFINITY_BITS;
use crate::ieee::weight;
use crate::rounding::round_ratio;
use crate::rounding::same_ratio;
use crate::single::F32;
use crate::arith::lemma_scaled_representable;
use crate::arith::lemma_nearest_exact;
use crate::single::rounded;
use crate::single::decompose;
use crate::single::power_of_two;

verus! {

impl F32 {
    /// The whole part of the value of a datum that is not NaN: the value cut
    /// off toward zero.
    pub open spec fn whole(self) -> int {
        let w = weight(self.magnitude()) / (pow2(149) as int);
        if self.is_negative() {
            -w
        } else {
            w
        }
    }

    /// The whole part, held to the range of `i32`; 0 for NaN.
    #[verifier::opaque]
    pub open spec fn spec_to_i32(self) -> i32 {
        if self.is_nan() {
            0
        } else if self.is_infinite() {
            if self.is_negative() {
                i32::MIN
            } else {
                i32::MAX
            }
        } else if self.whole() < i32::MIN {
            i32::MIN
        } else if self.whole() > i32::MAX {
            i32::MAX
        } else {
            self.whole() as i32
        }
    }

    /// The whole part, held to the range of `u8`; 0 for NaN.
    pub open spec fn spec_to_u8(self) -> u8 {
        if self.spec_to_i32() < 0 {
            0
        } else if self.spec_to_i32() > 255 {
            255
        } else {
            self.spec_to_i32() as u8
        }
    }

    /// The datum nearest to the integer `i`.
    #[verifier::opaque]
    pub open spec fn of_int(i: int) -> F32 {
        rounded(i * pow2(149), 1)
    }

    /// The datum nearest to `i`: `i` itself where it has at most 24
    /// significant bits.
    pub fn from_i32(i: i32) -> (r: F32)
        ensures
            r == F32::of_int(i as int),
    {
        reveal(F32::of_int);
        let negative = i < 0;
        let n: u64 = if negative {
            (-(i as i64)) as u64
        } else {
            i as u64
        };
        let ghost num = n * pow2(149);
        proof {
            lemma_pow2_pos(149);
            assert(same_ratio(num, 1, n as int, 1, 149));
            assert((-(n as int)) * pow2(149) == -(n * pow2(149))) by (nonlinear_arith);
            assert(n > 0 ==> n * pow2(149) > 0) by (nonlinear_arith)
                requires
                    pow2(149) > 0,
            ;
        }
        let m = round_ratio(n, 1, 149, Ghost(num), Ghost(1));
        F32::with_sign(negative, m)
    }

    /// The datum nearest to `i`.
    pub fn from_u32(i: u32) -> (r: F32)
        ensures
            r == F32::of_int(i as int),
    {
        reveal(F32::of_int);
        let ghost num = i * pow2(149);
        proof {
            lemma_pow2_pos(149);
            assert(same_ratio(num, 1, i as int, 1, 149));
            assert(i * pow2(149) >= 0) by (nonlinear_arith)
                requires
                    pow2(149) > 0,
            ;
        }
        let m = round_ratio(i as u64, 1, 149, Ghost(num), Ghost(1));
        F32::with_sign(false, m)
    }

    /// The datum of `i`.
    pub fn from_u8(i: u8) -> (r: F32)
        ensures
            r == F32::of_int(i as int),
    {
        F32::from_i32(i as i32)
    }

    /// The datum of `i`.
    pub fn from_u16(i: u16) -> (r: F32)
        ensures
            r == F32::of_int(i as int),
    {
        F32::from_i32(i as i32)
    }

    /// The datum of `i`.
    pub fn from_i16(i: i16) -> (r: F32)
        ensures
            r == F32::of_int(i as int),
    {
        F32::from_i32(i as i32)
    }

    /// The value cut off toward zero and held to the range of `i32`; 0 for
    /// NaN.
    #[verifier::when_used_as_spec(spec_to_i32)]
    pub fn to_i32(self) -> (r: i32)
        ensures
            r == self.spec_to_i32(),
    {
        reveal(F32::spec_to_i32);
        let (negative, m) = self.parts();
        if m > INFINITY_BITS {
            return 0;
        }
        if m == INFINITY_BITS {
            return if negative {
                i32::MIN
            } else {
                i32::MAX
            };
        }
        let (s, u) = decompose(m);
        let ghost unit = pow2(149) as int;
        proof {
            lemma_pow2_pos(149);
            lemma_pow2_pos(u as nat);
            lemma2_to64();
        }
        if u >= 149 {
            let k: u32 = u - 149;
            proof {
                lemma_pow2_adds(k as nat, 149);
                lemma_pow2_pos(k as nat);
                let pk = pow2(k as nat) as int;
                assert(s * (pk * unit) == (s * pk) * unit) by (nonlinear_arith);
                assert(s * pk >= 0) by (nonlinear_arith)
                    requires
                        s >= 0,
                        pk > 0,
                ;
                lemma_div_by_multiple(s * pk, unit);
                if k > 8 {
                    lemma_pow2_strictly_increases(8, k as nat);
                }
                if k >= 8 {
                    assert(s * pk >= 0x80_0000 * 0x100) by (nonlinear_arith)
                        requires
                            s >= 0x80_0000,
                            pk >= 0x100,
                    ;
                }
            }
            if k >= 8 {
                return if negative {
                    i32::MIN
                } else {
                    i32::MAX
                };
            }
            let p: u64 = power_of_two(k);
            proof {
                if k < 7 {
                    lemma_pow2_strictly_increases(k as nat, 7);
                }
                assert(s * p <= 0xff_ffff * 0x80) by (nonlinear_arith)
                    requires
                        s <= 0xff_ffff,
                        p <= 0x80,
                ;
            }
            let v: i64 = ((s as u64) * p) as i64;
            if negative {
                (-v) as i32
            } else {
                v as i32
            }
        } else {
            let shift: u32 = 149 - u;
            if shift >= 24 {
                proof {
                    lemma_pow2_adds(shift as nat, u as nat);
                    if shift > 24 {
                        lemma_pow2_strictly_increases(24, shift as nat);
                    }
                    let ps = pow2(shift as nat) as int;
                    let pu = pow2(u as nat) as int;
                    assert(s * pu < ps * pu) by (nonlinear_arith)
                        requires
                            s < ps,
                            pu > 0,
                    ;
                    assert(s * pu >= 0) by (nonlinear_arith)
                        requires
                            s >= 0,
                            pu > 0,
                    ;
                    lemma_basic_div(s * pu, unit);
                }
                return 0;
            }
            let p: u64 = power_of_two(shift);
            proof {
                lemma_pow2_adds(u as nat, shift as nat);
                lemma_pow2_pos(shift as nat);
                let pu = pow2(u as nat) as int;
                lemma_div_multiples_vanish_quotient(pu, s as int, p as int);
                assert(pu * s == s * pu) by (nonlinear_arith);
            }
            let v: i64 = ((s as u64) / p) as i64;
            if negative {
                (-v) as i32
            } else {
                v as i32
            }
        }
    }

    /// The value cut off toward zero and held to the range of `u8`; 0 for
    /// NaN.
    #[verifier::when_used_as_spec(spec_to_u8)]
    pub fn to_u8(self) -> (r: u8)
        ensures
            r == self.spec_to_u8(),
    {
        let i = self.to_i32();
        if i < 0 {
            0
        } else if i > 255 {
            255
        } else {
            i as u8
        }
    }
}

/// A whole number of at most 24 bits is a datum: nothing is rounded away.
pub proof fn lemma_of_int_exact(i: int)
    requires
        -0x100_0000 < i < 0x100_0000,
    ensures
        F32::of_int(i).is_finite(),
        F32::of_int(i).value() == i * pow2(149),
{
    reveal(F32::of_int);
    let size = if i < 0 {
        -i
    } else {
        i
    };
    lemma_scaled_representable(size, 149);
    assert((-i) * pow2(149) == -(i * pow2(149))) by (nonlinear_arith);
    let v = size * pow2(149);
    let m = choose|m: int| 0 <= m < INFINITY_BITS && weight(m) == v;
    lemma_nearest_exact(m);
    crate::ieee::lemma_weight_small(0);
    lemma_pow2_pos(149);
    assert(i != 0 ==> size * pow2(149) > 0) by (nonlinear_arith)
        requires
            size > 0 || i == 0,
            pow2(149) > 0,
    ;
}

} // verus!
