//! The math kernel and the plane geometry built on it: an approximate
//! square root and cosine, vectors, and the viewport.

use vstd::prelude::*;
use crate::ieee::SIGN_BIT;
use crate::ieee::NAN_BITS;
use crate::ieee::INFINITY_BITS;
use crate::ieee::weight;
use crate::ieee::lemma_weight_of_parts;
use crate::ieee::lemma_weight_step;
use vstd::arithmetic::power2::pow2;
use vstd::arithmetic::power2::lemma_pow2_pos;
use vstd::arithmetic::power2::lemma_pow2_adds;
use vstd::arithmetic::power2::lemma2_to64;
use crate::single::F32;

verus! {

/// 0.0
pub const ZERO: u32 = 0;

/// 0.225, the gain of the cosine's second correction.
pub const COS_REFINE: u32 = 0x3e66_6666;

/// 0.25
pub const QUARTER: u32 = 0x3e80_0000;

/// 0.5
pub const HALF: u32 = 0x3f00_0000;

/// 1.0
pub const ONE: u32 = 0x3f80_0000;

/// 2.0
pub const TWO: u32 = 0x4000_0000;

/// 16.0, the gain of the cosine's parabola.
pub const COS_GAIN: u32 = 0x4180_0000;

/// 1 / (2 * pi), which turns radians into turns.
pub const TURNS_PER_RADIAN: u32 = 0x3e22_f983;

/// pi / 2
pub const QUARTER_TURN: u32 = 0x3fc9_0fdb;

/// The exponent bias, 127, in the place of the exponent field.
pub const EXPONENT_BIAS: u32 = 0x3f80_0000;

/// The datum with the bits `bits`.
pub open spec fn spec_lit(bits: u32) -> F32 {
    F32 { bits }
}

#[verifier::when_used_as_spec(spec_lit)]
pub fn lit(bits: u32) -> (r: F32)
    ensures
        r == spec_lit(bits),
{
    F32 { bits }
}

/// `value` moved from the range `start1..stop1` to the range
/// `start2..stop2` by the straight line through both; values outside the
/// first range land outside the second.
pub open spec fn spec_map(value: F32, start1: F32, stop1: F32, start2: F32, stop2: F32) -> F32 {
    (value - start1) / (stop1 - start1) * (stop2 - start2) + start2
}

#[verifier::when_used_as_spec(spec_map)]
pub fn map(value: F32, start1: F32, stop1: F32, start2: F32, stop2: F32) -> (r: F32)
    ensures
        r == spec_map(value, start1, stop1, start2, stop2),
{
    (value - start1) / (stop1 - start1) * (stop2 - start2) + start2
}

/// `value` moved from the range `start..stop` to the range 0 to 1.
pub open spec fn spec_norm(value: F32, start: F32, stop: F32) -> F32 {
    spec_map(value, start, stop, lit(ZERO), lit(ONE))
}

#[verifier::when_used_as_spec(spec_norm)]
pub fn norm(value: F32, start: F32, stop: F32) -> (r: F32)
    ensures
        r == spec_norm(value, start, stop),
{
    map(value, start, stop, lit(ZERO), lit(ONE))
}

/// The approximate square root: for a datum that is at least zero, the
/// exponent bias is added to the bits and the sum is halved, which halves
/// the exponent; for every other datum the result is NaN.
pub open spec fn spec_sqrt(value: F32) -> F32 {
    if value >= lit(ZERO) {
        F32 { bits: ((value.bits + EXPONENT_BIAS) / 2) as u32 }
    } else {
        lit(NAN_BITS)
    }
}

#[verifier::when_used_as_spec(spec_sqrt)]
pub fn sqrt(value: F32) -> (r: F32)
    ensures
        r == spec_sqrt(value),
{
    if value >= lit(ZERO) {
        F32::from_bits((value.to_bits() + EXPONENT_BIAS) / 2)
    } else {
        lit(NAN_BITS)
    }
}

/// The square root of a datum that is at least zero is at least zero.
pub proof fn lemma_sqrt_not_negative(x: F32)
    requires
        x >= lit(ZERO),
    ensures
        spec_sqrt(x) >= lit(ZERO),
        !spec_sqrt(x).is_negative(),
{
}

/// The square root of a datum below zero is NaN.
pub proof fn lemma_sqrt_of_negative(x: F32)
    requires
        x < lit(ZERO),
    ensures
        spec_sqrt(x).is_nan(),
{
}

/// The square root keeps the order of data that are at least zero. Negative
/// zero is left out as the smaller datum: its bits are the largest of all
/// data that are at least zero, and so is its square root.
pub proof fn lemma_sqrt_monotonic(x: F32, y: F32)
    requires
        x >= lit(ZERO),
        x <= y,
        x.bits == SIGN_BIT ==> y.bits == SIGN_BIT,
    ensures
        spec_sqrt(x) <= spec_sqrt(y),
{
}

/// How close the square root comes, for a normal datum above zero. Its
/// square is at most 9/8 of the datum, so that the root is at most 6.07 %
/// above the exact one; and the square of the next datum above it exceeds
/// the datum, so that the root is less than one unit in its last place below
/// the exact one.
pub proof fn lemma_sqrt_close(x: F32)
    requires
        0x80_0000 <= x.bits < INFINITY_BITS,
    ensures
        spec_sqrt(x).is_finite(),
        !spec_sqrt(x).is_negative(),
        8 * (spec_sqrt(x).value() * spec_sqrt(x).value()) <= 9 * (x.value() * pow2(149)),
        x.value() * pow2(149) < weight(spec_sqrt(x).bits + 1) * weight(spec_sqrt(x).bits + 1),
{
    let a: int = 0x80_0000;
    let e = x.bits as int / a;
    let f = x.bits as int % a;
    let s = e + 127;
    let k = s / 2;
    let half = f / 2;
    let r = spec_sqrt(x);
    // The root's significand: the datum's, halved, and from the middle of
    // the binade on where the exponent is odd.
    let q = if s % 2 == 0 {
        a + half
    } else {
        a + a / 2 + half
    };
    assert(r.bits == q + (k - 1) * a);
    lemma_weight_of_parts(q, (k - 1) as nat);
    lemma_weight_of_parts(a + f, (e - 1) as nat);
    lemma_weight_step(r.bits as int);
    let unit = pow2((k - 1) as nat) as int;
    let square = pow2((2 * k - 2) as nat) as int;
    lemma_pow2_pos((k - 1) as nat);
    lemma_pow2_pos((2 * k - 2) as nat);
    lemma_pow2_adds((k - 1) as nat, (k - 1) as nat);
    lemma2_to64();
    let wr = q * unit;
    let wn = (q + 1) * unit;
    assert(weight(r.bits as int) == wr);
    assert(weight(r.bits + 1) == wn) by (nonlinear_arith)
        requires
            weight(r.bits + 1) == wr + unit,
            wr == q * unit,
            wn == (q + 1) * unit,
    ;
    assert(wr * wr == (q * q) * square) by (nonlinear_arith)
        requires
            wr == q * unit,
            square == unit * unit,
    ;
    assert(wn * wn == ((q + 1) * (q + 1)) * square) by (nonlinear_arith)
        requires
            wn == (q + 1) * unit,
            square == unit * unit,
    ;
    // The datum, scaled to the same power of two as the squares.
    let m = if s % 2 == 0 {
        (a + f) * a
    } else {
        (a + f) * (2 * a)
    };
    if s % 2 == 0 {
        lemma_pow2_adds((2 * k - 2) as nat, 23);
        lemma_pow2_adds((e - 1) as nat, 149);
    } else {
        lemma_pow2_adds((2 * k - 2) as nat, 24);
        lemma_pow2_adds((e - 1) as nat, 149);
    }
    let scale = pow2((e - 1) as nat) as int;
    assert(x.value() * pow2(149) == m * square) by (nonlinear_arith)
        requires
            x.value() == (a + f) * scale,
            scale * pow2(149) == if s % 2 == 0 {
                a * square
            } else {
                (2 * a) * square
            },
            m == if s % 2 == 0 {
                (a + f) * a
            } else {
                (a + f) * (2 * a)
            },
    ;
    assert(8 * (q * q) <= 9 * m && m < (q + 1) * (q + 1)) by (nonlinear_arith)
        requires
            a == 0x80_0000,
            0 <= f < a,
            2 * half <= f <= 2 * half + 1,
            (q == a + half && m == (a + f) * a) || (q == a + a / 2 + half && m == (a + f) * (2
                * a)),
    ;
    assert(8 * ((q * q) * square) <= 9 * (m * square) && m * square < ((q + 1) * (q + 1)) * square)
        by (nonlinear_arith)
        requires
            8 * (q * q) <= 9 * m,
            m < (q + 1) * (q + 1),
            square > 0,
    ;
}

/// The absolute value: the datum with the other sign where it is below zero,
/// and the datum itself elsewhere, so also for negative zero and NaN.
pub open spec fn spec_abs(value: F32) -> F32 {
    if value < lit(ZERO) {
        value.neg()
    } else {
        value
    }
}

#[verifier::when_used_as_spec(spec_abs)]
pub fn abs(value: F32) -> (r: F32)
    ensures
        r == spec_abs(value),
{
    if value < lit(ZERO) {
        value.neg()
    } else {
        value
    }
}

/// The largest whole number that does not exceed `value`: the value cut off
/// toward zero and held to the range of `i32`, less one where cutting off
/// went up.
pub open spec fn spec_floor(value: F32) -> F32 {
    let cut = F32::of_int(value.to_i32() as int);
    if value < cut {
        cut - lit(ONE)
    } else {
        cut
    }
}

#[verifier::when_used_as_spec(spec_floor)]
pub fn floor(value: F32) -> (r: F32)
    ensures
        r == spec_floor(value),
{
    let mut res = F32::from_i32(value.to_i32());
    if value < res {
        res = res - lit(ONE);
    }
    res
}

/// `value` held between `low` and `high`.
pub open spec fn spec_clamp(value: F32, low: F32, high: F32) -> F32 {
    if value < low {
        low
    } else if value > high {
        high
    } else {
        value
    }
}

#[verifier::when_used_as_spec(spec_clamp)]
pub fn clamp(value: F32, low: F32, high: F32) -> (r: F32)
    ensures
        r == spec_clamp(value, low, high),
{
    if value < low {
        low
    } else if value > high {
        high
    } else {
        value
    }
}

/// The angle in turns, folded into the half turn around zero that the
/// parabola is fitted to.
pub open spec fn cos_folded(value: F32) -> F32 {
    let turns = value * lit(TURNS_PER_RADIAN);
    turns - (lit(QUARTER) + spec_floor(turns + lit(QUARTER)))
}

/// The parabola through the zeros and the peak of the cosine.
pub open spec fn cos_parabola(x: F32) -> F32 {
    x * (lit(COS_GAIN) * (spec_abs(x) - lit(HALF)))
}

/// The parabola's value with the correction that a second parabola adds.
pub open spec fn cos_refined(x: F32) -> F32 {
    x + lit(COS_REFINE) * x * (spec_abs(x) - lit(ONE))
}

/// The approximate cosine of an angle in radians.
pub open spec fn spec_cos(value: F32) -> F32 {
    cos_refined(cos_parabola(cos_folded(value)))
}

#[verifier::when_used_as_spec(spec_cos)]
pub fn cos(value: F32) -> (r: F32)
    ensures
        r == spec_cos(value),
{
    let mut x = value;
    x = x * lit(TURNS_PER_RADIAN);
    x = x - (lit(QUARTER) + floor(x + lit(QUARTER)));
    x = x * (lit(COS_GAIN) * (abs(x) - lit(HALF)));
    x = x + lit(COS_REFINE) * x * (abs(x) - lit(ONE));
    x
}

/// The approximate sine: the cosine a quarter turn earlier.
pub open spec fn spec_sin(value: F32) -> F32 {
    spec_cos(value - lit(QUARTER_TURN))
}

#[verifier::when_used_as_spec(spec_sin)]
pub fn sin(value: F32) -> (r: F32)
    ensures
        r == spec_sin(value),
        r == spec_cos(value - lit(QUARTER_TURN)),
{
    cos(value - lit(QUARTER_TURN))
}

/// A point or a displacement in the plane.
#[derive(Clone, Copy, Debug)]
pub struct Vec2 {
    pub x: F32,
    pub y: F32,
}

impl Vec2 {
    pub fn new(x: F32, y: F32) -> (r: Vec2)
        ensures
            r.x == x,
            r.y == y,
    {
        Vec2 { x, y }
    }

    /// The sum, coordinate by coordinate.
    pub open spec fn spec_add(self, other: Vec2) -> Vec2 {
        Vec2 { x: self.x + other.x, y: self.y + other.y }
    }

    #[verifier::when_used_as_spec(spec_add)]
    pub fn add(self, other: Vec2) -> (r: Vec2)
        ensures
            r == self.spec_add(other),
    {
        Vec2 { x: self.x + other.x, y: self.y + other.y }
    }

    /// Adds `other` to the vector in place.
    pub fn add_assign(&mut self, other: Vec2)
        ensures
            *final(self) == old(self).spec_add(other),
    {
        *self = Vec2 { x: self.x + other.x, y: self.y + other.y };
    }

    /// The difference, coordinate by coordinate.
    pub open spec fn spec_sub(self, other: Vec2) -> Vec2 {
        Vec2 { x: self.x - other.x, y: self.y - other.y }
    }

    #[verifier::when_used_as_spec(spec_sub)]
    pub fn sub(self, other: Vec2) -> (r: Vec2)
        ensures
            r == self.spec_sub(other),
    {
        Vec2 { x: self.x - other.x, y: self.y - other.y }
    }

    /// The vector with both coordinates multiplied by `other`.
    pub open spec fn spec_mul(self, other: F32) -> Vec2 {
        Vec2 { x: self.x * other, y: self.y * other }
    }

    #[verifier::when_used_as_spec(spec_mul)]
    pub fn mul(self, other: F32) -> (r: Vec2)
        ensures
            r == self.spec_mul(other),
    {
        Vec2 { x: self.x * other, y: self.y * other }
    }

    /// The length, by the approximate square root.
    pub open spec fn spec_magnitude(self) -> F32 {
        spec_sqrt(self.x * self.x + self.y * self.y)
    }

    #[verifier::when_used_as_spec(spec_magnitude)]
    pub fn magnitude(self) -> (r: F32)
        ensures
            r == self.spec_magnitude(),
    {
        sqrt(self.x * self.x + self.y * self.y)
    }

    /// The vector divided by its length. The zero vector gives NaN twice.
    pub open spec fn spec_normalized(self) -> Vec2 {
        Vec2 { x: self.x / self.spec_magnitude(), y: self.y / self.spec_magnitude() }
    }

    #[verifier::when_used_as_spec(spec_normalized)]
    pub fn normalized(self) -> (r: Vec2)
        ensures
            r == self.spec_normalized(),
    {
        let length = self.magnitude();
        Vec2 { x: self.x / length, y: self.y / length }
    }

    /// The distance to `other`: the length of the difference.
    pub open spec fn spec_distance(self, other: Vec2) -> F32 {
        (self - other).spec_magnitude()
    }

    #[verifier::when_used_as_spec(spec_distance)]
    pub fn distance(self, other: Vec2) -> (r: F32)
        ensures
            r == self.spec_distance(other),
    {
        let delta_x = self.x - other.x;
        let delta_y = self.y - other.y;
        sqrt(delta_x * delta_x + delta_y * delta_y)
    }

    /// The vector turned by `rad` radians, by the approximate cosine and
    /// sine.
    pub open spec fn spec_rotated(&self, rad: F32) -> Vec2 {
        Vec2 {
            x: self.x * spec_cos(rad) - self.y * spec_sin(rad),
            y: self.x * spec_sin(rad) + self.y * spec_cos(rad),
        }
    }

    #[verifier::when_used_as_spec(spec_rotated)]
    pub fn rotated(&self, rad: F32) -> (r: Vec2)
        ensures
            r == self.spec_rotated(rad),
    {
        Vec2 {
            x: self.x * cos(rad) - self.y * sin(rad),
            y: self.x * sin(rad) + self.y * cos(rad),
        }
    }
}

/// The window into the world that the screen shows: 160 units wide and
/// high, from `top_left`.
#[derive(Clone, Copy, Debug)]
pub struct Rect {
    pub top_left: Vec2,
    pub width: u16,
    pub height: u16,
}

impl Rect {
    pub fn new(top_left: Vec2) -> (r: Rect)
        ensures
            r.top_left == top_left,
            r.width == 160,
            r.height == 160,
    {
        Rect { top_left, width: 160, height: 160 }
    }

    pub fn change_pos(&mut self, top_left: Vec2)
        ensures
            final(self).top_left == top_left,
            final(self).width == old(self).width,
            final(self).height == old(self).height,
    {
        self.top_left = top_left;
    }

    /// The point in the middle of the window.
    pub open spec fn spec_center(&self) -> Vec2 {
        Vec2 {
            x: self.top_left.x + F32::of_int(self.width as int) / lit(TWO),
            y: self.top_left.y + F32::of_int(self.height as int) / lit(TWO),
        }
    }

    #[verifier::when_used_as_spec(spec_center)]
    pub fn center(&self) -> (r: Vec2)
        ensures
            r == self.spec_center(),
    {
        Vec2::new(
            self.top_left.x + F32::from_u16(self.width) / lit(TWO),
            self.top_left.y + F32::from_u16(self.height) / lit(TWO),
        )
    }

    /// The middle of the window of a layer that moves `scale` times slower
    /// than the world and so shows `scale` times as much of it.
    pub open spec fn spec_center_mul(&self, scale: F32) -> Vec2 {
        Vec2 {
            x: self.top_left.x + F32::of_int(self.width as int) / lit(TWO) * scale,
            y: self.top_left.y + F32::of_int(self.height as int) / lit(TWO) * scale,
        }
    }

    #[verifier::when_used_as_spec(spec_center_mul)]
    pub fn center_mul(&self, scale: F32) -> (r: Vec2)
        ensures
            r == self.spec_center_mul(scale),
    {
        Vec2::new(
            self.top_left.x + F32::from_u16(self.width) / lit(TWO) * scale,
            self.top_left.y + F32::from_u16(self.height) / lit(TWO) * scale,
        )
    }
}

} // verus!
