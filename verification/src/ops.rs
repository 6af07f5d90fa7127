//! The operators of `F32` and `Vec2`: `+`, `-`, `*`, `/` and the unary `-`
//! round as the methods of the same names do, and `<`, `<=`, `>`, `>=` and
//! `==` compare as IEEE 754 asks, so that NaN is neither below nor above
//! nor equal to anything and the two zeros are equal. In contracts the
//! operators mean what the methods `spec_add`, `spec_lt` and so on state;
//! `==` there is the equality of the bits.

use vstd::prelude::*;
use vstd::std_specs::ops::AddSpecImpl;
use vstd::std_specs::ops::SubSpecImpl;
use vstd::std_specs::ops::MulSpecImpl;
use vstd::std_specs::ops::DivSpecImpl;
use vstd::std_specs::ops::NegSpecImpl;
use vstd::std_specs::cmp::PartialEqSpecImpl;
use vstd::std_specs::cmp::PartialOrdSpecImpl;
use core::cmp::Ordering;
use crate::single::F32;
use crate::common::Vec2;

verus! {

impl core::ops::Add for F32 {
    type Output = F32;

    fn add(self, rhs: F32) -> (r: F32) {
        F32::add(self, rhs)
    }
}

impl AddSpecImpl for F32 {
    open spec fn obeys_add_spec() -> bool {
        true
    }

    open spec fn add_req(self, rhs: F32) -> bool {
        true
    }

    open spec fn add_spec(self, rhs: F32) -> F32 {
        self.spec_add(rhs)
    }
}

impl core::ops::Sub for F32 {
    type Output = F32;

    fn sub(self, rhs: F32) -> (r: F32) {
        F32::sub(self, rhs)
    }
}

impl SubSpecImpl for F32 {
    open spec fn obeys_sub_spec() -> bool {
        true
    }

    open spec fn sub_req(self, rhs: F32) -> bool {
        true
    }

    open spec fn sub_spec(self, rhs: F32) -> F32 {
        self.spec_sub(rhs)
    }
}

impl core::ops::Mul for F32 {
    type Output = F32;

    fn mul(self, rhs: F32) -> (r: F32) {
        F32::mul(self, rhs)
    }
}

impl MulSpecImpl for F32 {
    open spec fn obeys_mul_spec() -> bool {
        true
    }

    open spec fn mul_req(self, rhs: F32) -> bool {
        true
    }

    open spec fn mul_spec(self, rhs: F32) -> F32 {
        self.spec_mul(rhs)
    }
}

impl core::ops::Div for F32 {
    type Output = F32;

    fn div(self, rhs: F32) -> (r: F32) {
        F32::div(self, rhs)
    }
}

impl DivSpecImpl for F32 {
    open spec fn obeys_div_spec() -> bool {
        true
    }

    open spec fn div_req(self, rhs: F32) -> bool {
        true
    }

    open spec fn div_spec(self, rhs: F32) -> F32 {
        self.spec_div(rhs)
    }
}

impl F32 {
    /// What `/` between data means in contracts: the correctly rounded
    /// quotient.
    pub open spec fn spec_euclidean_or_real_div(self, rhs: F32) -> F32 {
        self.spec_div(rhs)
    }
}

impl core::ops::Neg for F32 {
    type Output = F32;

    fn neg(self) -> (r: F32) {
        F32::neg(self)
    }
}

impl NegSpecImpl for F32 {
    open spec fn obeys_neg_spec() -> bool {
        true
    }

    open spec fn neg_req(self) -> bool {
        true
    }

    open spec fn neg_spec(self) -> F32 {
        self.spec_neg()
    }
}

impl PartialEq for F32 {
    fn eq(&self, other: &F32) -> (r: bool) {
        F32::le(*self, *other) && F32::le(*other, *self)
    }
}

impl PartialEqSpecImpl for F32 {
    open spec fn obeys_eq_spec() -> bool {
        true
    }

    /// Neither datum is NaN and both stand at the same place.
    open spec fn eq_spec(&self, other: &F32) -> bool {
        self.spec_le(*other) && other.spec_le(*self)
    }
}

impl PartialOrd for F32 {
    fn partial_cmp(&self, other: &F32) -> (r: Option<Ordering>) {
        if F32::lt(*self, *other) {
            Some(Ordering::Less)
        } else if F32::lt(*other, *self) {
            Some(Ordering::Greater)
        } else if F32::le(*self, *other) {
            Some(Ordering::Equal)
        } else {
            None
        }
    }
}

impl PartialOrdSpecImpl for F32 {
    open spec fn obeys_partial_cmp_spec() -> bool {
        true
    }

    /// The order of the data by their places; none where either is NaN.
    open spec fn partial_cmp_spec(&self, other: &F32) -> Option<Ordering> {
        if self.spec_lt(*other) {
            Some(Ordering::Less)
        } else if other.spec_lt(*self) {
            Some(Ordering::Greater)
        } else if self.spec_le(*other) {
            Some(Ordering::Equal)
        } else {
            None
        }
    }
}

impl core::ops::Add for Vec2 {
    type Output = Vec2;

    fn add(self, rhs: Vec2) -> (r: Vec2) {
        Vec2::add(self, rhs)
    }
}

impl AddSpecImpl for Vec2 {
    open spec fn obeys_add_spec() -> bool {
        true
    }

    open spec fn add_req(self, rhs: Vec2) -> bool {
        true
    }

    open spec fn add_spec(self, rhs: Vec2) -> Vec2 {
        self.spec_add(rhs)
    }
}

impl core::ops::Sub for Vec2 {
    type Output = Vec2;

    fn sub(self, rhs: Vec2) -> (r: Vec2) {
        Vec2::sub(self, rhs)
    }
}

impl SubSpecImpl for Vec2 {
    open spec fn obeys_sub_spec() -> bool {
        true
    }

    open spec fn sub_req(self, rhs: Vec2) -> bool {
        true
    }

    open spec fn sub_spec(self, rhs: Vec2) -> Vec2 {
        self.spec_sub(rhs)
    }
}

impl core::ops::Mul<F32> for Vec2 {
    type Output = Vec2;

    fn mul(self, rhs: F32) -> (r: Vec2) {
        Vec2::mul(self, rhs)
    }
}

impl MulSpecImpl<F32> for Vec2 {
    open spec fn obeys_mul_spec() -> bool {
        true
    }

    open spec fn mul_req(self, rhs: F32) -> bool {
        true
    }

    open spec fn mul_spec(self, rhs: F32) -> Vec2 {
        self.spec_mul(rhs)
    }
}

} // verus!
