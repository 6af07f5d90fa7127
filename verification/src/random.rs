//! The pseudo-random generator of the `oorandom` crate.
//!
//! Nothing is claimed of the words that it hands out: what the engine does
//! with them is proved for every word. The generator's draw of a datum
//! below one is made here from its draw of a word, in integers: `unit` is
//! what `oorandom::Rand32::rand_float` makes of the word it draws.

use vstd::prelude::*;
use crate::single::F32;
use crate::common::lit;
use crate::common::ZERO;
use crate::common::ONE;
use crate::ieee::weight;
use crate::ieee::lemma_weight_of_parts;
use crate::arith::lemma_scaled_representable;
use crate::arith::lemma_mul_exact;
use crate::convert::lemma_of_int_exact;
use vstd::arithmetic::power2::pow2;
use vstd::arithmetic::power2::lemma_pow2_pos;
use vstd::arithmetic::power2::lemma_pow2_adds;
use vstd::arithmetic::power2::lemma2_to64;

verus! {

/// `oorandom::Rand32`, the generator of 32-bit words, as a type of which
/// nothing but the name is known.
#[verifier::external_type_specification]
#[verifier::external_body]
pub struct ExRand32(oorandom::Rand32);

/// 2^-24, the weight of the last bit of a unit draw.
pub const UNIT_SCALE: u32 = 0x3380_0000;

/// `oorandom::Rand32::new`: a generator seeded with `seed`.
#[verifier::external_body]
pub(crate) fn seeded(seed: u64) -> (rng: oorandom::Rand32) {
    oorandom::Rand32::new(seed)
}

/// `oorandom::Rand32::rand_u32`: the generator's next word.
#[verifier::external_body]
pub(crate) fn next_word(rng: &mut oorandom::Rand32) -> (word: u32) {
    rng.rand_u32()
}

/// The datum below one that the top 24 bits of `word` stand for: those bits
/// as a whole number, times 2^-24.
pub open spec fn spec_unit(word: u32) -> F32 {
    F32::of_int(word as int / 256) * lit(UNIT_SCALE)
}

#[verifier::when_used_as_spec(spec_unit)]
pub fn unit(word: u32) -> (r: F32)
    ensures
        r == spec_unit(word),
{
    F32::from_u32(word / 256) * lit(UNIT_SCALE)
}

/// A unit draw is the top 24 bits of its word over 2^24, exactly, and so
/// at least zero and below one.
pub proof fn lemma_unit_range(word: u32)
    ensures
        spec_unit(word).is_finite(),
        spec_unit(word).value() == (word as int / 256) * pow2(125),
        spec_unit(word) >= lit(ZERO),
        spec_unit(word) < lit(ONE),
{
    let k = word as int / 256;
    let whole = F32::of_int(k);
    let scale = lit(UNIT_SCALE);
    lemma_of_int_exact(k);
    lemma_weight_of_parts(0x80_0000, 102);
    lemma_weight_of_parts(0x80_0000, 126);
    lemma_scaled_representable(k, 125);
    lemma_pow2_adds(23, 102);
    lemma_pow2_adds(23, 126);
    lemma_pow2_adds(125, 24);
    lemma2_to64();
    lemma_pow2_pos(125);
    assert(scale.value() == pow2(125));
    assert(whole.value() * scale.value() == (k * pow2(125)) * pow2(149)) by (nonlinear_arith)
        requires
            whole.value() == k * pow2(149),
            scale.value() == pow2(125),
    ;
    lemma_mul_exact(whole, scale, k * pow2(125));
    let draw = spec_unit(word);
    assert(draw.value() >= 0) by (nonlinear_arith)
        requires
            draw.value() == k * pow2(125),
            k >= 0,
            pow2(125) > 0,
    ;
    assert(draw.value() < pow2(149)) by (nonlinear_arith)
        requires
            draw.value() == k * pow2(125),
            k < 0x100_0000,
            pow2(149) == pow2(125) * 0x100_0000,
            pow2(125) > 0,
    ;
    assert(weight(ONE as int) == pow2(149));
    crate::ieee::lemma_weight_small(0);
    crate::ieee::lemma_weight_small(1);
    if draw.is_negative() {
        crate::ieee::lemma_weight_increases(1, if draw.magnitude() >= 1 {
            draw.magnitude()
        } else {
            1
        });
    } else if draw.magnitude() >= ONE {
        crate::ieee::lemma_weight_increases(ONE as int, draw.magnitude());
    }
}

} // verus!
