//! Fixed-capacity storage of the `heapless` crate, and what this library
//! takes for granted of it.
//!
//! Nothing in this file is proved. Each function below calls one method of
//! `heapless`; its contract repeats what that method's source does to the
//! collection's contents, and the verified code of the other modules is
//! proved against these contracts.

use vstd::prelude::*;
use crate::arrangement::Note;
use crate::particle::PhysicsObject;
use crate::world::Planet;
use crate::world::Star;

verus! {

/// `heapless::Vec`, a vector with room for `N` items, as a type of which
/// nothing but the name is known.
#[verifier::external_type_specification]
#[verifier::external_body]
#[verifier::reject_recursive_types(T)]
pub struct ExFixedVec<T, const N: usize>(heapless::Vec<T, N>);

/// The notes that a vector of notes holds, first to last.
pub uninterp spec fn note_items(v: heapless::Vec<Note, 8>) -> Seq<Note>;

/// `heapless::Vec::new`: a vector that holds nothing.
#[verifier::external_body]
pub(crate) fn notes_new() -> (v: heapless::Vec<Note, 8>)
    ensures
        note_items(v) == Seq::<Note>::empty(),
{
    heapless::Vec::new()
}

/// `heapless::Vec::extend_from_slice`: where the slice fits into what is
/// left of the eight places, its items are appended in order; where it does
/// not, the vector is left as it was and the call fails.
#[verifier::external_body]
pub(crate) fn notes_extend(v: &mut heapless::Vec<Note, 8>, other: &[Note]) -> (r: Result<(), ()>)
    ensures
        r.is_ok() <==> note_items(*old(v)).len() + other@.len() <= 8,
        r.is_ok() ==> note_items(*final(v)) == note_items(*old(v)) + other@,
        r.is_err() ==> note_items(*final(v)) == note_items(*old(v)),
{
    v.extend_from_slice(other)
}

/// `heapless::Vec::as_slice`: the items, first to last; never more than the
/// eight that the vector has room for.
#[verifier::external_body]
pub(crate) fn notes_as_slice(v: &heapless::Vec<Note, 8>) -> (s: &[Note])
    ensures
        s@ == note_items(*v),
        s@.len() <= 8,
{
    v.as_slice()
}

/// The bodies that a particle pool holds, first to last.
pub uninterp spec fn particle_items(v: heapless::Vec<PhysicsObject, 255>) -> Seq<PhysicsObject>;

/// `heapless::Vec::new`: a pool that holds nothing.
#[verifier::external_body]
pub(crate) fn particles_new() -> (v: heapless::Vec<PhysicsObject, 255>)
    ensures
        particle_items(v) == Seq::<PhysicsObject>::empty(),
{
    heapless::Vec::new()
}

/// `heapless::Vec::push`: with fewer than 255 bodies in the pool the body is
/// appended; with 255 the pool is left as it was and the body comes back.
#[verifier::external_body]
pub(crate) fn particles_push(
    v: &mut heapless::Vec<PhysicsObject, 255>,
    item: PhysicsObject,
) -> (r: Result<(), PhysicsObject>)
    ensures
        r.is_ok() <==> particle_items(*old(v)).len() < 255,
        r.is_ok() ==> particle_items(*final(v)) == particle_items(*old(v)).push(item),
        r.is_err() ==> particle_items(*final(v)) == particle_items(*old(v)),
        r.is_err() ==> r->Err_0 == item,
    no_unwind
{
    v.push(item)
}

/// `heapless::Vec::clear`: the pool holds nothing afterwards.
#[verifier::external_body]
pub(crate) fn particles_clear(v: &mut heapless::Vec<PhysicsObject, 255>)
    ensures
        particle_items(*final(v)) == Seq::<PhysicsObject>::empty(),
    no_unwind
{
    v.clear()
}

/// `heapless::Vec::as_slice`: the bodies, first to last; never more than
/// the 255 that the pool has room for.
#[verifier::external_body]
pub(crate) fn particles_as_slice(v: &heapless::Vec<PhysicsObject, 255>) -> (s: &[PhysicsObject])
    ensures
        s@ == particle_items(*v),
        s@.len() <= 255,
{
    v.as_slice()
}

/// Assignment through `heapless::Vec`'s `DerefMut` to the slice of its
/// bodies: body number `i` is replaced and the others stay.
#[verifier::external_body]
pub(crate) fn particles_set(
    v: &mut heapless::Vec<PhysicsObject, 255>,
    i: usize,
    item: PhysicsObject,
)
    requires
        i < particle_items(*old(v)).len(),
    ensures
        particle_items(*final(v)) == particle_items(*old(v)).update(i as int, item),
    no_unwind
{
    v[i] = item;
}

/// `heapless::HistoryBuffer`, a ring of `N` places, as a type of which
/// nothing but the name is known.
#[verifier::external_type_specification]
#[verifier::external_body]
#[verifier::reject_recursive_types(T)]
pub struct ExHistoryBuffer<T, const N: usize>(heapless::HistoryBuffer<T, N>);

/// The planets that a ring of planets holds, in the order of its places.
pub uninterp spec fn planet_slots(b: heapless::HistoryBuffer<Planet, 255>) -> Seq<Planet>;

/// The place that the next planet written to a ring goes to.
pub uninterp spec fn planet_cursor(b: heapless::HistoryBuffer<Planet, 255>) -> nat;

/// `heapless::HistoryBuffer::new`: a ring that holds nothing, to be written
/// from its first place on.
#[verifier::external_body]
pub(crate) fn planets_new() -> (b: heapless::HistoryBuffer<Planet, 255>)
    ensures
        planet_slots(b) == Seq::<Planet>::empty(),
        planet_cursor(b) == 0,
{
    heapless::HistoryBuffer::new()
}

/// `heapless::HistoryBuffer::write`: while the ring is not full the planet
/// takes the next free place; once it is full the planet takes the place
/// under the cursor, whose planet is lost. The cursor moves on by one place
/// and from the last place to the first.
#[verifier::external_body]
pub(crate) fn planets_write(b: &mut heapless::HistoryBuffer<Planet, 255>, t: Planet)
    ensures
        planet_slots(*old(b)).len() < 255 ==> planet_slots(*final(b)) == planet_slots(*old(b)).push(
            t,
        ),
        planet_slots(*old(b)).len() >= 255 ==> planet_slots(*final(b)) == planet_slots(
            *old(b),
        ).update(planet_cursor(*old(b)) as int, t),
        planet_cursor(*final(b)) == (planet_cursor(*old(b)) + 1) % 255,
    no_unwind
{
    b.write(t)
}

/// `heapless::HistoryBuffer::as_slice`: the planets in the order of their
/// places; never more than the 255 places of the ring.
#[verifier::external_body]
pub(crate) fn planets_as_slice(b: &heapless::HistoryBuffer<Planet, 255>) -> (s: &[Planet])
    ensures
        s@ == planet_slots(*b),
        s@.len() <= 255,
{
    b.as_slice()
}

/// The stars that a ring of stars holds, in the order of its places.
pub uninterp spec fn star_slots(b: heapless::HistoryBuffer<Star, 255>) -> Seq<Star>;

/// The place that the next star written to a ring goes to.
pub uninterp spec fn star_cursor(b: heapless::HistoryBuffer<Star, 255>) -> nat;

/// `heapless::HistoryBuffer::new`, for stars.
#[verifier::external_body]
pub(crate) fn stars_new() -> (b: heapless::HistoryBuffer<Star, 255>)
    ensures
        star_slots(b) == Seq::<Star>::empty(),
        star_cursor(b) == 0,
{
    heapless::HistoryBuffer::new()
}

/// `heapless::HistoryBuffer::write`, for stars: the next free place while
/// the ring is not full, the place under the cursor once it is, and the
/// cursor one place on.
#[verifier::external_body]
pub(crate) fn stars_write(b: &mut heapless::HistoryBuffer<Star, 255>, t: Star)
    ensures
        star_slots(*old(b)).len() < 255 ==> star_slots(*final(b)) == star_slots(*old(b)).push(t),
        star_slots(*old(b)).len() >= 255 ==> star_slots(*final(b)) == star_slots(*old(b)).update(
            star_cursor(*old(b)) as int,
            t,
        ),
        star_cursor(*final(b)) == (star_cursor(*old(b)) + 1) % 255,
    no_unwind
{
    b.write(t)
}

/// `heapless::HistoryBuffer::as_slice`, for stars.
#[verifier::external_body]
pub(crate) fn stars_as_slice(b: &heapless::HistoryBuffer<Star, 255>) -> (s: &[Star])
    ensures
        s@ == star_slots(*b),
        s@.len() <= 255,
{
    b.as_slice()
}

} // verus!
