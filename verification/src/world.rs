//! The world: the player's ship among planets that pull at it, a field of
//! stars behind them, and the particles that the ship leaves.
//!
//! Planets and stars live in rings of 255 places, where the newest takes
//! the oldest's place once the ring is full; particles live in a pool of
//! 255, which starts over when it is full.

use vstd::prelude::*;
use crate::single::F32;
use crate::arith::lemma_add_commutes;
use crate::arith::lemma_mul_sign;
use crate::arith::lemma_div_sign;
use crate::arith::lemma_add_zero;
use crate::player::lemma_idle_gamepad;
use crate::player::lemma_resting_ship_moves;
use crate::bounds::power_bits;
use crate::bounds::lemma_weight_of_power;
use crate::bounds::lemma_add_at_least;
use crate::bounds::lemma_add_at_most;
use crate::bounds::lemma_mul_at_least;
use crate::bounds::lemma_mul_at_most;
use crate::bounds::lemma_div_at_least;
use crate::bounds::lemma_div_at_most;
use crate::ieee::weight;
use vstd::arithmetic::power2::pow2;
use vstd::arithmetic::power2::lemma_pow2_pos;
use crate::common::ONE;
use vstd::arithmetic::power2::lemma_pow2_adds;
use vstd::arithmetic::power2::lemma_pow2_unfold;
use vstd::arithmetic::power2::lemma_pow2_strictly_increases;
use crate::arith::lemma_square_of_difference;
use crate::common::Vec2;
use crate::common::Rect;
use crate::common::lit;
use crate::common::ZERO;
use crate::common::HALF;
use crate::common::TWO;
use crate::gfx::Screen;
use crate::gfx::ScreenView;
use crate::gfx::Shade;
use crate::gfx::disc_filled;
use crate::gfx::fill_disc;
use crate::particle::PhysicsObject;
use crate::particle::MAX_LIFETIME;
use crate::particle::origin;
use crate::player::Player;
use crate::player::Line;
use crate::player::THREE;
use crate::player::NOSE;
use crate::player::RESTITUTION;
use crate::random::spec_unit;
use crate::random::unit;
use crate::random::seeded;
use crate::random::next_word;
use crate::storage::particle_items;
use crate::storage::particles_new;
use crate::storage::particles_push;
use crate::storage::particles_clear;
use crate::storage::particles_as_slice;
use crate::storage::particles_set;
use crate::storage::planet_slots;
use crate::storage::planet_cursor;
use crate::storage::planets_new;
use crate::storage::planets_write;
use crate::storage::planets_as_slice;
use crate::storage::star_slots;
use crate::storage::star_cursor;
use crate::storage::stars_new;
use crate::storage::stars_write;
use crate::storage::stars_as_slice;

verus! {

/// 114.0, the distance from the middle of the window to just past its
/// corners.
pub const VISIBILITY: u32 = 0x42e4_0000;

/// 342.0, three times the visibility: how far a planet's pull reaches.
pub const REACH: u32 = 0x43ab_0000;

/// 570.0, five times the visibility: the radius within which planets and
/// stars are counted.
pub const DENSITY_RADIUS: u32 = 0x440e_8000;

/// 0.4, the part of a planet's pull that the ship and the particles feel
/// unless the world is told another.
pub const COUPLING: u32 = 0x3ecc_cccd;

/// 80.0, half the window.
pub const HALF_WINDOW: u32 = 0x42a0_0000;

/// -80.0
pub const HALF_WINDOW_BACK: u32 = 0xc2a0_0000;

/// 1 / 3, the pace of the stars' layer.
pub const THIRD: u32 = 0x3eaa_aaab;

/// 300.0, the side of the square around the window's middle in which a new
/// planet is tried.
pub const PLANET_SPREAD: u32 = 0x4396_0000;

/// 30.0, the span of a new planet's radius.
pub const RADIUS_SPAN: u32 = 0x41f0_0000;

/// 5.0, the least radius of a new planet.
pub const RADIUS_FLOOR: u32 = 0x40a0_0000;

/// 1000.0, the side of the square in which a new star is tried.
pub const STAR_SPREAD: u32 = 0x447a_0000;

/// 0.1, the chance that a frame of thrust leaves a particle.
pub const EXHAUST_CHANCE: u32 = 0x3dcc_cccd;

/// The number of planets near the window below which a new one is tried.
pub const PLANET_TARGET: u8 = 20;

/// The number of stars near the window below which a new one is tried.
pub const STAR_TARGET: u8 = 35;

#[derive(Clone, Copy, Debug)]
pub struct Planet {
    pub pos: Vec2,
    pub radius: F32,
    pub color: u8,
}

impl Planet {
    pub fn new(pos: Vec2, radius: F32, color: u8) -> (r: Planet)
        ensures
            r == (Planet { pos, radius, color }),
    {
        Planet { pos, radius, color }
    }

    /// The pull at `distance` from the planet's middle: the radius over the
    /// square of the distance to a surface that lies 2 below the planet's.
    pub open spec fn spec_gravity(&self, distance: F32) -> F32 {
        let distance_to_surface = distance - (self.radius - lit(TWO));
        self.radius / (distance_to_surface * distance_to_surface)
    }

    #[verifier::when_used_as_spec(spec_gravity)]
    pub fn gravity(&self, distance: F32) -> (r: F32)
        ensures
            r == self.spec_gravity(distance),
    {
        let distance_to_surface = distance - (self.radius - lit(TWO));
        self.radius / (distance_to_surface * distance_to_surface)
    }

    /// The screen with the planet drawn through the window `view`: a disc
    /// of the planet's radius, black in the middle and of the planet's
    /// brightness at the rim.
    pub open spec fn drawn(&self, view: &Rect, s: ScreenView) -> ScreenView {
        disc_filled(
            s,
            self.pos,
            view.top_left,
            self.radius,
            Shade::Radial { radius: self.radius, brightness: self.color },
            25600,
        )
    }

    pub fn draw(&self, view: &Rect, screen: &mut Screen)
        ensures
            final(screen)@ == self.drawn(view, old(screen)@),
    {
        fill_disc(
            screen,
            self.pos,
            view.top_left,
            self.radius,
            Shade::Radial { radius: self.radius, brightness: self.color },
        );
    }
}

#[derive(Clone, Copy, Debug)]
pub struct Star {
    pub pos: Vec2,
    pub color: u8,
    pub size: F32,
}

impl Star {
    pub fn new(pos: Vec2, color: u8, size: F32) -> (r: Star)
        ensures
            r == (Star { pos, color, size }),
    {
        Star { pos, color, size }
    }

    /// The screen with the star drawn through the window `view`: a disc of
    /// the star's size and brightness, on a layer that moves a third as fast
    /// as the world.
    pub open spec fn drawn(&self, view: &Rect, s: ScreenView) -> ScreenView {
        disc_filled(
            s,
            self.pos * lit(THIRD),
            Vec2 { x: view.top_left.x / lit(THREE), y: view.top_left.y / lit(THREE) },
            self.size,
            Shade::Flat { brightness: self.color },
            25600,
        )
    }

    pub fn draw(&self, view: &Rect, screen: &mut Screen)
        ensures
            final(screen)@ == self.drawn(view, old(screen)@),
    {
        let left = view.top_left.x / lit(THREE);
        let top = view.top_left.y / lit(THREE);
        fill_disc(
            screen,
            self.pos * lit(THIRD),
            Vec2::new(left, top),
            self.size,
            Shade::Flat { brightness: self.color },
        );
    }
}

/// Two planets keep their distance: their middles are farther apart than
/// three times the sum of their radii.
pub open spec fn apart(a: Planet, b: Planet) -> bool {
    a.pos.distance(b.pos) > (a.radius + b.radius) * lit(THREE)
}

/// Every two planets of `planets` keep their distance.
pub open spec fn all_apart(planets: Seq<Planet>) -> bool {
    forall|i: int, j: int|
        0 <= i < planets.len() && 0 <= j < planets.len() && i != j ==> apart(
            #[trigger] planets[i],
            #[trigger] planets[j],
        )
}

/// How many of the first `n` planets lie within the density radius of
/// `center`.
pub open spec fn planets_near(planets: Seq<Planet>, center: Vec2, n: nat) -> nat
    decreases n,
{
    if n == 0 {
        0
    } else {
        planets_near(planets, center, (n - 1) as nat) + if planets[n - 1].pos.distance(center)
            < lit(DENSITY_RADIUS) {
            1nat
        } else {
            0nat
        }
    }
}

/// How many of the first `n` stars lie within the density radius of
/// `center`.
pub open spec fn stars_near(stars: Seq<Star>, center: Vec2, n: nat) -> nat
    decreases n,
{
    if n == 0 {
        0
    } else {
        stars_near(stars, center, (n - 1) as nat) + if stars[n - 1].pos.distance(center) < lit(
            DENSITY_RADIUS,
        ) {
            1nat
        } else {
            0nat
        }
    }
}

pub struct World {
    view: Rect,
    player: Player,
    planets: heapless::HistoryBuffer<Planet, 255>,
    stars: heapless::HistoryBuffer<Star, 255>,
    particles: heapless::Vec<PhysicsObject, 255>,
    seconds_passed: u32,
    mouse_clicked: bool,
    score: u16,
    coupling: F32,
}

/// What a `World` holds.
pub struct WorldView {
    pub view: Rect,
    pub player: Player,
    /// The planets in the order of their places in the ring.
    pub planets: Seq<Planet>,
    /// The place that the next planet goes to.
    pub planet_cursor: nat,
    /// The stars in the order of their places in the ring.
    pub stars: Seq<Star>,
    /// The place that the next star goes to.
    pub star_cursor: nat,
    /// The particles, oldest first.
    pub particles: Seq<PhysicsObject>,
    pub seconds_passed: u32,
    pub mouse_clicked: bool,
    pub score: u16,
    /// The part of a planet's pull that the ship and the particles feel.
    pub coupling: F32,
}

impl View for World {
    type V = WorldView;

    closed spec fn view(&self) -> WorldView {
        WorldView {
            view: self.view,
            player: self.player,
            planets: planet_slots(self.planets),
            planet_cursor: planet_cursor(self.planets),
            stars: star_slots(self.stars),
            star_cursor: star_cursor(self.stars),
            particles: particle_items(self.particles),
            seconds_passed: self.seconds_passed,
            mouse_clicked: self.mouse_clicked,
            score: self.score,
            coupling: self.coupling,
        }
    }
}

impl WorldView {
    /// The rings and the pool hold at most 255, a ring that is not full is
    /// written at its end, and every two planets keep their distance.
    pub open spec fn wf(self) -> bool {
        &&& self.planets.len() <= 255
        &&& self.planet_cursor < 255
        &&& self.planets.len() < 255 ==> self.planet_cursor == self.planets.len()
        &&& self.stars.len() <= 255
        &&& self.star_cursor < 255
        &&& self.stars.len() < 255 ==> self.star_cursor == self.stars.len()
        &&& self.particles.len() <= 255
        &&& all_apart(self.planets)
    }

    /// A new world: the ship at rest at the origin in the middle of the
    /// window, and nothing else.
    pub open spec fn fresh(coupling: F32, restitution: F32) -> WorldView {
        WorldView {
            view: Rect {
                top_left: Vec2 { x: lit(HALF_WINDOW_BACK), y: lit(HALF_WINDOW_BACK) },
                width: 160,
                height: 160,
            },
            player: Player {
                physics: PhysicsObject {
                    pos: origin(),
                    vel: origin(),
                    acc: origin(),
                    lifetime: Some(MAX_LIFETIME),
                },
                target: None,
                restitution,
            },
            planets: Seq::empty(),
            planet_cursor: 0,
            stars: Seq::empty(),
            star_cursor: 0,
            particles: Seq::empty(),
            seconds_passed: 0,
            mouse_clicked: false,
            score: 0,
            coupling,
        }
    }

    /// The number of planets within the density radius of the window's
    /// middle.
    pub open spec fn planet_count(self) -> nat {
        planets_near(self.planets, self.view.center(), self.planets.len())
    }

    /// The number of stars within the density radius of the middle of the
    /// stars' window.
    pub open spec fn star_count(self) -> nat {
        stars_near(self.stars, self.view.center_mul(lit(THREE)), self.stars.len())
    }

    /// The world with the window moved so that `pos` is in its middle.
    pub open spec fn viewed_from(self, pos: Vec2) -> WorldView {
        WorldView {
            view: Rect {
                top_left: Vec2 {
                    x: pos.x - lit(HALF_WINDOW),
                    y: pos.y - lit(HALF_WINDOW),
                },
                width: self.view.width,
                height: self.view.height,
            },
            ..self
        }
    }
}

impl World {
    /// Every world is well formed.
    #[verifier::type_invariant]
    closed spec fn well_formed(self) -> bool {
        self@.wf()
    }

    /// A world with the ship at rest in the middle of the window and
    /// nothing else in it, with the coupling and the restitution that the
    /// constants name.
    pub fn new() -> (r: World)
        ensures
            r@ == WorldView::fresh(lit(COUPLING), lit(RESTITUTION)),
            r@.wf(),
    {
        World::with_tuning(lit(COUPLING), lit(RESTITUTION))
    }

    /// A new world in which the ship and the particles feel `coupling`
    /// times the pull of a planet, and the ship gets back `restitution`
    /// times its velocity as force when it collides.
    pub fn with_tuning(coupling: F32, restitution: F32) -> (r: World)
        ensures
            r@ == WorldView::fresh(coupling, restitution),
            r@.wf(),
    {
        let mut player = Player::new(Vec2::new(lit(ZERO), lit(ZERO)));
        player.restitution = restitution;
        World {
            view: Rect::new(
                Vec2::new(lit(HALF_WINDOW_BACK), lit(HALF_WINDOW_BACK)),
            ),
            player,
            planets: planets_new(),
            particles: particles_new(),
            stars: stars_new(),
            seconds_passed: 0,
            mouse_clicked: false,
            score: 0,
            coupling,
        }
    }

    pub fn change_view(&mut self, pos: Vec2)
        ensures
            final(self)@ == old(self)@.viewed_from(pos),
    {
        proof {
            use_type_invariant(&*self);
        }
        let pos = Vec2::new(
            pos.x - lit(HALF_WINDOW),
            pos.y - lit(HALF_WINDOW),
        );
        let mut view = self.view;
        view.change_pos(pos);
        self.view = view;
    }

    /// The number of planets within the density radius of the window's
    /// middle.
    pub fn count_planets(&self) -> (r: u8)
        ensures
            r == self@.planet_count(),
    {
        let center = self.view.center();
        let planets = planets_as_slice(&self.planets);
        let mut count: u8 = 0;
        let mut i: usize = 0;
        while i < planets.len()
            invariant
                i <= planets@.len() <= 255,
                count == planets_near(planets@, center, i as nat),
                count <= i,
            decreases planets@.len() - i,
        {
            if planets[i].pos.distance(center) < lit(DENSITY_RADIUS) {
                count = count + 1;
            }
            i = i + 1;
        }
        count
    }

    /// The number of stars within the density radius of the middle of the
    /// stars' window.
    pub fn count_stars(&self) -> (r: u8)
        ensures
            r == self@.star_count(),
    {
        let center = self.view.center_mul(lit(THREE));
        let stars = stars_as_slice(&self.stars);
        let mut count: u8 = 0;
        let mut i: usize = 0;
        while i < stars.len()
            invariant
                i <= stars@.len() <= 255,
                count == stars_near(stars@, center, i as nat),
                count <= i,
            decreases stars@.len() - i,
        {
            if stars[i].pos.distance(center) < lit(DENSITY_RADIUS) {
                count = count + 1;
            }
            i = i + 1;
        }
        count
    }
}

/// Keeping one's distance is mutual.
pub proof fn lemma_apart_mutual(a: Planet, b: Planet)
    ensures
        apart(a, b) == apart(b, a),
{
    lemma_square_of_difference(a.pos.x, b.pos.x);
    lemma_square_of_difference(a.pos.y, b.pos.y);
    lemma_add_commutes(a.radius, b.radius);
}

/// A ring after `item` has been written to it: at the end while the ring is
/// not full, and over the item under the cursor once it is.
pub open spec fn written<T>(slots: Seq<T>, cursor: nat, item: T) -> Seq<T> {
    if slots.len() < 255 {
        slots.push(item)
    } else {
        slots.update(cursor as int, item)
    }
}

/// The items of a ring from the oldest to the newest: a ring that is full
/// begins under its cursor.
pub open spec fn by_age<T>(slots: Seq<T>, cursor: nat) -> Seq<T> {
    if slots.len() < 255 {
        slots
    } else {
        slots.subrange(cursor as int, 255) + slots.subrange(0, cursor as int)
    }
}

/// A ring keeps its items in the order in which they were written, and
/// once it is full each new item takes the place of the oldest.
pub proof fn lemma_ring_drops_the_oldest<T>(slots: Seq<T>, cursor: nat, item: T)
    requires
        slots.len() <= 255,
        cursor < 255,
        slots.len() < 255 ==> cursor == slots.len(),
    ensures
        by_age(written(slots, cursor, item), ((cursor + 1) % 255) as nat) == if slots.len() < 255 {
            by_age(slots, cursor).push(item)
        } else {
            by_age(slots, cursor).drop_first().push(item)
        },
{
    let after = by_age(written(slots, cursor, item), ((cursor + 1) % 255) as nat);
    if slots.len() < 255 {
        assert(after =~= by_age(slots, cursor).push(item));
    } else {
        assert(after =~= by_age(slots, cursor).drop_first().push(item));
    }
}

/// The pool after `item` has been put in: at the end, and alone once 255
/// were in it.
pub open spec fn pooled(items: Seq<PhysicsObject>, item: PhysicsObject) -> Seq<PhysicsObject> {
    if items.len() < 255 {
        items.push(item)
    } else {
        seq![item]
    }
}

/// The particle that sets out at `pos` under the force `force`.
pub open spec fn particle_from(pos: Vec2, force: Vec2) -> PhysicsObject {
    PhysicsObject { pos, vel: origin(), acc: origin() + force, lifetime: Some(MAX_LIFETIME) }
}

impl Planet {
    /// The planet keeps its distance from each of `planets`.
    pub open spec fn clear_of(self, planets: Seq<Planet>) -> bool {
        forall|i: int| 0 <= i < planets.len() ==> apart(#[trigger] planets[i], self)
    }

    /// The planet may join `planets` while the ship is at `player_pos`: it
    /// lies farther from the ship than the visibility and its own radius,
    /// and keeps its distance from every planet there is.
    pub open spec fn admitted(self, planets: Seq<Planet>, player_pos: Vec2) -> bool {
        self.pos.distance(player_pos) > lit(VISIBILITY) + self.radius && self.clear_of(planets)
    }
}

impl Star {
    /// The star may join the field seen from `center`: it lies in the ring
    /// between the reach and the density radius around it.
    pub open spec fn admitted(self, center: Vec2) -> bool {
        self.pos.distance(center) > lit(REACH) && self.pos.distance(center) < lit(DENSITY_RADIUS)
    }
}

impl WorldView {
    /// The world after `possible` has been offered as a planet.
    pub open spec fn planet_offered(self, possible: Planet, player_pos: Vec2) -> WorldView {
        if possible.admitted(self.planets, player_pos) {
            WorldView {
                planets: written(self.planets, self.planet_cursor, possible),
                planet_cursor: (self.planet_cursor + 1) % 255,
                ..self
            }
        } else {
            self
        }
    }

    /// The world after `star` has been offered as a star.
    pub open spec fn star_offered(self, star: Star) -> WorldView {
        if star.admitted(self.view.center_mul(lit(THREE))) {
            WorldView {
                stars: written(self.stars, self.star_cursor, star),
                star_cursor: (self.star_cursor + 1) % 255,
                ..self
            }
        } else {
            self
        }
    }

    /// The world with a new particle at `pos` under the force `force`.
    pub open spec fn particle_added(self, pos: Vec2, force: Vec2) -> WorldView {
        WorldView { particles: pooled(self.particles, particle_from(pos, force)), ..self }
    }
}

impl World {
    /// Offers `possible` as a new planet, which is written to the ring where
    /// it is admitted and dropped where it is not.
    pub fn offer_planet(&mut self, possible: Planet, player_pos: Vec2)
        ensures
            final(self)@ == old(self)@.planet_offered(possible, player_pos),
            final(self)@.wf(),
    {
        proof {
            use_type_invariant(&*self);
        }
        if possible.pos.distance(player_pos) > lit(VISIBILITY) + possible.radius {
            let planets = planets_as_slice(&self.planets);
            let mut clear = true;
            let mut i: usize = 0;
            while i < planets.len() && clear
                invariant
                    i <= planets@.len(),
                    clear ==> forall|j: int| 0 <= j < i ==> apart(#[trigger] planets@[j], possible),
                    !clear ==> !possible.clear_of(planets@),
                decreases planets@.len() - i,
            {
                let planet = planets[i];
                if !(planet.pos.distance(possible.pos) > (planet.radius + possible.radius) * lit(
                    THREE,
                )) {
                    clear = false;
                }
                i = i + 1;
            }
            if clear {
                proof {
                    let before = old(self)@.planets;
                    let after = written(before, old(self)@.planet_cursor, possible);
                    assert forall|a: int, b: int|
                        0 <= a < after.len() && 0 <= b < after.len() && a != b implies apart(
                        #[trigger] after[a],
                        #[trigger] after[b],
                    ) by {
                        if after[a] == possible && after[b] != possible {
                            lemma_apart_mutual(after[b], possible);
                        }
                        if before.len() < 255 {
                            if a == before.len() {
                                lemma_apart_mutual(after[b], possible);
                            }
                        } else {
                            if a == old(self)@.planet_cursor {
                                lemma_apart_mutual(after[b], possible);
                            }
                        }
                    }
                }
                planets_write(&mut self.planets, possible);
            }
        }
    }

    /// Offers `star` as a new star.
    pub fn offer_star(&mut self, star: Star)
        ensures
            final(self)@ == old(self)@.star_offered(star),
            final(self)@.wf(),
    {
        proof {
            use_type_invariant(&*self);
        }
        let center = self.view.center_mul(lit(THREE));
        let distance = star.pos.distance(center);
        if distance > lit(REACH) && distance < lit(DENSITY_RADIUS) {
            stars_write(&mut self.stars, star);
        }
    }

    /// Puts a new particle into the pool, which is emptied first where it is
    /// full.
    pub fn gen_particle(&mut self, pos: Vec2, force: Vec2)
        ensures
            final(self)@ == old(self)@.particle_added(pos, force),
            final(self)@.wf(),
    {
        proof {
            use_type_invariant(&*self);
        }
        let mut particle = PhysicsObject::new(pos, Some(MAX_LIFETIME));
        particle.apply_force(force);
        match particles_push(&mut self.particles, particle) {
            Ok(_) => (),
            Err(particle) => {
                particles_clear(&mut self.particles);
                let _ = particles_push(&mut self.particles, particle);
            },
        }
    }
}

/// The pull of `planet` on a body at `pos`: along the line to the planet's
/// middle and as strong as the planet's gravity at that distance, for a body
/// within the planet's reach and more than 2 above its surface. No other
/// body is pulled.
pub open spec fn pull(planet: Planet, pos: Vec2) -> Option<Vec2> {
    let delta = planet.pos - pos;
    let distance = delta.magnitude();
    if distance < lit(REACH) && distance > planet.radius + lit(TWO) {
        Some(delta.normalized() * planet.gravity(distance))
    } else {
        None
    }
}

/// A planet never pushes away: along either axis its pull is zero or leads
/// the way that the planet lies, wherever it is a number. This holds of a
/// planet whose radius is not negative.
pub proof fn lemma_pull_leads_to_planet(planet: Planet, pos: Vec2)
    requires
        !planet.radius.is_negative(),
    ensures
        pull(planet, pos) matches Some(force) ==> {
            &&& (planet.pos - pos).x >= lit(ZERO) ==> !(force.x < lit(ZERO))
            &&& (planet.pos - pos).x <= lit(ZERO) ==> !(force.x > lit(ZERO))
            &&& (planet.pos - pos).y >= lit(ZERO) ==> !(force.y < lit(ZERO))
            &&& (planet.pos - pos).y <= lit(ZERO) ==> !(force.y > lit(ZERO))
        },
{
    let delta = planet.pos - pos;
    let distance = delta.magnitude();
    if distance < lit(REACH) && distance > planet.radius + lit(TWO) {
        let to_surface = distance - (planet.radius - lit(TWO));
        let square = to_surface * to_surface;
        let gravity = planet.gravity(distance);
        assert(gravity == planet.radius / square);
        // The gravity is not negative, and neither is the distance.
        lemma_mul_sign(to_surface, to_surface);
        lemma_div_sign(planet.radius, square);
        assert(!gravity.is_negative());
        assert(!distance.is_negative() && !distance.is_nan());
        // So each part of the pull has the sign of the way to the planet.
        lemma_div_sign(delta.x, distance);
        lemma_mul_sign(delta.x / distance, gravity);
        lemma_div_sign(delta.y, distance);
        lemma_mul_sign(delta.y / distance, gravity);
        let force = delta.normalized() * gravity;
        assert(force.x == (delta.x / distance) * gravity);
        assert(force.y == (delta.y / distance) * gravity);
    }
}

/// One part of a pull, `d / distance * gravity`, is at least 2^-31 in size
/// where `d` is at least 1 in size, the distance at most 512 and the gravity
/// at least 2^-22.
proof fn lemma_part_is_felt(d: F32, distance: F32, gravity: F32)
    requires
        !d.is_nan(),
        d.magnitude() >= ONE,
        distance.magnitude() <= power_bits(135),
        !gravity.is_nan(),
        gravity.magnitude() >= power_bits(104),
    ensures
        !(d / distance * gravity).is_nan(),
        (d / distance * gravity).magnitude() >= power_bits(95),
{
    lemma_weight_of_power(95);
    lemma_weight_of_power(104);
    lemma_weight_of_power(117);
    lemma_weight_of_power(126);
    lemma_weight_of_power(135);
    lemma_pow2_adds(140, 158);
    lemma_pow2_adds(149, 149);
    lemma_pow2_adds(118, 149);
    lemma_pow2_adds(140, 127);
    lemma_div_at_least(d, distance, power_bits(126), power_bits(135), power_bits(117));
    lemma_mul_at_least(d / distance, gravity, power_bits(117), power_bits(104), power_bits(95));
}

/// The gravity of a planet of a radius of at least 1, where the planet
/// pulls at all: the distance is above zero and below 512, and the gravity
/// is a number from 2^-22 to 2^55.
pub proof fn lemma_gravity_in_reach(planet: Planet, pos: Vec2)
    requires
        planet.radius >= lit(ONE),
        pull(planet, pos).is_some(),
    ensures
        !(planet.pos - pos).magnitude().is_nan(),
        !(planet.pos - pos).magnitude().is_negative(),
        0 < (planet.pos - pos).magnitude().magnitude() < power_bits(135),
        !planet.gravity((planet.pos - pos).magnitude()).is_negative(),
        power_bits(104) <= planet.gravity((planet.pos - pos).magnitude()).magnitude()
            <= power_bits(181),
{
    reveal(F32::spec_add);
    let delta = planet.pos - pos;
    let distance = delta.magnitude();
    let radius = planet.radius;
    lemma_weight_of_power(80);
    lemma_weight_of_power(103);
    lemma_weight_of_power(104);
    lemma_weight_of_power(126);
    lemma_weight_of_power(127);
    lemma_weight_of_power(135);
    lemma_weight_of_power(136);
    lemma_weight_of_power(137);
    lemma_weight_of_power(148);
    lemma_weight_of_power(181);
    // The radius is below the distance, and the distance below 512.
    lemma_add_at_least(radius, lit(TWO));
    let rmag = radius.magnitude();
    let dmag = distance.magnitude();
    assert(ONE <= rmag < dmag < power_bits(135));
    // What is taken off the distance is no more than the radius.
    lemma_pow2_unfold(159);
    lemma_pow2_unfold(160);
    lemma_pow2_strictly_increases(150, 158);
    lemma_pow2_strictly_increases(158, 159);
    lemma_add_at_most(radius, lit(TWO).neg(), power_bits(135), power_bits(127), power_bits(136));
    let below = radius - lit(TWO);
    let wr = weight(rmag);
    let wd = weight(dmag);
    crate::ieee::lemma_weight_small(0);
    crate::ieee::lemma_weight_increases(0, rmag);
    crate::ieee::lemma_weight_increases(0, below.magnitude());
    let taken = radius.value() + lit(TWO).neg().value();
    if taken > 0 {
        crate::ieee::lemma_nearest_at_most(taken, 1, rmag);
        crate::ieee::lemma_weight_increases(below.magnitude(), rmag);
    } else if taken < 0 {
        crate::ieee::lemma_nearest_range(-taken, 1);
    }
    assert(below.value() <= wr);
    // So the distance to the surface is from 2^-23 to 2048.
    crate::ieee::lemma_weight_step(rmag);
    crate::ieee::lemma_weight_increases(rmag + 1, dmag);
    if crate::ieee::ulp_exponent(rmag) > 126 {
        lemma_pow2_strictly_increases(126, crate::ieee::ulp_exponent(rmag));
    }
    let left = distance.value() + below.neg().value();
    assert(left >= pow2(126));
    lemma_pow2_pos(126);
    crate::ieee::lemma_nearest_at_least(left, 1, power_bits(103));
    lemma_add_at_most(distance, below.neg(), power_bits(135), power_bits(136), power_bits(137));
    let to_surface = distance - below;
    assert(!to_surface.is_negative());
    assert(power_bits(103) <= to_surface.magnitude() <= power_bits(137));
    // Its square is from 2^-46 to 2^22.
    lemma_pow2_adds(160, 160);
    lemma_pow2_adds(171, 149);
    lemma_pow2_adds(103, 149);
    lemma_pow2_adds(126, 126);
    lemma_mul_at_most(to_surface, to_surface, power_bits(137), power_bits(137), power_bits(148));
    lemma_mul_at_least(to_surface, to_surface, power_bits(103), power_bits(103), power_bits(80));
    lemma_mul_sign(to_surface, to_surface);
    let square = to_surface * to_surface;
    // And the gravity from 2^-22 to 2^55.
    lemma_pow2_adds(127, 171);
    lemma_pow2_adds(149, 149);
    lemma_pow2_adds(158, 149);
    lemma_pow2_adds(204, 103);
    lemma_div_at_least(radius, square, power_bits(126), power_bits(148), power_bits(104));
    lemma_div_at_most(radius, square, power_bits(135), power_bits(80), power_bits(181));
    lemma_div_sign(radius, square);
    assert(planet.gravity(distance) == radius / square);
}

/// A planet of a radius of at least 1 is felt: where it pulls at all, its
/// pull along an axis on which it lies at least 1 away is not zero, and
/// leads the way that the planet lies; along an axis on which it lies
/// straight ahead, its pull is zero.
pub proof fn lemma_pull_is_felt(planet: Planet, pos: Vec2)
    requires
        planet.radius >= lit(ONE),
    ensures
        pull(planet, pos) matches Some(force) ==> {
            &&& (planet.pos - pos).x >= lit(ONE) ==> force.x > lit(ZERO)
            &&& (planet.pos - pos).x <= lit(ONE).neg() ==> force.x < lit(ZERO)
            &&& (planet.pos - pos).x.is_zero() ==> force.x.is_zero()
            &&& (planet.pos - pos).y >= lit(ONE) ==> force.y > lit(ZERO)
            &&& (planet.pos - pos).y <= lit(ONE).neg() ==> force.y < lit(ZERO)
            &&& (planet.pos - pos).y.is_zero() ==> force.y.is_zero()
        },
{
    let delta = planet.pos - pos;
    let distance = delta.magnitude();
    if pull(planet, pos).is_some() {
        lemma_pull_leads_to_planet(planet, pos);
        lemma_gravity_in_reach(planet, pos);
        let gravity = planet.gravity(distance);
        if delta.x >= lit(ONE) || delta.x <= lit(ONE).neg() {
            lemma_part_is_felt(delta.x, distance, gravity);
        }
        if delta.y >= lit(ONE) || delta.y <= lit(ONE).neg() {
            lemma_part_is_felt(delta.y, distance, gravity);
        }
        lemma_div_sign(delta.x, distance);
        lemma_mul_sign(delta.x / distance, gravity);
        lemma_div_sign(delta.y, distance);
        lemma_mul_sign(delta.y / distance, gravity);
        let force = delta.normalized() * gravity;
        assert(force.x == delta.x / distance * gravity);
        assert(force.y == delta.y / distance * gravity);
    }
}

/// A body at `pos` is inside `planet`.
pub open spec fn inside(planet: Planet, pos: Vec2) -> bool {
    (planet.pos - pos).magnitude() < planet.radius
}

/// The body after the first `n` of `planets`, in the order of their places,
/// have pulled at it: it feels `coupling` times each pull, as the ship does.
pub open spec fn attracted(
    body: PhysicsObject,
    planets: Seq<Planet>,
    coupling: F32,
    n: nat,
) -> PhysicsObject
    decreases n,
{
    if n == 0 {
        body
    } else {
        let before = attracted(body, planets, coupling, (n - 1) as nat);
        match pull(planets[n - 1], before.pos) {
            Some(force) => before.pushed(force * coupling),
            None => before,
        }
    }
}

/// The ship, while at `pos`, after the first `n` of `planets` have pulled
/// at it: it feels `coupling` times the pull, and collides with a planet
/// that it is inside of and that does not pull.
pub open spec fn ship_attracted(
    player: Player,
    pos: Vec2,
    planets: Seq<Planet>,
    coupling: F32,
    n: nat,
) -> Player
    decreases n,
{
    if n == 0 {
        player
    } else {
        let before = ship_attracted(player, pos, planets, coupling, (n - 1) as nat);
        match pull(planets[n - 1], pos) {
            Some(force) => before.pushed(force * coupling),
            None => if inside(planets[n - 1], pos) {
                before.collided()
            } else {
                before
            },
        }
    }
}

/// A particle one step later among `planets`: pulled by each as the ship
/// is, then moved.
pub open spec fn particle_moved(
    body: PhysicsObject,
    planets: Seq<Planet>,
    coupling: F32,
) -> PhysicsObject {
    attracted(body, planets, coupling, planets.len()).updated()
}

impl WorldView {
    /// The world after the planets have pulled at the ship, seen at `pos`.
    pub open spec fn player_attracted(self, pos: Vec2) -> WorldView {
        WorldView {
            player: ship_attracted(
                self.player,
                pos,
                self.planets,
                self.coupling,
                self.planets.len(),
            ),
            ..self
        }
    }

    /// The world after every particle has taken a step.
    pub open spec fn particles_moved(self) -> WorldView {
        WorldView {
            particles: Seq::new(
                self.particles.len(),
                |i: int| particle_moved(self.particles[i], self.planets, self.coupling),
            ),
            ..self
        }
    }

    /// The point of the world under the pointer at `mouse` on the screen.
    pub open spec fn pointed_at(self, mouse: (i16, i16)) -> Vec2 {
        Vec2 {
            x: self.view.top_left.x + F32::of_int(mouse.0 as int),
            y: self.view.top_left.y + F32::of_int(mouse.1 as int),
        }
    }

    /// The world after the pointer has been found pressed at `mouse`: a
    /// press that has been seen before does nothing; a new one sends a
    /// particle from the ship toward the pointer and is remembered.
    pub open spec fn clicked(self, mouse: (i16, i16)) -> WorldView {
        if self.mouse_clicked {
            self
        } else {
            WorldView {
                mouse_clicked: true,
                ..self.particle_added(
                    self.player.physics.pos,
                    (self.pointed_at(mouse) - self.player.physics.pos).normalized() * lit(NOSE),
                )
            }
        }
    }
}

impl World {
    /// Lets every planet pull at the ship, as seen at `player_pos`.
    pub fn attract_player(&mut self, player_pos: Vec2)
        ensures
            final(self)@ == old(self)@.player_attracted(player_pos),
            final(self)@.wf(),
    {
        proof {
            use_type_invariant(&*self);
        }
        let planets = planets_as_slice(&self.planets);
        let coupling = self.coupling;
        let ghost start = self.player;
        let mut player = self.player;
        let mut i: usize = 0;
        while i < planets.len()
            invariant
                i <= planets@.len(),
                coupling == old(self)@.coupling,
                player == ship_attracted(start, player_pos, planets@, coupling, i as nat),
            decreases planets@.len() - i,
        {
            let planet = planets[i];
            let delta = planet.pos - player_pos;
            let distance = delta.magnitude();
            if distance < lit(REACH) && distance > planet.radius + lit(TWO) {
                let force = planet.gravity(distance);
                player.apply_force(delta.normalized() * force * coupling);
            } else if distance < planet.radius {
                player.collide(delta);
            }
            i = i + 1;
        }
        proof {
            use_type_invariant(&*self);
        }
        self.player = player;
    }

    /// Lets every planet pull at every particle, by the law by which it
    /// pulls at the ship, and moves the particles.
    pub fn move_particles(&mut self)
        ensures
            final(self)@ == old(self)@.particles_moved(),
            final(self)@.wf(),
    {
        proof {
            use_type_invariant(&*self);
        }
        let planets = planets_as_slice(&self.planets);
        let coupling = self.coupling;
        let ghost start = particle_items(self.particles);
        let count = particles_as_slice(&self.particles).len();
        let mut i: usize = 0;
        while i < count
            invariant
                i <= count == start.len(),
                planets@ == old(self)@.planets,
                coupling == old(self)@.coupling,
                start == old(self)@.particles,
                (WorldView { particles: start, ..self@ }) == old(self)@,
                old(self)@.wf(),
                particle_items(self.particles).len() == count,
                forall|k: int|
                    0 <= k < i ==> #[trigger] particle_items(self.particles)[k] == particle_moved(
                        start[k],
                        planets@,
                        coupling,
                    ),
                forall|k: int|
                    i <= k < count ==> #[trigger] particle_items(self.particles)[k] == start[k],
            decreases count - i,
        {
            let mut particle = particles_as_slice(&self.particles)[i];
            let ghost fresh = particle;
            let mut j: usize = 0;
            while j < planets.len()
                invariant
                    j <= planets@.len(),
                    particle == attracted(fresh, planets@, coupling, j as nat),
                decreases planets@.len() - j,
            {
                let planet = planets[j];
                let delta = planet.pos - particle.pos;
                let distance = delta.magnitude();
                if distance < lit(REACH) && distance > planet.radius + lit(TWO) {
                    let force = planet.gravity(distance);
                    particle.apply_force(delta.normalized() * force * coupling);
                }
                j = j + 1;
            }
            particle.update();
            particles_set(&mut self.particles, i, particle);
            i = i + 1;
        }
        proof {
            assert(particle_items(self.particles) =~= old(self)@.particles_moved().particles);
        }
    }

    /// Reads the gamepad: steers the ship and returns the velocity of the
    /// exhaust that the thrust leaves, where it leaves any.
    pub fn handle_gamepad(&mut self, gamepad: u8) -> (r: Option<Vec2>)
        ensures
            final(self)@ == (WorldView {
                player: old(self)@.player.steered(gamepad),
                ..old(self)@
            }),
            r == old(self)@.player.exhaust(gamepad),
    {
        proof {
            use_type_invariant(&*self);
        }
        let mut player = self.player;
        let exhaust = player.handle_gamepad(gamepad);
        proof {
            use_type_invariant(&*self);
        }
        self.player = player;
        exhaust
    }

    /// Takes note that the pointer is pressed at `mouse`.
    pub fn mouse_click(&mut self, mouse: (i16, i16))
        ensures
            final(self)@ == old(self)@.clicked(mouse),
            final(self)@.wf(),
    {
        proof {
            use_type_invariant(&*self);
        }
        if !self.mouse_clicked {
            let (x, y) = mouse;
            let pos = Vec2::new(
                self.view.top_left.x + F32::from_i16(x),
                self.view.top_left.y + F32::from_i16(y),
            );
            let from = self.player.physics.pos;
            self.gen_particle(from, (pos - from).normalized() * lit(NOSE));
            self.mouse_clicked = true;
        }
    }
}

/// The words that one tick may draw from the generator, in the order in
/// which it draws them. A tick draws only those that it has a use for.
pub struct Draws {
    /// Decides whether a frame of thrust leaves a particle.
    pub exhaust: u32,
    pub planet_size: u32,
    pub planet_x: u32,
    pub planet_y: u32,
    pub planet_radius: u32,
    pub star_x: u32,
    pub star_y: u32,
    pub star_color: u32,
    pub star_size: u32,
}

impl Planet {
    /// The planet that four words propose around `center`: somewhere in the
    /// square of side 300 around it, with a radius from 5 to 35 and a
    /// brightness from 155 to 254.
    pub open spec fn spec_candidate(
        center: Vec2,
        size_word: u32,
        x_word: u32,
        y_word: u32,
        radius_word: u32,
    ) -> Planet {
        Planet {
            pos: Vec2 {
                x: center.x + (spec_unit(x_word) - lit(HALF)) * lit(PLANET_SPREAD),
                y: center.y + (spec_unit(y_word) - lit(HALF)) * lit(PLANET_SPREAD),
            },
            radius: spec_unit(radius_word) * lit(RADIUS_SPAN) + lit(RADIUS_FLOOR),
            color: (size_word % 100 + 155) as u8,
        }
    }

    #[verifier::when_used_as_spec(spec_candidate)]
    pub fn candidate(
        center: Vec2,
        size_word: u32,
        x_word: u32,
        y_word: u32,
        radius_word: u32,
    ) -> (r: Planet)
        ensures
            r == Planet::spec_candidate(center, size_word, x_word, y_word, radius_word),
    {
        let planet_size: u8 = (size_word % 100) as u8;
        Planet::new(
            Vec2::new(
                center.x + (unit(x_word) - lit(HALF)) * lit(PLANET_SPREAD),
                center.y + (unit(y_word) - lit(HALF)) * lit(PLANET_SPREAD),
            ),
            unit(radius_word) * lit(RADIUS_SPAN) + lit(RADIUS_FLOOR),
            planet_size + 155u8,
        )
    }
}

impl Star {
    /// The star that four words propose around `center`: somewhere in the
    /// square of side 1000 around it, with a brightness below 200 and a size
    /// from 0.5 to 2.5.
    pub open spec fn spec_candidate(
        center: Vec2,
        x_word: u32,
        y_word: u32,
        color_word: u32,
        size_word: u32,
    ) -> Star {
        Star {
            pos: Vec2 {
                x: center.x + (spec_unit(x_word) - lit(HALF)) * lit(STAR_SPREAD),
                y: center.y + (spec_unit(y_word) - lit(HALF)) * lit(STAR_SPREAD),
            },
            color: (color_word % 200) as u8,
            size: spec_unit(size_word) * lit(TWO) + lit(HALF),
        }
    }

    #[verifier::when_used_as_spec(spec_candidate)]
    pub fn candidate(
        center: Vec2,
        x_word: u32,
        y_word: u32,
        color_word: u32,
        size_word: u32,
    ) -> (r: Star)
        ensures
            r == Star::spec_candidate(center, x_word, y_word, color_word, size_word),
    {
        Star::new(
            Vec2::new(
                center.x + (unit(x_word) - lit(HALF)) * lit(STAR_SPREAD),
                center.y + (unit(y_word) - lit(HALF)) * lit(STAR_SPREAD),
            ),
            (color_word % 200) as u8,
            unit(size_word) * lit(TWO) + lit(HALF),
        )
    }
}

impl WorldView {
    /// The world after the thrust of this tick has left its particle, or
    /// none.
    pub open spec fn exhausted(self, gamepad: u8, word: u32) -> WorldView {
        let steered = WorldView { player: self.player.steered(gamepad), ..self };
        match self.player.exhaust(gamepad) {
            Some(force) => if spec_unit(word) < lit(EXHAUST_CHANCE) {
                steered.particle_added(self.player.physics.pos, force)
            } else {
                steered
            },
            None => steered,
        }
    }

    /// The world after the ship has moved and the window has followed it,
    /// so that the ship is in its middle, at the time `time` in seconds.
    pub open spec fn advanced(self, time: u32) -> WorldView {
        WorldView {
            player: self.player.updated(),
            seconds_passed: if self.seconds_passed < time {
                (self.seconds_passed + 1) as u32
            } else {
                self.seconds_passed
            },
            ..self.viewed_from(self.player.updated().physics.pos)
        }
    }

    /// The world after a planet has been tried, where fewer than the target
    /// are near. The planet has to keep clear of `pos`, where the ship was
    /// when the tick began.
    pub open spec fn planted(self, pos: Vec2, draws: Draws) -> WorldView {
        if self.planet_count() < PLANET_TARGET {
            self.planet_offered(
                Planet::spec_candidate(
                    self.view.center(),
                    draws.planet_size,
                    draws.planet_x,
                    draws.planet_y,
                    draws.planet_radius,
                ),
                pos,
            )
        } else {
            self
        }
    }

    /// The world after a star has been tried, where fewer than the target
    /// are near.
    pub open spec fn starred(self, draws: Draws) -> WorldView {
        if self.star_count() < STAR_TARGET {
            self.star_offered(
                Star::spec_candidate(
                    self.view.center_mul(lit(THREE)),
                    draws.star_x,
                    draws.star_y,
                    draws.star_color,
                    draws.star_size,
                ),
            )
        } else {
            self
        }
    }

    /// The world one tick later, at the time `time` in seconds, with the
    /// gamepad byte `gamepad` and the words `draws` from the generator. The
    /// ship is steered and may leave a particle; the planets pull at it
    /// where it is; it moves, and the window follows to where it has moved;
    /// a planet and a star are tried; the particles move.
    pub open spec fn ticked(self, time: u32, gamepad: u8, draws: Draws) -> WorldView {
        let pos = self.player.physics.pos;
        self.exhausted(gamepad, draws.exhaust).player_attracted(pos).advanced(time).planted(
            pos,
            draws,
        ).starred(draws).particles_moved()
    }
}

/// A ship at rest at the origin falls toward the one planet of the world:
/// where the planet has a radius of at least 1, lies at least 1 away
/// straight along +x and pulls at the ship, and the coupling is a number of
/// at least 2^-20, a tick without a button down leaves the ship with a
/// velocity and a position above zero along x and of zero along y,
/// whatever the generator hands out.
pub proof fn lemma_resting_ship_falls(w: WorldView, time: u32, draws: Draws)
    requires
        w.player.physics.pos == origin(),
        w.player.physics.vel == origin(),
        w.player.physics.acc == origin(),
        w.player.target.is_none(),
        w.planets.len() == 1,
        w.planets[0].radius >= lit(ONE),
        w.planets[0].pos.x >= lit(ONE),
        w.planets[0].pos.y.is_zero(),
        pull(w.planets[0], origin()).is_some(),
        w.coupling.is_finite(),
        !w.coupling.is_negative(),
        w.coupling.magnitude() >= power_bits(106),
    ensures
        w.ticked(time, 0, draws).player.physics.vel.x > lit(ZERO),
        w.ticked(time, 0, draws).player.physics.vel.y.is_zero(),
        w.ticked(time, 0, draws).player.physics.pos.x > lit(ZERO),
        w.ticked(time, 0, draws).player.physics.pos.y.is_zero(),
{
    let planet = w.planets[0];
    let here = origin();
    let zero = lit(ZERO);
    // The idle gamepad leaves the ship alone.
    lemma_idle_gamepad(w.player);
    let steered = w.exhausted(0, draws.exhaust);
    assert(steered == w);
    // The way to the planet is the planet's place.
    let delta = planet.pos - here;
    lemma_add_zero(planet.pos.x, zero.neg());
    lemma_add_zero(planet.pos.y, zero.neg());
    assert(delta.x >= lit(ONE));
    assert(delta.y.is_zero());
    // The pull leads along +x alone and is at least 2^-31.
    lemma_pull_is_felt(planet, here);
    lemma_gravity_in_reach(planet, here);
    let distance = delta.magnitude();
    let gravity = planet.gravity(distance);
    lemma_part_is_felt(delta.x, distance, gravity);
    let force = delta.normalized() * gravity;
    assert(pull(planet, here) == Some(force));
    assert(force.x == delta.x / distance * gravity);
    // The ship feels at least 2^-51 of it.
    lemma_weight_of_power(75);
    lemma_weight_of_power(95);
    lemma_weight_of_power(106);
    lemma_pow2_adds(98, 149);
    lemma_pow2_adds(118, 129);
    lemma_mul_at_least(force.x, w.coupling, power_bits(95), power_bits(106), power_bits(75));
    lemma_mul_sign(force.x, w.coupling);
    lemma_mul_sign(force.y, w.coupling);
    let felt = force * w.coupling;
    lemma_add_zero(felt.x, zero);
    lemma_add_zero(felt.y, zero);
    reveal_with_fuel(ship_attracted, 2);
    let pulled = ship_attracted(w.player, here, w.planets, w.coupling, 1);
    assert(pulled == w.player.pushed(felt));
    assert(pulled.physics.acc.x == zero + felt.x);
    assert(pulled.physics.acc.y == zero + felt.y);
    lemma_resting_ship_moves(pulled);
    let advanced = steered.player_attracted(here).advanced(time);
    assert(advanced.player == pulled.updated());
    assert(w.ticked(time, 0, draws).player == advanced.player);
}

/// In a ring that has been written to once, at most one more planet lies
/// near `center` than before.
pub proof fn lemma_near_after_write(slots: Seq<Planet>, cursor: nat, item: Planet, center: Vec2)
    requires
        slots.len() <= 255,
        cursor < 255,
    ensures
        planets_near(written(slots, cursor, item), center, written(slots, cursor, item).len())
            <= planets_near(slots, center, slots.len()) + 1,
{
    let after = written(slots, cursor, item);
    if slots.len() < 255 {
        lemma_near_of_changed(slots, after, center, slots.len(), -1);
    } else {
        lemma_near_of_changed(slots, after, center, slots.len(), cursor as int);
    }
}

/// Where two rings differ in the place `k` at most, the numbers of planets
/// near `center` among their first `n` differ by one at most.
proof fn lemma_near_of_changed(
    before: Seq<Planet>,
    after: Seq<Planet>,
    center: Vec2,
    n: nat,
    k: int,
)
    requires
        n <= before.len() <= after.len(),
        forall|i: int| 0 <= i < n && i != k ==> before[i] == after[i],
    ensures
        planets_near(after, center, n) <= planets_near(before, center, n) + if 0 <= k < n {
            1nat
        } else {
            0nat
        },
    decreases n,
{
    if n > 0 {
        lemma_near_of_changed(before, after, center, (n - 1) as nat, k);
    }
}

impl World {
    /// Tries a new star: draws one in the square around the middle of the
    /// stars' window and offers it.
    pub fn gen_star(&mut self, random: oorandom::Rand32)
        ensures
            final(self)@.wf(),
            exists|x: u32, y: u32, color: u32, size: u32|
                final(self)@ == old(self)@.star_offered(
                    Star::spec_candidate(
                        old(self)@.view.center_mul(lit(THREE)),
                        x,
                        y,
                        color,
                        size,
                    ),
                ),
    {
        proof {
            use_type_invariant(&*self);
        }
        let mut random = random;
        let x = next_word(&mut random);
        let y = next_word(&mut random);
        let color = next_word(&mut random);
        let size = next_word(&mut random);
        let star = Star::candidate(self.view.center_mul(lit(THREE)), x, y, color, size);
        self.offer_star(star);
    }

    /// Advances the world by one tick, at the time `time` in seconds, with
    /// the gamepad byte `gamepad`. The generator is seeded with
    /// `frame_count`, and whatever words it hands out, the world afterwards
    /// is the world `ticked` with them. The window ends up around the ship
    /// where it has moved to. A tick that writes a planet leaves no more
    /// than `PLANET_TARGET` near the window, and no tick lifts their number
    /// above it.
    pub fn update(&mut self, time: u32, gamepad: u8, frame_count: u32)
        ensures
            final(self)@.wf(),
            exists|draws: Draws| final(self)@ == old(self)@.ticked(time, gamepad, draws),
            final(self)@.view.top_left == (Vec2 {
                x: final(self)@.player.physics.pos.x - lit(HALF_WINDOW),
                y: final(self)@.player.physics.pos.y - lit(HALF_WINDOW),
            }),
            final(self)@.planets != old(self)@.planets ==> final(self)@.planet_count()
                <= PLANET_TARGET,
            planets_near(old(self)@.planets, final(self)@.view.center(), old(self)@.planets.len())
                <= PLANET_TARGET ==> final(self)@.planet_count() <= PLANET_TARGET,
    {
        proof {
            use_type_invariant(&*self);
        }
        let mut random = seeded(frame_count as u64);
        let player_pos = self.player.physics.pos;
        let mut exhaust: u32 = 0;
        if let Some(particle_force) = self.handle_gamepad(gamepad) {
            exhaust = next_word(&mut random);
            if unit(exhaust) < lit(EXHAUST_CHANCE) {
                self.gen_particle(player_pos, particle_force);
            }
        }
        let ghost exhausted = self@;
        assert(exhausted == old(self)@.exhausted(gamepad, exhaust));
        self.attract_player(player_pos);
        let mut player = self.player;
        player.update();
        proof {
            use_type_invariant(&*self);
        }
        self.player = player;
        self.change_view(player.physics.pos);
        if self.seconds_passed < time {
            self.seconds_passed += 1;
        }
        let ghost advanced = self@;
        assert(advanced == exhausted.player_attracted(player_pos).advanced(time));
        let mut planet_size: u32 = 0;
        let mut planet_x: u32 = 0;
        let mut planet_y: u32 = 0;
        let mut planet_radius: u32 = 0;
        if self.count_planets() < PLANET_TARGET {
            planet_size = next_word(&mut random);
            planet_x = next_word(&mut random);
            planet_y = next_word(&mut random);
            planet_radius = next_word(&mut random);
            let possible = Planet::candidate(
                self.view.center(),
                planet_size,
                planet_x,
                planet_y,
                planet_radius,
            );
            proof {
                lemma_near_after_write(
                    self@.planets,
                    self@.planet_cursor,
                    possible,
                    self@.view.center(),
                );
            }
            self.offer_planet(possible, player_pos);
        }
        let ghost planted = self@;
        let ghost star_words: (u32, u32, u32, u32) = (0, 0, 0, 0);
        if self.count_stars() < STAR_TARGET {
            self.gen_star(random);
            proof {
                star_words = choose|x: u32, y: u32, color: u32, size: u32|
                    self@ == planted.star_offered(
                        Star::spec_candidate(
                            planted.view.center_mul(lit(THREE)),
                            x,
                            y,
                            color,
                            size,
                        ),
                    );
            }
        }
        let ghost draws = Draws {
            exhaust,
            planet_size,
            planet_x,
            planet_y,
            planet_radius,
            star_x: star_words.0,
            star_y: star_words.1,
            star_color: star_words.2,
            star_size: star_words.3,
        };
        assert(planted == advanced.planted(player_pos, draws));
        assert(self@ == planted.starred(draws));
        self.move_particles();
        assert(self@ == old(self)@.ticked(time, gamepad, draws));
    }
}

/// The screen after those of the first `n` of `stars` that lie within the
/// reach of `center`, the middle of the stars' window, have been drawn.
pub open spec fn stars_drawn(s: ScreenView, stars: Seq<Star>, view: Rect, n: nat) -> ScreenView
    decreases n,
{
    if n == 0 {
        s
    } else {
        let before = stars_drawn(s, stars, view, (n - 1) as nat);
        if stars[n - 1].pos.distance(view.center_mul(lit(THREE))) < lit(REACH) {
            stars[n - 1].drawn(&view, before)
        } else {
            before
        }
    }
}

/// The screen after those of the first `n` of `planets` that reach into the
/// visibility of the window's middle have been drawn.
pub open spec fn planets_drawn(
    s: ScreenView,
    planets: Seq<Planet>,
    view: Rect,
    n: nat,
) -> ScreenView
    decreases n,
{
    if n == 0 {
        s
    } else {
        let before = planets_drawn(s, planets, view, (n - 1) as nat);
        if planets[n - 1].pos.distance(view.center()) < lit(VISIBILITY) + planets[n - 1].radius {
            planets[n - 1].drawn(&view, before)
        } else {
            before
        }
    }
}

/// The screen after those of the first `n` of `particles` that lie within
/// the visibility of the window's middle have been drawn.
pub open spec fn particles_drawn(
    s: ScreenView,
    particles: Seq<PhysicsObject>,
    view: Rect,
    n: nat,
) -> ScreenView
    decreases n,
{
    if n == 0 {
        s
    } else {
        let before = particles_drawn(s, particles, view, (n - 1) as nat);
        if particles[n - 1].pos.distance(view.center()) < lit(VISIBILITY) {
            particles[n - 1].debug_drawn(&view, before)
        } else {
            before
        }
    }
}

impl WorldView {
    /// The screen after the world has been drawn onto it, back to front:
    /// the stars, over them the planets, over them the particles.
    pub open spec fn rendered(self, s: ScreenView) -> ScreenView {
        particles_drawn(
            planets_drawn(
                stars_drawn(s, self.stars, self.view, self.stars.len()),
                self.planets,
                self.view,
                self.planets.len(),
            ),
            self.particles,
            self.view,
            self.particles.len(),
        )
    }
}

impl World {
    /// Draws the world onto `screen`, back to front, and returns the lines
    /// of the ship, which go over all of it.
    pub fn draw(&self, screen: &mut Screen) -> (r: [Line; 4])
        ensures
            final(screen)@ == self@.rendered(old(screen)@),
            r@ == self@.player.flag(&self@.view),
    {
        let view = &self.view;
        let ghost start = screen@;
        let stars = stars_as_slice(&self.stars);
        let star_center = self.view.center_mul(lit(THREE));
        let mut i: usize = 0;
        while i < stars.len()
            invariant
                i <= stars@.len(),
                star_center == view.center_mul(lit(THREE)),
                screen@ == stars_drawn(start, stars@, *view, i as nat),
            decreases stars@.len() - i,
        {
            if stars[i].pos.distance(star_center) < lit(REACH) {
                stars[i].draw(view, screen);
            }
            i = i + 1;
        }
        let ghost starry = screen@;
        let planets = planets_as_slice(&self.planets);
        let center = self.view.center();
        let mut i: usize = 0;
        while i < planets.len()
            invariant
                i <= planets@.len(),
                center == view.center(),
                screen@ == planets_drawn(starry, planets@, *view, i as nat),
            decreases planets@.len() - i,
        {
            if planets[i].pos.distance(center) < lit(VISIBILITY) + planets[i].radius {
                planets[i].draw(view, screen);
            }
            i = i + 1;
        }
        let ghost planetary = screen@;
        let particles = particles_as_slice(&self.particles);
        let mut i: usize = 0;
        while i < particles.len()
            invariant
                i <= particles@.len(),
                center == view.center(),
                screen@ == particles_drawn(planetary, particles@, *view, i as nat),
            decreases particles@.len() - i,
        {
            if particles[i].pos.distance(center) < lit(VISIBILITY) {
                particles[i].debug_draw(view, screen);
            }
            i = i + 1;
        }
        self.player.draw(view)
    }

    /// Takes note that the pointer is not pressed, so that the next press
    /// is a new one.
    pub fn mouse_release(&mut self)
        ensures
            final(self)@ == (WorldView { mouse_clicked: false, ..old(self)@ }),
    {
        proof {
            use_type_invariant(&*self);
        }
        self.mouse_clicked = false;
    }

    /// Whether the pointer was pressed when it was last looked at.
    pub fn mouse_clicked(&self) -> (r: bool)
        ensures
            r == self@.mouse_clicked,
    {
        self.mouse_clicked
    }

    /// The window.
    pub fn window(&self) -> (r: Rect)
        ensures
            r == self@.view,
    {
        self.view
    }

    /// The ship.
    pub fn player(&self) -> (r: Player)
        ensures
            r == self@.player,
    {
        self.player
    }

    /// The planets in the order of their places in the ring.
    pub fn planets(&self) -> (r: &[Planet])
        ensures
            r@ == self@.planets,
            self@.wf(),
    {
        proof {
            use_type_invariant(self);
        }
        planets_as_slice(&self.planets)
    }

    /// The stars in the order of their places in the ring.
    pub fn stars(&self) -> (r: &[Star])
        ensures
            r@ == self@.stars,
            self@.wf(),
    {
        proof {
            use_type_invariant(self);
        }
        stars_as_slice(&self.stars)
    }

    /// The particles, oldest first.
    pub fn particles(&self) -> (r: &[PhysicsObject])
        ensures
            r@ == self@.particles,
            self@.wf(),
    {
        proof {
            use_type_invariant(self);
        }
        particles_as_slice(&self.particles)
    }

    /// The whole seconds that the world has seen pass.
    pub fn seconds_passed(&self) -> (r: u32)
        ensures
            r == self@.seconds_passed,
    {
        self.seconds_passed
    }

    pub fn score(&self) -> (r: u16)
        ensures
            r == self@.score,
    {
        self.score
    }

    /// The part of a planet's pull that the ship and the particles feel.
    pub fn coupling(&self) -> (r: F32)
        ensures
            r == self@.coupling,
    {
        self.coupling
    }
}

} // verus!
