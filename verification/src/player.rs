//! The player's ship: a body steered by the gamepad, which coasts under
//! thrust, hovers back to where it was told to hold, and never exceeds its
//! top speed.

use vstd::prelude::*;
use crate::console::BUTTON_1;
use crate::console::BUTTON_2;
use crate::console::BUTTON_LEFT;
use crate::console::BUTTON_RIGHT;
use crate::console::BUTTON_UP;
use crate::console::BUTTON_DOWN;
use crate::single::F32;
use crate::arith::lemma_add_zero;
use crate::arith::lemma_mul_sign;
use crate::arith::lemma_div_sign;
use crate::bounds::power_bits;
use crate::bounds::lemma_weight_of_power;
use crate::bounds::lemma_mul_at_least;
use crate::bounds::lemma_div_at_least;
use vstd::arithmetic::power2::lemma_pow2_adds;
use crate::common::Vec2;
use crate::common::Rect;
use crate::common::lit;
use crate::common::spec_abs;
use crate::common::abs;
use crate::common::spec_clamp;
use crate::common::clamp;
use crate::common::ZERO;
use crate::common::HALF;
use crate::common::TWO;
use crate::common::QUARTER_TURN;
use crate::particle::PhysicsObject;
use crate::particle::MAX_LIFETIME;
use crate::particle::origin;

verus! {

/// 0.02, the force of one frame of thrust.
pub const POWER: u32 = 0x3ca3_d70a;

/// -0.02
pub const POWER_BACK: u32 = 0xbca3_d70a;

/// 2.0, the top speed.
pub const MAX_SPEED: u32 = 0x4000_0000;

/// -2.0, the kick of the first button.
pub const KICK: u32 = 0xc000_0000;

/// 0.005, the force below which the engine leaves no exhaust.
pub const EXHAUST_FLOOR: u32 = 0x3ba3_d70a;

/// -15.0, the exhaust's speed for each unit of thrust.
pub const EXHAUST_GAIN: u32 = 0xc170_0000;

/// 2.5, the pull toward the place to hold, in units of `POWER`.
pub const HOLD_GAIN: u32 = 0x4020_0000;

/// -0.2, the part of the velocity that a collision gives back as force
/// unless the ship is told another.
pub const RESTITUTION: u32 = 0xbe4c_cccd;

/// 1.5
pub const NOSE: u32 = 0x3fc0_0000;

/// -1.5
pub const TAIL: u32 = 0xbfc0_0000;

/// 3.0
pub const THREE: u32 = 0x4040_0000;

/// -pi / 2
pub const QUARTER_TURN_BACK: u32 = 0xbfc9_0fdb;

/// A line for the console to draw, from `(x1, y1)` to `(x2, y2)` in pixels.
#[derive(Clone, Copy, Debug, PartialEq, Eq, Structural)]
pub struct Line {
    pub x1: i32,
    pub y1: i32,
    pub x2: i32,
    pub y2: i32,
}

/// The button `button` is down in the gamepad byte `gamepad`.
pub open spec fn pressed(gamepad: u8, button: u8) -> bool {
    gamepad & button != 0
}

#[derive(Clone, Copy, Debug)]
pub struct Player {
    pub physics: PhysicsObject,
    /// The place that the ship is told to hold, if any.
    pub target: Option<Vec2>,
    /// The part of its velocity that the ship gets back as force when it
    /// collides: negative to slow it down.
    pub restitution: F32,
}

impl Player {
    pub fn new(pos: Vec2) -> (r: Player)
        ensures
            r.physics == (PhysicsObject {
                pos,
                vel: origin(),
                acc: origin(),
                lifetime: Some(MAX_LIFETIME),
            }),
            r.target.is_none(),
            r.restitution == lit(RESTITUTION),
    {
        Player {
            physics: PhysicsObject::new(pos, Some(MAX_LIFETIME)),
            target: None,
            restitution: lit(RESTITUTION),
        }
    }

    /// The force that the buttons of `gamepad` ask for at the velocity
    /// `vel`. Up and down, and left and right, each give at most `POWER`
    /// and no more than is left to the top speed on that axis; the first
    /// button adds a kick of the top speed upward while the ship is slow.
    pub open spec fn thrust(vel: Vec2, gamepad: u8) -> Vec2 {
        let delta_x = lit(MAX_SPEED) - spec_abs(vel.x);
        let delta_y = lit(MAX_SPEED) - spec_abs(vel.y);
        let vertical = if pressed(gamepad, BUTTON_UP) {
            Vec2 { x: lit(ZERO), y: spec_clamp(delta_y.neg(), lit(POWER_BACK), lit(ZERO)) }
        } else if pressed(gamepad, BUTTON_DOWN) {
            Vec2 { x: lit(ZERO), y: spec_clamp(delta_y, lit(ZERO), lit(POWER)) }
        } else {
            origin()
        };
        let steered = if pressed(gamepad, BUTTON_LEFT) {
            vertical + Vec2 {
                x: spec_clamp(delta_x.neg(), lit(POWER_BACK), lit(ZERO)),
                y: lit(ZERO),
            }
        } else if pressed(gamepad, BUTTON_RIGHT) {
            vertical + Vec2 { x: spec_clamp(delta_x, lit(ZERO), lit(POWER)), y: lit(ZERO) }
        } else {
            vertical
        };
        if pressed(gamepad, BUTTON_1) && vel.magnitude() < lit(HALF) {
            steered + Vec2 { x: lit(ZERO), y: lit(KICK) }
        } else {
            steered
        }
    }

    /// The ship after the gamepad has been read. With the second button
    /// down it is told to hold where it is. Without it the thrust is applied,
    /// and thrust above the exhaust floor ends the hold.
    pub open spec fn steered(self, gamepad: u8) -> Player {
        if pressed(gamepad, BUTTON_2) {
            Player { target: Some(self.physics.pos), ..self }
        } else {
            let force = Player::thrust(self.physics.vel, gamepad);
            Player {
                physics: self.physics.pushed(force),
                target: if force.magnitude() > lit(EXHAUST_FLOOR) {
                    None
                } else {
                    self.target
                },
                ..self
            }
        }
    }

    /// The velocity of the exhaust that the thrust leaves behind, where it
    /// leaves any.
    pub open spec fn exhaust(self, gamepad: u8) -> Option<Vec2> {
        let force = Player::thrust(self.physics.vel, gamepad);
        if !pressed(gamepad, BUTTON_2) && force.magnitude() > lit(EXHAUST_FLOOR) {
            Some(force * lit(EXHAUST_GAIN))
        } else {
            None
        }
    }

    pub fn handle_gamepad(&mut self, gamepad: u8) -> (r: Option<Vec2>)
        ensures
            *final(self) == old(self).steered(gamepad),
            r == old(self).exhaust(gamepad),
    {
        if gamepad & BUTTON_2 == 0 {
            let zero = lit(ZERO);
            let mut force = Vec2::new(zero, zero);
            let speed = self.physics.vel;
            let delta_x = lit(MAX_SPEED) - abs(speed.x);
            let delta_y = lit(MAX_SPEED) - abs(speed.y);
            if gamepad & BUTTON_UP != 0 {
                force = Vec2::new(zero, clamp(delta_y.neg(), lit(POWER_BACK), zero));
            } else if gamepad & BUTTON_DOWN != 0 {
                force = Vec2::new(zero, clamp(delta_y, zero, lit(POWER)));
            }
            if gamepad & BUTTON_LEFT != 0 {
                force.add_assign(
                    Vec2::new(clamp(delta_x.neg(), lit(POWER_BACK), zero), zero),
                );
            } else if gamepad & BUTTON_RIGHT != 0 {
                force.add_assign(Vec2::new(clamp(delta_x, zero, lit(POWER)), zero));
            }
            if gamepad & BUTTON_1 != 0 && self.physics.vel.magnitude() < lit(HALF) {
                force.add_assign(Vec2::new(zero, lit(KICK)));
            }
            self.apply_force(force);
            if force.magnitude() > lit(EXHAUST_FLOOR) {
                self.target = None;
                return Some(force * lit(EXHAUST_GAIN));
            }
            return None;
        }
        self.target = Some(self.physics.pos);
        None
    }

    /// The ship one step later: the body has moved, a ship that holds is
    /// pulled toward its place for the step after, and a velocity above the
    /// top speed is cut to it.
    pub open spec fn updated(self) -> Player {
        let moved = self.physics.updated();
        let pulled = match self.target {
            Some(target) => moved.pushed(
                (target - moved.pos - moved.vel).normalized() * lit(POWER) * lit(HOLD_GAIN),
            ),
            None => moved,
        };
        Player {
            physics: PhysicsObject {
                pos: pulled.pos,
                vel: if pulled.vel.magnitude() > lit(MAX_SPEED) {
                    pulled.vel.normalized() * lit(MAX_SPEED)
                } else {
                    pulled.vel
                },
                acc: pulled.acc,
                lifetime: pulled.lifetime,
            },
            ..self
        }
    }

    pub fn update(&mut self)
        ensures
            *final(self) == old(self).updated(),
    {
        self.physics.update();
        if let Some(target) = self.target {
            self.apply_force(
                (target - self.physics.pos - self.physics.vel).normalized() * lit(POWER) * lit(
                    HOLD_GAIN,
                ),
            );
        }
        if self.physics.vel.magnitude() > lit(MAX_SPEED) {
            self.physics.vel = self.physics.vel.normalized() * lit(MAX_SPEED);
        }
    }

    /// The ship with `force` added to what its body has gathered.
    pub open spec fn pushed(self, force: Vec2) -> Player {
        Player { physics: self.physics.pushed(force), ..self }
    }

    pub fn apply_force(&mut self, force: Vec2)
        ensures
            *final(self) == old(self).pushed(force),
    {
        self.physics.apply_force(force);
    }

    /// The ship after it has hit something: a force along its velocity,
    /// `restitution` times as large, whatever the direction of what it hit.
    pub open spec fn collided(self) -> Player {
        self.pushed(self.physics.vel * self.restitution)
    }

    pub fn collide(&mut self, to_collider: Vec2)
        ensures
            *final(self) == old(self).collided(),
    {
        self.apply_force(self.physics.vel * self.restitution);
    }

    /// Where the ship is on the screen that shows the window `view`.
    pub open spec fn on_screen(&self, view: &Rect) -> Vec2 {
        Vec2 {
            x: self.physics.pos.x - view.top_left.x,
            y: self.physics.pos.y - view.top_left.y,
        }
    }

    /// The four lines of the ship as a dart: from either wing tip to the
    /// nose and to the tail, all along the velocity.
    pub open spec fn dart(&self, view: &Rect) -> Seq<Line> {
        let at = self.on_screen(view);
        let start = Vec2 { x: at.x, y: at.y - lit(THREE) };
        let front = self.physics.vel * lit(NOSE) + start;
        let right = self.physics.vel.rotated(lit(QUARTER_TURN)) + start;
        let back = self.physics.vel * lit(TAIL) + start;
        let left = self.physics.vel.rotated(lit(QUARTER_TURN_BACK)) + start;
        seq![
            Line {
                x1: left.x.to_i32(),
                y1: left.y.to_i32(),
                x2: front.x.to_i32(),
                y2: front.y.to_i32(),
            },
            Line {
                x1: right.x.to_i32(),
                y1: right.y.to_i32(),
                x2: front.x.to_i32(),
                y2: front.y.to_i32(),
            },
            Line {
                x1: left.x.to_i32(),
                y1: left.y.to_i32(),
                x2: back.x.to_i32(),
                y2: back.y.to_i32(),
            },
            Line {
                x1: right.x.to_i32(),
                y1: right.y.to_i32(),
                x2: back.x.to_i32(),
                y2: back.y.to_i32(),
            },
        ]
    }

    pub fn draw2(&self, view: &Rect) -> (r: [Line; 4])
        ensures
            r@ == self.dart(view),
    {
        let left = view.top_left.x;
        let top = view.top_left.y;
        let x1 = self.physics.pos.x - left;
        let y1 = self.physics.pos.y - top;
        let start = Vec2::new(x1, y1 - lit(THREE));
        let front = self.physics.vel * lit(NOSE) + start;
        let right = self.physics.vel.rotated(lit(QUARTER_TURN)) + start;
        let back = self.physics.vel * lit(TAIL) + start;
        let left = self.physics.vel.rotated(lit(QUARTER_TURN_BACK)) + start;
        let r = [
            Line {
                x1: left.x.to_i32(),
                y1: left.y.to_i32(),
                x2: front.x.to_i32(),
                y2: front.y.to_i32(),
            },
            Line {
                x1: right.x.to_i32(),
                y1: right.y.to_i32(),
                x2: front.x.to_i32(),
                y2: front.y.to_i32(),
            },
            Line {
                x1: left.x.to_i32(),
                y1: left.y.to_i32(),
                x2: back.x.to_i32(),
                y2: back.y.to_i32(),
            },
            Line {
                x1: right.x.to_i32(),
                y1: right.y.to_i32(),
                x2: back.x.to_i32(),
                y2: back.y.to_i32(),
            },
        ];
        assert(r@ =~= self.dart(view));
        r
    }

    /// The four lines of the ship as a flag: a bar of five pixels two rows
    /// above the ship, and three lines from the bar's ends and from the ship
    /// to the point that the velocity leads to. Pixel coordinates wrap
    /// around at the ends of `i32`.
    pub open spec fn flag(&self, view: &Rect) -> Seq<Line> {
        let at = self.on_screen(view);
        let start = Vec2 { x: at.x, y: at.y - lit(TWO) };
        let end = self.physics.vel + start;
        seq![
            Line {
                x1: at.x.to_i32().wrapping_sub(2),
                y1: at.y.to_i32().wrapping_sub(2),
                x2: at.x.to_i32().wrapping_add(2),
                y2: at.y.to_i32().wrapping_sub(2),
            },
            Line {
                x1: start.x.to_i32().wrapping_sub(2),
                y1: start.y.to_i32(),
                x2: end.x.to_i32(),
                y2: end.y.to_i32(),
            },
            Line {
                x1: start.x.to_i32().wrapping_add(2),
                y1: start.y.to_i32(),
                x2: end.x.to_i32(),
                y2: end.y.to_i32(),
            },
            Line {
                x1: start.x.to_i32(),
                y1: start.y.to_i32().wrapping_add(2),
                x2: end.x.to_i32(),
                y2: end.y.to_i32(),
            },
        ]
    }

    pub fn draw(&self, view: &Rect) -> (r: [Line; 4])
        ensures
            r@ == self.flag(view),
    {
        let size: i32 = 2;
        let left = view.top_left.x;
        let top = view.top_left.y;
        let x1 = self.physics.pos.x - left;
        let y1 = self.physics.pos.y - top;
        let start = Vec2::new(x1, y1 - lit(TWO));
        let end = self.physics.vel + start;
        let r = [
            Line {
                x1: x1.to_i32().wrapping_sub(size),
                y1: y1.to_i32().wrapping_sub(size),
                x2: x1.to_i32().wrapping_add(size),
                y2: y1.to_i32().wrapping_sub(size),
            },
            Line {
                x1: start.x.to_i32().wrapping_sub(size),
                y1: start.y.to_i32(),
                x2: end.x.to_i32(),
                y2: end.y.to_i32(),
            },
            Line {
                x1: start.x.to_i32().wrapping_add(size),
                y1: start.y.to_i32(),
                x2: end.x.to_i32(),
                y2: end.y.to_i32(),
            },
            Line {
                x1: start.x.to_i32(),
                y1: start.y.to_i32().wrapping_add(2),
                x2: end.x.to_i32(),
                y2: end.y.to_i32(),
            },
        ];
        assert(r@ =~= self.flag(view));
        r
    }
}

/// Without a button down, a ship that has gathered no force stays as it
/// is and leaves no exhaust.
pub proof fn lemma_idle_gamepad(player: Player)
    requires
        player.physics.acc == origin(),
    ensures
        player.steered(0) == player,
        player.exhaust(0).is_none(),
{
    assert(0u8 & BUTTON_1 == 0) by (bit_vector);
    assert(0u8 & BUTTON_2 == 0) by (bit_vector);
    assert(0u8 & BUTTON_LEFT == 0) by (bit_vector);
    assert(0u8 & BUTTON_RIGHT == 0) by (bit_vector);
    assert(0u8 & BUTTON_UP == 0) by (bit_vector);
    assert(0u8 & BUTTON_DOWN == 0) by (bit_vector);
    let force = Player::thrust(player.physics.vel, 0);
    assert(force == origin());
    // The length of no force at all is the root of zero, far below the
    // floor.
    let zero = lit(ZERO);
    lemma_mul_sign(zero, zero);
    lemma_add_zero(zero, zero);
    assert(zero * zero == zero);
    assert(zero + zero == zero);
    assert(force.magnitude().bits == 0x1fc0_0000);
    assert(player.physics.pushed(force) == player.physics);
}

/// A ship at rest at the origin that holds no place, with a force gathered
/// that leads along +x alone and is at least 2^-51, has after its step a
/// velocity and a position along +x alone.
pub proof fn lemma_resting_ship_moves(player: Player)
    requires
        player.physics.pos == origin(),
        player.physics.vel == origin(),
        player.target.is_none(),
        !player.physics.acc.x.is_nan(),
        !player.physics.acc.x.is_negative(),
        player.physics.acc.x.magnitude() >= power_bits(75),
        player.physics.acc.y.is_zero(),
    ensures
        player.updated().physics.vel.x > lit(ZERO),
        player.updated().physics.vel.y.is_zero(),
        player.updated().physics.pos.x > lit(ZERO),
        player.updated().physics.pos.y.is_zero(),
{
    let zero = lit(ZERO);
    let acc = player.physics.acc;
    let moved = player.physics.updated();
    lemma_weight_of_power(10);
    lemma_weight_of_power(11);
    lemma_weight_of_power(75);
    lemma_weight_of_power(127);
    lemma_weight_of_power(191);
    // The force goes into the velocity and the velocity into the position,
    // each as it is.
    lemma_add_zero(acc.x, zero);
    lemma_add_zero(acc.y, zero);
    let vel = moved.vel;
    assert(vel.x == zero + acc.x);
    assert(vel.y == zero + acc.y);
    lemma_add_zero(vel.x, zero);
    lemma_add_zero(vel.y, zero);
    assert(moved.pos.x == zero + vel.x);
    assert(moved.pos.y == zero + vel.y);
    // A velocity above the top speed is cut, and still leads along +x.
    let length = vel.magnitude();
    if length > lit(MAX_SPEED) {
        assert(length.magnitude() <= power_bits(191));
        lemma_pow2_adds(33, 214);
        lemma_pow2_adds(98, 149);
        lemma_pow2_adds(34, 149);
        lemma_pow2_adds(33, 150);
        lemma_div_at_least(vel.x, length, power_bits(75), power_bits(191), power_bits(10));
        lemma_div_sign(vel.x, length);
        lemma_mul_at_least(
            vel.x / length,
            lit(MAX_SPEED),
            power_bits(10),
            power_bits(127),
            power_bits(11),
        );
        lemma_mul_sign(vel.x / length, lit(MAX_SPEED));
        lemma_div_sign(vel.y, length);
        lemma_mul_sign(vel.y / length, lit(MAX_SPEED));
    }
}

} // verus!
