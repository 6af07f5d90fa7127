//! A body that moves: position, velocity, the force gathered for the next
//! step, and an optional lifetime that runs down.

use vstd::prelude::*;
use crate::single::F32;
use crate::arith::representable;
use crate::arith::lemma_add_exact;
use crate::arith::lemma_value_representable;
use crate::common::Vec2;
use crate::common::Rect;
use crate::common::lit;
use crate::common::spec_map;
use crate::common::ZERO;
use crate::common::ONE;
use crate::gfx::Screen;
use crate::gfx::ScreenView;
use crate::gfx::Shade;
use crate::gfx::disc_filled;
use crate::gfx::fill_disc;

verus! {

/// The lifetime, in steps, that a fresh particle has.
pub const MAX_LIFETIME: u16 = 600;

/// 255.0, the brightness of a body with all of its lifetime left.
pub const FULL_BRIGHTNESS: u32 = 0x437f_0000;

#[derive(Clone, Copy, Debug)]
pub struct PhysicsObject {
    pub pos: Vec2,
    pub vel: Vec2,
    pub acc: Vec2,
    pub lifetime: Option<u16>,
}

/// The vector of two positive zeros.
pub open spec fn origin() -> Vec2 {
    Vec2 { x: lit(ZERO), y: lit(ZERO) }
}

/// A lifetime one step later: one less, and 0 once it is 0.
pub open spec fn decayed(lifetime: Option<u16>) -> Option<u16> {
    match lifetime {
        Some(left) => Some(
            if left == 0 {
                0u16
            } else {
                (left - 1) as u16
            },
        ),
        None => None,
    }
}

impl PhysicsObject {
    /// A body at rest at `pos`.
    pub fn new(pos: Vec2, lifetime: Option<u16>) -> (r: PhysicsObject)
        ensures
            r == (PhysicsObject { pos, vel: origin(), acc: origin(), lifetime }),
    {
        PhysicsObject {
            pos,
            vel: Vec2::new(lit(ZERO), lit(ZERO)),
            acc: Vec2::new(lit(ZERO), lit(ZERO)),
            lifetime,
        }
    }

    /// The body one step later: the gathered force has gone into the
    /// velocity, the new velocity into the position, no force is left, and
    /// the lifetime has run down by one.
    pub open spec fn updated(self) -> PhysicsObject {
        PhysicsObject {
            pos: self.pos + (self.vel + self.acc),
            vel: self.vel + self.acc,
            acc: origin(),
            lifetime: decayed(self.lifetime),
        }
    }

    /// The body `n` steps later, with no force applied in between.
    pub open spec fn updated_times(self, n: nat) -> PhysicsObject
        decreases n,
    {
        if n == 0 {
            self
        } else {
            self.updated_times((n - 1) as nat).updated()
        }
    }

    pub fn update(&mut self)
        ensures
            *final(self) == old(self).updated(),
    {
        self.vel.add_assign(self.acc);
        self.pos.add_assign(self.vel);
        self.acc = Vec2::new(lit(ZERO), lit(ZERO));
        if let Some(lifetime) = self.lifetime {
            match lifetime.checked_sub(1) {
                Some(lifetime) => self.lifetime = Some(lifetime),
                None => self.lifetime = Some(0),
            }
        }
    }

    /// The body with `force` added to what it has gathered.
    pub open spec fn pushed(self, force: Vec2) -> PhysicsObject {
        PhysicsObject { acc: self.acc + force, ..self }
    }

    pub fn apply_force(&mut self, force: Vec2)
        ensures
            *final(self) == old(self).pushed(force),
    {
        self.acc.add_assign(force);
    }

    /// The brightness that the body is drawn with: full without a lifetime,
    /// and in proportion to the lifetime that is left of `MAX_LIFETIME`.
    pub open spec fn brightness(&self) -> u8 {
        match self.lifetime {
            Some(left) => spec_map(
                F32::of_int(left as int),
                lit(ZERO),
                F32::of_int(MAX_LIFETIME as int),
                lit(ZERO),
                lit(FULL_BRIGHTNESS),
            ).to_u8(),
            None => 255,
        }
    }

    /// The screen with the body drawn through the window `view`: a disc of
    /// radius 1 around its position, and nothing where its brightness is 0.
    pub open spec fn debug_drawn(&self, view: &Rect, s: ScreenView) -> ScreenView {
        if self.brightness() != 0 {
            disc_filled(
                s,
                self.pos,
                view.top_left,
                lit(ONE),
                Shade::Flat { brightness: self.brightness() },
                25600,
            )
        } else {
            s
        }
    }

    pub fn debug_draw(&self, view: &Rect, screen: &mut Screen)
        ensures
            final(screen)@ == self.debug_drawn(view, old(screen)@),
    {
        let mut color: u8 = 255;
        if let Some(lifetime) = self.lifetime {
            color = crate::common::map(
                F32::from_u16(lifetime),
                lit(ZERO),
                F32::from_u16(MAX_LIFETIME),
                lit(ZERO),
                lit(FULL_BRIGHTNESS),
            ).to_u8();
        }
        if color != 0 {
            fill_disc(
                screen,
                self.pos,
                view.top_left,
                lit(ONE),
                Shade::Flat { brightness: color },
            );
        }
    }
}

/// After `n` steps a lifetime has run down by `n`, and stays at 0 from the
/// step at which it gets there.
pub proof fn lemma_lifetime_runs_down(body: PhysicsObject, n: nat)
    ensures
        body.updated_times(n).lifetime == match body.lifetime {
            Some(left) => Some(
                if left >= n {
                    (left - n) as u16
                } else {
                    0u16
                },
            ),
            None => None,
        },
    decreases n,
{
    if n > 0 {
        lemma_lifetime_runs_down(body, (n - 1) as nat);
    }
}

/// A body that no force acts on moves in a straight line: after `n` steps
/// it has gone `n` times its velocity, and its velocity is what it was. This
/// holds where the position at each step is a value that a datum can hold,
/// so that no step is rounded.
pub proof fn lemma_coasting(body: PhysicsObject, n: nat)
    requires
        body.acc == origin(),
        body.pos.x.is_finite(),
        body.pos.y.is_finite(),
        body.vel.x.is_finite(),
        body.vel.y.is_finite(),
        forall|k: nat|
            1 <= k <= n ==> representable(#[trigger] (k * body.vel.x.value()) + body.pos.x.value()),
        forall|k: nat|
            1 <= k <= n ==> representable(#[trigger] (k * body.vel.y.value()) + body.pos.y.value()),
    ensures
        body.updated_times(n).acc == origin(),
        body.updated_times(n).pos.x.is_finite(),
        body.updated_times(n).pos.y.is_finite(),
        body.updated_times(n).vel.x.is_finite(),
        body.updated_times(n).vel.y.is_finite(),
        body.updated_times(n).pos.x.value() == body.pos.x.value() + n * body.vel.x.value(),
        body.updated_times(n).pos.y.value() == body.pos.y.value() + n * body.vel.y.value(),
        body.updated_times(n).vel.x.value() == body.vel.x.value(),
        body.updated_times(n).vel.y.value() == body.vel.y.value(),
    decreases n,
{
    if n > 0 {
        let before = body.updated_times((n - 1) as nat);
        lemma_coasting(body, (n - 1) as nat);
        crate::ieee::lemma_weight_small(0);
        let vx = body.vel.x.value();
        let vy = body.vel.y.value();
        assert((n - 1) * vx + vx == n * vx) by (nonlinear_arith);
        assert((n - 1) * vy + vy == n * vy) by (nonlinear_arith);
        assert(representable(n * vx + body.pos.x.value()));
        assert(representable(n * vy + body.pos.y.value()));
        lemma_value_representable(before.vel.x);
        lemma_value_representable(before.vel.y);
        lemma_add_exact(before.vel.x, lit(ZERO));
        lemma_add_exact(before.vel.y, lit(ZERO));
        lemma_add_exact(before.pos.x, before.vel.x + lit(ZERO));
        lemma_add_exact(before.pos.y, before.vel.y + lit(ZERO));
    }
}

} // verus!
