use oorandom::Rand32;
use orbit_engine::common::Vec2;
use orbit_engine::console::BUTTON_1;
use orbit_engine::console::BUTTON_2;
use orbit_engine::console::BUTTON_DOWN;
use orbit_engine::console::BUTTON_LEFT;
use orbit_engine::console::BUTTON_RIGHT;
use orbit_engine::console::BUTTON_UP;
use orbit_engine::particle::PhysicsObject;
use orbit_engine::world::World;

// The same world in the machine's own single-precision arithmetic, to hold
// the library's against.

type V = (f32, f32);

fn root(value: f32) -> f32 {
    if value >= 0.0 {
        f32::from_bits((value.to_bits() + 0x3f80_0000) >> 1)
    } else {
        f32::NAN
    }
}

fn abs(value: f32) -> f32 {
    if value < 0.0 {
        -value
    } else {
        value
    }
}

fn clamp(value: f32, low: f32, high: f32) -> f32 {
    if value < low {
        low
    } else if value > high {
        high
    } else {
        value
    }
}

fn add(a: V, b: V) -> V {
    (a.0 + b.0, a.1 + b.1)
}

fn sub(a: V, b: V) -> V {
    (a.0 - b.0, a.1 - b.1)
}

fn mul(a: V, k: f32) -> V {
    (a.0 * k, a.1 * k)
}

fn magnitude(a: V) -> f32 {
    root(a.0 * a.0 + a.1 * a.1)
}

fn normalized(a: V) -> V {
    let m = magnitude(a);
    (a.0 / m, a.1 / m)
}

fn distance(a: V, b: V) -> f32 {
    magnitude(sub(a, b))
}

#[derive(Clone, Copy)]
struct Body {
    pos: V,
    vel: V,
    acc: V,
    lifetime: Option<u16>,
}

impl Body {
    fn update(&mut self) {
        self.vel = add(self.vel, self.acc);
        self.pos = add(self.pos, self.vel);
        self.acc = (0.0, 0.0);
        if let Some(left) = self.lifetime {
            self.lifetime = Some(left.saturating_sub(1));
        }
    }
}

#[derive(Clone, Copy)]
struct Globe {
    pos: V,
    radius: f32,
    color: u8,
}

struct Plain {
    top_left: V,
    ship: Body,
    target: Option<V>,
    planets: Vec<Globe>,
    planet_cursor: usize,
    stars: Vec<(V, u8, f32)>,
    star_cursor: usize,
    particles: Vec<Body>,
}

impl Plain {
    fn new() -> Plain {
        Plain {
            top_left: (-80.0, -80.0),
            ship: Body { pos: (0.0, 0.0), vel: (0.0, 0.0), acc: (0.0, 0.0), lifetime: Some(600) },
            target: None,
            planets: Vec::new(),
            planet_cursor: 0,
            stars: Vec::new(),
            star_cursor: 0,
            particles: Vec::new(),
        }
    }

    fn center(&self) -> V {
        (self.top_left.0 + 160.0 / 2.0, self.top_left.1 + 160.0 / 2.0)
    }

    fn star_center(&self) -> V {
        (self.top_left.0 + 160.0 / 2.0 * 3.0, self.top_left.1 + 160.0 / 2.0 * 3.0)
    }

    fn gen_particle(&mut self, pos: V, force: V) {
        let body = Body { pos, vel: (0.0, 0.0), acc: add((0.0, 0.0), force), lifetime: Some(600) };
        if self.particles.len() == 255 {
            self.particles.clear();
        }
        self.particles.push(body);
    }

    fn handle_gamepad(&mut self, gamepad: u8) -> Option<V> {
        if gamepad & BUTTON_2 == 0 {
            let mut force = (0.0, 0.0);
            let speed = self.ship.vel;
            let delta_x = 2.0 - abs(speed.0);
            let delta_y = 2.0 - abs(speed.1);
            if gamepad & BUTTON_UP != 0 {
                force = (0.0, clamp(-delta_y, -0.02, 0.0));
            } else if gamepad & BUTTON_DOWN != 0 {
                force = (0.0, clamp(delta_y, 0.0, 0.02));
            }
            if gamepad & BUTTON_LEFT != 0 {
                force = add(force, (clamp(-delta_x, -0.02, 0.0), 0.0));
            } else if gamepad & BUTTON_RIGHT != 0 {
                force = add(force, (clamp(delta_x, 0.0, 0.02), 0.0));
            }
            if gamepad & BUTTON_1 != 0 && magnitude(self.ship.vel) < 0.5 {
                force = add(force, (0.0, -2.0));
            }
            self.ship.acc = add(self.ship.acc, force);
            if magnitude(force) > 0.005 {
                self.target = None;
                return Some(mul(force, -15.0));
            }
            return None;
        }
        self.target = Some(self.ship.pos);
        None
    }

    fn update(&mut self, gamepad: u8, frame: u32) {
        let mut random = Rand32::new(frame as u64);
        let player_pos = self.ship.pos;
        if let Some(force) = self.handle_gamepad(gamepad) {
            if random.rand_float() < 0.1 {
                self.gen_particle(player_pos, force);
            }
        }
        for planet in self.planets.iter() {
            let delta = sub(planet.pos, player_pos);
            let d = magnitude(delta);
            if d < 114.0 * 3.0 && d > planet.radius + 2.0 {
                let to_surface = d - (planet.radius - 2.0);
                let force = planet.radius / (to_surface * to_surface);
                self.ship.acc = add(self.ship.acc, mul(mul(normalized(delta), force), 0.4));
            } else if d < planet.radius {
                self.ship.acc = add(self.ship.acc, mul(self.ship.vel, -0.2));
            }
        }
        self.ship.update();
        if let Some(target) = self.target {
            let way = normalized(sub(sub(target, self.ship.pos), self.ship.vel));
            let pull = mul(mul(way, 0.02), 2.5);
            self.ship.acc = add(self.ship.acc, pull);
        }
        if magnitude(self.ship.vel) > 2.0 {
            self.ship.vel = mul(normalized(self.ship.vel), 2.0);
        }
        self.top_left = (self.ship.pos.0 - 80.0, self.ship.pos.1 - 80.0);

        let center = self.center();
        let near = self.planets.iter().filter(|p| distance(p.pos, center) < 114.0 * 5.0).count();
        if near < 20 {
            let size = (random.rand_u32() % 100) as u8;
            let x = center.0 + (random.rand_float() - 0.5) * 300.0;
            let y = center.1 + (random.rand_float() - 0.5) * 300.0;
            let radius = random.rand_float() * 30.0 + 5.0;
            let possible = Globe { pos: (x, y), radius, color: size + 155 };
            if distance(possible.pos, player_pos) > 114.0 + possible.radius
                && self
                    .planets
                    .iter()
                    .all(|p| distance(p.pos, possible.pos) > (p.radius + possible.radius) * 3.0)
            {
                if self.planets.len() < 255 {
                    self.planets.push(possible);
                } else {
                    self.planets[self.planet_cursor] = possible;
                }
                self.planet_cursor = (self.planet_cursor + 1) % 255;
            }
        }

        let center = self.star_center();
        let near = self.stars.iter().filter(|s| distance(s.0, center) < 114.0 * 5.0).count();
        if near < 35 {
            let x = center.0 + (random.rand_float() - 0.5) * 1000.0;
            let y = center.1 + (random.rand_float() - 0.5) * 1000.0;
            let color = (random.rand_u32() % 200) as u8;
            let size = random.rand_float() * 2.0 + 0.5;
            let d = distance((x, y), center);
            if d > 114.0 * 3.0 && d < 114.0 * 5.0 {
                if self.stars.len() < 255 {
                    self.stars.push(((x, y), color, size));
                } else {
                    self.stars[self.star_cursor] = ((x, y), color, size);
                }
                self.star_cursor = (self.star_cursor + 1) % 255;
            }
        }

        for particle in self.particles.iter_mut() {
            for planet in self.planets.iter() {
                let delta = sub(planet.pos, particle.pos);
                let d = magnitude(delta);
                if d < 114.0 * 3.0 && d > planet.radius + 2.0 {
                    let to_surface = d - (planet.radius - 2.0);
                    let force = planet.radius / (to_surface * to_surface);
                    particle.acc = add(particle.acc, mul(mul(normalized(delta), force), 0.4));
                }
            }
            particle.update();
        }
    }
}

fn bits(v: Vec2) -> (u32, u32) {
    (v.x.to_bits(), v.y.to_bits())
}

fn plain_bits(v: V) -> (u32, u32) {
    (v.0.to_bits(), v.1.to_bits())
}

fn same_body(got: &PhysicsObject, want: &Body) -> bool {
    bits(got.pos) == plain_bits(want.pos)
        && bits(got.vel) == plain_bits(want.vel)
        && bits(got.acc) == plain_bits(want.acc)
        && got.lifetime == want.lifetime
}

fn same_world(world: &World, plain: &Plain) {
    assert!(same_body(&world.player().physics, &plain.ship));
    assert_eq!(world.player().target.map(bits), plain.target.map(plain_bits));
    assert_eq!(bits(world.window().top_left), plain_bits(plain.top_left));
    assert_eq!(world.planets().len(), plain.planets.len());
    for (got, want) in world.planets().iter().zip(plain.planets.iter()) {
        assert_eq!(bits(got.pos), plain_bits(want.pos));
        assert_eq!(got.radius.to_bits(), want.radius.to_bits());
        assert_eq!(got.color, want.color);
    }
    assert_eq!(world.stars().len(), plain.stars.len());
    for (got, want) in world.stars().iter().zip(plain.stars.iter()) {
        assert_eq!(bits(got.pos), plain_bits(want.0));
        assert_eq!(got.color, want.1);
        assert_eq!(got.size.to_bits(), want.2.to_bits());
    }
    assert_eq!(world.particles().len(), plain.particles.len());
    for (got, want) in world.particles().iter().zip(plain.particles.iter()) {
        assert!(same_body(got, want));
    }
}

/// The gamepad of a flight that thrusts, turns, holds and kicks by turns.
fn gamepad_at(frame: u32) -> u8 {
    match (frame / 40) % 8 {
        0 => BUTTON_RIGHT,
        1 => BUTTON_RIGHT | BUTTON_UP,
        2 => 0,
        3 => BUTTON_DOWN,
        4 => BUTTON_2,
        5 => BUTTON_LEFT | BUTTON_DOWN,
        6 => BUTTON_1,
        _ => BUTTON_LEFT | BUTTON_UP | BUTTON_1,
    }
}

#[test]
fn a_flight_agrees_with_plain_floats_tick_by_tick() {
    let mut world = World::new();
    let mut plain = Plain::new();
    for frame in 0..700u32 {
        let gamepad = gamepad_at(frame);
        world.update(frame / 60, gamepad, frame);
        plain.update(gamepad, frame);
        same_world(&world, &plain);
    }
    assert!(world.planets().len() > 3);
    assert!(world.stars().len() > 3);
    assert!(world.particles().len() > 3);
}

#[test]
fn a_long_flight_to_one_side_agrees_with_plain_floats() {
    let mut world = World::new();
    let mut plain = Plain::new();
    for frame in 0..3000u32 {
        let gamepad = if frame % 500 < 250 { BUTTON_RIGHT } else { BUTTON_RIGHT | BUTTON_DOWN };
        world.update(frame / 60, gamepad, frame.wrapping_mul(2654435761));
        plain.update(gamepad, frame.wrapping_mul(2654435761));
        if frame % 50 == 0 {
            same_world(&world, &plain);
        }
    }
    same_world(&world, &plain);
    assert!(world.planets().len() > 20);
}
