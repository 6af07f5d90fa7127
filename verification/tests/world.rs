use orbit_engine::common::Vec2;
use orbit_engine::console::BUTTON_DOWN;
use orbit_engine::console::BUTTON_RIGHT;
use orbit_engine::gfx::Screen;
use orbit_engine::particle::PhysicsObject;
use orbit_engine::random;
use orbit_engine::single::F32;
use orbit_engine::world::Planet;
use orbit_engine::world::Star;
use orbit_engine::world::World;

fn soft(x: f32) -> F32 {
    F32::from_bits(x.to_bits())
}

fn hard(x: F32) -> f32 {
    f32::from_bits(x.to_bits())
}

fn vec(x: f32, y: f32) -> Vec2 {
    Vec2::new(soft(x), soft(y))
}

fn at(v: Vec2) -> (f32, f32) {
    (hard(v.x), hard(v.y))
}

fn plain_sqrt(value: f32) -> f32 {
    if value >= 0.0 {
        f32::from_bits((value.to_bits() + 0x3f80_0000) >> 1)
    } else {
        f32::NAN
    }
}

fn plain_distance(a: (f32, f32), b: (f32, f32)) -> f32 {
    let (dx, dy) = (a.0 - b.0, a.1 - b.1);
    plain_sqrt(dx * dx + dy * dy)
}

fn planet(x: f32, y: f32, radius: f32) -> Planet {
    Planet::new(vec(x, y), soft(radius), 200)
}

/// Somewhere that no planet of these tests is near.
fn far_away() -> Vec2 {
    vec(1.0e6, 1.0e6)
}

/// A world with 255 planets of radius 5 on a grid of 40 by 40.
fn full_ring() -> World {
    let mut world = World::new();
    for i in 0..255 {
        let p = planet((i % 16) as f32 * 40.0, (i / 16) as f32 * 40.0, 5.0);
        world.offer_planet(p, far_away());
    }
    world
}

#[test]
fn a_new_world_holds_the_ship_alone() {
    let world = World::new();
    assert_eq!(at(world.window().top_left), (-80.0, -80.0));
    assert_eq!(at(world.player().physics.pos), (0.0, 0.0));
    assert_eq!(at(world.player().physics.vel), (0.0, 0.0));
    assert_eq!(world.player().physics.lifetime, Some(600));
    assert!(world.planets().is_empty());
    assert!(world.stars().is_empty());
    assert!(world.particles().is_empty());
    assert_eq!(world.seconds_passed(), 0);
    assert_eq!(world.score(), 0);
    assert!(!world.mouse_clicked());
    assert_eq!(world.count_planets(), 0);
    assert_eq!(world.count_stars(), 0);
}

#[test]
fn the_256th_particle_is_alone_in_the_pool() {
    let mut world = World::new();
    for i in 0..255 {
        world.gen_particle(vec(i as f32, 0.0), vec(0.0, 1.0));
        assert_eq!(world.particles().len(), i + 1);
    }
    assert_eq!(at(world.particles()[0].pos), (0.0, 0.0));
    assert_eq!(at(world.particles()[254].pos), (254.0, 0.0));
    world.gen_particle(vec(1000.0, 2000.0), vec(0.5, 0.25));
    assert_eq!(world.particles().len(), 1);
    let only = world.particles()[0];
    assert_eq!(at(only.pos), (1000.0, 2000.0));
    assert_eq!(at(only.vel), (0.0, 0.0));
    assert_eq!(at(only.acc), (0.5, 0.25));
    assert_eq!(only.lifetime, Some(600));
    world.gen_particle(vec(1.0, 2.0), vec(0.0, 0.0));
    assert_eq!(world.particles().len(), 2);
    assert_eq!(at(world.particles()[1].pos), (1.0, 2.0));
}

#[test]
fn a_planet_is_admitted_away_from_the_ship_and_from_other_planets() {
    let mut world = World::new();
    // 114 + 10 from the ship is too near, by the approximate distance.
    world.offer_planet(planet(100.0, 0.0, 10.0), vec(0.0, 0.0));
    assert_eq!(world.planets().len(), 0);
    assert!(plain_distance((100.0, 0.0), (0.0, 0.0)) <= 124.0);
    world.offer_planet(planet(200.0, 0.0, 10.0), vec(0.0, 0.0));
    assert_eq!(world.planets().len(), 1);
    assert_eq!(at(world.planets()[0].pos), (200.0, 0.0));
    assert_eq!(hard(world.planets()[0].radius), 10.0);
    assert_eq!(world.planets()[0].color, 200);
    // Another must be more than 3 * (10 + 10) from it.
    world.offer_planet(planet(250.0, 0.0, 10.0), vec(0.0, 0.0));
    assert_eq!(world.planets().len(), 1);
    world.offer_planet(planet(200.0, 58.0, 10.0), vec(0.0, 0.0));
    assert_eq!(world.planets().len(), 1);
    world.offer_planet(planet(200.0, 70.0, 10.0), vec(0.0, 0.0));
    assert_eq!(world.planets().len(), 2);
    // A planet that is not a number apart from anything is dropped.
    world.offer_planet(planet(f32::NAN, 0.0, 10.0), vec(0.0, 0.0));
    world.offer_planet(planet(900.0, 0.0, f32::NAN), vec(0.0, 0.0));
    assert_eq!(world.planets().len(), 2);
}

#[test]
fn a_full_ring_loses_its_oldest_planet() {
    let mut world = full_ring();
    assert_eq!(world.planets().len(), 255);
    assert_eq!(at(world.planets()[0].pos), (0.0, 0.0));
    assert_eq!(at(world.planets()[254].pos), (14.0 * 40.0, 15.0 * 40.0));
    world.offer_planet(planet(5000.0, 0.0, 5.0), far_away());
    assert_eq!(world.planets().len(), 255);
    assert_eq!(at(world.planets()[0].pos), (5000.0, 0.0));
    assert_eq!(at(world.planets()[1].pos), (40.0, 0.0));
    world.offer_planet(planet(5000.0, 500.0, 5.0), far_away());
    assert_eq!(at(world.planets()[0].pos), (5000.0, 0.0));
    assert_eq!(at(world.planets()[1].pos), (5000.0, 500.0));
    assert_eq!(at(world.planets()[2].pos), (80.0, 0.0));
    // A planet that is dropped leaves the ring and its next place alone.
    world.offer_planet(planet(5000.0, 510.0, 5.0), far_away());
    assert_eq!(at(world.planets()[2].pos), (80.0, 0.0));
    world.offer_planet(planet(5000.0, 1000.0, 5.0), far_away());
    assert_eq!(at(world.planets()[2].pos), (5000.0, 1000.0));
}

#[test]
fn every_two_planets_of_a_ring_keep_their_distance() {
    let mut world = World::new();
    let mut seed = 7u64;
    let mut next = move || {
        seed = seed.wrapping_mul(6364136223846793005).wrapping_add(1442695040888963407);
        (seed >> 32) as u32
    };
    for _ in 0..3000 {
        let candidate = Planet::candidate(vec(0.0, 0.0), next(), next(), next(), next());
        world.offer_planet(candidate, far_away());
    }
    let planets = world.planets();
    assert!(planets.len() > 5);
    for (i, a) in planets.iter().enumerate() {
        for (j, b) in planets.iter().enumerate() {
            if i != j {
                let d = plain_distance(at(a.pos), at(b.pos));
                assert!(d > (hard(a.radius) + hard(b.radius)) * 3.0);
            }
        }
    }
}

#[test]
fn planets_are_counted_within_the_density_radius() {
    let mut world = World::new();
    world.offer_planet(planet(0.0, 500.0, 5.0), far_away());
    world.offer_planet(planet(0.0, -540.0, 5.0), far_away());
    world.offer_planet(planet(600.0, 0.0, 5.0), far_away());
    world.offer_planet(planet(400.0, 400.0, 5.0), far_away());
    assert_eq!(world.planets().len(), 4);
    let near = [(0.0f32, 500.0f32), (0.0, -540.0), (600.0, 0.0), (400.0, 400.0)]
        .iter()
        .filter(|&&p| plain_distance(p, (0.0, 0.0)) < 570.0)
        .count();
    // By the approximate distance (400, 400) is within 570 of the middle.
    assert_eq!(near, 3);
    assert_eq!(world.count_planets(), 3);
    world.change_view(vec(500.0, 0.0));
    assert_eq!(at(world.window().top_left), (420.0, -80.0));
    assert_eq!(world.count_planets(), 2);
    world.change_view(vec(1.0e5, 0.0));
    assert_eq!(world.count_planets(), 0);
}

#[test]
fn a_star_is_admitted_in_the_ring_around_the_window() {
    let mut world = World::new();
    // The middle of the stars' window is top_left + 240 = (160, 160).
    world.offer_star(Star::new(vec(160.0, 160.0), 9, soft(1.0)));
    world.offer_star(Star::new(vec(160.0 + 300.0, 160.0), 9, soft(1.0)));
    world.offer_star(Star::new(vec(160.0 + 600.0, 160.0), 9, soft(1.0)));
    assert_eq!(world.stars().len(), 0);
    world.offer_star(Star::new(vec(160.0 + 400.0, 160.0), 9, soft(1.5)));
    world.offer_star(Star::new(vec(160.0, 160.0 - 500.0), 77, soft(2.0)));
    assert_eq!(world.stars().len(), 2);
    assert_eq!(at(world.stars()[0].pos), (560.0, 160.0));
    assert_eq!(world.stars()[1].color, 77);
    assert_eq!(hard(world.stars()[1].size), 2.0);
    assert_eq!(world.count_stars(), 2);
}

#[test]
fn one_planet_pulls_the_ship_toward_it() {
    let mut world = World::new();
    world.offer_planet(planet(50.0, 0.0, 10.0), far_away());
    assert_eq!(world.planets().len(), 1);
    world.attract_player(vec(0.0, 0.0));
    let force = world.player().physics.acc;
    // The distance is the approximate root of 2500; the surface that counts
    // lies 10 - 2 from the middle.
    let distance = plain_sqrt(2500.0);
    assert_eq!(distance, 51.53125);
    let to_surface = distance - (10.0 - 2.0);
    let gravity = 10.0 / (to_surface * to_surface);
    assert_eq!(hard(world.planets()[0].gravity(soft(distance))), gravity);
    assert_eq!(gravity.to_bits(), 0x3bac_ebc5);
    assert_eq!(hard(force.x), 0.0 + 50.0 / distance * gravity * 0.4);
    assert_eq!(hard(force.y), 0.0 + 0.0 / distance * gravity * 0.4);
    assert!(hard(force.x) > 0.0);
    assert_eq!(hard(force.y), 0.0);
    // After the whole tick the force has gone into the velocity.
    let mut ticked = World::new();
    ticked.offer_planet(planet(50.0, 0.0, 10.0), far_away());
    ticked.update(0, 0, 0);
    assert_eq!(at(ticked.player().physics.vel), (hard(force.x), 0.0));
    assert_eq!(at(ticked.player().physics.pos), (hard(force.x), 0.0));
    assert_eq!(at(ticked.player().physics.acc), (0.0, 0.0));
}

#[test]
fn gravity_falls_with_the_square_of_the_distance_to_the_surface() {
    let p = planet(0.0, 0.0, 10.0);
    assert_eq!(hard(p.gravity(soft(40.0))), 10.0 / (32.0 * 32.0));
    assert_eq!(hard(p.gravity(soft(18.0))), 0.1);
    let small = planet(0.0, 0.0, 5.0);
    assert_eq!(hard(small.gravity(soft(13.0))), 0.05);
}

#[test]
fn a_planet_out_of_reach_does_not_pull() {
    let mut world = World::new();
    world.offer_planet(planet(400.0, 0.0, 10.0), far_away());
    world.attract_player(vec(0.0, 0.0));
    assert_eq!(at(world.player().physics.acc), (0.0, 0.0));
    // Within 2 of the surface nothing pulls, and the ship is not inside.
    let mut grazing = World::new();
    grazing.offer_planet(planet(10.5, 0.0, 10.0), far_away());
    assert!(plain_distance((10.5, 0.0), (0.0, 0.0)) <= 12.0);
    assert!(plain_distance((10.5, 0.0), (0.0, 0.0)) >= 10.0);
    grazing.attract_player(vec(0.0, 0.0));
    assert_eq!(at(grazing.player().physics.acc), (0.0, 0.0));
}

#[test]
fn inside_a_planet_the_ship_collides() {
    let mut world = World::new();
    world.offer_planet(planet(3.0, 0.0, 10.0), far_away());
    world.handle_gamepad(BUTTON_RIGHT);
    world.update(0, 0, 0);
    let vel = world.player().physics.vel;
    assert_eq!(at(vel), (0.02, 0.0));
    world.attract_player(world.player().physics.pos);
    assert_eq!(at(world.player().physics.acc), (0.02 * -0.2, 0.0 * -0.2));
}

#[test]
fn a_click_sends_one_particle_until_the_pointer_is_released() {
    let mut world = World::new();
    world.mouse_click((120, 80));
    assert!(world.mouse_clicked());
    assert_eq!(world.particles().len(), 1);
    let particle = world.particles()[0];
    assert_eq!(at(particle.pos), (0.0, 0.0));
    // The pointer is at (40, 0) in the world: the particle sets out along
    // +x with 1.5.
    let length = plain_sqrt(1600.0);
    assert_eq!(at(particle.acc), (0.0 + 40.0 / length * 1.5, 0.0 + 0.0 / length * 1.5));
    world.mouse_click((120, 80));
    world.mouse_click((10, 10));
    assert_eq!(world.particles().len(), 1);
    world.mouse_release();
    assert!(!world.mouse_clicked());
    world.mouse_click((10, 10));
    assert_eq!(world.particles().len(), 2);
}

#[test]
fn particles_fall_toward_planets_and_age() {
    let mut world = World::new();
    world.offer_planet(planet(50.0, 0.0, 10.0), far_away());
    world.gen_particle(vec(0.0, 0.0), vec(0.0, 0.0));
    world.gen_particle(vec(1000.0, 0.0), vec(0.0, 0.5));
    world.move_particles();
    let distance = plain_sqrt(2500.0);
    let to_surface = distance - (10.0 - 2.0);
    let gravity = 10.0 / (to_surface * to_surface);
    // A particle feels the same part of the pull as the ship.
    let pulled = world.particles()[0];
    assert_eq!(hard(pulled.vel.x), 0.0 + 50.0 / distance * gravity * 0.4);
    assert_eq!(hard(pulled.vel.y), 0.0 + 0.0 / distance * gravity * 0.4);
    assert_eq!(at(pulled.pos), at(pulled.vel));
    assert_eq!(pulled.lifetime, Some(599));
    let free = world.particles()[1];
    assert_eq!(at(free.vel), (0.0, 0.5));
    assert_eq!(at(free.pos), (1000.0, 0.5));
    assert_eq!(at(free.acc), (0.0, 0.0));
    assert_eq!(free.lifetime, Some(599));
}

#[test]
fn a_tick_follows_the_ship_with_the_window() {
    let mut world = World::new();
    world.update(0, BUTTON_RIGHT, 1);
    assert_eq!(at(world.player().physics.vel), (0.02, 0.0));
    assert_eq!(at(world.player().physics.pos), (0.02, 0.0));
    // The window is put around where the ship has moved to.
    assert_eq!(at(world.window().top_left), (0.02 - 80.0, -80.0));
    world.update(0, 0, 2);
    assert_eq!(at(world.player().physics.pos), (0.04, 0.0));
    assert_eq!(at(world.window().top_left), (0.04 - 80.0, -80.0));
    for frame in 3..200u32 {
        world.update(0, BUTTON_RIGHT | BUTTON_DOWN, frame);
        let pos = at(world.player().physics.pos);
        assert_eq!(at(world.window().top_left), (pos.0 - 80.0, pos.1 - 80.0));
    }
}

#[test]
fn the_seconds_follow_the_time_by_one_a_tick() {
    let mut world = World::new();
    world.update(0, 0, 0);
    assert_eq!(world.seconds_passed(), 0);
    world.update(5, 0, 1);
    assert_eq!(world.seconds_passed(), 1);
    world.update(5, 0, 2);
    assert_eq!(world.seconds_passed(), 2);
    world.update(2, 0, 3);
    assert_eq!(world.seconds_passed(), 2);
}

#[test]
fn ticks_fill_the_field_one_try_at_a_time() {
    let mut world = World::new();
    let mut planets = 0;
    let mut stars = 0;
    for frame in 0..600u32 {
        world.update(frame / 60, 0, frame);
        let now = world.planets().len();
        assert!(now == planets || now == planets + 1);
        if now > planets {
            assert!(world.count_planets() <= 20);
        }
        planets = now;
        let now = world.stars().len();
        assert!(now == stars || now == stars + 1);
        stars = now;
    }
    assert!(planets > 0);
    assert!(stars > 0);
    assert!(world.count_planets() <= 20);
    assert!(world.count_stars() <= 35);
    let all = world.planets();
    for (i, a) in all.iter().enumerate() {
        for (j, b) in all.iter().enumerate() {
            if i != j {
                let d = plain_distance(at(a.pos), at(b.pos));
                assert!(d > (hard(a.radius) + hard(b.radius)) * 3.0);
            }
        }
        assert!(hard(a.radius) >= 5.0 && hard(a.radius) <= 35.0);
        assert!(a.color >= 155 && a.color <= 254);
    }
    for star in world.stars() {
        assert!(star.color < 200);
        assert!(hard(star.size) >= 0.5 && hard(star.size) < 2.5);
    }
}

#[test]
fn a_tick_is_decided_by_its_inputs() {
    let mut a = World::new();
    let mut b = World::new();
    for frame in 0..200u32 {
        let gamepad = if frame % 3 == 0 { BUTTON_RIGHT } else { 0 };
        a.update(frame / 60, gamepad, frame);
        b.update(frame / 60, gamepad, frame);
    }
    assert_eq!(a.player().physics.pos.x.to_bits(), b.player().physics.pos.x.to_bits());
    assert_eq!(a.planets().len(), b.planets().len());
    assert_eq!(a.stars().len(), b.stars().len());
    assert_eq!(a.particles().len(), b.particles().len());
    for (p, q) in a.planets().iter().zip(b.planets().iter()) {
        assert_eq!(p.pos.x.to_bits(), q.pos.x.to_bits());
        assert_eq!(p.radius.to_bits(), q.radius.to_bits());
    }
    for (p, q) in a.particles().iter().zip(b.particles().iter()) {
        assert_eq!(p.pos.x.to_bits(), q.pos.x.to_bits());
        assert_eq!(p.pos.y.to_bits(), q.pos.y.to_bits());
    }
}

#[test]
fn thrust_leaves_particles_now_and_then() {
    let mut world = World::new();
    let mut most = 0;
    for frame in 0..300u32 {
        let before = world.particles().len();
        world.update(0, BUTTON_RIGHT, frame);
        let after = world.particles().len();
        assert!(after == before || after == before + 1);
        most = most.max(after);
    }
    assert!(most > 0 && most < 300);
    let first = world.particles()[0];
    assert!(hard(first.vel.x) < 0.0);
}

#[test]
fn candidates_are_made_of_their_words() {
    let p = Planet::candidate(vec(10.0, 20.0), 199, 0x8000_0000, 0, 0xffff_ffff);
    assert_eq!(at(p.pos), (10.0, 20.0 - 150.0));
    assert_eq!(hard(p.radius), (16777215.0f32 / 16777216.0) * 30.0 + 5.0);
    assert_eq!(p.color, 99 + 155);
    let s = Star::candidate(vec(0.0, 0.0), 0x4000_0000, 0xc000_0000, 1234, 0x8000_0000);
    assert_eq!(at(s.pos), (-250.0, 250.0));
    assert_eq!(s.color, 34);
    assert_eq!(hard(s.size), 1.5);
    assert_eq!(hard(random::unit(0)), 0.0);
    assert_eq!(hard(random::unit(0xff)), 0.0);
    assert_eq!(hard(random::unit(0x100)), 1.0 / 16777216.0);
    assert_eq!(hard(random::unit(u32::MAX)), 16777215.0 / 16777216.0);
    assert_eq!(random::UNIT_SCALE, (1.0f32 / 16777216.0).to_bits());
}

#[test]
fn the_world_is_drawn_back_to_front() {
    let mut world = World::new();
    // A planet in the middle of the window, bright at its rim.
    world.offer_planet(planet(0.0, 0.0, 12.0), far_away());
    // A particle on the planet's rim and one outside of it.
    world.gen_particle(vec(11.0, 0.0), vec(0.0, 0.0));
    world.gen_particle(vec(40.0, 40.0), vec(0.0, 0.0));
    let mut screen = Screen::new();
    let lines = world.draw(&mut screen);
    // The middle of the planet is dark, the rim is not.
    assert_eq!(screen.pixel(80, 80), 0);
    assert!(screen.pixel(80, 70) >= 1);
    // The particles are at full brightness over whatever is below.
    assert_eq!(screen.pixel(91, 80), 3);
    assert_eq!(screen.pixel(120, 120), 3);
    assert_eq!(screen.pixel(10, 10), 0);
    assert_eq!((lines[0].x1, lines[0].y1, lines[0].x2, lines[0].y2), (78, 78, 82, 78));
}

#[test]
fn stars_are_drawn_on_their_own_layer() {
    let mut world = World::new();
    // A star is admitted beyond the reach of the middle of the stars'
    // window, which is at top_left + 240 = (160, 160).
    world.offer_star(Star::new(vec(560.0, 160.0), 255, soft(1.5)));
    assert_eq!(world.stars().len(), 1);
    let mut screen = Screen::new();
    world.draw(&mut screen);
    assert!(screen.framebuffer.iter().all(|&b| b == 0));
    // Once the window has come near, the star is drawn, three units of the
    // world to the pixel: from top_left = (400, 0) the star is 160 units
    // right and down, at the pixel (53, 53).
    world.change_view(vec(480.0, 80.0));
    world.draw(&mut screen);
    assert_eq!(screen.pixel(53, 53), 3);
    assert_eq!(screen.pixel(54, 53), 3);
    assert_eq!(screen.pixel(60, 53), 0);
    assert_eq!(screen.pixel(53, 60), 0);
}

#[test]
fn a_particle_is_a_body() {
    let body: PhysicsObject = {
        let mut world = World::new();
        world.gen_particle(vec(1.0, 1.0), vec(2.0, 2.0));
        world.particles()[0]
    };
    assert_eq!(at(body.acc), (2.0, 2.0));
}

#[test]
fn the_gate_is_closed_while_enough_planets_are_near() {
    let mut world = World::new();
    for i in 0..25 {
        let p = planet(200.0 + (i % 5) as f32 * 60.0, -120.0 + (i / 5) as f32 * 60.0, 5.0);
        world.offer_planet(p, far_away());
    }
    assert_eq!(world.planets().len(), 25);
    assert_eq!(world.count_planets(), 25);
    for frame in 0..200u32 {
        world.update(0, 0, frame);
        assert_eq!(world.planets().len(), 25);
    }
}

#[test]
fn coupling_and_restitution_can_be_set() {
    let mut world = World::with_tuning(soft(1.0), soft(-1.0));
    assert_eq!(hard(world.coupling()), 1.0);
    assert_eq!(hard(world.player().restitution), -1.0);
    world.offer_planet(planet(50.0, 0.0, 10.0), far_away());
    world.attract_player(vec(0.0, 0.0));
    let distance = plain_sqrt(2500.0);
    let to_surface = distance - (10.0 - 2.0);
    let gravity = 10.0 / (to_surface * to_surface);
    assert_eq!(at(world.player().physics.acc), (0.0 + 50.0 / distance * gravity * 1.0, 0.0));

    let plain = World::new();
    assert_eq!(hard(plain.coupling()), 0.4);
    assert_eq!(hard(plain.player().restitution), -0.2);

    // With a restitution of -1 a collision takes all of the velocity.
    let mut inside = World::with_tuning(soft(0.4), soft(-1.0));
    inside.offer_planet(planet(3.0, 0.0, 10.0), far_away());
    inside.handle_gamepad(BUTTON_RIGHT);
    inside.update(0, 0, 0);
    assert_eq!(at(inside.player().physics.vel), (0.02, 0.0));
    inside.update(0, 0, 1);
    assert_eq!(at(inside.player().physics.vel), (0.02 + 0.02 * -1.0, 0.0));
}

const DISPERSED: [u8; 9] = [1, 7, 4, 5, 8, 3, 6, 2, 9];

/// The colour that a brightness takes at a pixel.
fn band(x: u32, y: u32, brightness: u8) -> u8 {
    let idx = (x as i64 - 3 * y as i64).rem_euclid(9) as usize;
    brightness / 85 + if brightness % 85 >= DISPERSED[idx] * 9 { 1 } else { 0 }
}

#[test]
fn a_planet_is_shaded_like_plain_floats_shade_it() {
    let world = World::new();
    let view = world.window();
    let p = planet(-20.5, 13.25, 27.0);
    let mut screen = Screen::new();
    p.draw(&view, &mut screen);
    let mut lit = 0;
    for y in 0..160u32 {
        for x in 0..160u32 {
            let point = (x as f32 + -80.0, y as f32 + -80.0);
            let d = plain_distance((-20.5, 13.25), point);
            let want = if d > 27.0 {
                0
            } else {
                let brightness = ((d - 0.0) / (27.0 - 0.0) * (200.0 - 0.0) + 0.0) as u8;
                band(x, y, brightness)
            };
            assert_eq!(screen.pixel(x as u8, y as u8), want, "({}, {})", x, y);
            if want > 0 {
                lit += 1;
            }
        }
    }
    assert!(lit > 1000);
}

#[test]
fn a_star_is_drawn_like_plain_floats_draw_it() {
    let mut world = World::new();
    world.change_view(vec(480.0, 80.0));
    let view = world.window();
    let star = Star::new(vec(560.0, 160.0), 170, soft(2.4));
    let mut screen = Screen::new();
    star.draw(&view, &mut screen);
    let (left, top) = (400.0f32 / 3.0, 0.0f32 / 3.0);
    let middle = (560.0f32 * (1.0 / 3.0), 160.0f32 * (1.0 / 3.0));
    let mut lit = 0;
    for y in 0..160u32 {
        for x in 0..160u32 {
            let point = (x as f32 + left, y as f32 + top);
            let want = if plain_distance(middle, point) > 2.4 { 0 } else { band(x, y, 170) };
            assert_eq!(screen.pixel(x as u8, y as u8), want, "({}, {})", x, y);
            if want > 0 {
                lit += 1;
            }
        }
    }
    assert!(lit > 5);
}

#[test]
fn a_resting_ship_falls_toward_a_planet_on_its_axis() {
    let mut seed = 21u64;
    let mut next = move || {
        seed = seed.wrapping_mul(6364136223846793005).wrapping_add(1442695040888963407);
        (seed >> 32) as u32
    };
    let mut pulled = 0;
    for frame in 0..300u32 {
        let radius = 1.0 + (next() % 4000) as f32 / 100.0;
        let away = 1.0 + (next() % 34000) as f32 / 100.0;
        let coupling = [0.4f32, 1.0, 0.001, 1.0e-6][(next() % 4) as usize];
        let mut world = World::with_tuning(soft(coupling), soft(-0.2));
        world.offer_planet(planet(away, 0.0, radius), far_away());
        assert_eq!(world.planets().len(), 1);
        let d = plain_distance((away, 0.0), (0.0, 0.0));
        let pulls = d < 342.0 && d > radius + 2.0;
        world.update(0, 0, frame);
        let ship = world.player().physics;
        if pulls {
            pulled += 1;
            assert!(hard(ship.vel.x) > 0.0);
            assert!(hard(ship.pos.x) > 0.0);
            assert_eq!(hard(ship.vel.y), 0.0);
            assert_eq!(hard(ship.pos.y), 0.0);
        } else {
            assert_eq!(hard(ship.vel.x), 0.0);
        }
        let top_left = at(world.window().top_left);
        assert_eq!(top_left, (hard(ship.pos.x) - 80.0, hard(ship.pos.y) - 80.0));
    }
    assert!(pulled > 100);
}

#[test]
fn a_pull_never_leads_away_from_the_planet() {
    let mut seed = 22u64;
    let mut next = move || {
        seed = seed.wrapping_mul(6364136223846793005).wrapping_add(1442695040888963407);
        (seed >> 32) as u32
    };
    let mut pulled = 0;
    for _ in 0..2000 {
        let x = (next() % 60000) as f32 / 100.0 - 300.0;
        let y = (next() % 60000) as f32 / 100.0 - 300.0;
        let radius = (next() % 3000) as f32 / 100.0;
        let mut world = World::with_tuning(soft(1.0), soft(-0.2));
        world.offer_planet(planet(x, y, radius), far_away());
        world.gen_particle(vec(0.0, 0.0), vec(0.0, 0.0));
        world.move_particles();
        let vel = at(world.particles()[0].vel);
        assert!(vel.0 * x >= 0.0 && vel.1 * y >= 0.0, "{:?} toward ({}, {})", vel, x, y);
        if vel.0 != 0.0 || vel.1 != 0.0 {
            pulled += 1;
            if radius >= 1.0 && x.abs() >= 1.0 {
                assert!(vel.0 * x > 0.0);
            }
        }
    }
    assert!(pulled > 200);
}
