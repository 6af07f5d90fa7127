use oorandom::Rand32;
use orbit_engine::common::Vec2;
use orbit_engine::console::BUTTON_RIGHT;
use orbit_engine::random;
use orbit_engine::single::F32;
use orbit_engine::world::Planet;
use orbit_engine::world::Star;
use orbit_engine::world::World;

fn soft(x: f32) -> F32 {
    F32::from_bits(x.to_bits())
}

fn hard(x: F32) -> f32 {
    f32::from_bits(x.to_bits())
}

fn at(v: Vec2) -> (f32, f32) {
    (hard(v.x), hard(v.y))
}

#[test]
fn a_unit_draw_is_the_generators_float() {
    for seed in 0..200u64 {
        let mut a = Rand32::new(seed);
        let mut b = Rand32::new(seed);
        for _ in 0..20 {
            let want = a.rand_float();
            let got = random::unit(b.rand_u32());
            assert_eq!(got.to_bits(), want.to_bits());
            assert!(hard(got) >= 0.0 && hard(got) < 1.0);
        }
    }
}

#[test]
fn a_tick_draws_its_planet_and_its_star_from_the_frames_generator() {
    let mut admitted_planets = 0;
    let mut admitted_stars = 0;
    for frame in 0..400u32 {
        let mut world = World::new();
        world.update(0, 0, frame);
        // No thrust: the first four words are the planet's, the next four
        // the star's.
        let mut rng = Rand32::new(frame as u64);
        let size = rng.rand_u32();
        let x = rng.rand_u32();
        let y = rng.rand_u32();
        let radius = rng.rand_u32();
        let planet = Planet::candidate(Vec2::new(soft(0.0), soft(0.0)), size, x, y, radius);
        assert!(world.planets().len() <= 1);
        if let Some(got) = world.planets().first() {
            assert_eq!(at(got.pos), at(planet.pos));
            assert_eq!(got.radius.to_bits(), planet.radius.to_bits());
            assert_eq!(got.color, planet.color);
            admitted_planets += 1;
        }
        let sx = rng.rand_u32();
        let sy = rng.rand_u32();
        let color = rng.rand_u32();
        let width = rng.rand_u32();
        let star = Star::candidate(Vec2::new(soft(160.0), soft(160.0)), sx, sy, color, width);
        assert!(world.stars().len() <= 1);
        if let Some(got) = world.stars().first() {
            assert_eq!(at(got.pos), at(star.pos));
            assert_eq!(got.size.to_bits(), star.size.to_bits());
            assert_eq!(got.color, star.color);
            admitted_stars += 1;
        }
    }
    assert!(admitted_planets > 0);
    assert!(admitted_stars > 0);
}

#[test]
fn thrust_takes_the_first_word_for_its_particle() {
    let mut with_particle = 0;
    for frame in 0..400u32 {
        let mut world = World::new();
        world.update(0, BUTTON_RIGHT, frame);
        let mut rng = Rand32::new(frame as u64);
        let roll = rng.rand_float();
        assert_eq!(world.particles().len(), if roll < 0.1 { 1 } else { 0 });
        if roll < 0.1 {
            with_particle += 1;
            // The particle was put in at rest with the exhaust as its
            // force, and has taken its first step since, pulled by the
            // planet of this tick if there is one.
            let particle = world.particles()[0];
            if world.planets().is_empty() {
                assert_eq!(at(particle.vel), (0.02f32 * -15.0, 0.0 * -15.0));
            }
            assert_eq!(particle.lifetime, Some(599));
        }
        // The planet is tried around the middle of the window, which has
        // followed the ship to (0.02, 0).
        let size = rng.rand_u32();
        let x = rng.rand_u32();
        let y = rng.rand_u32();
        let radius = rng.rand_u32();
        let middle = Vec2::new(soft((0.02 - 80.0) + 160.0 / 2.0), soft((0.0 - 80.0) + 160.0 / 2.0));
        let planet = Planet::candidate(middle, size, x, y, radius);
        if let Some(got) = world.planets().first() {
            assert_eq!(at(got.pos), at(planet.pos));
        }
    }
    assert!(with_particle > 10 && with_particle < 100);
}
