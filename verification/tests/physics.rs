use orbit_engine::common::Rect;
use orbit_engine::common::Vec2;
use orbit_engine::gfx::Screen;
use orbit_engine::particle::PhysicsObject;
use orbit_engine::particle::MAX_LIFETIME;
use orbit_engine::single::F32;

fn soft(x: f32) -> F32 {
    F32::from_bits(x.to_bits())
}

fn hard(x: F32) -> f32 {
    f32::from_bits(x.to_bits())
}

fn vec(x: f32, y: f32) -> Vec2 {
    Vec2::new(soft(x), soft(y))
}

fn at(v: Vec2) -> (f32, f32) {
    (hard(v.x), hard(v.y))
}

#[test]
fn a_new_body_is_at_rest() {
    let body = PhysicsObject::new(vec(3.0, -4.0), Some(17));
    assert_eq!(at(body.pos), (3.0, -4.0));
    assert_eq!(at(body.vel), (0.0, 0.0));
    assert_eq!(at(body.acc), (0.0, 0.0));
    assert_eq!(body.lifetime, Some(17));
    assert_eq!(MAX_LIFETIME, 600);
}

#[test]
fn a_step_moves_force_into_velocity_and_velocity_into_position() {
    let mut body = PhysicsObject::new(vec(1.0, 1.0), None);
    body.vel = vec(0.5, 0.0);
    body.apply_force(vec(0.25, -1.0));
    assert_eq!(at(body.acc), (0.25, -1.0));
    body.update();
    assert_eq!(at(body.vel), (0.75, -1.0));
    assert_eq!(at(body.pos), (1.75, 0.0));
    assert_eq!(at(body.acc), (0.0, 0.0));
    assert_eq!(body.lifetime, None);
    body.update();
    assert_eq!(at(body.vel), (0.75, -1.0));
    assert_eq!(at(body.pos), (2.5, -1.0));
}

#[test]
fn forces_gather_until_the_step() {
    let mut body = PhysicsObject::new(vec(0.0, 0.0), None);
    body.apply_force(vec(1.0, 0.0));
    body.apply_force(vec(0.5, 2.0));
    body.apply_force(vec(-0.25, 0.0));
    assert_eq!(at(body.acc), (1.25, 2.0));
    body.update();
    assert_eq!(at(body.vel), (1.25, 2.0));
    assert_eq!(at(body.pos), (1.25, 2.0));
}

#[test]
fn without_force_a_body_goes_n_times_its_velocity() {
    let mut body = PhysicsObject::new(vec(10.0, -20.0), None);
    body.vel = vec(0.75, -1.5);
    for _ in 0..400 {
        body.update();
    }
    assert_eq!(at(body.pos), (10.0 + 400.0 * 0.75, -20.0 - 400.0 * 1.5));
    assert_eq!(at(body.vel), (0.75, -1.5));
}

#[test]
fn a_lifetime_runs_down_to_zero_and_stays() {
    let mut body = PhysicsObject::new(vec(0.0, 0.0), Some(MAX_LIFETIME));
    for n in 1..=600u16 {
        body.update();
        assert_eq!(body.lifetime, Some(600 - n));
    }
    assert_eq!(body.lifetime, Some(0));
    for _ in 0..10 {
        body.update();
        assert_eq!(body.lifetime, Some(0));
    }
    let mut short = PhysicsObject::new(vec(0.0, 0.0), Some(1));
    short.update();
    assert_eq!(short.lifetime, Some(0));
    short.update();
    assert_eq!(short.lifetime, Some(0));
}

#[test]
fn a_body_is_drawn_as_bright_as_it_is_young() {
    let view = Rect::new(vec(0.0, 0.0));
    let mut screen = Screen::new();
    PhysicsObject::new(vec(40.0, 40.0), None).debug_draw(&view, &mut screen);
    assert_eq!(screen.pixel(40, 40), 3);
    assert_eq!(screen.pixel(50, 40), 0);
    let mut screen = Screen::new();
    PhysicsObject::new(vec(40.0, 40.0), Some(MAX_LIFETIME)).debug_draw(&view, &mut screen);
    assert_eq!(screen.pixel(40, 40), 3);
    // A body without lifetime left has brightness 0 and is not drawn at all.
    let mut screen = Screen::new();
    screen.draw_colors = 3;
    PhysicsObject::new(vec(40.0, 40.0), Some(0)).debug_draw(&view, &mut screen);
    assert_eq!(screen.draw_colors, 3);
    assert!(screen.framebuffer.iter().all(|&b| b == 0));
    // Half of the lifetime is brightness 127, the second band at most.
    let mut screen = Screen::new();
    PhysicsObject::new(vec(40.0, 40.0), Some(300)).debug_draw(&view, &mut screen);
    assert!(screen.pixel(40, 40) == 1 || screen.pixel(40, 40) == 2);
}

#[test]
fn steps_are_rounded_like_the_sums_they_are() {
    let mut body = PhysicsObject::new(vec(0.0, 0.0), None);
    body.vel = vec(0.1, 0.0);
    let mut x = 0.0f32;
    for _ in 0..10 {
        body.update();
        x += 0.1;
    }
    assert_eq!(hard(body.pos.x), x);
    // Ten steps of 0.1 do not add up to the datum nearest to 1.
    assert_eq!(x, 1.0000001);
}
