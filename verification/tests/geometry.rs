use orbit_engine::common::Rect;
use orbit_engine::common::Vec2;
use orbit_engine::single::F32;

fn soft(x: f32) -> F32 {
    F32::from_bits(x.to_bits())
}

fn hard(x: F32) -> f32 {
    f32::from_bits(x.to_bits())
}

fn vec(x: f32, y: f32) -> Vec2 {
    Vec2::new(soft(x), soft(y))
}

fn plain_sqrt(value: f32) -> f32 {
    if value >= 0.0 {
        f32::from_bits((value.to_bits() + 0x3f80_0000) >> 1)
    } else {
        f32::NAN
    }
}

#[test]
fn vectors_add_and_scale_by_coordinate() {
    let sum = vec(1.5, -2.0).add(vec(0.25, 4.0));
    assert_eq!((hard(sum.x), hard(sum.y)), (1.75, 2.0));
    let difference = vec(1.5, -2.0).sub(vec(0.25, 4.0));
    assert_eq!((hard(difference.x), hard(difference.y)), (1.25, -6.0));
    let scaled = vec(1.5, -2.0).mul(soft(-15.0));
    assert_eq!((hard(scaled.x), hard(scaled.y)), (-22.5, 30.0));
    let mut moved = vec(1.0, 1.0);
    moved.add_assign(vec(0.5, -0.5));
    assert_eq!((hard(moved.x), hard(moved.y)), (1.5, 0.5));
}

#[test]
fn vectors_have_operators() {
    let sum = vec(1.5, -2.0) + vec(0.25, 4.0);
    assert_eq!((hard(sum.x), hard(sum.y)), (1.75, 2.0));
    let difference = vec(1.5, -2.0) - vec(0.25, 4.0);
    assert_eq!((hard(difference.x), hard(difference.y)), (1.25, -6.0));
    let scaled = vec(1.5, -2.0) * soft(-15.0);
    assert_eq!((hard(scaled.x), hard(scaled.y)), (-22.5, 30.0));
}

#[test]
fn distance_uses_the_approximate_root() {
    let d = vec(0.0, 0.0).distance(vec(50.0, 0.0));
    assert_eq!(hard(d), 51.53125);
    let e = vec(3.0, 4.0).distance(vec(0.0, 0.0));
    assert_eq!(hard(e), plain_sqrt(25.0));
    let f = vec(1.0, 2.0).distance(vec(4.0, 6.0));
    let g = vec(4.0, 6.0).distance(vec(1.0, 2.0));
    assert_eq!(f.to_bits(), g.to_bits());
    assert_eq!(hard(vec(3.0, 4.0).magnitude()), plain_sqrt(25.0));
}

#[test]
fn normalized_divides_by_the_length() {
    let n = vec(50.0, 0.0).normalized();
    assert_eq!(hard(n.x), 50.0 / 51.53125);
    assert_eq!(hard(n.y), 0.0);
    let zero = vec(0.0, 0.0).normalized();
    assert_eq!(hard(zero.x), 0.0 / plain_sqrt(0.0));
}

#[test]
fn rotated_by_a_quarter_turn() {
    let r = vec(1.0, 0.0).rotated(soft(std::f32::consts::PI / 2.0));
    assert!(hard(r.x).abs() < 2.0e-3);
    assert!((hard(r.y) - 1.0).abs() < 2.0e-3);
    let back = vec(0.0, 2.0).rotated(soft(-std::f32::consts::PI / 2.0));
    assert!((hard(back.x) - 2.0).abs() < 4.0e-3);
    assert!(hard(back.y).abs() < 4.0e-3);
}

#[test]
fn the_window_is_160_wide_and_high() {
    let mut view = Rect::new(vec(-80.0, -80.0));
    assert_eq!((view.width, view.height), (160, 160));
    let center = view.center();
    assert_eq!((hard(center.x), hard(center.y)), (0.0, 0.0));
    view.change_pos(vec(20.0, -30.0));
    assert_eq!((hard(view.top_left.x), hard(view.top_left.y)), (20.0, -30.0));
    let center = view.center();
    assert_eq!((hard(center.x), hard(center.y)), (100.0, 50.0));
    let far = view.center_mul(soft(3.0));
    assert_eq!((hard(far.x), hard(far.y)), (260.0, 210.0));
}
