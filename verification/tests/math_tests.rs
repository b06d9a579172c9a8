// Vector, scalar and shape arithmetic. All values are fixed-point
// thousandths: 5000 stands for 5.0.

use rigid2d::Circle;
use rigid2d::Rect;
use rigid2d::Vec2;
use rigid2d::fx_mul;
use rigid2d::isqrt;
use rigid2d::FX_ONE;

#[test]
fn constructors_hold_their_components() {
    let v = Vec2::new(3000, -4000);
    assert_eq!(v.x, 3000);
    assert_eq!(v.y, -4000);
    assert_eq!(Vec2::zero(), Vec2::new(0, 0));
    assert_eq!(Vec2::one(), Vec2::new(FX_ONE, FX_ONE));
    assert_eq!(Vec2::unit_x(), Vec2::new(FX_ONE, 0));
    assert_eq!(Vec2::unit_y(), Vec2::new(0, FX_ONE));
}

#[test]
fn add_negate_gives_zero() {
    let v = Vec2::new(3000, -4000);
    assert_eq!(v.add(v.negate()), Vec2::zero());
    let w = Vec2::new(-123_456, 789);
    assert_eq!(w.add(w.negate()), Vec2::zero());
}

#[test]
fn add_sub_scale_are_componentwise() {
    let v = Vec2::new(2000, 3000);
    let w = Vec2::new(500, -1000);
    assert_eq!(v.add(w), Vec2::new(2500, 2000));
    assert_eq!(v.sub(w), Vec2::new(1500, 4000));
    assert_eq!(v.scale(500), Vec2::new(1000, 1500));
    assert_eq!(v.scale(-500), Vec2::new(-1000, -1500));
}

#[test]
fn dot_is_scaled_product_sum() {
    let x = Vec2::unit_x();
    let v = Vec2::new(3000, 4000);
    assert_eq!(x.dot(&v), 3000);
    assert_eq!(v.dot(&v), 25_000);
}

#[test]
fn length_of_three_four_is_five() {
    let v = Vec2::new(3000, 4000);
    assert_eq!(v.length(), 5000);
    assert_eq!(v.mag(), 5000);
    assert_eq!(v.length_sqr(), 25_000);
    assert_eq!(v.magSqr(), 25_000);
}

#[test]
fn distance_is_symmetric() {
    let v = Vec2::new(1000, 2000);
    let w = Vec2::new(4000, 6000);
    assert_eq!(Vec2::distance(v, w), 5000);
    assert_eq!(Vec2::distance(v, w), Vec2::distance(w, v));
    assert_eq!(Vec2::distance_sqr(v, w), Vec2::distance_sqr(w, v));
}

#[test]
fn distance_sqr_matches_squared_distance() {
    let v = Vec2::new(0, 0);
    let w = Vec2::new(3000, 4000);
    let d = Vec2::distance(v, w);
    let ds = Vec2::distance_sqr(v, w);
    assert_eq!(d, 5000);
    assert_eq!(ds, 25_000);
    assert_eq!(d * d, FX_ONE * ds);
}

#[test]
fn normalize_scales_to_unit_length() {
    let v = Vec2::new(3000, 4000);
    assert_eq!(v.normalize(), Some(Vec2::new(600, 800)));
    let w = Vec2::new(-5000, 0);
    assert_eq!(w.normalize(), Some(Vec2::new(-1000, 0)));
}

#[test]
fn normalize_of_zero_is_none() {
    assert_eq!(Vec2::zero().normalize(), None);
}

#[test]
fn isqrt_exact_values() {
    assert_eq!(isqrt(0), 0);
    assert_eq!(isqrt(1), 1);
    assert_eq!(isqrt(2), 1);
    assert_eq!(isqrt(99), 9);
    assert_eq!(isqrt(100), 10);
    assert_eq!(isqrt(25_000_000), 5000);
    assert_eq!(isqrt(u64::MAX), 4_294_967_295);
}

#[test]
fn fx_mul_rounds_toward_zero() {
    assert_eq!(fx_mul(3000, 500), 1500);
    assert_eq!(fx_mul(-3000, 500), -1500);
    assert_eq!(fx_mul(1, 1), 0);
    assert_eq!(fx_mul(-999, 1), 0);
    assert_eq!(fx_mul(9800, 750), 7350);
}

#[test]
fn rect_accessors_derive_edges() {
    let r = Rect::new(Vec2::new(10_000, 20_000), 30_000, 40_000);
    assert_eq!(r.left(), 10_000);
    assert_eq!(r.right(), 40_000);
    assert_eq!(r.top(), 20_000);
    assert_eq!(r.bottom(), 60_000);
}

#[test]
fn contains_point_is_inclusive() {
    let r = Rect::new(Vec2::zero(), 10_000, 10_000);
    assert!(r.contains_point(Vec2::new(5000, 5000)));
    assert!(!r.contains_point(Vec2::new(11_000, 5000)));
    assert!(r.contains_point(Vec2::new(10_000, 10_000)));
    assert!(r.contains_point(Vec2::new(0, 0)));
    assert!(!r.contains_point(Vec2::new(-1, 5000)));
}

#[test]
fn intersects_counts_touching_edges() {
    let a = Rect::new(Vec2::zero(), 10_000, 10_000);
    let b = Rect::new(Vec2::new(10_000, 0), 10_000, 10_000);
    let c = Rect::new(Vec2::new(10_001, 0), 10_000, 10_000);
    assert!(a.intersects(b));
    assert!(b.intersects(a));
    assert!(!a.intersects(c));
}

#[test]
fn circle_holds_its_fields() {
    let c = Circle::new(Vec2::new(1000, 2000), 5000);
    assert_eq!(c.position, Vec2::new(1000, 2000));
    assert_eq!(c.radius, 5000);
}
