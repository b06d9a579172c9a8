// Body geometry and the narrow-phase collision tests, in fixed-point
// thousandths.

use rigid2d::Body;
use rigid2d::Circle;
use rigid2d::Rect;
use rigid2d::Shape;
use rigid2d::Vec2;

#[test]
fn new_body_has_resting_defaults() {
    let b = Body::new(7, Vec2::new(1000, 2000));
    assert_eq!(b.id, 7);
    assert_eq!(b.position, Vec2::new(1000, 2000));
    assert_eq!(b.velocity, Vec2::new(500_000, 0));
    assert_eq!(b.rotation, 0);
    assert_eq!(b.angular_velocity, 0);
    assert_eq!(b.mass, 1000);
    assert_eq!(b.friction, 0);
    assert_eq!(b.restitution, 750);
    assert_eq!(b.shape, Shape::ShapeNone);
    assert!(!b.is_static);
}

#[test]
fn add_shape_replaces_only_the_shape() {
    let mut b = Body::new(1, Vec2::zero());
    let c = Circle::new(Vec2::zero(), 5000);
    b.add_shape(Shape::ShapeCircle(c));
    assert_eq!(b.shape, Shape::ShapeCircle(c));
    assert_eq!(b.velocity, Vec2::new(500_000, 0));
}

#[test]
fn circle_bounds_are_padded_by_one_pixel() {
    let mut b = Body::new(1, Vec2::new(100_000, 50_000));
    b.add_shape(Shape::ShapeCircle(Circle::new(Vec2::zero(), 5000)));
    let r = b.get_bounds();
    assert_eq!(r.position, Vec2::new(95_000, 45_000));
    assert_eq!(r.width, 11_000);
    assert_eq!(r.height, 11_000);
}

#[test]
fn rect_bounds_translate_the_offset() {
    let mut b = Body::new(1, Vec2::new(10_000, 20_000));
    b.add_shape(Shape::ShapeRectangle(Rect::new(Vec2::new(1000, 2000), 30_000, 40_000)));
    let r = b.get_bounds();
    assert_eq!(r.position, Vec2::new(11_000, 22_000));
    assert_eq!(r.width, 30_000);
    assert_eq!(r.height, 40_000);
}

#[test]
fn shapeless_bounds_are_empty_at_origin() {
    let b = Body::new(1, Vec2::new(123_000, 456_000));
    let r = b.get_bounds();
    assert_eq!(r.position, Vec2::zero());
    assert_eq!(r.width, 0);
    assert_eq!(r.height, 0);
}

#[test]
fn circles_touching_collide() {
    let c1 = Circle::new(Vec2::new(0, 0), 5000);
    let c2 = Circle::new(Vec2::new(8000, 0), 5000);
    assert!(Body::circle_circle_collision(c1, c2));
    let c3 = Circle::new(Vec2::new(11_000, 0), 5000);
    assert!(!Body::circle_circle_collision(c1, c3));
    let c4 = Circle::new(Vec2::new(10_000, 0), 5000);
    assert!(Body::circle_circle_collision(c1, c4));
}

#[test]
fn circle_rect_test_grows_the_rectangle() {
    let r = Rect::new(Vec2::zero(), 10_000, 10_000);
    assert!(Body::circle_rectangle_collision(Circle::new(Vec2::new(15_000, 5000), 5000), r));
    assert!(!Body::circle_rectangle_collision(Circle::new(Vec2::new(15_001, 5000), 5000), r));
    // Near a corner the approximation is over-permissive on purpose.
    assert!(Body::circle_rectangle_collision(Circle::new(Vec2::new(14_000, 14_000), 5000), r));
}

#[test]
fn rect_rect_test_matches_intersects() {
    let a = Rect::new(Vec2::zero(), 10_000, 10_000);
    let b = Rect::new(Vec2::new(9000, 9000), 10_000, 10_000);
    let c = Rect::new(Vec2::new(21_000, 0), 10_000, 10_000);
    assert!(Body::rectangle_rectangle_collision(a, b));
    assert!(!Body::rectangle_rectangle_collision(a, c));
}

#[test]
fn collides_translates_shapes_to_world_space() {
    let mut a = Body::new(1, Vec2::new(100_000, 0));
    a.add_shape(Shape::ShapeCircle(Circle::new(Vec2::zero(), 5000)));
    let mut b = Body::new(2, Vec2::new(108_000, 0));
    b.add_shape(Shape::ShapeCircle(Circle::new(Vec2::zero(), 5000)));
    assert!(a.collides(&b));
    let mut c = Body::new(3, Vec2::new(111_000, 0));
    c.add_shape(Shape::ShapeCircle(Circle::new(Vec2::zero(), 5000)));
    assert!(!a.collides(&c));
}

#[test]
fn collides_dispatches_circle_against_rect_both_ways() {
    let mut a = Body::new(1, Vec2::new(15_000, 5000));
    a.add_shape(Shape::ShapeCircle(Circle::new(Vec2::zero(), 5000)));
    let mut b = Body::new(2, Vec2::zero());
    b.add_shape(Shape::ShapeRectangle(Rect::new(Vec2::zero(), 10_000, 10_000)));
    assert!(a.collides(&b));
    assert!(b.collides(&a));
}

#[test]
fn shapeless_bodies_never_collide() {
    let a = Body::new(1, Vec2::zero());
    let mut b = Body::new(2, Vec2::zero());
    b.add_shape(Shape::ShapeCircle(Circle::new(Vec2::zero(), 5000)));
    assert!(!a.collides(&b));
    assert!(!b.collides(&a));
    assert!(!a.collides(&a));
}
