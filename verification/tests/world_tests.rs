// Whole-world simulation ticks, in fixed-point thousandths: the default
// world is 800_000 by 600_000 (800 by 600 pixels).

use rigid2d::Circle;
use rigid2d::Rect;
use rigid2d::Shape;
use rigid2d::Vec2;
use rigid2d::World;

#[test]
fn new_world_is_empty_with_scaled_gravity() {
    let w = World::new(64);
    assert_eq!(w.objects.len(), 0);
    assert_eq!(w.current_id, 1);
    assert_eq!(w.px_to_meters, 64);
    assert_eq!(w.gravity, Vec2::new(0, 9800 * 64));
    assert_eq!(w.width, 800_000);
    assert_eq!(w.height, 600_000);
}

#[test]
fn add_body_assigns_increasing_ids_from_one() {
    let mut w = World::new(1);
    w.add_body(Vec2::new(10_000, 10_000), Shape::ShapeCircle(Circle::new(Vec2::zero(), 5000)), false);
    w.add_body(Vec2::new(50_000, 10_000), Shape::ShapeRectangle(Rect::new(Vec2::zero(), 5000, 5000)), true);
    w.add_body(Vec2::new(90_000, 10_000), Shape::ShapeNone, false);
    assert_eq!(w.objects.len(), 3);
    assert_eq!(w.objects[0].id, 1);
    assert_eq!(w.objects[1].id, 2);
    assert_eq!(w.objects[2].id, 3);
    assert_eq!(w.current_id, 4);
    assert!(w.objects[1].is_static);
    assert!(!w.objects[2].is_static);
}

#[test]
fn get_body_finds_by_id_or_reports_none() {
    let mut w = World::new(1);
    w.add_body(Vec2::new(10_000, 10_000), Shape::ShapeNone, false);
    w.add_body(Vec2::new(20_000, 10_000), Shape::ShapeNone, false);
    let b = w.get_body(2).unwrap();
    assert_eq!(b.id, 2);
    assert_eq!(b.position, Vec2::new(20_000, 10_000));
    assert!(w.get_body(99).is_none());
}

#[test]
fn static_body_never_moves() {
    let mut w = World::new(1);
    w.add_body(
        Vec2::new(400_000, 300_000),
        Shape::ShapeCircle(Circle::new(Vec2::zero(), 5000)),
        true,
    );
    let mut ticks: u32 = 0;
    while ticks < 10 {
        w.update(1000);
        ticks += 1;
    }
    assert_eq!(w.objects[0].position, Vec2::new(400_000, 300_000));
}

#[test]
fn falling_circle_bounces_off_the_floor() {
    let mut w = World::new(1);
    w.add_body(
        Vec2::new(400_000, 590_000),
        Shape::ShapeCircle(Circle::new(Vec2::zero(), 5000)),
        false,
    );
    // One second of gravity at 9.8 pixels per squared second.
    w.update(1000);
    let b = w.objects[0];
    // The bounds come to rest exactly on the floor.
    let bounds = b.get_bounds();
    assert_eq!(bounds.bottom(), 600_000);
    assert_eq!(b.position.y, 594_000);
    // The vertical velocity reached 9.8 px/s, then flipped and kept 0.75.
    assert_eq!(b.velocity.y, -7350);
    // The default horizontal velocity carried it into the right wall too.
    assert_eq!(bounds.right(), 800_000);
    assert_eq!(b.position.x, 794_000);
    assert_eq!(b.velocity.x, -375_000);
}

#[test]
fn body_bounces_off_the_left_wall() {
    let mut w = World::new(0);
    w.add_body(Vec2::new(5000, 100_000), Shape::ShapeCircle(Circle::new(Vec2::zero(), 5000)), false);
    w.objects[0].velocity = Vec2::new(-20_000, 0);
    w.update(1000);
    let b = w.objects[0];
    // left edge of the bounds lands exactly on zero
    assert_eq!(b.get_bounds().left(), 0);
    assert_eq!(b.position.x, 5000);
    assert_eq!(b.velocity.x, 15_000);
}

#[test]
fn zero_dt_changes_nothing() {
    let mut w = World::new(1);
    w.add_body(
        Vec2::new(100_000, 100_000),
        Shape::ShapeCircle(Circle::new(Vec2::zero(), 5000)),
        false,
    );
    w.add_body(
        Vec2::new(300_000, 200_000),
        Shape::ShapeRectangle(Rect::new(Vec2::zero(), 10_000, 10_000)),
        false,
    );
    let before: Vec<_> = w.objects.clone();
    let mut ticks: u32 = 0;
    while ticks < 5 {
        w.update(0);
        ticks += 1;
    }
    assert_eq!(w.objects[0], before[0]);
    assert_eq!(w.objects[1], before[1]);
}

#[test]
fn colliding_pair_zeroes_the_first_horizontal_velocity() {
    let mut w = World::new(0);
    w.add_body(
        Vec2::new(100_000, 100_000),
        Shape::ShapeCircle(Circle::new(Vec2::zero(), 5000)),
        true,
    );
    w.add_body(
        Vec2::new(108_000, 100_000),
        Shape::ShapeCircle(Circle::new(Vec2::zero(), 5000)),
        true,
    );
    w.update(0);
    // The earlier body of the pair loses its horizontal velocity.
    assert_eq!(w.objects[0].velocity.x, 0);
    assert_eq!(w.objects[1].velocity.x, 500_000);
    // Positions are untouched by the reaction.
    assert_eq!(w.objects[0].position, Vec2::new(100_000, 100_000));
    assert_eq!(w.objects[1].position, Vec2::new(108_000, 100_000));
}

#[test]
fn custom_sized_world_clamps_against_its_own_floor() {
    let mut w = World::with_size(1, 100_000, 50_000);
    assert_eq!(w.width, 100_000);
    assert_eq!(w.height, 50_000);
    w.add_body(Vec2::new(20_000, 44_000), Shape::ShapeCircle(Circle::new(Vec2::zero(), 5000)), false);
    w.objects[0].velocity = Vec2::new(0, 10_000);
    w.update(1000);
    let b = w.objects[0];
    // One second of gravity lifts the fall to 19.8 px/s before the bounce.
    assert_eq!(b.get_bounds().bottom(), 50_000);
    assert_eq!(b.velocity.y, -14_850);
}
