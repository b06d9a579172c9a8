//! Bodies, their collision geometry, and the world that simulates them.

use vstd::prelude::*;

use crate::fixed::COORD_LIMIT;
use crate::fixed::FX_ONE;
use crate::fixed::fx_mul;
use crate::fixed::lemma_fx_mul_small;
use crate::fixed::spec_fx_mul;
use crate::math::Circle;
use crate::math::Rect;
use crate::math::Vec2;
use crate::math::lemma_squares_nonneg;
use crate::math::rects_intersect;
use crate::math::vec2_within;

verus! {

/// Collision geometry of a body, placed relative to the body's position:
/// the embedded circle or rectangle position is a local offset, and the
/// world-space shape is that offset translated by the body's position.
#[derive(Clone, Copy, Debug, PartialEq, Eq, Structural)]
pub enum Shape {
    /// No collision geometry: the body never collides and has empty bounds.
    ShapeNone,
    ShapeCircle(Circle),
    ShapeRectangle(Rect),
}

/// Every coordinate the shape holds lies within `b` of zero.
pub open spec fn shape_within(s: Shape, b: int) -> bool {
    match s {
        Shape::ShapeNone => true,
        Shape::ShapeCircle(c) => vec2_within(c.position, b) && -b <= c.radius <= b,
        Shape::ShapeRectangle(r) => vec2_within(r.position, b) && -b <= r.width <= b && -b
            <= r.height <= b,
    }
}

/// Left edge of the world-space bounds of shape `s` on a body at `px`.
pub open spec fn sbounds_left(s: Shape, px: int) -> int {
    match s {
        Shape::ShapeNone => 0,
        Shape::ShapeCircle(c) => c.position.x + px - c.radius,
        Shape::ShapeRectangle(r) => px + r.position.x,
    }
}

/// Top edge of the world-space bounds of shape `s` on a body at `py`.
pub open spec fn sbounds_top(s: Shape, py: int) -> int {
    match s {
        Shape::ShapeNone => 0,
        Shape::ShapeCircle(c) => c.position.y + py - c.radius,
        Shape::ShapeRectangle(r) => py + r.position.y,
    }
}

/// Width of the bounds of shape `s`. A circle's box is one whole pixel wider
/// than its diameter, a deliberate padding.
pub open spec fn sbounds_width(s: Shape) -> int {
    match s {
        Shape::ShapeNone => 0,
        Shape::ShapeCircle(c) => 2 * c.radius + FX_ONE,
        Shape::ShapeRectangle(r) => r.width as int,
    }
}

/// Height of the bounds of shape `s`, padded like the width.
pub open spec fn sbounds_height(s: Shape) -> int {
    match s {
        Shape::ShapeNone => 0,
        Shape::ShapeCircle(c) => 2 * c.radius + FX_ONE,
        Shape::ShapeRectangle(r) => r.height as int,
    }
}

/// Two circles given in world space touch or overlap: their center distance
/// is at most the sum of the radii (compared squared, which is exact).
pub open spec fn circles_hit(x1: int, y1: int, r1: int, x2: int, y2: int, r2: int) -> bool {
    &&& 0 <= r1 + r2
    &&& (x2 - x1) * (x2 - x1) + (y2 - y1) * (y2 - y1) <= (r1 + r2) * (r1 + r2)
}

/// A circle center lies within a rectangle grown by the radius on all four
/// sides. An approximation of circle-rectangle overlap: exact along the
/// edges, over-permissive near the corners.
pub open spec fn circle_rect_hit(cx: int, cy: int, cr: int, l: int, t: int, w: int, h: int) -> bool {
    &&& cx >= l - cr
    &&& cx <= l + w + cr
    &&& cy >= t - cr
    &&& cy <= t + h + cr
}

/// A simulated object: a point with velocity, material coefficients, a
/// collision shape and a static flag. Static bodies are never integrated
/// but still take part in collision checks.
#[derive(Clone, Copy, Debug, PartialEq, Eq, Structural)]
pub struct Body {
    pub id: i64,
    pub position: Vec2,
    pub velocity: Vec2,
    pub rotation: i64,
    pub angular_velocity: i64,
    pub mass: i64,
    pub friction: i64,
    pub restitution: i64,
    pub shape: Shape,
    pub is_static: bool,
}

/// The body a `World` creates: resting defaults for everything but the id
/// and position, no shape yet, not static.
pub open spec fn spec_new_body(id: i64, pos: Vec2) -> Body {
    Body {
        id,
        position: pos,
        velocity: Vec2 { x: (500 * (FX_ONE as int)) as i64, y: 0 },
        rotation: 0,
        angular_velocity: 0,
        mass: FX_ONE,
        friction: 0,
        restitution: 750,
        shape: Shape::ShapeNone,
        is_static: false,
    }
}

/// The body's stored quantities are small enough that one simulation tick
/// cannot overflow, and its restitution keeps at most the whole velocity.
pub open spec fn body_wf(b: Body) -> bool {
    &&& vec2_within(b.position, COORD_LIMIT as int)
    &&& vec2_within(b.velocity, COORD_LIMIT as int)
    &&& shape_within(b.shape, COORD_LIMIT as int)
    &&& 0 <= b.restitution <= FX_ONE
}

/// The two bodies' world-space shapes touch or overlap, dispatched over the
/// pair of shape kinds; a shapeless body collides with nothing.
pub open spec fn spec_collides(a: Body, b: Body) -> bool {
    match a.shape {
        Shape::ShapeNone => false,
        Shape::ShapeCircle(c1) => match b.shape {
            Shape::ShapeNone => false,
            Shape::ShapeCircle(c2) => circles_hit(
                a.position.x + c1.position.x,
                a.position.y + c1.position.y,
                c1.radius as int,
                b.position.x + c2.position.x,
                b.position.y + c2.position.y,
                c2.radius as int,
            ),
            Shape::ShapeRectangle(r2) => circle_rect_hit(
                a.position.x + c1.position.x,
                a.position.y + c1.position.y,
                c1.radius as int,
                b.position.x + r2.position.x,
                b.position.y + r2.position.y,
                r2.width as int,
                r2.height as int,
            ),
        },
        Shape::ShapeRectangle(r1) => match b.shape {
            Shape::ShapeNone => false,
            Shape::ShapeCircle(c2) => circle_rect_hit(
                b.position.x + c2.position.x,
                b.position.y + c2.position.y,
                c2.radius as int,
                a.position.x + r1.position.x,
                a.position.y + r1.position.y,
                r1.width as int,
                r1.height as int,
            ),
            Shape::ShapeRectangle(r2) => rects_intersect(
                Rect {
                    position: Vec2 {
                        x: (a.position.x + r1.position.x) as i64,
                        y: (a.position.y + r1.position.y) as i64,
                    },
                    width: r1.width,
                    height: r1.height,
                },
                Rect {
                    position: Vec2 {
                        x: (b.position.x + r2.position.x) as i64,
                        y: (b.position.y + r2.position.y) as i64,
                    },
                    width: r2.width,
                    height: r2.height,
                },
            ),
        },
    }
}

impl Body {
    /// A fresh body at `pos` with the resting defaults.
    pub fn new(id: i64, pos: Vec2) -> (r: Body)
        ensures
            r == spec_new_body(id, pos),
    {
        Body {
            id,
            position: pos,
            velocity: Vec2 { x: 500 * FX_ONE, y: 0 },
            rotation: 0,
            angular_velocity: 0,
            mass: FX_ONE,
            friction: 0,
            restitution: 750,
            shape: Shape::ShapeNone,
            is_static: false,
        }
    }

    /// Attaches collision geometry; everything else is kept.
    pub fn add_shape(&mut self, shape: Shape)
        ensures
            *final(self) == (Body { shape, ..*old(self) }),
    {
        self.shape = shape;
    }

    /// World-space axis-aligned bounds of the body's shape. A circle's box
    /// is padded by one pixel; a shapeless body has empty bounds at the
    /// origin.
    pub fn get_bounds(&self) -> (r: Rect)
        requires
            vec2_within(self.position, 4 * (COORD_LIMIT as int)),
            shape_within(self.shape, COORD_LIMIT as int),
        ensures
            r.position.x == sbounds_left(self.shape, self.position.x as int),
            r.position.y == sbounds_top(self.shape, self.position.y as int),
            r.width == sbounds_width(self.shape),
            r.height == sbounds_height(self.shape),
    {
        match self.shape {
            Shape::ShapeCircle(c) => {
                let r = c.radius;
                let d = 2 * r + FX_ONE;
                let tl = Vec2 {
                    x: c.position.x + self.position.x - r,
                    y: c.position.y + self.position.y - r,
                };
                Rect { position: tl, width: d, height: d }
            },
            Shape::ShapeRectangle(r) => {
                Rect {
                    position: Vec2 {
                        x: self.position.x + r.position.x,
                        y: self.position.y + r.position.y,
                    },
                    width: r.width,
                    height: r.height,
                }
            },
            Shape::ShapeNone => Rect { position: Vec2 { x: 0, y: 0 }, width: 0, height: 0 },
        }
    }

    /// Whether this body's world-space shape touches the other's, dispatched
    /// over the two shape kinds.
    pub fn collides(&self, other: &Body) -> (r: bool)
        requires
            vec2_within(self.position, 4 * (COORD_LIMIT as int)),
            shape_within(self.shape, COORD_LIMIT as int),
            vec2_within(other.position, 4 * (COORD_LIMIT as int)),
            shape_within(other.shape, COORD_LIMIT as int),
        ensures
            r == spec_collides(*self, *other),
    {
        match self.shape {
            Shape::ShapeCircle(c1) => {
                let w1 = Circle {
                    position: Vec2 {
                        x: self.position.x + c1.position.x,
                        y: self.position.y + c1.position.y,
                    },
                    radius: c1.radius,
                };
                match other.shape {
                    Shape::ShapeCircle(c2) => {
                        let w2 = Circle {
                            position: Vec2 {
                                x: other.position.x + c2.position.x,
                                y: other.position.y + c2.position.y,
                            },
                            radius: c2.radius,
                        };
                        Body::circle_circle_collision(w1, w2)
                    },
                    Shape::ShapeRectangle(r2) => {
                        let w2 = Rect {
                            position: Vec2 {
                                x: other.position.x + r2.position.x,
                                y: other.position.y + r2.position.y,
                            },
                            width: r2.width,
                            height: r2.height,
                        };
                        Body::circle_rectangle_collision(w1, w2)
                    },
                    Shape::ShapeNone => false,
                }
            },
            Shape::ShapeRectangle(r1) => {
                let w1 = Rect {
                    position: Vec2 {
                        x: self.position.x + r1.position.x,
                        y: self.position.y + r1.position.y,
                    },
                    width: r1.width,
                    height: r1.height,
                };
                match other.shape {
                    Shape::ShapeCircle(c2) => {
                        let w2 = Circle {
                            position: Vec2 {
                                x: other.position.x + c2.position.x,
                                y: other.position.y + c2.position.y,
                            },
                            radius: c2.radius,
                        };
                        Body::circle_rectangle_collision(w2, w1)
                    },
                    Shape::ShapeRectangle(r2) => {
                        let w2 = Rect {
                            position: Vec2 {
                                x: other.position.x + r2.position.x,
                                y: other.position.y + r2.position.y,
                            },
                            width: r2.width,
                            height: r2.height,
                        };
                        Body::rectangle_rectangle_collision(w1, w2)
                    },
                    Shape::ShapeNone => false,
                }
            },
            Shape::ShapeNone => false,
        }
    }

    /// Narrow-phase test for two circles already in world space. Touching
    /// counts as colliding; the squared comparison is exact.
    pub fn circle_circle_collision(c1: Circle, c2: Circle) -> (r: bool)
        requires
            vec2_within(c1.position, 5 * (COORD_LIMIT as int)),
            vec2_within(c2.position, 5 * (COORD_LIMIT as int)),
            -(COORD_LIMIT as int) <= c1.radius <= COORD_LIMIT as int,
            -(COORD_LIMIT as int) <= c2.radius <= COORD_LIMIT as int,
        ensures
            r == circles_hit(
                c1.position.x as int,
                c1.position.y as int,
                c1.radius as int,
                c2.position.x as int,
                c2.position.y as int,
                c2.radius as int,
            ),
    {
        let s = c1.radius + c2.radius;
        if s < 0 {
            return false;
        }
        let dx = c2.position.x - c1.position.x;
        let dy = c2.position.y - c1.position.y;
        proof {
            lemma_squares_nonneg(dx as int, dy as int);
            assert(dx * dx <= 2_000_000_000 * 2_000_000_000 && dy * dy <= 2_000_000_000
                * 2_000_000_000) by (nonlinear_arith)
                requires
                    -2_000_000_000 <= dx <= 2_000_000_000 && -2_000_000_000 <= dy <= 2_000_000_000,
            ;
            assert(s * s <= 500_000_000 * 500_000_000) by (nonlinear_arith)
                requires
                    0 <= s <= 500_000_000,
            ;
        }
        dx * dx + dy * dy <= s * s
    }

    /// Narrow-phase test for a world-space circle against a world-space
    /// rectangle: the center against the rectangle grown by the radius.
    pub fn circle_rectangle_collision(c1: Circle, r1: Rect) -> (r: bool)
        requires
            vec2_within(c1.position, 5 * (COORD_LIMIT as int)),
            vec2_within(r1.position, 5 * (COORD_LIMIT as int)),
            -(COORD_LIMIT as int) <= c1.radius <= COORD_LIMIT as int,
            -(COORD_LIMIT as int) <= r1.width <= COORD_LIMIT as int,
            -(COORD_LIMIT as int) <= r1.height <= COORD_LIMIT as int,
        ensures
            r == circle_rect_hit(
                c1.position.x as int,
                c1.position.y as int,
                c1.radius as int,
                r1.position.x as int,
                r1.position.y as int,
                r1.width as int,
                r1.height as int,
            ),
    {
        c1.position.x >= r1.position.x - c1.radius && c1.position.x <= r1.position.x + r1.width
            + c1.radius && c1.position.y >= r1.position.y - c1.radius && c1.position.y
            <= r1.position.y + r1.height + c1.radius
    }

    /// Narrow-phase test for two world-space rectangles.
    pub fn rectangle_rectangle_collision(r1: Rect, r2: Rect) -> (r: bool)
        requires
            vec2_within(r1.position, 5 * (COORD_LIMIT as int)),
            vec2_within(r2.position, 5 * (COORD_LIMIT as int)),
            -(COORD_LIMIT as int) <= r1.width <= COORD_LIMIT as int,
            -(COORD_LIMIT as int) <= r1.height <= COORD_LIMIT as int,
            -(COORD_LIMIT as int) <= r2.width <= COORD_LIMIT as int,
            -(COORD_LIMIT as int) <= r2.height <= COORD_LIMIT as int,
        ensures
            r == rects_intersect(r1, r2),
    {
        r1.intersects(r2)
    }
}


/// A body after one tick of integration keeps its identity and geometry and
/// stays within the range the next passes rely on.
pub open spec fn integrated_ok(nb: Body, b: Body) -> bool {
    &&& vec2_within(nb.position, 4 * (COORD_LIMIT as int))
    &&& vec2_within(nb.velocity, 2 * (COORD_LIMIT as int))
    &&& nb.shape == b.shape
    &&& nb.restitution == b.restitution
    &&& nb.id == b.id
    &&& nb.is_static == b.is_static
}

/// One body integrated over `dt` and clamped against the world boundary:
/// gravity feeds the velocity, the velocity feeds the position, and each of
/// the three edge checks (floor, right wall, left wall) repositions the body
/// flush with the edge it overshot and reflects the matching velocity
/// component scaled by the restitution. A static body is left untouched.
pub open spec fn spec_integrate(b: Body, g: Vec2, dt: int, w: int, h: int) -> Body {
    if b.is_static {
        b
    } else {
        let vx1 = b.velocity.x + spec_fx_mul(g.x as int, dt);
        let vy1 = b.velocity.y + spec_fx_mul(g.y as int, dt);
        let px1 = b.position.x + spec_fx_mul(vx1, dt);
        let py1 = b.position.y + spec_fx_mul(vy1, dt);
        let floor_hit = sbounds_top(b.shape, py1) + sbounds_height(b.shape) > h;
        let py2 = if floor_hit {
            py1 - (sbounds_top(b.shape, py1) + sbounds_height(b.shape) - h)
        } else {
            py1
        };
        let vy2 = if floor_hit {
            -spec_fx_mul(vy1, b.restitution as int)
        } else {
            vy1
        };
        let right_hit = sbounds_left(b.shape, px1) + sbounds_width(b.shape) > w;
        let px2 = if right_hit {
            px1 - (sbounds_left(b.shape, px1) + sbounds_width(b.shape) - w)
        } else {
            px1
        };
        let vx2 = if right_hit {
            -spec_fx_mul(vx1, b.restitution as int)
        } else {
            vx1
        };
        let left_hit = sbounds_left(b.shape, px2) < 0;
        let px3 = if left_hit {
            px2 - sbounds_left(b.shape, px2)
        } else {
            px2
        };
        let vx3 = if left_hit {
            -spec_fx_mul(vx2, b.restitution as int)
        } else {
            vx2
        };
        Body {
            position: Vec2 { x: px3 as i64, y: py2 as i64 },
            velocity: Vec2 { x: vx3 as i64, y: vy2 as i64 },
            ..b
        }
    }
}

/// The body with its horizontal velocity zeroed: the whole collision
/// reaction of a tick.
pub open spec fn zero_vx(b: Body) -> Body {
    Body { velocity: Vec2 { x: 0, y: b.velocity.y }, ..b }
}

/// Some body after `i` collides with body `i`.
pub open spec fn hits_later(s: Seq<Body>, i: int) -> bool {
    exists|j: int| i < j < s.len() && #[trigger] spec_collides(s[i], s[j])
}

/// The container that owns every body and advances the simulation.
#[derive(Debug)]
pub struct World {
    pub objects: Vec<Body>,
    pub current_id: i64,
    pub px_to_meters: i64,
    pub gravity: Vec2,
    pub width: i64,
    pub height: i64,
}

/// Every body is well-formed and the world's own quantities are in range.
pub open spec fn world_wf(w: World) -> bool {
    &&& forall|i: int| 0 <= i < w.objects@.len() ==> body_wf(#[trigger] w.objects@[i])
    &&& vec2_within(w.gravity, COORD_LIMIT as int)
    &&& 0 <= w.width <= COORD_LIMIT
    &&& 0 <= w.height <= COORD_LIMIT
}

/// All bodies of `w` after one tick of integration and boundary clamping,
/// before the collision reaction.
pub open spec fn spec_stepped(w: World, dt: int) -> Seq<Body> {
    w.objects@.map_values(
        |b: Body| spec_integrate(b, w.gravity, dt, w.width as int, w.height as int),
    )
}

/// All bodies of `w` after one whole tick: integration and boundary
/// clamping, then, for every body that collides with a later one, the
/// horizontal velocity zeroed.
pub open spec fn spec_step_world(w: World, dt: int) -> Seq<Body> {
    let stepped = spec_stepped(w, dt);
    Seq::new(
        stepped.len(),
        |i: int|
            if hits_later(stepped, i) {
                zero_vx(stepped[i])
            } else {
                stepped[i]
            },
    )
}

/// Where a floor reposition fires, the body lands within range: the new
/// vertical position depends only on the shape and the world height.
proof fn lemma_floor_reposition_in_range(s: Shape, p: int, h: int)
    requires
        shape_within(s, COORD_LIMIT as int),
        0 <= h <= COORD_LIMIT,
    ensures
        sbounds_top(s, p) + sbounds_height(s) > h ==> vec2_within(
            Vec2 { x: 0, y: (p - (sbounds_top(s, p) + sbounds_height(s) - h)) as i64 },
            4 * (COORD_LIMIT as int),
        ),
{
}

/// The right-wall analogue of the floor reposition bound.
proof fn lemma_right_reposition_in_range(s: Shape, p: int, w: int)
    requires
        shape_within(s, COORD_LIMIT as int),
        0 <= w <= COORD_LIMIT,
    ensures
        sbounds_left(s, p) + sbounds_width(s) > w ==> vec2_within(
            Vec2 { x: (p - (sbounds_left(s, p) + sbounds_width(s) - w)) as i64, y: 0 },
            4 * (COORD_LIMIT as int),
        ),
{
}

/// The left-wall analogue of the floor reposition bound.
proof fn lemma_left_reposition_in_range(s: Shape, p: int)
    requires
        shape_within(s, COORD_LIMIT as int),
    ensures
        sbounds_left(s, p) < 0 ==> vec2_within(
            Vec2 { x: (p - sbounds_left(s, p)) as i64, y: 0 },
            4 * (COORD_LIMIT as int),
        ),
{
}

impl World {
    /// An empty world of the given size. Gravity points down the screen with
    /// magnitude 9.8 pixels per squared second times the pixel-per-meter
    /// scale, so integration happens directly in pixel units.
    pub fn with_size(px_to_meters: i64, width: i64, height: i64) -> (r: World)
        requires
            0 <= px_to_meters <= 20_000,
            0 <= width <= COORD_LIMIT,
            0 <= height <= COORD_LIMIT,
        ensures
            r.objects@ == Seq::<Body>::empty(),
            r.current_id == 1,
            r.px_to_meters == px_to_meters,
            r.gravity == (Vec2 { x: 0, y: (9800 * (px_to_meters as int)) as i64 }),
            r.width == width,
            r.height == height,
            world_wf(r),
    {
        World {
            objects: Vec::new(),
            current_id: 1,
            px_to_meters,
            gravity: Vec2 { x: 0, y: 9800 * px_to_meters },
            width,
            height,
        }
    }

    /// An empty world with the default 800 by 600 pixel boundary.
    pub fn new(px_to_meters: i64) -> (r: World)
        requires
            0 <= px_to_meters <= 20_000,
        ensures
            r.objects@ == Seq::<Body>::empty(),
            r.current_id == 1,
            r.px_to_meters == px_to_meters,
            r.gravity == (Vec2 { x: 0, y: (9800 * (px_to_meters as int)) as i64 }),
            r.width == 800 * FX_ONE,
            r.height == 600 * FX_ONE,
            world_wf(r),
    {
        World::with_size(px_to_meters, 800 * FX_ONE, 600 * FX_ONE)
    }

    /// Hands out the next body id and advances the counter.
    pub fn next_id(&mut self) -> (r: i64)
        requires
            old(self).current_id < i64::MAX,
        ensures
            r == old(self).current_id,
            final(self).current_id == old(self).current_id + 1,
            final(self).objects@ == old(self).objects@,
            final(self).px_to_meters == old(self).px_to_meters,
            final(self).gravity == old(self).gravity,
            final(self).width == old(self).width,
            final(self).height == old(self).height,
    {
        let id = self.current_id;
        self.current_id = self.current_id + 1;
        id
    }

    /// Appends a body with the next id, the resting defaults, the given
    /// shape and the given static flag. Ids are handed out one past the
    /// other, so they are strictly increasing over the body list.
    pub fn add_body(&mut self, pos: Vec2, shape: Shape, is_static: bool)
        requires
            old(self).current_id < i64::MAX,
        ensures
            final(self).objects@ == old(self).objects@.push(
                Body { shape, is_static, ..spec_new_body(old(self).current_id, pos) },
            ),
            final(self).current_id == old(self).current_id + 1,
            final(self).px_to_meters == old(self).px_to_meters,
            final(self).gravity == old(self).gravity,
            final(self).width == old(self).width,
            final(self).height == old(self).height,
    {
        let id = self.next_id();
        let mut body = Body::new(id, pos);
        body.add_shape(shape);
        body.is_static = is_static;
        self.objects.push(body);
    }

    /// The first body with the given id, or `None` where no body has it.
    pub fn get_body(&self, id: i64) -> (r: Option<&Body>)
        ensures
            r matches Some(b) ==> exists|i: int|
                0 <= i < self.objects@.len() && (#[trigger] self.objects@[i]).id == id && *b
                    == self.objects@[i] && forall|k: int|
                    0 <= k < i ==> (#[trigger] self.objects@[k]).id != id,
            r is None ==> forall|i: int|
                0 <= i < self.objects@.len() ==> (#[trigger] self.objects@[i]).id != id,
    {
        let n = self.objects.len();
        let mut i: usize = 0;
        while i < n
            invariant
                i <= n,
                n == self.objects@.len(),
                forall|k: int| 0 <= k < i ==> (#[trigger] self.objects@[k]).id != id,
            decreases n - i,
        {
            if self.objects[i].id == id {
                return Some(&self.objects[i]);
            }
            i = i + 1;
        }
        None
    }

    /// One simulation tick over `dt` (at most one second): every non-static
    /// body is integrated under gravity and clamped against the boundary;
    /// then every body that collides with a later body has its horizontal
    /// velocity zeroed. Exactly `spec_step_world` of the starting state.
    #[verifier::rlimit(60)]
    pub fn update(&mut self, dt: i64)
        requires
            world_wf(*old(self)),
            0 <= dt <= FX_ONE,
        ensures
            final(self).objects@ == spec_step_world(*old(self), dt as int),
            final(self).current_id == old(self).current_id,
            final(self).px_to_meters == old(self).px_to_meters,
            final(self).gravity == old(self).gravity,
            final(self).width == old(self).width,
            final(self).height == old(self).height,
    {
        let ghost w0 = *self;
        let n = self.objects.len();
        let mut i: usize = 0;
        while i < n
            invariant
                i <= n,
                n == self.objects@.len(),
                n == w0.objects@.len(),
                world_wf(w0),
                0 <= dt <= FX_ONE,
                self.current_id == w0.current_id,
                self.px_to_meters == w0.px_to_meters,
                self.gravity == w0.gravity,
                self.width == w0.width,
                self.height == w0.height,
                forall|k: int|
                    0 <= k < i ==> self.objects@[k] == spec_integrate(
                        w0.objects@[k],
                        w0.gravity,
                        dt as int,
                        w0.width as int,
                        w0.height as int,
                    ),
                forall|k: int|
                    0 <= k < i ==> integrated_ok(#[trigger] self.objects@[k], w0.objects@[k]),
                forall|k: int| i <= k < n ==> self.objects@[k] == w0.objects@[k],
            decreases n - i,
        {
            let b = self.objects[i];
            if !b.is_static {
                proof {
                    assert(body_wf(w0.objects@[i as int]));
                    lemma_fx_mul_small(self.gravity.x as int, dt as int, COORD_LIMIT as int);
                    lemma_fx_mul_small(self.gravity.y as int, dt as int, COORD_LIMIT as int);
                }
                let mut nb = b;
                nb.velocity.x = b.velocity.x + fx_mul(self.gravity.x, dt);
                nb.velocity.y = b.velocity.y + fx_mul(self.gravity.y, dt);
                proof {
                    lemma_fx_mul_small(nb.velocity.x as int, dt as int, 2 * (COORD_LIMIT as int));
                    lemma_fx_mul_small(nb.velocity.y as int, dt as int, 2 * (COORD_LIMIT as int));
                }
                nb.position.x = b.position.x + fx_mul(nb.velocity.x, dt);
                nb.position.y = b.position.y + fx_mul(nb.velocity.y, dt);
                proof {
                    lemma_floor_reposition_in_range(nb.shape, nb.position.y as int, self.height as int);
                }
                let bb1 = nb.get_bounds();
                if bb1.position.y + bb1.height > self.height {
                    let over = (bb1.position.y + bb1.height) - self.height;
                    nb.position.y = nb.position.y - over;
                    proof {
                        lemma_fx_mul_small(
                            nb.velocity.y as int,
                            nb.restitution as int,
                            2 * (COORD_LIMIT as int),
                        );
                    }
                    nb.velocity.y = -fx_mul(nb.velocity.y, nb.restitution);
                }
                proof {
                    lemma_right_reposition_in_range(nb.shape, nb.position.x as int, self.width as int);
                }
                let bb2 = nb.get_bounds();
                if bb2.position.x + bb2.width > self.width {
                    let over = (bb2.position.x + bb2.width) - self.width;
                    nb.position.x = nb.position.x - over;
                    proof {
                        lemma_fx_mul_small(
                            nb.velocity.x as int,
                            nb.restitution as int,
                            2 * (COORD_LIMIT as int),
                        );
                    }
                    nb.velocity.x = -fx_mul(nb.velocity.x, nb.restitution);
                }
                proof {
                    lemma_left_reposition_in_range(nb.shape, nb.position.x as int);
                }
                let bb3 = nb.get_bounds();
                if bb3.position.x < 0 {
                    nb.position.x = nb.position.x - bb3.position.x;
                    proof {
                        lemma_fx_mul_small(
                            nb.velocity.x as int,
                            nb.restitution as int,
                            2 * (COORD_LIMIT as int),
                        );
                    }
                    nb.velocity.x = -fx_mul(nb.velocity.x, nb.restitution);
                }
                proof {
                    assert(nb == spec_integrate(
                        w0.objects@[i as int],
                        w0.gravity,
                        dt as int,
                        w0.width as int,
                        w0.height as int,
                    ));
                }
                self.objects[i] = nb;
            } else {
                proof {
                    assert(body_wf(w0.objects@[i as int]));
                    assert(self.objects@[i as int] == spec_integrate(
                        w0.objects@[i as int],
                        w0.gravity,
                        dt as int,
                        w0.width as int,
                        w0.height as int,
                    ));
                }
            }
            i = i + 1;
        }
        let ghost stepped = self.objects@;
        proof {
            assert(stepped =~= spec_stepped(w0, dt as int));
        }
        let mut i: usize = 0;
        while i < n
            invariant
                i <= n,
                n == self.objects@.len(),
                n == stepped.len(),
                stepped == spec_stepped(w0, dt as int),
                self.current_id == w0.current_id,
                self.px_to_meters == w0.px_to_meters,
                self.gravity == w0.gravity,
                self.width == w0.width,
                self.height == w0.height,
                forall|k: int|
                    0 <= k < n ==> vec2_within((#[trigger] stepped[k]).position, 4 * (
                    COORD_LIMIT as int)) && shape_within(stepped[k].shape, COORD_LIMIT as int),
                forall|k: int|
                    0 <= k < i ==> self.objects@[k] == (if hits_later(stepped, k) {
                        zero_vx(stepped[k])
                    } else {
                        stepped[k]
                    }),
                forall|k: int| i <= k < n ==> self.objects@[k] == stepped[k],
            decreases n - i,
        {
            let mut hit = false;
            let mut j: usize = i + 1;
            while j < n
                invariant
                    i < n,
                    i + 1 <= j <= n,
                    n == self.objects@.len(),
                    n == stepped.len(),
                    forall|k: int|
                        0 <= k < n ==> vec2_within((#[trigger] stepped[k]).position, 4 * (
                        COORD_LIMIT as int)) && shape_within(stepped[k].shape, COORD_LIMIT as int),
                    forall|k: int|
                        0 <= k < i ==> self.objects@[k] == (if hits_later(stepped, k) {
                            zero_vx(stepped[k])
                        } else {
                            stepped[k]
                        }),
                    forall|k: int| i <= k < n ==> self.objects@[k] == stepped[k],
                    hit == exists|jj: int|
                        i < jj < j && #[trigger] spec_collides(stepped[i as int], stepped[jj]),
                decreases n - j,
            {
                let this_pair = self.objects[i].collides(&self.objects[j]);
                if this_pair {
                    hit = true;
                }
                j = j + 1;
            }
            proof {
                assert(hit == hits_later(stepped, i as int));
            }
            if hit {
                let mut b = self.objects[i];
                b.velocity.x = 0;
                self.objects[i] = b;
                proof {
                    assert(self.objects@[i as int] == zero_vx(stepped[i as int]));
                }
            }
            i = i + 1;
        }
        proof {
            assert(self.objects@ =~= spec_step_world(w0, dt as int));
        }
    }
}


/// The body's bounds lie inside the world boundary: above the floor, left of
/// the right wall, right of the left wall.
pub open spec fn body_in_bounds(b: Body, w: int, h: int) -> bool {
    &&& sbounds_top(b.shape, b.position.y as int) + sbounds_height(b.shape) <= h
    &&& sbounds_left(b.shape, b.position.x as int) + sbounds_width(b.shape) <= w
    &&& sbounds_left(b.shape, b.position.x as int) >= 0
}

/// A static body never moves: however many ticks pass and whatever they
/// collide with, a tick leaves a static body's position, shape, id and
/// static flag exactly as they were.
pub proof fn lemma_static_body_keeps_position(w: World, dt: int, i: int)
    requires
        0 <= i < w.objects@.len(),
        w.objects@[i].is_static,
    ensures
        spec_step_world(w, dt).len() == w.objects@.len(),
        spec_step_world(w, dt)[i].position == w.objects@[i].position,
        spec_step_world(w, dt)[i].shape == w.objects@[i].shape,
        spec_step_world(w, dt)[i].id == w.objects@[i].id,
        spec_step_world(w, dt)[i].is_static == w.objects@[i].is_static,
{
    let stepped = spec_stepped(w, dt);
    assert(stepped[i] == w.objects@[i]);
}

/// A tick over `dt == 0` moves nothing: every in-bounds body keeps its
/// position, and a body that collides with no later body is left entirely
/// unchanged.
pub proof fn lemma_zero_dt_keeps_bodies(w: World, i: int)
    requires
        world_wf(w),
        0 <= i < w.objects@.len(),
        forall|k: int|
            0 <= k < w.objects@.len() ==> (#[trigger] w.objects@[k]).is_static || body_in_bounds(
                w.objects@[k],
                w.width as int,
                w.height as int,
            ),
    ensures
        spec_step_world(w, 0).len() == w.objects@.len(),
        spec_step_world(w, 0)[i].position == w.objects@[i].position,
        (forall|j: int|
            i < j < w.objects@.len() ==> !spec_collides(w.objects@[i], #[trigger] w.objects@[j]))
            ==> spec_step_world(w, 0)[i] == w.objects@[i],
{
    lemma_zero_dt_stepped_is_identity(w);
    let stepped = spec_stepped(w, 0);
    assert(stepped =~= w.objects@);
}

/// With `dt == 0` the integration pass is the identity on every body, as
/// long as each body is static or within the boundary.
proof fn lemma_zero_dt_stepped_is_identity(w: World)
    requires
        world_wf(w),
        forall|k: int|
            0 <= k < w.objects@.len() ==> (#[trigger] w.objects@[k]).is_static || body_in_bounds(
                w.objects@[k],
                w.width as int,
                w.height as int,
            ),
    ensures
        spec_stepped(w, 0) =~= w.objects@,
{
    assert forall|k: int| 0 <= k < w.objects@.len() implies spec_stepped(w, 0)[k] == w.objects@[k] by {
        let b = w.objects@[k];
        assert(body_wf(b));
        if !b.is_static {
            assert(b.velocity.x * 0 == 0) by (nonlinear_arith);
            assert(b.velocity.y * 0 == 0) by (nonlinear_arith);
            assert(w.gravity.x * 0 == 0) by (nonlinear_arith);
            assert(w.gravity.y * 0 == 0) by (nonlinear_arith);
            assert(spec_fx_mul(w.gravity.x as int, 0) == 0);
            assert(spec_fx_mul(w.gravity.y as int, 0) == 0);
            assert(spec_fx_mul(b.velocity.x as int, 0) == 0);
            assert(spec_fx_mul(b.velocity.y as int, 0) == 0);
            assert(spec_integrate(b, w.gravity, 0, w.width as int, w.height as int) == b);
        }
    }
}


/// A tick never adds, removes or re-identifies bodies: each keeps its id,
/// shape, static flag and material coefficients, so ids stay unique over
/// any number of ticks.
pub proof fn lemma_step_keeps_identity(w: World, dt: int, i: int)
    requires
        0 <= i < w.objects@.len(),
    ensures
        spec_step_world(w, dt).len() == w.objects@.len(),
        spec_step_world(w, dt)[i].id == w.objects@[i].id,
        spec_step_world(w, dt)[i].shape == w.objects@[i].shape,
        spec_step_world(w, dt)[i].is_static == w.objects@[i].is_static,
        spec_step_world(w, dt)[i].restitution == w.objects@[i].restitution,
        spec_step_world(w, dt)[i].mass == w.objects@[i].mass,
        spec_step_world(w, dt)[i].friction == w.objects@[i].friction,
{
    let stepped = spec_stepped(w, dt);
    assert(stepped[i] == spec_integrate(
        w.objects@[i],
        w.gravity,
        dt,
        w.width as int,
        w.height as int,
    ));
}


/// A tick over `dt == 0` on a world whose bodies are in bounds and where no
/// pair collides is the identity, so any number of such ticks changes
/// nothing.
pub proof fn lemma_zero_dt_world_fixpoint(w: World)
    requires
        world_wf(w),
        forall|k: int|
            0 <= k < w.objects@.len() ==> (#[trigger] w.objects@[k]).is_static || body_in_bounds(
                w.objects@[k],
                w.width as int,
                w.height as int,
            ),
        forall|i: int, j: int|
            #![trigger spec_collides(w.objects@[i], w.objects@[j])]
            0 <= i < j < w.objects@.len() ==> !spec_collides(w.objects@[i], w.objects@[j]),
    ensures
        spec_step_world(w, 0) =~= w.objects@,
{
    lemma_zero_dt_stepped_is_identity(w);
    let stepped = spec_stepped(w, 0);
    assert(stepped =~= w.objects@);
    assert forall|i: int| 0 <= i < w.objects@.len() implies spec_step_world(w, 0)[i]
        == w.objects@[i] by {
        assert(!hits_later(stepped, i));
    }
}

/// The ids over the body list are strictly increasing, at least 1, and all
/// below the id the world will hand out next.
pub open spec fn ids_in_order(s: Seq<Body>, next: int) -> bool {
    &&& forall|i: int, j: int| #![trigger s[i], s[j]] 0 <= i < j < s.len() ==> s[i].id < s[j].id
    &&& forall|i: int| 0 <= i < s.len() ==> 1 <= (#[trigger] s[i]).id < next
}

/// Appending a body that carries exactly the next id keeps the ids strictly
/// increasing; together with `World::new` (which starts the counter at 1)
/// and the ensures of `add_body`, every world builds its list this way.
pub proof fn lemma_add_body_keeps_ids_ordered(s: Seq<Body>, b: Body, next: int)
    requires
        ids_in_order(s, next),
        b.id == next,
        1 <= next,
    ensures
        ids_in_order(s.push(b), next + 1),
{
    let t = s.push(b);
    assert forall|i: int, j: int| #![trigger t[i], t[j]] 0 <= i < j < t.len() implies t[i].id
        < t[j].id by {
        if j < s.len() {
            assert(t[i] == s[i] && t[j] == s[j]);
        } else {
            assert(t[j] == b);
            assert(t[i] == s[i]);
        }
    }
    assert forall|i: int| 0 <= i < t.len() implies 1 <= (#[trigger] t[i]).id < next + 1 by {
        if i < s.len() {
            assert(t[i] == s[i]);
        } else {
            assert(t[i] == b);
        }
    }
}

/// Strictly increasing ids are unique: no two bodies share one.
pub proof fn lemma_ordered_ids_unique(s: Seq<Body>, next: int, i: int, j: int)
    requires
        ids_in_order(s, next),
        0 <= i < s.len(),
        0 <= j < s.len(),
        i != j,
    ensures
        s[i].id != s[j].id,
{
}

} // verus!
