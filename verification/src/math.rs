//! Plane vectors and the axis-aligned shapes built from them.
//!
//! Components are fixed-point thousandths. The square of such a scalar is in
//! millionths, so squared lengths are kept raw (unscaled) and their integer
//! square roots land back in thousandths.

use vstd::prelude::*;

use crate::fixed::FX_ONE;
use crate::fixed::div_trunc;
use crate::fixed::fx_mul;
use crate::fixed::isqrt;
use crate::fixed::lemma_sqrt_floor_bounds;
use crate::fixed::spec_fx_mul;
use crate::fixed::sqrt_floor;
use crate::fixed::trunc_div;

verus! {

/// A plane vector, or a point of the plane, with fixed-point components.
#[derive(Clone, Copy, Debug, PartialEq, Eq, Structural)]
pub struct Vec2 {
    pub x: i64,
    pub y: i64,
}

/// Componentwise sum.
pub open spec fn vadd(a: Vec2, b: Vec2) -> Vec2 {
    Vec2 { x: (a.x + b.x) as i64, y: (a.y + b.y) as i64 }
}

/// Componentwise difference.
pub open spec fn vsub(a: Vec2, b: Vec2) -> Vec2 {
    Vec2 { x: (a.x - b.x) as i64, y: (a.y - b.y) as i64 }
}

/// Componentwise negation.
pub open spec fn vneg(a: Vec2) -> Vec2 {
    Vec2 { x: (-a.x) as i64, y: (-a.y) as i64 }
}

/// `x * x + y * y`: the squared length of `(x, y)`, unscaled.
pub open spec fn len_sqr_raw(x: int, y: int) -> int {
    x * x + y * y
}

/// Unscaled squared distance between the points `a` and `b`.
pub open spec fn dist_sqr_raw(a: Vec2, b: Vec2) -> int {
    len_sqr_raw(b.x - a.x, b.y - a.y)
}

/// Both components lie within `b` of zero.
pub open spec fn vec2_within(v: Vec2, b: int) -> bool {
    -b <= v.x <= b && -b <= v.y <= b
}

impl Vec2 {
    pub fn new(x: i64, y: i64) -> (r: Vec2)
        ensures
            r == (Vec2 { x, y }),
    {
        Vec2 { x, y }
    }

    pub fn zero() -> (r: Vec2)
        ensures
            r == (Vec2 { x: 0, y: 0 }),
    {
        Vec2 { x: 0, y: 0 }
    }

    /// The vector whose components are both 1.0.
    pub fn one() -> (r: Vec2)
        ensures
            r == (Vec2 { x: FX_ONE, y: FX_ONE }),
    {
        Vec2 { x: FX_ONE, y: FX_ONE }
    }

    pub fn unit_x() -> (r: Vec2)
        ensures
            r == (Vec2 { x: FX_ONE, y: 0 }),
    {
        Vec2 { x: FX_ONE, y: 0 }
    }

    pub fn unit_y() -> (r: Vec2)
        ensures
            r == (Vec2 { x: 0, y: FX_ONE }),
    {
        Vec2 { x: 0, y: FX_ONE }
    }

    pub fn add(self, rhs: Vec2) -> (r: Vec2)
        requires
            i64::MIN <= self.x + rhs.x <= i64::MAX,
            i64::MIN <= self.y + rhs.y <= i64::MAX,
        ensures
            r == vadd(self, rhs),
    {
        Vec2 { x: self.x + rhs.x, y: self.y + rhs.y }
    }

    pub fn sub(self, rhs: Vec2) -> (r: Vec2)
        requires
            i64::MIN <= self.x - rhs.x <= i64::MAX,
            i64::MIN <= self.y - rhs.y <= i64::MAX,
        ensures
            r == vsub(self, rhs),
    {
        Vec2 { x: self.x - rhs.x, y: self.y - rhs.y }
    }

    /// Scales both components by the fixed-point factor: `(2.0, 3.0)`
    /// scaled by `0.5` is `(1.0, 1.5)`.
    pub fn scale(self, factor: i64) -> (r: Vec2)
        requires
            i64::MIN <= self.x * factor <= i64::MAX,
            i64::MIN <= self.y * factor <= i64::MAX,
        ensures
            r == (Vec2 {
                x: spec_fx_mul(self.x as int, factor as int) as i64,
                y: spec_fx_mul(self.y as int, factor as int) as i64,
            }),
    {
        Vec2 { x: fx_mul(self.x, factor), y: fx_mul(self.y, factor) }
    }

    pub fn negate(self) -> (r: Vec2)
        requires
            self.x > i64::MIN,
            self.y > i64::MIN,
        ensures
            r == vneg(self),
    {
        Vec2 { x: -self.x, y: -self.y }
    }

    /// Fixed-point dot product: `(1.0, 0.0) . (3.0, 4.0)` is `3.0`.
    pub fn dot(&self, rhs: &Vec2) -> (r: i64)
        requires
            i64::MIN <= self.x * rhs.x <= i64::MAX,
            i64::MIN <= self.y * rhs.y <= i64::MAX,
            i64::MIN <= self.x * rhs.x + self.y * rhs.y <= i64::MAX,
        ensures
            r == trunc_div(self.x * rhs.x + self.y * rhs.y, FX_ONE as int),
    {
        let p = self.x * rhs.x + self.y * rhs.y;
        div_trunc(p, FX_ONE)
    }

    /// Squared length, as a fixed-point scalar.
    pub fn length_sqr(&self) -> (r: i64)
        requires
            self.x * self.x + self.y * self.y <= i64::MAX,
        ensures
            r == trunc_div(len_sqr_raw(self.x as int, self.y as int), FX_ONE as int),
    {
        proof {
            lemma_squares_nonneg(self.x as int, self.y as int);
        }
        let raw = self.x * self.x + self.y * self.y;
        div_trunc(raw, FX_ONE)
    }

    /// Length, as a fixed-point scalar: the floor of the square root of the
    /// unscaled squared length.
    pub fn length(&self) -> (r: i64)
        requires
            self.x * self.x + self.y * self.y <= i64::MAX,
        ensures
            r == sqrt_floor(len_sqr_raw(self.x as int, self.y as int) as nat),
    {
        proof {
            lemma_squares_nonneg(self.x as int, self.y as int);
        }
        let raw = self.x * self.x + self.y * self.y;
        proof {
            assert(raw as u64 as nat == len_sqr_raw(self.x as int, self.y as int) as nat);
        }
        isqrt(raw as u64) as i64
    }

    /// Another name for `length`.
    pub fn mag(&self) -> (r: i64)
        requires
            self.x * self.x + self.y * self.y <= i64::MAX,
        ensures
            r == sqrt_floor(len_sqr_raw(self.x as int, self.y as int) as nat),
    {
        self.length()
    }

    /// Another name for `length_sqr`.
    #[allow(non_snake_case)]
    pub fn magSqr(&self) -> (r: i64)
        requires
            self.x * self.x + self.y * self.y <= i64::MAX,
        ensures
            r == trunc_div(len_sqr_raw(self.x as int, self.y as int), FX_ONE as int),
    {
        self.length_sqr()
    }

    /// The unit vector with this vector's direction, or `None` for the zero
    /// vector, whose direction is undefined.
    pub fn normalize(&self) -> (r: Option<Vec2>)
        requires
            self.x * self.x + self.y * self.y <= i64::MAX,
            i64::MIN <= self.x * FX_ONE <= i64::MAX,
            i64::MIN <= self.y * FX_ONE <= i64::MAX,
        ensures
            len_sqr_raw(self.x as int, self.y as int) == 0 <==> r is None,
            r matches Some(v) ==> v == (Vec2 {
                x: trunc_div(
                    self.x * FX_ONE,
                    sqrt_floor(len_sqr_raw(self.x as int, self.y as int) as nat) as int,
                ) as i64,
                y: trunc_div(
                    self.y * FX_ONE,
                    sqrt_floor(len_sqr_raw(self.x as int, self.y as int) as nat) as int,
                ) as i64,
            }),
    {
        proof {
            lemma_squares_nonneg(self.x as int, self.y as int);
        }
        let raw = self.x * self.x + self.y * self.y;
        proof {
            assert(raw as u64 as nat == len_sqr_raw(self.x as int, self.y as int) as nat);
        }
        if raw == 0 {
            proof {
                assert(self.x * self.x == 0 ==> self.x == 0) by (nonlinear_arith);
                assert(self.y * self.y == 0 ==> self.y == 0) by (nonlinear_arith);
            }
            return None;
        }
        let len = isqrt(raw as u64) as i64;
        proof {
            lemma_sqrt_floor_bounds(raw as nat);
            let s = sqrt_floor(raw as nat);
            if s == 0 {
                assert((s + 1) * (s + 1) == 1) by (nonlinear_arith)
                    requires
                        s == 0,
                ;
                assert(false);
            }
        }
        Some(Vec2 { x: div_trunc(self.x * FX_ONE, len), y: div_trunc(self.y * FX_ONE, len) })
    }

    /// Distance between the points `v1` and `v2`, as a fixed-point scalar.
    pub fn distance(v1: Vec2, v2: Vec2) -> (r: i64)
        requires
            i64::MIN <= v2.x - v1.x <= i64::MAX,
            i64::MIN <= v2.y - v1.y <= i64::MAX,
            dist_sqr_raw(v1, v2) <= i64::MAX,
        ensures
            r == sqrt_floor(dist_sqr_raw(v1, v2) as nat),
    {
        let dx = v2.x - v1.x;
        let dy = v2.y - v1.y;
        proof {
            lemma_squares_nonneg(dx as int, dy as int);
        }
        let raw = dx * dx + dy * dy;
        proof {
            assert(raw as u64 as nat == dist_sqr_raw(v1, v2) as nat);
        }
        isqrt(raw as u64) as i64
    }

    /// Squared distance between `v1` and `v2`, as a fixed-point scalar.
    pub fn distance_sqr(v1: Vec2, v2: Vec2) -> (r: i64)
        requires
            i64::MIN <= v2.x - v1.x <= i64::MAX,
            i64::MIN <= v2.y - v1.y <= i64::MAX,
            dist_sqr_raw(v1, v2) <= i64::MAX,
        ensures
            r == trunc_div(dist_sqr_raw(v1, v2), FX_ONE as int),
    {
        let dx = v2.x - v1.x;
        let dy = v2.y - v1.y;
        proof {
            lemma_squares_nonneg(dx as int, dy as int);
        }
        let raw = dx * dx + dy * dy;
        div_trunc(raw, FX_ONE)
    }
}

/// A sum of two squares is at least either square, and at least zero.
pub proof fn lemma_squares_nonneg(x: int, y: int)
    ensures
        x * x >= 0,
        y * y >= 0,
        len_sqr_raw(x, y) >= x * x,
        len_sqr_raw(x, y) >= y * y,
        len_sqr_raw(x, y) >= 0,
{
    assert(x * x >= 0) by (nonlinear_arith);
    assert(y * y >= 0) by (nonlinear_arith);
}

/// A vector added to its own negation gives the zero vector.
pub proof fn lemma_add_negate_is_zero(v: Vec2)
    requires
        v.x > i64::MIN,
        v.y > i64::MIN,
    ensures
        vadd(v, vneg(v)) == (Vec2 { x: 0, y: 0 }),
{
}

/// Distance does not depend on the order of its endpoints, and neither does
/// the squared distance.
pub proof fn lemma_distance_symmetric(a: Vec2, b: Vec2)
    ensures
        dist_sqr_raw(a, b) == dist_sqr_raw(b, a),
        sqrt_floor(dist_sqr_raw(a, b) as nat) == sqrt_floor(dist_sqr_raw(b, a) as nat),
        trunc_div(dist_sqr_raw(a, b), FX_ONE as int) == trunc_div(dist_sqr_raw(b, a), FX_ONE as int),
{
    assert((b.x - a.x) * (b.x - a.x) == (a.x - b.x) * (a.x - b.x)) by (nonlinear_arith);
    assert((b.y - a.y) * (b.y - a.y) == (a.y - b.y) * (a.y - b.y)) by (nonlinear_arith);
}

/// The squared distance agrees with the square of the distance up to the
/// rounding of each: both bracket the same unscaled value.
pub proof fn lemma_distance_sqr_consistent(a: Vec2, b: Vec2)
    ensures
        sqrt_floor(dist_sqr_raw(a, b) as nat) * sqrt_floor(dist_sqr_raw(a, b) as nat) <= dist_sqr_raw(
            a,
            b,
        ),
        dist_sqr_raw(a, b) < (sqrt_floor(dist_sqr_raw(a, b) as nat) + 1) * (sqrt_floor(
            dist_sqr_raw(a, b) as nat,
        ) + 1),
        FX_ONE * trunc_div(dist_sqr_raw(a, b), FX_ONE as int) <= dist_sqr_raw(a, b),
        dist_sqr_raw(a, b) < FX_ONE * trunc_div(dist_sqr_raw(a, b), FX_ONE as int) + FX_ONE,
{
    lemma_squares_nonneg(b.x - a.x, b.y - a.y);
    let raw = dist_sqr_raw(a, b);
    lemma_sqrt_floor_bounds(raw as nat);
    assert(FX_ONE * (raw / (FX_ONE as int)) <= raw < FX_ONE * (raw / (FX_ONE as int)) + FX_ONE) by (
    nonlinear_arith)
        requires
            raw >= 0,
    ;
}

/// An axis-aligned rectangle: a top-left corner with a width and a height.
/// The Y axis grows downward, matching screen coordinates.
#[derive(Clone, Copy, Debug, PartialEq, Eq, Structural)]
pub struct Rect {
    pub position: Vec2,
    pub width: i64,
    pub height: i64,
}

/// The point lies inside the rectangle, edges included.
pub open spec fn rect_contains(r: Rect, p: Vec2) -> bool {
    &&& r.position.x <= p.x
    &&& p.x <= r.position.x + r.width
    &&& r.position.y <= p.y
    &&& p.y <= r.position.y + r.height
}

/// The rectangles overlap, touching edges included.
pub open spec fn rects_intersect(a: Rect, b: Rect) -> bool {
    &&& a.position.x + a.width >= b.position.x
    &&& a.position.x <= b.position.x + b.width
    &&& a.position.y + a.height >= b.position.y
    &&& a.position.y <= b.position.y + b.height
}

impl Rect {
    pub fn new(pos: Vec2, w: i64, h: i64) -> (r: Rect)
        ensures
            r == (Rect { position: pos, width: w, height: h }),
    {
        Rect { position: pos, width: w, height: h }
    }

    pub fn left(&self) -> (r: i64)
        ensures
            r == self.position.x,
    {
        self.position.x
    }

    pub fn right(&self) -> (r: i64)
        requires
            i64::MIN <= self.position.x + self.width <= i64::MAX,
        ensures
            r == self.position.x + self.width,
    {
        self.position.x + self.width
    }

    pub fn top(&self) -> (r: i64)
        ensures
            r == self.position.y,
    {
        self.position.y
    }

    pub fn bottom(&self) -> (r: i64)
        requires
            i64::MIN <= self.position.y + self.height <= i64::MAX,
        ensures
            r == self.position.y + self.height,
    {
        self.position.y + self.height
    }

    /// Inclusive containment test against all four edges.
    pub fn contains_point(&self, point: Vec2) -> (r: bool)
        requires
            i64::MIN <= self.position.x + self.width <= i64::MAX,
            i64::MIN <= self.position.y + self.height <= i64::MAX,
        ensures
            r == rect_contains(*self, point),
    {
        point.x >= self.left() && point.x <= self.right() && point.y >= self.top() && point.y
            <= self.bottom()
    }

    /// Inclusive overlap test between two rectangles.
    pub fn intersects(&self, other: Rect) -> (r: bool)
        requires
            i64::MIN <= self.position.x + self.width <= i64::MAX,
            i64::MIN <= self.position.y + self.height <= i64::MAX,
            i64::MIN <= other.position.x + other.width <= i64::MAX,
            i64::MIN <= other.position.y + other.height <= i64::MAX,
        ensures
            r == rects_intersect(*self, other),
    {
        self.right() >= other.left() && self.left() <= other.right() && self.bottom()
            >= other.top() && self.top() <= other.bottom()
    }
}

/// A circle: a center point and a radius.
#[derive(Clone, Copy, Debug, PartialEq, Eq, Structural)]
pub struct Circle {
    pub position: Vec2,
    pub radius: i64,
}

impl Circle {
    pub fn new(pos: Vec2, r: i64) -> (c: Circle)
        ensures
            c == (Circle { position: pos, radius: r }),
    {
        Circle { position: pos, radius: r }
    }
}

} // verus!
