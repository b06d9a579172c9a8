//! A minimal 2D rigid-body simulation: vector and shape geometry, bodies
//! integrated under gravity, and a world that advances every body each tick,
//! bounces bodies off its boundary, and reacts to pairwise collisions.
//!
//! All quantities are fixed-point: an `i64` counts thousandths, so `FX_ONE`
//! (1000) stands for 1.0. Positions and lengths are thousandths of a pixel,
//! velocities thousandths of a pixel per second, and time spans thousandths
//! of a second.

mod fixed;
mod math;
mod physics;
mod time;

pub use fixed::COORD_LIMIT;
pub use fixed::FX_ONE;
pub use fixed::div_trunc;
pub use fixed::fx_mul;
pub use fixed::isqrt;
pub use fixed::lemma_sqrt_floor_bounds;
pub use fixed::lemma_sqrt_floor_unique;
pub use fixed::spec_fx_mul;
pub use fixed::sqrt_floor;
pub use fixed::trunc_div;
pub use math::Circle;
pub use math::Rect;
pub use math::Vec2;
pub use math::dist_sqr_raw;
pub use math::lemma_add_negate_is_zero;
pub use math::lemma_distance_sqr_consistent;
pub use math::lemma_distance_symmetric;
pub use math::lemma_squares_nonneg;
pub use math::len_sqr_raw;
pub use math::rect_contains;
pub use math::rects_intersect;
pub use math::vadd;
pub use math::vec2_within;
pub use math::vneg;
pub use math::vsub;
pub use physics::Body;
pub use physics::Shape;
pub use physics::body_in_bounds;
pub use physics::body_wf;
pub use physics::ids_in_order;
pub use physics::lemma_add_body_keeps_ids_ordered;
pub use physics::lemma_ordered_ids_unique;
pub use physics::lemma_static_body_keeps_position;
pub use physics::lemma_step_keeps_identity;
pub use physics::lemma_zero_dt_keeps_bodies;
pub use physics::lemma_zero_dt_world_fixpoint;
pub use physics::circle_rect_hit;
pub use physics::circles_hit;
pub use physics::sbounds_height;
pub use physics::sbounds_left;
pub use physics::sbounds_top;
pub use physics::sbounds_width;
pub use physics::shape_within;
pub use physics::World;
pub use physics::hits_later;
pub use physics::integrated_ok;
pub use physics::spec_collides;
pub use physics::spec_integrate;
pub use physics::spec_new_body;
pub use physics::spec_step_world;
pub use physics::spec_stepped;
pub use physics::world_wf;
pub use physics::zero_vx;
pub use time::Time;
pub use time::spec_tick_ns;
