//! Velocity updates with linear acceleration toward the input direction and
//! linear deceleration to rest, and per-axis movement that commits an axis
//! only where it stays inside the world and clear of the obstacle.
use vstd::prelude::*;
use crate::overlap::{circles_meet, circles_overlap, rects_overlap, sides_around, sides_overlap, Sides};
use crate::vector::{
    is_zero, len_sq, length_squared, lemma_bounded_by_length, lemma_scaled, scale_to, scaled, square, within,
    Vec2, LIMIT,
};

verus! {

/// The velocity of a moving entity.
#[derive(Clone, Copy, Debug, PartialEq, Eq, Structural)]
pub struct Velocity(pub Vec2);

impl Velocity {
    /// An entity at rest.
    pub fn new() -> (r: Velocity)
        ensures
            is_zero(r.0),
    {
        Velocity(Vec2 { x: 0, y: 0 })
    }
}

impl From<Vec2> for Velocity {
    fn from(v: Vec2) -> (r: Velocity)
        ensures
            r.0 == v,
    {
        Velocity(v)
    }
}

impl vstd::std_specs::convert::FromSpecImpl<Vec2> for Velocity {
    open spec fn obeys_from_spec() -> bool {
        true
    }

    open spec fn from_spec(v: Vec2) -> Velocity {
        Velocity(v)
    }
}

/// How fast an entity may go and how quickly it speeds up and slows down.
#[derive(Clone, Copy, Debug, PartialEq, Eq, Structural)]
pub struct MotionParams {
    /// Largest speed, in length units per unit of time.
    pub max_speed: i64,
    /// Change of speed per unit of time.
    pub accel: i64,
}

pub open spec fn params_ok(p: MotionParams) -> bool {
    0 <= p.max_speed <= LIMIT && 0 <= p.accel <= LIMIT
}

pub open spec fn sum(a: Vec2, b: Vec2) -> Vec2 {
    Vec2 { x: (a.x + b.x) as i64, y: (a.y + b.y) as i64 }
}

pub open spec fn diff(a: Vec2, b: Vec2) -> Vec2 {
    Vec2 { x: (a.x - b.x) as i64, y: (a.y - b.y) as i64 }
}

pub open spec fn zero() -> Vec2 {
    Vec2 { x: 0, y: 0 }
}

/// `v` when it is no longer than `max`, else `v` rescaled to length `max`.
pub open spec fn clamped(v: Vec2, max: int) -> Vec2 {
    if len_sq(v) <= max * max {
        v
    } else {
        scaled(v, max)
    }
}

/// The velocity after one tick: with input, `acc` toward the input direction
/// and then capped at `max`; without, `acc` back toward rest, or rest itself
/// once the speed is no more than `acc`.
pub open spec fn next_velocity_of(v: Vec2, input: Vec2, acc: int, max: int) -> Vec2 {
    if !is_zero(input) {
        clamped(sum(v, scaled(input, acc)), max)
    } else if len_sq(v) > acc * acc {
        diff(v, scaled(v, acc))
    } else {
        zero()
    }
}

/// Each component of `r` lies between zero and the same component of `v`.
pub open spec fn toward_rest(v: Vec2, r: Vec2) -> bool {
    &&& (0 <= r.x <= v.x || v.x <= r.x <= 0)
    &&& (0 <= r.y <= v.y || v.y <= r.y <= 0)
}

proof fn lemma_toward_rest_shorter(v: Vec2, r: Vec2)
    requires
        toward_rest(v, r),
    ensures
        len_sq(r) <= len_sq(v),
{
    assert(r.x * r.x <= v.x * v.x) by (nonlinear_arith)
        requires 0 <= r.x <= v.x || v.x <= r.x <= 0;
    assert(r.y * r.y <= v.y * v.y) by (nonlinear_arith)
        requires 0 <= r.y <= v.y || v.y <= r.y <= 0;
}

/// Caps the length of `v` at `max`, keeping its direction.
pub fn clamp_length_max(v: Vec2, max: i64) -> (r: Vec2)
    requires
        within(v, 2 * LIMIT),
        0 <= max <= LIMIT,
    ensures
        r == clamped(v, max as int),
        len_sq(r) <= max * max,
{
    let n: i128 = length_squared(v);
    let m: i128 = square(max);
    if n <= m {
        v
    } else {
        scale_to(v, max)
    }
}

/// The velocity after one tick of input `input`, with `acc` the change of
/// speed that the tick allows and `max_speed` the cap.
pub fn next_velocity(v: Vec2, input: Vec2, acc: i64, max_speed: i64) -> (r: Vec2)
    requires
        within(v, LIMIT as int),
        within(input, LIMIT as int),
        0 <= acc <= LIMIT,
        0 <= max_speed <= LIMIT,
    ensures
        r == next_velocity_of(v, input, acc as int, max_speed as int),
        within(r, LIMIT as int),
        !is_zero(input) ==> len_sq(r) <= max_speed * max_speed,
        len_sq(v) <= max_speed * max_speed ==> len_sq(r) <= max_speed * max_speed,
        is_zero(input) ==> toward_rest(v, r),
{
    if input.x != 0 || input.y != 0 {
        let push: Vec2 = scale_to(input, acc);
        let r = clamp_length_max(Vec2 { x: v.x + push.x, y: v.y + push.y }, max_speed);
        proof {
            lemma_bounded_by_length(r, max_speed as int);
        }
        r
    } else {
        let n: i128 = length_squared(v);
        let a: i128 = square(acc);
        if n > a {
            let back: Vec2 = scale_to(v, acc);
            proof {
                lemma_scaled(v, acc as int);
            }
            let r = Vec2 { x: v.x - back.x, y: v.y - back.y };
            proof {
                lemma_toward_rest_shorter(v, r);
            }
            r
        } else {
            let r = Vec2 { x: 0, y: 0 };
            proof {
                assert(len_sq(r) == 0);
                assert(max_speed * max_speed >= 0) by (nonlinear_arith);
            }
            r
        }
    }
}


/// The direction that the pressed movement keys ask for: one step left,
/// right, up or down per key, opposite keys cancelling.
pub fn input_direction(left: bool, right: bool, up: bool, down: bool) -> (r: Vec2)
    ensures
        r.x == (if right { 1int } else { 0 }) - (if left { 1int } else { 0 }),
        r.y == (if up { 1int } else { 0 }) - (if down { 1int } else { 0 }),
{
    let mut d = Vec2 { x: 0, y: 0 };
    if left {
        d.x = d.x - 1;
    }
    if right {
        d.x = d.x + 1;
    }
    if up {
        d.y = d.y + 1;
    }
    if down {
        d.y = d.y - 1;
    }
    d
}

/// The rectangle of positions an entity may occupy, edges included.
#[derive(Clone, Copy, Debug, PartialEq, Eq, Structural)]
pub struct Bounds {
    pub min_x: i64,
    pub max_x: i64,
    pub min_y: i64,
    pub max_y: i64,
}

/// The outline of an obstacle.
#[derive(Clone, Copy, Debug, PartialEq, Eq, Structural)]
pub enum Shape {
    /// An axis-aligned rectangle with the given half extents.
    Rect { half_w: i64, half_h: i64 },
    /// A circle with the given radius.
    Circle { radius: i64 },
}

/// A static entity that moving entities may not overlap.
#[derive(Clone, Copy, Debug, PartialEq, Eq, Structural)]
pub struct Obstacle {
    pub center: Vec2,
    pub shape: Shape,
}

/// The constant surroundings of a moving entity: where it may go and what it
/// may not run into.
#[derive(Clone, Copy, Debug, PartialEq, Eq, Structural)]
pub struct World {
    pub bounds: Bounds,
    pub obstacle: Option<Obstacle>,
}

/// A moving entity. It collides as a square of half extent `half_size`
/// against rectangles and as a circle of radius `half_size` against circles;
/// `z` orders it for drawing and never changes.
#[derive(Clone, Copy, Debug, PartialEq, Eq, Structural)]
pub struct Body {
    pub pos: Vec2,
    pub z: i64,
    pub velocity: Velocity,
    pub half_size: i64,
}

pub open spec fn in_range(a: int) -> bool {
    -LIMIT <= a <= LIMIT
}

pub open spec fn obstacle_ok(obstacle: Option<Obstacle>) -> bool {
    match obstacle {
        None => true,
        Some(o) => {
            &&& within(o.center, LIMIT as int)
            &&& match o.shape {
                Shape::Rect { half_w, half_h } => 0 <= half_w <= LIMIT && 0 <= half_h <= LIMIT,
                Shape::Circle { radius } => 0 <= radius <= LIMIT,
            }
        },
    }
}

pub open spec fn world_ok(w: World) -> bool {
    &&& in_range(w.bounds.min_x as int) && in_range(w.bounds.max_x as int)
    &&& in_range(w.bounds.min_y as int) && in_range(w.bounds.max_y as int)
    &&& obstacle_ok(w.obstacle)
}

pub open spec fn body_ok(b: Body) -> bool {
    &&& within(b.pos, LIMIT as int)
    &&& within(b.velocity.0, LIMIT as int)
    &&& 0 <= b.half_size <= LIMIT
}

/// Whether an entity of half size `half` at `pos` overlaps the obstacle.
pub open spec fn blocked_at(pos: Vec2, half: int, obstacle: Option<Obstacle>) -> bool {
    match obstacle {
        None => false,
        Some(o) => match o.shape {
            Shape::Rect { half_w, half_h } => sides_overlap(
                sides_around(pos, half, half),
                sides_around(o.center, half_w as int, half_h as int),
            ),
            Shape::Circle { radius } => circles_meet(pos, half, o.center, radius as int),
        },
    }
}

/// `pos` moved by `dx` along x, if that stays inside the bounds and clear of
/// the obstacle; else `pos` itself.
pub open spec fn step_x(pos: Vec2, dx: int, half: int, w: World) -> Vec2 {
    let c = Vec2 { x: (pos.x + dx) as i64, y: pos.y };
    if w.bounds.min_x <= pos.x + dx <= w.bounds.max_x && !blocked_at(c, half, w.obstacle) {
        c
    } else {
        pos
    }
}

/// `pos` moved by `dy` along y, if that stays inside the bounds and clear of
/// the obstacle; else `pos` itself.
pub open spec fn step_y(pos: Vec2, dy: int, half: int, w: World) -> Vec2 {
    let c = Vec2 { x: pos.x, y: (pos.y + dy) as i64 };
    if w.bounds.min_y <= pos.y + dy <= w.bounds.max_y && !blocked_at(c, half, w.obstacle) {
        c
    } else {
        pos
    }
}

/// The entity after one tick of length `dt` under input `input`: the new
/// velocity first, then the x axis moved by it, then the y axis from there.
pub open spec fn advanced(b: Body, input: Vec2, dt: int, p: MotionParams, w: World) -> Body {
    let v = next_velocity_of(b.velocity.0, input, p.accel * dt, p.max_speed as int);
    let px = step_x(b.pos, v.x * dt, b.half_size as int, w);
    let py = step_y(px, v.y * dt, b.half_size as int, w);
    Body { pos: py, velocity: Velocity(v), ..b }
}

/// Whether an entity of half size `half` at `pos` overlaps the obstacle, if
/// there is one.
pub fn blocked(pos: Vec2, half: i64, obstacle: &Option<Obstacle>) -> (r: bool)
    requires
        within(pos, LIMIT as int),
        0 <= half <= LIMIT,
        obstacle_ok(*obstacle),
    ensures
        r == blocked_at(pos, half as int, *obstacle),
{
    match obstacle {
        None => false,
        Some(o) => match o.shape {
            Shape::Rect { half_w, half_h } => {
                let a: Sides = Sides::around(pos, half, half);
                let b: Sides = Sides::around(o.center, half_w, half_h);
                rects_overlap(&a, &b)
            },
            Shape::Circle { radius } => circles_overlap(pos, half, o.center, radius),
        },
    }
}

/// Moves `body` through one tick of length `dt` with movement input `input`:
/// the velocity accelerates toward the input (or decelerates to rest without
/// it) within the speed cap, and each axis of the position then moves only
/// where the result stays inside the world's bounds and clear of its
/// obstacle, x before y, so that an entity slides along what blocks one axis.
pub fn advance(body: &mut Body, input: Vec2, dt: i64, params: &MotionParams, world: &World)
    requires
        body_ok(*old(body)),
        world_ok(*world),
        params_ok(*params),
        within(input, LIMIT as int),
        0 <= dt <= LIMIT,
        params.accel * dt <= LIMIT,
    ensures
        *final(body) == advanced(*old(body), input, dt as int, *params, *world),
        body_ok(*final(body)),
        len_sq(old(body).velocity.0) <= params.max_speed * params.max_speed
            ==> len_sq(final(body).velocity.0) <= params.max_speed * params.max_speed,
{
    proof {
        assert(0 <= params.accel * dt) by (nonlinear_arith)
            requires 0 <= params.accel, 0 <= dt;
    }
    let acc: i64 = params.accel * dt;
    let v: Vec2 = next_velocity(body.velocity.0, input, acc, params.max_speed);
    proof {
        assert(-LIMIT * LIMIT <= v.x * dt <= LIMIT * LIMIT) by (nonlinear_arith)
            requires -LIMIT <= v.x <= LIMIT, 0 <= dt <= LIMIT;
        assert(-LIMIT * LIMIT <= v.y * dt <= LIMIT * LIMIT) by (nonlinear_arith)
            requires -LIMIT <= v.y <= LIMIT, 0 <= dt <= LIMIT;
    }
    let dx: i128 = (v.x as i128) * (dt as i128);
    let dy: i128 = (v.y as i128) * (dt as i128);
    let cx: i128 = body.pos.x as i128 + dx;
    if world.bounds.min_x as i128 <= cx && cx <= world.bounds.max_x as i128 {
        let c = Vec2 { x: cx as i64, y: body.pos.y };
        if !blocked(c, body.half_size, &world.obstacle) {
            body.pos = c;
        }
    }
    let cy: i128 = body.pos.y as i128 + dy;
    if world.bounds.min_y as i128 <= cy && cy <= world.bounds.max_y as i128 {
        let c = Vec2 { x: body.pos.x, y: cy as i64 };
        if !blocked(c, body.half_size, &world.obstacle) {
            body.pos = c;
        }
    }
    body.velocity = Velocity(v);
}

/// A tick of zero length changes nothing, for an entity within the speed cap.
pub proof fn lemma_zero_time_no_change(b: Body, input: Vec2, p: MotionParams, w: World)
    requires
        body_ok(b),
        params_ok(p),
        within(input, LIMIT as int),
        len_sq(b.velocity.0) <= p.max_speed * p.max_speed,
    ensures
        advanced(b, input, 0, p, w) == b,
{
    let v = b.velocity.0;
    assert(p.accel * 0 == 0);
    if !is_zero(input) {
        lemma_scaled(input, 0);
        lemma_bounded_by_length(scaled(input, 0), 0);
        assert(scaled(input, 0) == zero());
        assert(sum(v, zero()) == v);
    } else if len_sq(v) > 0 {
        lemma_scaled(v, 0);
        lemma_bounded_by_length(scaled(v, 0), 0);
        assert(scaled(v, 0) == zero());
        assert(diff(v, zero()) == v);
    } else {
        assert(v.x * v.x >= 0 && v.y * v.y >= 0) by (nonlinear_arith);
        assert(v.x * v.x == 0 ==> v.x == 0) by (nonlinear_arith);
        assert(v.y * v.y == 0 ==> v.y == 0) by (nonlinear_arith);
    }
    let nv = next_velocity_of(v, input, 0, p.max_speed as int);
    assert(nv == v);
    assert(nv.x * 0 == 0 && nv.y * 0 == 0);
    assert(step_x(b.pos, 0, b.half_size as int, w) == b.pos);
    assert(step_y(b.pos, 0, b.half_size as int, w) == b.pos);
}

/// Whether `pos` lies inside the bounds, edges included.
pub open spec fn inside(pos: Vec2, bounds: Bounds) -> bool {
    bounds.min_x <= pos.x <= bounds.max_x && bounds.min_y <= pos.y <= bounds.max_y
}

/// An entity that starts a tick inside the world's bounds and clear of its
/// obstacle ends the tick inside the bounds and clear of the obstacle.
pub proof fn lemma_advance_stays_inside_and_clear(
    b: Body,
    input: Vec2,
    dt: int,
    p: MotionParams,
    w: World,
)
    requires
        inside(b.pos, w.bounds),
        !blocked_at(b.pos, b.half_size as int, w.obstacle),
    ensures
        inside(advanced(b, input, dt, p, w).pos, w.bounds),
        !blocked_at(advanced(b, input, dt, p, w).pos, b.half_size as int, w.obstacle),
{
}

} // verus!
