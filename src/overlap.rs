//! Overlap tests between axis-aligned rectangles and between circles.
use vstd::prelude::*;
use crate::vector::{Vec2, within, LIMIT};

verus! {

/// The four edges of an axis-aligned rectangle.
#[derive(Clone, Copy, Debug, PartialEq, Eq, Structural)]
pub struct Sides {
    pub top: i64,
    pub bottom: i64,
    pub left: i64,
    pub right: i64,
}

/// The edges of the rectangle centred on `c` with half extents `hw` and `hh`.
pub open spec fn sides_around(c: Vec2, hw: int, hh: int) -> Sides {
    Sides {
        top: (c.y + hh) as i64,
        bottom: (c.y - hh) as i64,
        left: (c.x - hw) as i64,
        right: (c.x + hw) as i64,
    }
}

/// Two rectangles overlap unless one lies wholly above, below, left or right
/// of the other; rectangles that share only an edge overlap.
pub open spec fn sides_overlap(a: Sides, b: Sides) -> bool {
    !(a.bottom > b.top || a.top < b.bottom || a.right < b.left || a.left > b.right)
}

/// Squared distance between two points.
pub open spec fn dist_sq(a: Vec2, b: Vec2) -> int {
    (a.x - b.x) * (a.x - b.x) + (a.y - b.y) * (a.y - b.y)
}

/// Two circles overlap when their centres are closer than the sum of their
/// radii; circles that only touch do not.
pub open spec fn circles_meet(a: Vec2, ar: int, b: Vec2, br: int) -> bool {
    dist_sq(a, b) < (ar + br) * (ar + br)
}

impl Sides {
    /// The edges of the rectangle centred on `center` with half extents
    /// `half_w` and `half_h`.
    pub fn around(center: Vec2, half_w: i64, half_h: i64) -> (r: Sides)
        requires
            within(center, LIMIT as int),
            0 <= half_w <= LIMIT,
            0 <= half_h <= LIMIT,
        ensures
            r == sides_around(center, half_w as int, half_h as int),
    {
        Sides {
            top: center.y + half_h,
            bottom: center.y - half_h,
            left: center.x - half_w,
            right: center.x + half_w,
        }
    }
}

/// Whether rectangles `a` and `b` overlap, edges included.
pub fn rects_overlap(a: &Sides, b: &Sides) -> (r: bool)
    ensures
        r == sides_overlap(*a, *b),
{
    !(a.bottom > b.top || a.top < b.bottom || a.right < b.left || a.left > b.right)
}

/// Whether the circle of radius `a_rad` around `a` and the one of radius
/// `b_rad` around `b` overlap.
pub fn circles_overlap(a: Vec2, a_rad: i64, b: Vec2, b_rad: i64) -> (r: bool)
    requires
        within(a, LIMIT as int),
        within(b, LIMIT as int),
        0 <= a_rad <= LIMIT,
        0 <= b_rad <= LIMIT,
    ensures
        r == circles_meet(a, a_rad as int, b, b_rad as int),
{
    let dx: i128 = a.x as i128 - b.x as i128;
    let dy: i128 = a.y as i128 - b.y as i128;
    let rs: i128 = a_rad as i128 + b_rad as i128;
    proof {
        assert(dx * dx <= 4 * LIMIT * LIMIT && dy * dy <= 4 * LIMIT * LIMIT
            && rs * rs <= 4 * LIMIT * LIMIT && 0 <= dx * dx && 0 <= dy * dy) by (nonlinear_arith)
            requires
                -2 * LIMIT <= dx <= 2 * LIMIT,
                -2 * LIMIT <= dy <= 2 * LIMIT,
                0 <= rs <= 2 * LIMIT;
    }
    dx * dx + dy * dy < rs * rs
}

/// Rectangle overlap does not depend on the order of its arguments.
pub proof fn lemma_rects_overlap_symmetric(a: Sides, b: Sides)
    ensures
        sides_overlap(a, b) == sides_overlap(b, a),
{
}

/// Circle overlap does not depend on the order of its arguments.
pub proof fn lemma_circles_overlap_symmetric(a: Vec2, ar: int, b: Vec2, br: int)
    ensures
        circles_meet(a, ar, b, br) == circles_meet(b, br, a, ar),
{
    assert(dist_sq(a, b) == dist_sq(b, a)) by (nonlinear_arith);
    assert((ar + br) * (ar + br) == (br + ar) * (br + ar));
}

/// Growing either radius can turn circles that do not overlap into ones that
/// do, never the reverse.
pub proof fn lemma_circles_overlap_monotone(
    a: Vec2,
    ar: int,
    ar2: int,
    b: Vec2,
    br: int,
    br2: int,
)
    requires
        0 <= ar <= ar2,
        0 <= br <= br2,
    ensures
        circles_meet(a, ar, b, br) ==> circles_meet(a, ar2, b, br2),
{
    assert((ar + br) * (ar + br) <= (ar2 + br2) * (ar2 + br2)) by (nonlinear_arith)
        requires 0 <= ar <= ar2, 0 <= br <= br2;
}

} // verus!
