//! Points and coordinate frames.

use vstd::prelude::*;
use crate::arith::distance;

verus! {

/// A position or displacement in the plane, with unbounded integer
/// coordinates. This is the mathematical model of [`Point`] and [`Origin`].
pub struct Vec2 {
    pub x: int,
    pub y: int,
}

impl Vec2 {
    /// The componentwise sum.
    pub open spec fn plus(self, other: Vec2) -> Vec2 {
        Vec2 { x: self.x + other.x, y: self.y + other.y }
    }

    /// Both coordinates are representable as `i64`.
    pub open spec fn fits(self) -> bool {
        i64::MIN <= self.x <= i64::MAX && i64::MIN <= self.y <= i64::MAX
    }
}

/// The squared Euclidean distance between `a` and `b`.
pub open spec fn dist_sq(a: Vec2, b: Vec2) -> int {
    (b.x - a.x) * (b.x - a.x) + (b.y - a.y) * (b.y - a.y)
}

/// The Euclidean distance between `a` and `b` is at most `range`.
pub open spec fn near(a: Vec2, b: Vec2, range: int) -> bool {
    range >= 0 && dist_sq(a, b) <= range * range
}

/// A point of the plane.
#[derive(Clone, Copy, PartialEq, Eq, Structural, Debug)]
pub struct Point {
    pub x: i64,
    pub y: i64,
}

impl View for Point {
    type V = Vec2;

    open spec fn view(&self) -> Vec2 {
        Vec2 { x: self.x as int, y: self.y as int }
    }
}

impl Point {
    pub fn new(x: i64, y: i64) -> (p: Point)
        ensures
            p.x == x,
            p.y == y,
    {
        Point { x, y }
    }
}

/// The origin of a coordinate frame, given in the frame that encloses it.
#[derive(Clone, Copy, PartialEq, Eq, Structural, Debug)]
pub struct Origin {
    pub x: i64,
    pub y: i64,
}

impl View for Origin {
    type V = Vec2;

    open spec fn view(&self) -> Vec2 {
        Vec2 { x: self.x as int, y: self.y as int }
    }
}

impl Origin {
    pub fn new(x: i64, y: i64) -> (o: Origin)
        ensures
            o.x == x,
            o.y == y,
    {
        Origin { x, y }
    }

    /// The frame whose origin lies at `p`, where `p` is given in this frame.
    pub fn offset(&self, p: Point) -> (o: Origin)
        requires
            self@.plus(p@).fits(),
        ensures
            o@ == self@.plus(p@),
    {
        Origin { x: p.x + self.x, y: p.y + self.y }
    }

    /// Whether `other` lies within the distance `range` of this origin. A
    /// negative `range` admits nothing.
    pub fn within_range(&self, other: &Origin, range: i64) -> (b: bool)
        ensures
            b == near(self@, other@, range as int),
    {
        if range < 0 {
            return false;
        }
        let dx: u128 = distance(other.x, self.x) as u128;
        let dy: u128 = distance(other.y, self.y) as u128;
        let r: u128 = range as u128;
        assert(dx * dx <= u128::MAX && dy * dy <= u128::MAX && r * r <= u128::MAX
            && dx * dx == (other.x - self.x) * (other.x - self.x)
            && dy * dy == (other.y - self.y) * (other.y - self.y)) by (nonlinear_arith)
            requires
                dx <= 0xffff_ffff_ffff_ffff,
                dy <= 0xffff_ffff_ffff_ffff,
                r <= 0xffff_ffff_ffff_ffff,
                dx == other.x - self.x || dx == self.x - other.x,
                dy == other.y - self.y || dy == self.y - other.y,
        ;
        let dx2: u128 = dx * dx;
        let dy2: u128 = dy * dy;
        let r2: u128 = r * r;
        match dx2.checked_add(dy2) {
            Some(d2) => d2 <= r2,
            None => false,
        }
    }
}

/// Offsets compose by vector addition: the order in which two offsets are
/// applied does not matter, and neither does their grouping.
pub proof fn lemma_offsets_compose(base: Vec2, p: Vec2, q: Vec2)
    ensures
        base.plus(p).plus(q) == base.plus(q).plus(p),
        base.plus(p).plus(q) == base.plus(p.plus(q)),
        p.plus(q) == q.plus(p),
{
}

/// Distance is symmetric, and a point is within every non-negative range of
/// itself.
pub proof fn lemma_near_basics(a: Vec2, b: Vec2, range: int)
    ensures
        dist_sq(a, b) == dist_sq(b, a),
        dist_sq(a, b) >= 0,
        near(a, b, range) == near(b, a, range),
        range >= 0 ==> near(a, a, range),
{
    let dx = b.x - a.x;
    let dy = b.y - a.y;
    assert(dx * dx == (-dx) * (-dx) && dx * dx >= 0) by (nonlinear_arith);
    assert(dy * dy == (-dy) * (-dy) && dy * dy >= 0) by (nonlinear_arith);
    assert(a.x - b.x == -dx);
    assert(a.y - b.y == -dy);
    assert(range >= 0 ==> range * range >= 0) by (nonlinear_arith);
}

} // verus!
