//! Polylines: the ordered vertices of one stroke.

use vstd::prelude::*;
use crate::geom::{Point, Vec2};

verus! {

/// A polyline under construction or finished: the vertex that the pen moves
/// to first, followed by the vertices that line segments lead to, in drawing
/// order. Its view is the whole vertex sequence, start included, so it is
/// never empty.
#[derive(PartialEq, Eq, Debug)]
pub struct Polyline {
    start: Point,
    rest: Vec<Point>,
}

impl View for Polyline {
    type V = Seq<Vec2>;

    closed spec fn view(&self) -> Seq<Vec2> {
        Seq::new(
            self.rest@.len() + 1,
            |i: int| if i == 0 { self.start@ } else { self.rest@[i - 1]@ },
        )
    }
}

impl Polyline {
    /// Starts a polyline at `start`.
    pub fn new(start: Point) -> (path: Polyline)
        ensures
            path@ == seq![start@],
    {
        let path = Polyline { start, rest: Vec::new() };
        assert(path@ =~= seq![start@]);
        path
    }

    /// Appends a segment that leads to `p`.
    pub fn line_to(&mut self, p: Point)
        ensures
            final(self)@ == old(self)@.push(p@),
    {
        self.rest.push(p);
        assert(self@ =~= old(self)@.push(p@));
    }

    /// The number of segments, one less than the number of vertices.
    pub fn segments(&self) -> (n: usize)
        ensures
            n == self@.len() - 1,
    {
        self.rest.len()
    }

    /// The vertex at position `i`, where position 0 is the start.
    pub fn vertex(&self, i: usize) -> (p: Point)
        requires
            i < self@.len(),
        ensures
            p@ == self@[i as int],
    {
        if i == 0 {
            self.start
        } else {
            self.rest[i - 1]
        }
    }

    /// The start vertex.
    pub fn first(&self) -> (p: Point)
        ensures
            p@ == self@.first(),
    {
        self.start
    }

    /// The vertex that was added last; the start if there is no segment.
    pub fn last(&self) -> (p: Point)
        ensures
            p@ == self@.last(),
    {
        let n: usize = self.rest.len();
        if n == 0 {
            self.start
        } else {
            self.rest[n - 1]
        }
    }
}

/// A polyline always has a start vertex.
pub proof fn lemma_polyline_nonempty(path: Polyline)
    ensures
        path@.len() >= 1,
{
}

} // verus!
