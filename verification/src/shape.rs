//! Straight lines and the cross that marks a point.

use vstd::prelude::*;
use crate::arith::{abs, magnitude};
use crate::canvas::{Canvas, ShapeModel, StrokeStyle};
use crate::color::Color;
use crate::geom::{Origin, Point, Vec2};
use crate::path::Polyline;

verus! {

/// A line segment between two points.
#[derive(Clone, Copy, PartialEq, Eq, Structural, Debug)]
pub struct Line {
    pub p1: Point,
    pub p2: Point,
}

impl Line {
    /// The segment as a vertex sequence in the frame that lies at `origin`.
    pub open spec fn path(&self, origin: Vec2) -> Seq<Vec2> {
        seq![origin.plus(self.p1@), origin.plus(self.p2@)]
    }

    pub fn new(p1: Point, p2: Point) -> (l: Line)
        ensures
            l.p1 == p1,
            l.p2 == p2,
    {
        Line { p1, p2 }
    }

    /// The segment as a polyline of two vertices, placed in the frame that
    /// lies at `origin`.
    pub fn get_path(&self, origin: &Origin) -> (path: Polyline)
        requires
            origin@.plus(self.p1@).fits(),
            origin@.plus(self.p2@).fits(),
        ensures
            path@ == self.path(origin@),
    {
        let p1: Origin = origin.offset(self.p1);
        let p2: Origin = origin.offset(self.p2);
        let mut path = Polyline::new(Point::new(p1.x, p1.y));
        path.line_to(Point::new(p2.x, p2.y));
        assert(path@ =~= self.path(origin@));
        path
    }
}

/// A cross of two lines through `center`, each reaching `width` to either
/// side.
#[derive(Clone, Copy, PartialEq, Eq, Structural, Debug)]
pub struct Cross {
    pub center: Point,
    pub width: i64,
}

impl Cross {
    /// The horizontal bar, left end first.
    pub open spec fn horizontal(&self, origin: Vec2) -> Seq<Vec2> {
        seq![
            origin.plus(Vec2 { x: self.center.x - self.width, y: self.center.y as int }),
            origin.plus(Vec2 { x: self.center.x + self.width, y: self.center.y as int }),
        ]
    }

    /// The vertical bar, the end of smaller `y` first.
    pub open spec fn vertical(&self, origin: Vec2) -> Seq<Vec2> {
        seq![
            origin.plus(Vec2 { x: self.center.x as int, y: self.center.y - self.width }),
            origin.plus(Vec2 { x: self.center.x as int, y: self.center.y + self.width }),
        ]
    }

    /// The ends of both bars have `i64` coordinates in the frame that lies
    /// at `origin`.
    pub open spec fn fits(&self, origin: Origin) -> bool {
        &&& abs(origin.x as int) + abs(self.center.x as int) + abs(self.width as int) <= i64::MAX
        &&& abs(origin.y as int) + abs(self.center.y as int) + abs(self.width as int) <= i64::MAX
    }

    /// Decides [`Cross::fits`].
    pub fn check_fits(&self, origin: &Origin) -> (b: bool)
        ensures
            b == self.fits(*origin),
    {
        let width: i128 = magnitude(self.width);
        magnitude(origin.x) + magnitude(self.center.x) + width <= i64::MAX as i128 && magnitude(
            origin.y,
        ) + magnitude(self.center.y) + width <= i64::MAX as i128
    }

    pub fn new(center: Point, width: i64) -> (c: Cross)
        ensures
            c.center == center,
            c.width == width,
    {
        Cross { center, width }
    }

    /// Draws the cross on `canvas`: first the horizontal bar, then the
    /// vertical one, both in `color`.
    pub fn draw(&self, canvas: &mut Canvas, color: Color, line_stroke: &StrokeStyle)
        requires
            self.fits(old(canvas).origin),
        ensures
            final(canvas).strokes() == old(canvas).strokes().push(
                ShapeModel {
                    path: self.horizontal(old(canvas).origin@),
                    color,
                    stroke: line_stroke@,
                },
            ).push(
                ShapeModel {
                    path: self.vertical(old(canvas).origin@),
                    color,
                    stroke: line_stroke@,
                },
            ),
            final(canvas).width == old(canvas).width,
            final(canvas).height == old(canvas).height,
            final(canvas).background == old(canvas).background,
            final(canvas).origin == old(canvas).origin,
    {
        let l1 = Line::new(
            Point::new(self.center.x - self.width, self.center.y),
            Point::new(self.center.x + self.width, self.center.y),
        );
        let l2 = Line::new(
            Point::new(self.center.x, self.center.y - self.width),
            Point::new(self.center.x, self.center.y + self.width),
        );
        let origin: Origin = canvas.origin;
        let bar1: Polyline = l1.get_path(&origin);
        assert(bar1@ =~= self.horizontal(origin@));
        canvas.draw(bar1, color, line_stroke);
        let bar2: Polyline = l2.get_path(&origin);
        assert(bar2@ =~= self.vertical(origin@));
        canvas.draw(bar2, color, line_stroke);
    }
}

} // verus!
