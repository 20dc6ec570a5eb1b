//! The drawing surface as a list of strokes.
//!
//! A canvas records what is drawn on it, in order. Turning the record into
//! pixels is left to a renderer.

use vstd::prelude::*;
use crate::arith::trunc_div;
use crate::color::Color;
use crate::geom::{Origin, Vec2};
use crate::path::Polyline;

verus! {

/// How the end of a stroke is drawn.
#[derive(Clone, Copy, PartialEq, Eq, Structural, Debug)]
pub enum LineCap {
    Round,
    Square,
    Butt,
}

/// How two segments of a stroke are joined.
#[derive(Clone, Copy, PartialEq, Eq, Structural, Debug)]
pub enum LineJoin {
    Round,
    Miter,
    Bevel,
}

/// How a polyline is stroked. The library hands these values on as they
/// are: `width`, `dash_array` and `dash_offset` are lengths, `miter_limit`
/// is a ratio in thousandths.
#[derive(PartialEq, Eq, Debug)]
pub struct StrokeStyle {
    pub cap: LineCap,
    pub join: LineJoin,
    pub width: i64,
    pub miter_limit: i64,
    pub dash_array: Vec<i64>,
    pub dash_offset: i64,
}

/// The mathematical model of a [`StrokeStyle`].
pub struct StrokeModel {
    pub cap: LineCap,
    pub join: LineJoin,
    pub width: i64,
    pub miter_limit: i64,
    pub dash_array: Seq<i64>,
    pub dash_offset: i64,
}

impl View for StrokeStyle {
    type V = StrokeModel;

    open spec fn view(&self) -> StrokeModel {
        StrokeModel {
            cap: self.cap,
            join: self.join,
            width: self.width,
            miter_limit: self.miter_limit,
            dash_array: self.dash_array@,
            dash_offset: self.dash_offset,
        }
    }
}

impl StrokeStyle {
    /// A copy with the same settings.
    pub fn duplicate(&self) -> (s: StrokeStyle)
        ensures
            s@ == self@,
    {
        let mut dash_array: Vec<i64> = Vec::new();
        let mut i: usize = 0;
        while i < self.dash_array.len()
            invariant
                i <= self.dash_array.len(),
                dash_array@ == self.dash_array@.take(i as int),
            decreases self.dash_array.len() - i,
        {
            dash_array.push(self.dash_array[i]);
            i += 1;
            assert(dash_array@ =~= self.dash_array@.take(i as int));
        }
        assert(dash_array@ =~= self.dash_array@);
        StrokeStyle {
            cap: self.cap,
            join: self.join,
            width: self.width,
            miter_limit: self.miter_limit,
            dash_array,
            dash_offset: self.dash_offset,
        }
    }
}

/// One stroke on a canvas.
#[derive(PartialEq, Eq, Debug)]
pub struct Shape {
    pub path: Polyline,
    pub color: Color,
    pub stroke: StrokeStyle,
}

/// The mathematical model of a [`Shape`].
pub struct ShapeModel {
    pub path: Seq<Vec2>,
    pub color: Color,
    pub stroke: StrokeModel,
}

impl View for Shape {
    type V = ShapeModel;

    open spec fn view(&self) -> ShapeModel {
        ShapeModel { path: self.path@, color: self.color, stroke: self.stroke@ }
    }
}

/// A drawing surface: its size, its background, the origin of its
/// coordinate frame, and the strokes drawn so far, oldest first.
#[derive(PartialEq, Eq, Debug)]
pub struct Canvas {
    pub width: i64,
    pub height: i64,
    pub background: Color,
    pub origin: Origin,
    pub shapes: Vec<Shape>,
}

impl Canvas {
    /// The strokes drawn so far, oldest first.
    pub open spec fn strokes(&self) -> Seq<ShapeModel> {
        Seq::new(self.shapes@.len(), |i: int| self.shapes@[i]@)
    }

    /// An empty canvas of the given size, with its origin at the center.
    pub fn new(width: i64, height: i64, background: Color) -> (canvas: Canvas)
        ensures
            canvas.width == width,
            canvas.height == height,
            canvas.background == background,
            canvas.origin.x == trunc_div(width as int, 2),
            canvas.origin.y == trunc_div(height as int, 2),
            canvas.strokes() == Seq::<ShapeModel>::empty(),
    {
        let origin = Origin::new(width / 2, height / 2);
        let canvas = Canvas { width, height, background, origin, shapes: Vec::new() };
        assert(canvas.strokes() =~= Seq::<ShapeModel>::empty());
        canvas
    }

    /// Strokes `path` in `color` on top of what is already there.
    pub fn draw(&mut self, path: Polyline, color: Color, stroke: &StrokeStyle)
        ensures
            final(self).strokes() == old(self).strokes().push(
                ShapeModel { path: path@, color, stroke: stroke@ },
            ),
            final(self).width == old(self).width,
            final(self).height == old(self).height,
            final(self).background == old(self).background,
            final(self).origin == old(self).origin,
    {
        let ghost added = ShapeModel { path: path@, color, stroke: stroke@ };
        let shape = Shape { path, color, stroke: stroke.duplicate() };
        self.shapes.push(shape);
        assert(self.strokes() =~= old(self).strokes().push(added));
    }
}

} // verus!
