use crate::math::color::Color;
use crate::math::point2d::Point2d;
use crate::math::size2d::Size2d;
use vstd::prelude::*;

verus! {

/// A request to draw, as a renderer receives it.
#[derive(Copy, Clone, Debug, PartialEq, Eq, Structural)]
pub enum Primitive {
    /// An axis aligned rectangle with its top left corner at `(x, y)`.
    Rectangle { x: i32, y: i32, size: Size2d, color: Color },
    /// A transformed rectangle with its corners ordered counter-clockwise.
    Polygon { p0: Point2d, p1: Point2d, p2: Point2d, p3: Point2d, color: Color },
    /// A line between 2 points.
    Line { p0: Point2d, p1: Point2d, color: Color },
}

/// The back-end that draws. Each request is appended to what it has drawn.
pub trait Renderer {
    /// What has been requested so far, in order.
    spec fn drawn(&self) -> Seq<Primitive>;

    /// Renders an axis aligned rectangle.
    fn render_rectangle(&mut self, x: i32, y: i32, size: Size2d, color: Color)
        ensures
            final(self).drawn() == old(self).drawn().push(
                Primitive::Rectangle { x, y, size, color },
            ),
    ;

    /// Renders a transformed rectangle. The points are ordered counter-clockwise.
    fn render_transformed_rectangle(
        &mut self,
        p0: Point2d,
        p1: Point2d,
        p2: Point2d,
        p3: Point2d,
        color: Color,
    )
        ensures
            final(self).drawn() == old(self).drawn().push(
                Primitive::Polygon { p0, p1, p2, p3, color },
            ),
    ;

    /// Renders a line between 2 points.
    fn render_line(&mut self, p0: Point2d, p1: Point2d, color: Color)
        ensures
            final(self).drawn() == old(self).drawn().push(Primitive::Line { p0, p1, color }),
    ;
}

} // verus!
