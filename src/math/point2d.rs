use crate::math::size2d::Size2d;
use vstd::prelude::*;

verus! {

/// Defines a point in 2 dimensions. The x-axis points to the right and the
/// y-axis points down.
#[derive(Copy, Clone, Debug, PartialEq, Eq, Structural)]
pub struct Point2d {
    pub x: i32,
    pub y: i32,
}

/// Both components fit into an `i32`.
pub open spec fn fits(x: int, y: int) -> bool {
    i32::MIN <= x <= i32::MAX && i32::MIN <= y <= i32::MAX
}

/// The point with the given components, which must fit into an `i32`.
pub open spec fn point(x: int, y: int) -> Point2d {
    Point2d { x: x as i32, y: y as i32 }
}

/// Division that rounds towards zero, as integer division of Rust does.
pub open spec fn trunc_div(a: int, b: int) -> int {
    if a >= 0 {
        a / b
    } else {
        -((-a) / b)
    }
}

impl Point2d {
    /// Returns a new point.
    pub fn new(x: i32, y: i32) -> (r: Point2d)
        ensures
            r.x == x,
            r.y == y,
    {
        Point2d { x, y }
    }
}

impl Default for Point2d {
    /// Returns the origin.
    fn default() -> (r: Point2d)
        ensures
            r == point(0, 0),
    {
        Point2d::new(0, 0)
    }
}

impl core::ops::Add<Point2d> for Point2d {
    type Output = Point2d;

    /// Adds the components.
    fn add(self, other: Point2d) -> (r: Point2d) {
        Point2d::new(self.x + other.x, self.y + other.y)
    }
}

impl vstd::std_specs::ops::AddSpecImpl<Point2d> for Point2d {
    open spec fn obeys_add_spec() -> bool {
        true
    }

    open spec fn add_req(self, other: Point2d) -> bool {
        fits(self.x + other.x, self.y + other.y)
    }

    open spec fn add_spec(self, other: Point2d) -> Point2d {
        point(self.x + other.x, self.y + other.y)
    }
}

impl core::ops::Add<i32> for Point2d {
    type Output = Point2d;

    /// Adds an integer to both components.
    fn add(self, value: i32) -> (r: Point2d) {
        Point2d::new(self.x + value, self.y + value)
    }
}

impl vstd::std_specs::ops::AddSpecImpl<i32> for Point2d {
    open spec fn obeys_add_spec() -> bool {
        true
    }

    open spec fn add_req(self, value: i32) -> bool {
        fits(self.x + value, self.y + value)
    }

    open spec fn add_spec(self, value: i32) -> Point2d {
        point(self.x + value, self.y + value)
    }
}

impl core::ops::Add<Size2d> for Point2d {
    type Output = Point2d;

    /// Adds the width to x & the height to y.
    fn add(self, size: Size2d) -> (r: Point2d) {
        Point2d::new(self.x + size.width() as i32, self.y + size.height() as i32)
    }
}

impl vstd::std_specs::ops::AddSpecImpl<Size2d> for Point2d {
    open spec fn obeys_add_spec() -> bool {
        true
    }

    open spec fn add_req(self, size: Size2d) -> bool {
        size.w() <= i32::MAX && size.h() <= i32::MAX && fits(self.x + size.w(), self.y + size.h())
    }

    open spec fn add_spec(self, size: Size2d) -> Point2d {
        point(self.x + size.w(), self.y + size.h())
    }
}

impl core::ops::Sub<i32> for Point2d {
    type Output = Point2d;

    /// Subtracts an integer from both components.
    fn sub(self, value: i32) -> (r: Point2d) {
        Point2d::new(self.x - value, self.y - value)
    }
}

impl vstd::std_specs::ops::SubSpecImpl<i32> for Point2d {
    open spec fn obeys_sub_spec() -> bool {
        true
    }

    open spec fn sub_req(self, value: i32) -> bool {
        fits(self.x - value, self.y - value)
    }

    open spec fn sub_spec(self, value: i32) -> Point2d {
        point(self.x - value, self.y - value)
    }
}

impl core::ops::Sub<Point2d> for Point2d {
    type Output = Point2d;

    /// Subtracts the components.
    fn sub(self, other: Point2d) -> (r: Point2d) {
        Point2d::new(self.x - other.x, self.y - other.y)
    }
}

impl vstd::std_specs::ops::SubSpecImpl<Point2d> for Point2d {
    open spec fn obeys_sub_spec() -> bool {
        true
    }

    open spec fn sub_req(self, other: Point2d) -> bool {
        fits(self.x - other.x, self.y - other.y)
    }

    open spec fn sub_spec(self, other: Point2d) -> Point2d {
        point(self.x - other.x, self.y - other.y)
    }
}

impl core::ops::Sub<Size2d> for Point2d {
    type Output = Point2d;

    /// Subtracts the width from x & the height from y.
    fn sub(self, size: Size2d) -> (r: Point2d) {
        Point2d::new(self.x - size.width() as i32, self.y - size.height() as i32)
    }
}

impl vstd::std_specs::ops::SubSpecImpl<Size2d> for Point2d {
    open spec fn obeys_sub_spec() -> bool {
        true
    }

    open spec fn sub_req(self, size: Size2d) -> bool {
        size.w() <= i32::MAX && size.h() <= i32::MAX && fits(self.x - size.w(), self.y - size.h())
    }

    open spec fn sub_spec(self, size: Size2d) -> Point2d {
        point(self.x - size.w(), self.y - size.h())
    }
}

impl core::ops::Mul<u32> for Point2d {
    type Output = Point2d;

    /// Multiplies both components by an integer.
    fn mul(self, value: u32) -> (r: Point2d) {
        Point2d::new(self.x * value as i32, self.y * value as i32)
    }
}

impl vstd::std_specs::ops::MulSpecImpl<u32> for Point2d {
    open spec fn obeys_mul_spec() -> bool {
        true
    }

    open spec fn mul_req(self, value: u32) -> bool {
        value <= i32::MAX && fits(self.x * value, self.y * value)
    }

    open spec fn mul_spec(self, value: u32) -> Point2d {
        point(self.x * value, self.y * value)
    }
}

impl core::ops::Mul<Size2d> for Point2d {
    type Output = Point2d;

    /// Multiplies x by the width & y by the height.
    fn mul(self, size: Size2d) -> (r: Point2d) {
        Point2d::new(self.x * size.width() as i32, self.y * size.height() as i32)
    }
}

impl vstd::std_specs::ops::MulSpecImpl<Size2d> for Point2d {
    open spec fn obeys_mul_spec() -> bool {
        true
    }

    open spec fn mul_req(self, size: Size2d) -> bool {
        size.w() <= i32::MAX && size.h() <= i32::MAX && fits(self.x * size.w(), self.y * size.h())
    }

    open spec fn mul_spec(self, size: Size2d) -> Point2d {
        point(self.x * size.w(), self.y * size.h())
    }
}

/// Divides an `i32` by a positive divisor, rounding towards zero.
fn div_towards_zero(a: i32, b: i32) -> (r: i32)
    requires
        b > 0,
    ensures
        r == trunc_div(a as int, b as int),
{
    if a >= 0 {
        a / b
    } else {
        let m: i64 = -(a as i64);
        let q: i64 = m / (b as i64);
        (-q) as i32
    }
}

impl core::ops::Div<u32> for Point2d {
    type Output = Point2d;

    /// Divides both components by an integer, rounding towards zero.
    fn div(self, value: u32) -> (r: Point2d) {
        Point2d::new(div_towards_zero(self.x, value as i32), div_towards_zero(self.y, value as i32))
    }
}

impl vstd::std_specs::ops::DivSpecImpl<u32> for Point2d {
    open spec fn obeys_div_spec() -> bool {
        true
    }

    open spec fn div_req(self, value: u32) -> bool {
        0 < value <= i32::MAX
    }

    open spec fn div_spec(self, value: u32) -> Point2d {
        point(trunc_div(self.x as int, value as int), trunc_div(self.y as int, value as int))
    }
}

} // verus!
