use vstd::prelude::*;

verus! {

/// Defines a grid of tiles in 2 dimensions.
///
/// The tiles are numbered row by row: with width 2 & height 3 the first row
/// holds the tiles 0 & 1, the second row 2 & 3 and the last row 4 & 5.
#[derive(Copy, Clone, Debug, PartialEq, Eq, Structural)]
pub struct Size2d {
    width: u32,
    height: u32,
}

impl Size2d {
    /// The size along the x-axis.
    pub closed spec fn w(self) -> nat {
        self.width as nat
    }

    /// The size along the y-axis.
    pub closed spec fn h(self) -> nat {
        self.height as nat
    }

    /// The size with the given width & height.
    pub closed spec fn spec_new(width: nat, height: nat) -> Size2d {
        Size2d { width: width as u32, height: height as u32 }
    }

    pub proof fn lemma_spec_new(width: nat, height: nat)
        requires
            width <= u32::MAX,
            height <= u32::MAX,
        ensures
            Size2d::spec_new(width, height).w() == width,
            Size2d::spec_new(width, height).h() == height,
    {
    }

    /// The number of tiles covered by this size.
    pub open spec fn spec_count(self) -> nat {
        self.w() * self.h()
    }

    /// The product of both sides fits into a `u32`.
    pub open spec fn count_fits(self) -> bool {
        self.spec_count() <= u32::MAX
    }

    pub proof fn lemma_bounds(self)
        ensures
            self.w() <= u32::MAX,
            self.h() <= u32::MAX,
    {
    }

    /// Returns a new size.
    pub fn new(width: u32, height: u32) -> (r: Size2d)
        ensures
            r.w() == width,
            r.h() == height,
            r == Size2d::spec_new(width as nat, height as nat),
    {
        Size2d { width, height }
    }

    /// Returns a size with equal width & height.
    pub fn square(size: u32) -> (r: Size2d)
        ensures
            r.w() == size,
            r.h() == size,
            r == Size2d::spec_new(size as nat, size as nat),
    {
        Size2d::new(size, size)
    }

    /// Returns a new size with switched width & height.
    pub fn flip(&self) -> (r: Size2d)
        ensures
            r.w() == self.h(),
            r.h() == self.w(),
    {
        Size2d::new(self.height, self.width)
    }

    /// Returns the number of tiles covered by this size.
    pub fn count(&self) -> (r: usize)
        requires
            self.count_fits(),
        ensures
            r == self.spec_count(),
    {
        (self.width * self.height) as usize
    }

    /// Returns the size along the x-axis.
    pub fn width(&self) -> (r: u32)
        ensures
            r == self.w(),
    {
        self.width
    }

    /// Returns the size along the y-axis.
    pub fn height(&self) -> (r: u32)
        ensures
            r == self.h(),
    {
        self.height
    }

    /// Converts an index to the x-coordinate of the equivalent point.
    pub fn to_x(&self, index: usize) -> (r: i32)
        requires
            index <= i32::MAX,
            0 < self.w() <= i32::MAX,
        ensures
            r == index as int % self.w() as int,
    {
        index as i32 % self.width as i32
    }

    /// Converts an index to the y-coordinate of the equivalent point.
    pub fn to_y(&self, index: usize) -> (r: i32)
        requires
            index <= i32::MAX,
            0 < self.w() <= i32::MAX,
        ensures
            r == index as int / self.w() as int,
    {
        index as i32 / self.width as i32
    }

    /// Converts a point to the equivalent index, which is only meaningful
    /// inside the grid.
    pub fn convert_x_y(&self, x: u32, y: u32) -> (r: usize)
        requires
            y * self.w() + x <= u32::MAX,
        ensures
            r == y * self.w() + x,
    {
        proof {
            vstd::arithmetic::mul::lemma_mul_inequality(y as int, y as int, self.w() as int);
        }
        (y * self.width + x) as usize
    }
}

impl core::ops::Mul<Size2d> for Size2d {
    type Output = Size2d;

    /// Multiplies the widths & the heights.
    fn mul(self, other: Size2d) -> (r: Size2d) {
        Size2d::new(self.width * other.width, self.height * other.height)
    }
}

impl vstd::std_specs::ops::MulSpecImpl<Size2d> for Size2d {
    open spec fn obeys_mul_spec() -> bool {
        true
    }

    open spec fn mul_req(self, other: Size2d) -> bool {
        self.w() * other.w() <= u32::MAX && self.h() * other.h() <= u32::MAX
    }

    open spec fn mul_spec(self, other: Size2d) -> Size2d {
        Size2d::spec_new(self.w() * other.w(), self.h() * other.h())
    }
}

} // verus!
