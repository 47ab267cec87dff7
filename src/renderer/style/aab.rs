use crate::math::color::Color;
use vstd::prelude::*;

verus! {

/// Defines how to render an axis aligned box. Used by other styles.
#[derive(Copy, Clone, Debug, PartialEq, Eq, Structural)]
pub struct BoxStyle {
    front: Color,
    side: Color,
    top: Color,
}

/// A component darkened to `num / den` of its value, rounded down.
pub open spec fn darkened(v: u8, num: nat, den: nat) -> u8 {
    (v as nat * num / den) as u8
}

/// A color darkened to `num / den` of its value, rounded down.
pub open spec fn darkened_color(c: Color, num: nat, den: nat) -> Color {
    Color::spec_rgb(
        darkened(c.spec_r(), num, den),
        darkened(c.spec_g(), num, den),
        darkened(c.spec_b(), num, den),
    )
}

impl BoxStyle {
    pub closed spec fn spec_front(&self) -> Color {
        self.front
    }

    pub closed spec fn spec_side(&self) -> Color {
        self.side
    }

    pub closed spec fn spec_top(&self) -> Color {
        self.top
    }

    pub fn new(front: Color, side: Color, top: Color) -> (r: BoxStyle)
        ensures
            r.spec_front() == front,
            r.spec_side() == side,
            r.spec_top() == top,
    {
        BoxStyle { front, side, top }
    }

    /// Fakes lighting by darkening the front to 4/5 & the side to 3/5 of the
    /// color of the top.
    pub fn shaded(color: Color) -> (r: BoxStyle)
        ensures
            r.spec_front() == darkened_color(color, 4, 5),
            r.spec_side() == darkened_color(color, 3, 5),
            r.spec_top() == color,
    {
        BoxStyle { front: darken(color, 4, 5), side: darken(color, 3, 5), top: color }
    }

    pub fn get_front_color(&self) -> (r: &Color)
        ensures
            *r == self.spec_front(),
    {
        &self.front
    }

    pub fn get_side_color(&self) -> (r: &Color)
        ensures
            *r == self.spec_side(),
    {
        &self.side
    }

    pub fn get_top_color(&self) -> (r: &Color)
        ensures
            *r == self.spec_top(),
    {
        &self.top
    }
}

fn darken_component(v: u8, num: u8, den: u8) -> (r: u8)
    requires
        0 < den,
        num <= den,
    ensures
        r == darkened(v, num as nat, den as nat),
{
    proof {
        assert(v as nat * num as nat <= v as nat * den as nat) by (nonlinear_arith)
            requires
                num <= den,
        ;
        vstd::arithmetic::div_mod::lemma_div_is_ordered(
            v as int * num as int,
            v as int * den as int,
            den as int,
        );
        vstd::arithmetic::div_mod::lemma_div_multiples_vanish(v as int, den as int);
        assert(v as nat * num as nat <= 255 * 255) by (nonlinear_arith)
            requires
                num <= den,
                v <= 255,
                den <= 255,
        ;
    }
    ((v as u32 * num as u32) / den as u32) as u8
}

fn darken(c: Color, num: u8, den: u8) -> (r: Color)
    requires
        0 < den,
        num <= den,
    ensures
        r == darkened_color(c, num as nat, den as nat),
{
    Color::from_rgb(
        darken_component(c.r(), num, den),
        darken_component(c.g(), num, den),
        darken_component(c.b(), num, den),
    )
}

} // verus!
