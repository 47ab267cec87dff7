use crate::math::color::Color;
use crate::renderer::style::aab::BoxStyle;
use crate::utils::resource::Resource;
use vstd::prelude::*;

verus! {

/// Defines how to render a solid tile.
#[derive(Clone, Debug)]
pub struct SolidStyle {
    name: String,
    style: BoxStyle,
}

impl SolidStyle {
    pub closed spec fn spec_style(&self) -> BoxStyle {
        self.style
    }

    pub fn new(name: &str, style: BoxStyle) -> (r: SolidStyle)
        ensures
            r.spec_name() == name@,
            r.spec_style() == style,
    {
        SolidStyle { name: String::from_str(name), style }
    }

    pub fn get_style(&self) -> (r: &BoxStyle)
        ensures
            *r == self.spec_style(),
    {
        &self.style
    }
}

impl Default for SolidStyle {
    /// A pink solid.
    fn default() -> (r: SolidStyle)
        ensures
            r.spec_style().spec_top() == Color::spec_rgb(255, 0, 128),
    {
        SolidStyle::new("default", BoxStyle::shaded(Color::pink()))
    }
}

impl Resource for SolidStyle {
    closed spec fn spec_name(&self) -> Seq<char> {
        self.name@
    }

    fn get_name(&self) -> (r: &str) {
        self.name.as_str()
    }
}

} // verus!
