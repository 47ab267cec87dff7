use crate::math::color::Color;
use crate::renderer::style::aab::BoxStyle;
use crate::utils::resource::Resource;
use vstd::prelude::*;

verus! {

/// Defines how to render a door.
#[derive(Clone, Debug)]
pub struct DoorStyle {
    name: String,
    style: BoxStyle,
    height: u32,
    thickness: u32,
}

impl DoorStyle {
    pub closed spec fn spec_style(&self) -> BoxStyle {
        self.style
    }

    pub closed spec fn spec_height(&self) -> u32 {
        self.height
    }

    pub closed spec fn spec_thickness(&self) -> u32 {
        self.thickness
    }

    pub fn new(name: &str, style: BoxStyle, height: u32, thickness: u32) -> (r: DoorStyle)
        ensures
            r.spec_name() == name@,
            r.spec_style() == style,
            r.spec_height() == height,
            r.spec_thickness() == thickness,
    {
        DoorStyle { name: String::from_str(name), style, height, thickness }
    }

    pub fn get_style(&self) -> (r: &BoxStyle)
        ensures
            *r == self.spec_style(),
    {
        &self.style
    }

    pub fn get_height(&self) -> (r: u32)
        ensures
            r == self.spec_height(),
    {
        self.height
    }

    pub fn get_thickness(&self) -> (r: u32)
        ensures
            r == self.spec_thickness(),
    {
        self.thickness
    }
}

impl Default for DoorStyle {
    /// A pink door, 2000 high & 50 thick.
    fn default() -> (r: DoorStyle)
        ensures
            r.spec_height() == 2000,
            r.spec_thickness() == 50,
    {
        DoorStyle::new("default", BoxStyle::shaded(Color::pink()), 2000, 50)
    }
}

impl Resource for DoorStyle {
    closed spec fn spec_name(&self) -> Seq<char> {
        self.name@
    }

    fn get_name(&self) -> (r: &str) {
        self.name.as_str()
    }
}

} // verus!
