use crate::math::color::Color;
use crate::utils::resource::Resource;
use vstd::prelude::*;

verus! {

/// Defines how to render a floor tile.
#[derive(Clone, Debug)]
pub struct FloorStyle {
    name: String,
    floor: Color,
}

impl FloorStyle {
    pub closed spec fn spec_floor(&self) -> Color {
        self.floor
    }

    pub fn new(name: &str, floor: Color) -> (r: FloorStyle)
        ensures
            r.spec_name() == name@,
            r.spec_floor() == floor,
    {
        FloorStyle { name: String::from_str(name), floor }
    }

    pub fn get_floor_color(&self) -> (r: &Color)
        ensures
            *r == self.spec_floor(),
    {
        &self.floor
    }
}

impl Default for FloorStyle {
    /// A pink floor.
    fn default() -> (r: FloorStyle)
        ensures
            r.spec_floor() == Color::spec_rgb(255, 0, 128),
    {
        FloorStyle::new("default", Color::pink())
    }
}

impl Resource for FloorStyle {
    closed spec fn spec_name(&self) -> Seq<char> {
        self.name@
    }

    fn get_name(&self) -> (r: &str) {
        self.name.as_str()
    }
}

} // verus!
