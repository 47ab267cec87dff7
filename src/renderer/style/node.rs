use crate::math::color::Color;
use crate::renderer::style::aab::BoxStyle;
use crate::utils::resource::Resource;
use vstd::prelude::*;

verus! {

/// Defines how to render a node, where walls intersect.
#[derive(Debug)]
pub struct NodeStyle {
    name: String,
    style: BoxStyle,
    size: u32,
    half: u32,
}

impl NodeStyle {
    pub closed spec fn spec_style(&self) -> BoxStyle {
        self.style
    }

    /// The size of the square footprint.
    pub closed spec fn spec_size(&self) -> u32 {
        self.size
    }

    /// Half the size of the footprint, rounded down.
    pub open spec fn spec_half(&self) -> u32 {
        (self.spec_size() / 2) as u32
    }

    #[verifier::type_invariant]
    spec fn half_of_size(&self) -> bool {
        self.half == self.size / 2
    }

    pub fn new(name: &str, style: BoxStyle, size: u32) -> (r: NodeStyle)
        ensures
            r.spec_name() == name@,
            r.spec_style() == style,
            r.spec_size() == size,
    {
        NodeStyle { name: String::from_str(name), style, size, half: size / 2 }
    }

    pub fn get_style(&self) -> (r: &BoxStyle)
        ensures
            *r == self.spec_style(),
    {
        &self.style
    }

    pub fn get_size(&self) -> (r: u32)
        ensures
            r == self.spec_size(),
    {
        self.size
    }

    pub fn get_half(&self) -> (r: u32)
        ensures
            r == self.spec_half(),
    {
        proof {
            use_type_invariant(self);
        }
        self.half
    }
}

impl Default for NodeStyle {
    /// A pink node of size 1.
    fn default() -> (r: NodeStyle)
        ensures
            r.spec_size() == 1,
    {
        NodeStyle::new("default", BoxStyle::shaded(Color::pink()), 1)
    }
}

impl Resource for NodeStyle {
    closed spec fn spec_name(&self) -> Seq<char> {
        self.name@
    }

    fn get_name(&self) -> (r: &str) {
        self.name.as_str()
    }
}

} // verus!
