use crate::math::color::Color;
use crate::renderer::style::aab::BoxStyle;
use crate::tilemap::node::NodeId;
use crate::utils::resource::Resource;
use vstd::prelude::*;

verus! {

/// Defines how to render a wall.
#[derive(Clone, Debug)]
pub struct WallStyle {
    name: String,
    aab: BoxStyle,
    node: NodeId,
    thickness: u32,
}

impl WallStyle {
    pub closed spec fn spec_style(&self) -> BoxStyle {
        self.aab
    }

    /// The style of the nodes of this wall.
    pub closed spec fn spec_node(&self) -> NodeId {
        self.node
    }

    pub closed spec fn spec_thickness(&self) -> u32 {
        self.thickness
    }

    pub fn new(name: &str, aab: BoxStyle, node: NodeId, thickness: u32) -> (r: WallStyle)
        ensures
            r.spec_name() == name@,
            r.spec_style() == aab,
            r.spec_node() == node,
            r.spec_thickness() == thickness,
    {
        WallStyle { name: String::from_str(name), aab, node, thickness }
    }

    pub fn get_aab_style(&self) -> (r: &BoxStyle)
        ensures
            *r == self.spec_style(),
    {
        &self.aab
    }

    pub fn get_node_style(&self) -> (r: NodeId)
        ensures
            r == self.spec_node(),
    {
        self.node
    }

    pub fn get_thickness(&self) -> (r: u32)
        ensures
            r == self.spec_thickness(),
    {
        self.thickness
    }
}

impl Default for WallStyle {
    /// A pink wall of thickness 1, whose nodes have the style 0.
    fn default() -> (r: WallStyle)
        ensures
            r.spec_node() == 0,
            r.spec_thickness() == 1,
    {
        WallStyle::new("default", BoxStyle::shaded(Color::pink()), 0, 1)
    }
}

impl Resource for WallStyle {
    closed spec fn spec_name(&self) -> Seq<char> {
        self.name@
    }

    fn get_name(&self) -> (r: &str) {
        self.name.as_str()
    }
}

} // verus!
