pub mod aab;
pub mod door;
pub mod floor;
pub mod node;
pub mod solid;
pub mod wall;

use crate::math::color::Color;
use crate::renderer::style::door::DoorStyle;
use crate::renderer::style::floor::FloorStyle;
use crate::renderer::style::node::NodeStyle;
use crate::renderer::style::solid::SolidStyle;
use crate::renderer::style::wall::WallStyle;
use crate::tilemap::border::{DoorId, WallId};
use crate::tilemap::node::NodeId;
use crate::tilemap::tile::{FloorId, SolidId};
use crate::utils::resource::ResourceManager;
use vstd::prelude::*;

verus! {

/// The colors of a simple style: one for floors & three for the faces of boxes.
#[derive(Copy, Clone, Debug, PartialEq, Eq, Structural)]
pub enum Style {
    Simple { floor: Color, front: Color, side: Color, top: Color },
}

impl Style {
    pub fn new_simple(floor: Color, front: Color, side: Color, top: Color) -> (r: Style)
        ensures
            r == (Style::Simple { floor, front, side, top }),
    {
        Style::Simple { floor, front, side, top }
    }

    pub fn get_floor_color(&self) -> (r: &Color)
        ensures
            *r == self->floor,
    {
        match self {
            Style::Simple { floor, .. } => floor,
        }
    }

    pub fn get_front_color(&self) -> (r: &Color)
        ensures
            *r == self->front,
    {
        match self {
            Style::Simple { front, .. } => front,
        }
    }

    pub fn get_side_color(&self) -> (r: &Color)
        ensures
            *r == self->side,
    {
        match self {
            Style::Simple { side, .. } => side,
        }
    }

    pub fn get_top_color(&self) -> (r: &Color)
        ensures
            *r == self->top,
    {
        match self {
            Style::Simple { top, .. } => top,
        }
    }
}

/// The catalog of all styles, by type, and the color of the grid.
#[derive(Debug)]
pub struct StyleMgr {
    doors: ResourceManager<DoorStyle>,
    floors: ResourceManager<FloorStyle>,
    nodes: ResourceManager<NodeStyle>,
    solids: ResourceManager<SolidStyle>,
    walls: ResourceManager<WallStyle>,
    grid: Color,
}

impl StyleMgr {
    pub closed spec fn spec_doors(&self) -> ResourceManager<DoorStyle> {
        self.doors
    }

    pub closed spec fn spec_floors(&self) -> ResourceManager<FloorStyle> {
        self.floors
    }

    pub closed spec fn spec_nodes(&self) -> ResourceManager<NodeStyle> {
        self.nodes
    }

    pub closed spec fn spec_solids(&self) -> ResourceManager<SolidStyle> {
        self.solids
    }

    pub closed spec fn spec_walls(&self) -> ResourceManager<WallStyle> {
        self.walls
    }

    pub closed spec fn spec_grid(&self) -> Color {
        self.grid
    }

    /// Many styles per type.
    pub fn new(
        doors: ResourceManager<DoorStyle>,
        floors: ResourceManager<FloorStyle>,
        nodes: ResourceManager<NodeStyle>,
        solids: ResourceManager<SolidStyle>,
        walls: ResourceManager<WallStyle>,
        grid: Color,
    ) -> (r: StyleMgr)
        ensures
            r.spec_doors() == doors,
            r.spec_floors() == floors,
            r.spec_nodes() == nodes,
            r.spec_solids() == solids,
            r.spec_walls() == walls,
            r.spec_grid() == grid,
    {
        StyleMgr { doors, floors, nodes, solids, walls, grid }
    }

    /// Many styles per type; an unknown id stands for the default style of its type.
    pub fn without_manager(
        doors: Vec<DoorStyle>,
        floors: Vec<FloorStyle>,
        nodes: Vec<NodeStyle>,
        solids: Vec<SolidStyle>,
        walls: Vec<WallStyle>,
        grid: Color,
    ) -> (r: StyleMgr)
        ensures
            r.spec_doors().spec_resources() == doors@,
            r.spec_floors().spec_resources() == floors@,
            r.spec_nodes().spec_resources() == nodes@,
            r.spec_solids().spec_resources() == solids@,
            r.spec_walls().spec_resources() == walls@,
            r.spec_grid() == grid,
            call_ensures(DoorStyle::default, (), r.spec_doors().spec_default()),
            call_ensures(FloorStyle::default, (), r.spec_floors().spec_default()),
            call_ensures(NodeStyle::default, (), r.spec_nodes().spec_default()),
            call_ensures(SolidStyle::default, (), r.spec_solids().spec_default()),
            call_ensures(WallStyle::default, (), r.spec_walls().spec_default()),
    {
        Self::new(
            ResourceManager::with_default(doors),
            ResourceManager::with_default(floors),
            ResourceManager::with_default(nodes),
            ResourceManager::with_default(solids),
            ResourceManager::with_default(walls),
            grid,
        )
    }

    /// Only one style per type: each is the default for every id.
    pub fn one_style(
        door: DoorStyle,
        floor: FloorStyle,
        node: NodeStyle,
        solid: SolidStyle,
        wall: WallStyle,
        grid: Color,
    ) -> (r: StyleMgr)
        ensures
            forall|id: int|
                {
                    &&& r.spec_doors().spec_get(id) == door
                    &&& r.spec_floors().spec_get(id) == floor
                    &&& r.spec_nodes().spec_get(id) == node
                    &&& r.spec_solids().spec_get(id) == solid
                    &&& r.spec_walls().spec_get(id) == wall
                },
            r.spec_grid() == grid,
    {
        Self::new(
            ResourceManager::new(Vec::new(), door),
            ResourceManager::new(Vec::new(), floor),
            ResourceManager::new(Vec::new(), node),
            ResourceManager::new(Vec::new(), solid),
            ResourceManager::new(Vec::new(), wall),
            grid,
        )
    }

    pub fn get_door_style(&self, id: DoorId) -> (r: &DoorStyle)
        ensures
            *r == self.spec_doors().spec_get(id as int),
    {
        self.doors.get(id)
    }

    pub fn get_floor_style(&self, id: FloorId) -> (r: &FloorStyle)
        ensures
            *r == self.spec_floors().spec_get(id as int),
    {
        self.floors.get(id)
    }

    pub fn get_node_style(&self, id: NodeId) -> (r: &NodeStyle)
        ensures
            *r == self.spec_nodes().spec_get(id as int),
    {
        self.nodes.get(id)
    }

    pub fn get_node_styles(&self) -> (r: &ResourceManager<NodeStyle>)
        ensures
            *r == self.spec_nodes(),
    {
        &self.nodes
    }

    pub fn get_solid_style(&self, id: SolidId) -> (r: &SolidStyle)
        ensures
            *r == self.spec_solids().spec_get(id as int),
    {
        self.solids.get(id)
    }

    pub fn get_wall_style(&self, id: WallId) -> (r: &WallStyle)
        ensures
            *r == self.spec_walls().spec_get(id as int),
    {
        self.walls.get(id)
    }

    pub fn get_wall_styles(&self) -> (r: &ResourceManager<WallStyle>)
        ensures
            *r == self.spec_walls(),
    {
        &self.walls
    }

    pub fn get_grid_color(&self) -> (r: &Color)
        ensures
            *r == self.spec_grid(),
    {
        &self.grid
    }
}

} // verus!
