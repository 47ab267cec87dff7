use crate::math::size2d::Size2d;
use vstd::prelude::*;

verus! {

/// Identifies a wall style.
pub type WallId = usize;

/// Identifies a door style.
pub type DoorId = usize;

/// The border between 2 tiles.
#[derive(Copy, Clone, Debug, PartialEq, Eq, Structural)]
pub enum Border {
    /// No border between the 2 tiles.
    NoBorder,
    /// A wall blocks the border between the 2 tiles.
    Wall(WallId),
    /// A door in a wall between the 2 tiles.
    Door(WallId, DoorId),
}

/// The wall style of a border: walls & doors both have one.
pub open spec fn wall_style_of(border: Border) -> Option<WallId> {
    match border {
        Border::NoBorder => None,
        Border::Wall(id) => Some(id),
        Border::Door(id, _) => Some(id),
    }
}

impl Border {
    /// Returns the wall style of a wall or a door.
    pub fn get_wall_style(&self) -> (r: Option<WallId>)
        ensures
            r == wall_style_of(*self),
    {
        match self {
            Border::NoBorder => None,
            Border::Wall(id) => Some(*id),
            Border::Door(id, _) => Some(*id),
        }
    }
}

/// Returns the size of the horizontal borders based on the size of the tilemap:
/// one more row than tiles.
pub fn get_horizontal_borders_size(size: Size2d) -> (r: Size2d)
    requires
        size.h() < u32::MAX,
    ensures
        r.w() == size.w(),
        r.h() == size.h() + 1,
{
    Size2d::new(size.width(), size.height() + 1)
}

/// Returns the size of the vertical borders based on the size of the tilemap:
/// one more column than tiles.
pub fn get_vertical_borders_size(size: Size2d) -> (r: Size2d)
    requires
        size.w() < u32::MAX,
    ensures
        r.w() == size.w() + 1,
        r.h() == size.h(),
{
    Size2d::new(size.width() + 1, size.height())
}

/// The index of the horizontal border behind a tile.
pub open spec fn spec_behind_tile(size: Size2d, tile_index: int) -> int {
    tile_index
}

/// The index of the vertical border left of a tile: each row of vertical
/// borders has one more border than the row of tiles.
pub open spec fn spec_left_of_tile(size: Size2d, tile_index: int) -> int {
    tile_index + tile_index / (size.w() as int)
}

/// The index of the horizontal border in front of a tile.
pub open spec fn spec_in_front_of_tile(size: Size2d, tile_index: int) -> int {
    tile_index + size.w()
}

/// The index of the vertical border right of a tile.
pub open spec fn spec_right_of_tile(size: Size2d, tile_index: int) -> int {
    spec_left_of_tile(size, tile_index) + 1
}

/// Returns the index of the horizontal border behind the tile.
pub fn behind_tile(_size: Size2d, tile_index: usize) -> (r: usize)
    ensures
        r == spec_behind_tile(_size, tile_index as int),
{
    tile_index
}

/// Returns the index of the vertical border left of the tile.
pub fn left_of_tile(size: Size2d, tile_index: usize) -> (r: usize)
    requires
        0 < size.w() <= i32::MAX,
        tile_index <= i32::MAX,
    ensures
        r == spec_left_of_tile(size, tile_index as int),
{
    proof {
        vstd::arithmetic::div_mod::lemma_div_is_ordered_by_denominator(
            tile_index as int,
            1,
            size.w() as int,
        );
    }
    tile_index + size.to_y(tile_index) as usize
}

/// Returns the index of the horizontal border in front the tile.
pub fn in_front_of_tile(size: Size2d, tile_index: usize) -> (r: usize)
    requires
        tile_index + size.w() <= usize::MAX,
    ensures
        r == spec_in_front_of_tile(size, tile_index as int),
{
    tile_index + size.width() as usize
}

/// Returns the index of the vertical border to the right of the tile.
pub fn right_of_tile(size: Size2d, tile_index: usize) -> (r: usize)
    requires
        0 < size.w() <= i32::MAX,
        tile_index <= i32::MAX,
    ensures
        r == spec_right_of_tile(size, tile_index as int),
{
    proof {
        vstd::arithmetic::div_mod::lemma_div_is_ordered_by_denominator(
            tile_index as int,
            1,
            size.w() as int,
        );
    }
    left_of_tile(size, tile_index) + 1
}

} // verus!
