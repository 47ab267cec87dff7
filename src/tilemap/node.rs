use crate::math::size2d::Size2d;
use vstd::prelude::*;

verus! {

/// Identifies a node style.
pub type NodeId = usize;

/// Returns the size of the nodes based on the size of the tilemap: nodes are
/// the corners of the tiles, so there is one more row & column of them.
pub fn get_nodes_size(size: Size2d) -> (r: Size2d)
    requires
        size.w() < u32::MAX,
        size.h() < u32::MAX,
    ensures
        r.w() == size.w() + 1,
        r.h() == size.h() + 1,
{
    Size2d::new(size.width() + 1, size.height() + 1)
}

/// Returns the index of the node at the start of the horizontal border in row `y`.
pub fn get_start_of_horizontal_border(border_index: usize, y: u32) -> (r: usize)
    requires
        border_index + y <= usize::MAX,
    ensures
        r == border_index + y,
{
    border_index + y as usize
}

/// Returns the index of the node at the end of the horizontal border in row `y`.
pub fn get_end_of_horizontal_border(border_index: usize, y: u32) -> (r: usize)
    requires
        border_index + y + 1 <= usize::MAX,
    ensures
        r == border_index + y + 1,
{
    border_index + y as usize + 1
}

/// Returns the index of the node at the start of the vertical border.
pub fn get_start_of_vertical_border(border_index: usize) -> (r: usize)
    ensures
        r == border_index,
{
    border_index
}

/// Returns the index of the node at the end of the vertical border, where
/// `size` is the size of the vertical borders.
pub fn get_end_of_vertical_border(size: Size2d, border_index: usize) -> (r: usize)
    requires
        border_index + size.w() <= usize::MAX,
    ensures
        r == border_index + size.w(),
{
    border_index + size.width() as usize
}

} // verus!
