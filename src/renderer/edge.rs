use crate::math::size2d::Size2d;
use crate::renderer::border::{border_between, fits_between};
use crate::renderer::node::Node;
use crate::tilemap::node::{
    get_end_of_horizontal_border, get_end_of_vertical_border, get_start_of_horizontal_border,
    get_start_of_vertical_border,
};
use vstd::prelude::*;

verus! {

/// Calculates the start offset & length of the horizontal edge of a wall in row `y`,
/// whose nodes are numbered with one more node per row.
pub fn calculate_horizontal_edge(nodes: &[Node], tile_size: u32, border_index: usize, y: u32) -> (r: (
    i32,
    u32,
))
    requires
        fits_between(nodes@, tile_size, border_index + y, border_index + y + 1),
    ensures
        r == border_between(nodes@, tile_size, border_index + y, border_index + y + 1),
        r.0 >= 0,
        r.0 + r.1 + nodes@[border_index + y + 1].spec_half() == tile_size,
{
    let _count = nodes.len();
    let start_index = get_start_of_horizontal_border(border_index, y);
    let end_index = get_end_of_horizontal_border(border_index, y);
    calculate_edge(nodes, tile_size, start_index, end_index)
}

/// Calculates the start offset & length of the vertical edge of a wall, where `size` is
/// the size of the vertical borders.
pub fn calculate_vertical_edge(
    nodes: &[Node],
    tile_size: u32,
    size: Size2d,
    border_index: usize,
) -> (r: (i32, u32))
    requires
        fits_between(nodes@, tile_size, border_index as int, border_index + size.w()),
    ensures
        r == border_between(nodes@, tile_size, border_index as int, border_index + size.w()),
        r.0 >= 0,
        r.0 + r.1 + nodes@[border_index + size.w()].spec_half() == tile_size,
{
    let _count = nodes.len();
    let start_index = get_start_of_vertical_border(border_index);
    let end_index = get_end_of_vertical_border(size, border_index);
    calculate_edge(nodes, tile_size, start_index, end_index)
}

/// Calculates the start offset & length of an edge between 2 nodes.
fn calculate_edge(nodes: &[Node], tile_size: u32, start_index: usize, end_index: usize) -> (r: (
    i32,
    u32,
))
    requires
        fits_between(nodes@, tile_size, start_index as int, end_index as int),
    ensures
        r == border_between(nodes@, tile_size, start_index as int, end_index as int),
{
    let start_half = nodes[start_index].calculate_half();
    let end_half = nodes[end_index].calculate_half();
    (start_half as i32, tile_size - (start_half + end_half))
}

} // verus!
