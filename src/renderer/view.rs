pub mod isometric;
pub mod three_four;
pub mod top_down;

use crate::math::size2d::Size2d;
use crate::port::renderer::{Primitive, Renderer};
use crate::renderer::style::StyleMgr;
use crate::tilemap::tilemap2d::Tilemap2d;
use vstd::prelude::*;

verus! {

/// A way to look at a tilemap: it knows how much room the tilemap needs and
/// what to draw for it.
pub trait View {
    /// The size of the tilemap on screen fits into the integers of a size.
    spec fn size_fits(&self, tiles: Size2d) -> bool;

    /// The size needed to render tiles.
    spec fn spec_get_size(&self, tiles: Size2d) -> Size2d;

    /// The tilemap is well-formed, its drawing fits into `i32` coordinates, and
    /// its styles fit its tiles: no node box is larger than a tile, so that no
    /// wall between 2 nodes has a negative length.
    spec fn can_render(&self, tilemap: &Tilemap2d, styles: &StyleMgr) -> bool;

    /// What is drawn for a tilemap, in order.
    spec fn rendered(&self, tilemap: &Tilemap2d, styles: &StyleMgr) -> Seq<Primitive>;

    /// The grid of tiles can be drawn with coordinates that fit into an `i32`.
    spec fn can_render_grid(&self, tiles: Size2d) -> bool;

    /// What is drawn for the grid of tiles, in order.
    spec fn grid(&self, tiles: Size2d, styles: &StyleMgr) -> Seq<Primitive>;

    /// Returns the required size to fully render the tilemap.
    fn get_size(&self, tiles: Size2d) -> (r: Size2d)
        requires
            self.size_fits(tiles),
        ensures
            r == self.spec_get_size(tiles),
    ;

    /// Renders a tilemap with a specific renderer & styles.
    fn render<R: Renderer>(&self, tilemap: &Tilemap2d, renderer: &mut R, styles: &StyleMgr)
        requires
            self.can_render(tilemap, styles),
        ensures
            final(renderer).drawn() == old(renderer).drawn() + self.rendered(tilemap, styles),
    ;

    /// Renders the grid for the tiles.
    fn render_grid<R: Renderer>(&self, tiles: Size2d, renderer: &mut R, styles: &StyleMgr)
        requires
            self.can_render_grid(tiles),
        ensures
            final(renderer).drawn() == old(renderer).drawn() + self.grid(tiles, styles),
    ;
}

/// The top left corner of cell `i` of a grid with `per_row` cells per row,
/// where each cell has the size `width` x `height`.
pub open spec fn cell_x(i: int, per_row: int, width: int) -> int {
    (i % per_row) * width
}

pub open spec fn cell_y(i: int, per_row: int, height: int) -> int {
    (i / per_row) * height
}

/// Returns the top left corner of cell `i` of a grid with `per_row` cells per
/// row and `rows` rows.
pub(crate) fn cell_origin(i: usize, per_row: usize, rows: usize, width: u32, height: u32) -> (r: (
    i32,
    i32,
))
    requires
        per_row > 0,
        i < per_row * rows,
        per_row * width <= i32::MAX,
        rows * height <= i32::MAX,
    ensures
        r.0 == cell_x(i as int, per_row as int, width as int),
        r.1 == cell_y(i as int, per_row as int, height as int),
        0 <= r.0 <= (per_row - 1) * width,
        0 <= r.1 <= (rows - 1) * height,
{
    let col = i % per_row;
    let row = i / per_row;
    proof {
        lemma_cell(i as int, per_row as int, rows as int, width as int, height as int);
    }
    ((col as u64 * width as u64) as i32, (row as u64 * height as u64) as i32)
}

pub proof fn lemma_cell(i: int, per_row: int, rows: int, width: int, height: int)
    requires
        per_row > 0,
        0 <= i < per_row * rows,
        width >= 0,
        height >= 0,
    ensures
        0 <= i % per_row < per_row,
        0 <= i / per_row < rows,
        0 <= (i % per_row) * width <= (per_row - 1) * width,
        0 <= (i / per_row) * height <= (rows - 1) * height,
        i == (i / per_row) * per_row + i % per_row,
        (per_row - 1) * width + width == per_row * width,
        (rows - 1) * height + height == rows * height,
{
    vstd::arithmetic::div_mod::lemma_fundamental_div_mod(i, per_row);
    let col = i % per_row;
    let row = i / per_row;
    assert(i == row * per_row + col) by (nonlinear_arith)
        requires
            i == per_row * row + col,
    ;
    assert(0 <= row < rows) by (nonlinear_arith)
        requires
            i == row * per_row + col,
            0 <= col < per_row,
            0 <= i < per_row * rows,
    ;
    assert(0 <= col * width <= (per_row - 1) * width) by (nonlinear_arith)
        requires
            0 <= col < per_row,
            width >= 0,
    ;
    assert(0 <= row * height <= (rows - 1) * height) by (nonlinear_arith)
        requires
            0 <= row < rows,
            height >= 0,
    ;
    assert((per_row - 1) * width + width == per_row * width) by (nonlinear_arith);
    assert((rows - 1) * height + height == rows * height) by (nonlinear_arith);
}

} // verus!
