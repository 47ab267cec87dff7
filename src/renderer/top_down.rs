use crate::math::color::Color;
use crate::math::size2d::Size2d;
use crate::port::renderer::{Primitive, Renderer};
use crate::renderer::view::{cell_origin, cell_x, cell_y};
use crate::tilemap::tile::Tile;
use crate::tilemap::tilemap2d::Tilemap2d;
use vstd::prelude::*;

verus! {

/// Renders the tiles of a tilemap from the top in fixed colors: floors cyan,
/// solids black.
pub struct TopDownRenderer {
    tile_size: Size2d,
}

impl TopDownRenderer {
    pub closed spec fn spec_tile_size(&self) -> Size2d {
        self.tile_size
    }

    /// What is drawn for tile `i`.
    pub open spec fn tile_prims(&self, tilemap: &Tilemap2d, i: int) -> Seq<Primitive> {
        let ts = self.spec_tile_size();
        let w = tilemap.spec_size().w() as int;
        let x = cell_x(i, w, ts.w() as int) as i32;
        let y = cell_y(i, w, ts.h() as int) as i32;
        match tilemap.spec_tiles()[i] {
            Tile::Empty => seq![],
            Tile::Floor(_) => seq![
                Primitive::Rectangle { x, y, size: ts, color: Color::spec_rgb(0, 255, 255) },
            ],
            Tile::Solid(_) => seq![
                Primitive::Rectangle { x, y, size: ts, color: Color::spec_rgb(0, 0, 0) },
            ],
        }
    }

    pub open spec fn tiles_prims(&self, tilemap: &Tilemap2d, n: int) -> Seq<Primitive>
        decreases n,
    {
        if n <= 0 {
            seq![]
        } else {
            self.tiles_prims(tilemap, n - 1) + self.tile_prims(tilemap, n - 1)
        }
    }

    /// A renderer for square tiles.
    pub fn new(tile_size: u32) -> (r: TopDownRenderer)
        ensures
            r.spec_tile_size() == Size2d::spec_new(tile_size as nat, tile_size as nat),
    {
        TopDownRenderer { tile_size: Size2d::square(tile_size) }
    }

    pub fn get_tile_size(&self) -> (r: Size2d)
        ensures
            r == self.spec_tile_size(),
    {
        self.tile_size
    }

    /// Renders the tiles of a tilemap row by row.
    pub fn render<R: Renderer>(&self, tilemap: &Tilemap2d, renderer: &mut R)
        requires
            tilemap.wf(),
            tilemap.spec_size().w() * self.spec_tile_size().w() <= i32::MAX,
            tilemap.spec_size().h() * self.spec_tile_size().h() <= i32::MAX,
        ensures
            final(renderer).drawn() == old(renderer).drawn() + self.tiles_prims(
                tilemap,
                tilemap.spec_count() as int,
            ),
    {
        let tiles = tilemap.get_size();
        proof {
            tilemap.lemma_wf_bounds();
        }
        let count = tiles.count();
        let w = tiles.width() as usize;
        let h = tiles.height() as usize;
        let mut index: usize = 0;
        while index < count
            invariant
                tilemap.wf(),
                count == tilemap.spec_count(),
                w == tilemap.spec_size().w(),
                h == tilemap.spec_size().h(),
                w * self.tile_size.w() <= i32::MAX,
                h * self.tile_size.h() <= i32::MAX,
                index <= count,
                renderer.drawn() == old(renderer).drawn() + self.tiles_prims(tilemap, index as int),
            decreases count - index,
        {
            let (x, y) = cell_origin(index, w, h, self.tile_size.width(), self.tile_size.height());
            let ghost before = renderer.drawn();
            match tilemap.get_tile(index) {
                Tile::Empty => {},
                Tile::Floor(_id) => renderer.render_rectangle(x, y, self.tile_size, Color::cyan()),
                Tile::Solid(_id) => renderer.render_rectangle(x, y, self.tile_size, Color::black()),
            }
            proof {
                assert(renderer.drawn() =~= before + self.tile_prims(tilemap, index as int));
            }
            index = index + 1;
        }
    }
}

} // verus!
