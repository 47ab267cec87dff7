use crate::math::side::Side;
use crate::math::size2d::Size2d;
use crate::tilemap::border::{
    behind_tile, get_horizontal_borders_size, get_vertical_borders_size, in_front_of_tile,
    left_of_tile, right_of_tile, spec_behind_tile, spec_in_front_of_tile, spec_left_of_tile,
    spec_right_of_tile, Border,
};
use crate::tilemap::node::get_nodes_size;
use crate::tilemap::tile::Tile;
use vstd::prelude::*;

verus! {

/// Why a tilemap could not be created.
#[derive(Copy, Clone, Debug, PartialEq, Eq, Structural)]
pub enum TilemapError {
    /// The tilemap has a size of 0.
    ZeroSize,
    /// The size and the number of tiles don't match.
    TileCount,
    /// The size and the number of horizontal borders don't match.
    HorizontalBorderCount,
    /// The size and the number of vertical borders don't match.
    VerticalBorderCount,
}

/// The largest grid whose nodes can be numbered with an `i32`, as the
/// conversions between indices & points do.
pub open spec fn size_in_range(size: Size2d) -> bool {
    (size.w() + 1) * (size.h() + 1) <= i32::MAX
}

/// The number of horizontal borders of a grid: one more row than tiles.
pub open spec fn horizontal_count(size: Size2d) -> nat {
    size.w() * (size.h() + 1)
}

/// The number of vertical borders of a grid: one more column than tiles.
pub open spec fn vertical_count(size: Size2d) -> nat {
    (size.w() + 1) * size.h()
}

/// Is the border on a side of a tile stored with the horizontal borders?
pub open spec fn is_horizontal_side(side: Side) -> bool {
    side == Side::Back || side == Side::Front
}

/// The index, among the horizontal or the vertical borders, of the border on a
/// side of a tile.
pub open spec fn border_slot(size: Size2d, tile_index: int, side: Side) -> int {
    match side {
        Side::Back => spec_behind_tile(size, tile_index),
        Side::Left => spec_left_of_tile(size, tile_index),
        Side::Front => spec_in_front_of_tile(size, tile_index),
        Side::Right => spec_right_of_tile(size, tile_index),
    }
}

/// The tilemap contains a 2d grid of tiles and the borders between them.
#[derive(Debug)]
pub struct Tilemap2d {
    /// The size of a rectangle of tiles.
    size: Size2d,
    /// A rectangle of tiles.
    tiles: Vec<Tile>,
    /// The borders at the back & front of each tile.
    horizontal_borders: Vec<Border>,
    /// The borders to the left & right of each tile.
    vertical_borders: Vec<Border>,
}

impl Tilemap2d {
    pub closed spec fn spec_size(&self) -> Size2d {
        self.size
    }

    pub closed spec fn spec_tiles(&self) -> Seq<Tile> {
        self.tiles@
    }

    pub closed spec fn spec_horizontal(&self) -> Seq<Border> {
        self.horizontal_borders@
    }

    pub closed spec fn spec_vertical(&self) -> Seq<Border> {
        self.vertical_borders@
    }

    /// The number of tiles.
    pub open spec fn spec_count(&self) -> nat {
        self.spec_size().spec_count()
    }

    /// The size is not empty, and the tiles & both kinds of borders match it.
    pub open spec fn wf(&self) -> bool {
        &&& self.spec_size().w() > 0
        &&& self.spec_size().h() > 0
        &&& size_in_range(self.spec_size())
        &&& self.spec_tiles().len() == self.spec_size().spec_count()
        &&& self.spec_horizontal().len() == horizontal_count(self.spec_size())
        &&& self.spec_vertical().len() == vertical_count(self.spec_size())
    }

    /// The border on a side of a tile.
    pub open spec fn spec_border(&self, tile_index: int, side: Side) -> Border {
        let slot = border_slot(self.spec_size(), tile_index, side);
        if is_horizontal_side(side) {
            self.spec_horizontal()[slot]
        } else {
            self.spec_vertical()[slot]
        }
    }

    /// `after` is `before` with the border on a side of a tile replaced.
    pub open spec fn border_set(
        before: &Tilemap2d,
        after: &Tilemap2d,
        tile_index: int,
        side: Side,
        border: Border,
    ) -> bool {
        let slot = border_slot(before.spec_size(), tile_index, side);
        &&& after.spec_size() == before.spec_size()
        &&& after.spec_tiles() == before.spec_tiles()
        &&& if is_horizontal_side(side) {
            &&& after.spec_horizontal() == before.spec_horizontal().update(slot, border)
            &&& after.spec_vertical() == before.spec_vertical()
        } else {
            &&& after.spec_vertical() == before.spec_vertical().update(slot, border)
            &&& after.spec_horizontal() == before.spec_horizontal()
        }
    }

    /// The border on a side of a node. Nodes are numbered row by row in a grid
    /// with one more row & column than the tiles; a node on the outer edge has
    /// no border on the side pointing outwards.
    pub open spec fn spec_border_at_node(&self, node_index: int, side: Side) -> Border {
        let nodes_width = self.spec_size().w() as int + 1;
        let x = node_index % nodes_width;
        let y = node_index / nodes_width;
        match side {
            Side::Back => if y == 0 {
                Border::NoBorder
            } else {
                self.spec_vertical()[node_index - nodes_width]
            },
            Side::Left => if x == 0 {
                Border::NoBorder
            } else {
                self.spec_horizontal()[node_index - 1 - y]
            },
            Side::Front => if y >= self.spec_size().h() {
                Border::NoBorder
            } else {
                self.spec_vertical()[node_index]
            },
            Side::Right => if x == self.spec_size().w() {
                Border::NoBorder
            } else {
                self.spec_horizontal()[node_index - y]
            },
        }
    }

    /// The number of nodes.
    pub open spec fn node_count(&self) -> nat {
        (self.spec_size().w() + 1) * (self.spec_size().h() + 1)
    }

    /// The numbers of tiles, borders & nodes of a well-formed tilemap fit
    /// into an `i32`.
    pub proof fn lemma_wf_bounds(&self)
        requires
            self.wf(),
        ensures
            self.spec_size().w() < i32::MAX,
            self.spec_size().h() < i32::MAX,
            self.node_count() <= i32::MAX,
            self.spec_count() <= self.node_count(),
            horizontal_count(self.spec_size()) <= self.node_count(),
            vertical_count(self.spec_size()) <= self.node_count(),
    {
        lemma_counts_fit(self.spec_size());
    }

    /// Returns a tilemap of the desired size filled with one tile.
    pub fn default(size: Size2d, tile: Tile) -> (r: Result<Tilemap2d, TilemapError>)
        requires
            size_in_range(size),
        ensures
            size.spec_count() == 0 <==> r == Err::<Tilemap2d, TilemapError>(
                TilemapError::ZeroSize,
            ),
            size.spec_count() != 0 <==> r is Ok,
            r is Ok ==> {
                let t = r->Ok_0;
                &&& t.wf()
                &&& t.spec_size() == size
                &&& t.spec_tiles() == Seq::new(size.spec_count(), |i: int| tile)
                &&& t.spec_horizontal() == Seq::new(
                    horizontal_count(size),
                    |i: int| Border::NoBorder,
                )
                &&& t.spec_vertical() == Seq::new(vertical_count(size), |i: int| Border::NoBorder)
            },
    {
        proof {
            lemma_counts_fit(size);
        }
        let tiles = vec_of(tile, size.count());
        Self::new(size, tiles)
    }

    /// Returns a tilemap with the desired tiles and no borders, if the number of
    /// tiles matches the size.
    pub fn new(size: Size2d, tiles: Vec<Tile>) -> (r: Result<Tilemap2d, TilemapError>)
        requires
            size_in_range(size),
        ensures
            r == Err::<Tilemap2d, TilemapError>(TilemapError::ZeroSize) <==> size.spec_count()
                == 0,
            r == Err::<Tilemap2d, TilemapError>(TilemapError::TileCount) <==> size.spec_count()
                != 0 && tiles@.len() != size.spec_count(),
            r is Ok <==> size.spec_count() != 0 && tiles@.len() == size.spec_count(),
            r is Ok ==> {
                let t = r->Ok_0;
                &&& t.wf()
                &&& t.spec_size() == size
                &&& t.spec_tiles() == tiles@
                &&& t.spec_horizontal() == Seq::new(
                    horizontal_count(size),
                    |i: int| Border::NoBorder,
                )
                &&& t.spec_vertical() == Seq::new(vertical_count(size), |i: int| Border::NoBorder)
            },
    {
        proof {
            lemma_counts_fit(size);
        }
        let horizontal_borders = vec_of(
            Border::NoBorder,
            get_horizontal_borders_size(size).count(),
        );
        let vertical_borders = vec_of(Border::NoBorder, get_vertical_borders_size(size).count());
        assert(horizontal_borders@.len() == horizontal_count(size));
        assert(vertical_borders@.len() == vertical_count(size));
        Self::with_borders(size, tiles, horizontal_borders, vertical_borders)
    }

    /// Creates a tilemap from the desired tiles & borders. Fails on a size of 0
    /// and on a number of tiles or borders that does not match the size.
    pub fn with_borders(
        size: Size2d,
        tiles: Vec<Tile>,
        horizontal_borders: Vec<Border>,
        vertical_borders: Vec<Border>,
    ) -> (r: Result<Tilemap2d, TilemapError>)
        requires
            size_in_range(size),
        ensures
            r == Err::<Tilemap2d, TilemapError>(TilemapError::ZeroSize) <==> size.spec_count()
                == 0,
            r == Err::<Tilemap2d, TilemapError>(TilemapError::TileCount) <==> size.spec_count()
                != 0 && tiles@.len() != size.spec_count(),
            r == Err::<Tilemap2d, TilemapError>(TilemapError::HorizontalBorderCount) <==> {
                &&& size.spec_count() != 0
                &&& tiles@.len() == size.spec_count()
                &&& horizontal_borders@.len() != horizontal_count(size)
            },
            r == Err::<Tilemap2d, TilemapError>(TilemapError::VerticalBorderCount) <==> {
                &&& size.spec_count() != 0
                &&& tiles@.len() == size.spec_count()
                &&& horizontal_borders@.len() == horizontal_count(size)
                &&& vertical_borders@.len() != vertical_count(size)
            },
            r is Ok <==> {
                &&& size.spec_count() != 0
                &&& tiles@.len() == size.spec_count()
                &&& horizontal_borders@.len() == horizontal_count(size)
                &&& vertical_borders@.len() == vertical_count(size)
            },
            r is Ok ==> {
                let t = r->Ok_0;
                &&& t.wf()
                &&& t.spec_size() == size
                &&& t.spec_tiles() == tiles@
                &&& t.spec_horizontal() == horizontal_borders@
                &&& t.spec_vertical() == vertical_borders@
            },
    {
        proof {
            lemma_counts_fit(size);
        }
        if size.count() == 0 {
            return Err(TilemapError::ZeroSize);
        } else if size.count() != tiles.len() {
            return Err(TilemapError::TileCount);
        } else if get_horizontal_borders_size(size).count() != horizontal_borders.len() {
            return Err(TilemapError::HorizontalBorderCount);
        } else if get_vertical_borders_size(size).count() != vertical_borders.len() {
            return Err(TilemapError::VerticalBorderCount);
        }
        Ok(Tilemap2d { size, tiles, horizontal_borders, vertical_borders })
    }

    pub fn get_size(&self) -> (r: Size2d)
        ensures
            r == self.spec_size(),
    {
        self.size
    }

    pub fn get_tiles(&self) -> (r: &Vec<Tile>)
        ensures
            r@ == self.spec_tiles(),
    {
        &self.tiles
    }

    pub fn get_tile(&self, index: usize) -> (r: Tile)
        requires
            self.wf(),
            index < self.spec_count(),
        ensures
            r == self.spec_tiles()[index as int],
    {
        self.tiles[index]
    }

    pub fn set_tile(&mut self, index: usize, tile: Tile)
        requires
            old(self).wf(),
            index < old(self).spec_count(),
        ensures
            final(self).wf(),
            final(self).spec_size() == old(self).spec_size(),
            final(self).spec_tiles() == old(self).spec_tiles().update(index as int, tile),
            final(self).spec_horizontal() == old(self).spec_horizontal(),
            final(self).spec_vertical() == old(self).spec_vertical(),
    {
        self.tiles.set(index, tile);
    }

    pub fn get_horizontal_borders(&self) -> (r: &Vec<Border>)
        ensures
            r@ == self.spec_horizontal(),
    {
        &self.horizontal_borders
    }

    pub fn get_vertical_borders(&self) -> (r: &Vec<Border>)
        ensures
            r@ == self.spec_vertical(),
    {
        &self.vertical_borders
    }

    /// Returns the border on a specific side of a tile.
    pub fn get_border(&self, tile_index: usize, side: Side) -> (r: Border)
        requires
            self.wf(),
            tile_index < self.spec_count(),
        ensures
            r == self.spec_border(tile_index as int, side),
    {
        proof {
            lemma_border_slot_in_range(self.size, tile_index as int, side);
        }
        match side {
            Side::Back => self.horizontal_borders[behind_tile(self.size, tile_index)],
            Side::Left => self.vertical_borders[left_of_tile(self.size, tile_index)],
            Side::Front => self.horizontal_borders[in_front_of_tile(self.size, tile_index)],
            Side::Right => self.vertical_borders[right_of_tile(self.size, tile_index)],
        }
    }

    /// Sets the border on a specific side of a tile.
    pub fn set_border(&mut self, tile_index: usize, side: Side, border: Border)
        requires
            old(self).wf(),
            tile_index < old(self).spec_count(),
        ensures
            final(self).wf(),
            Tilemap2d::border_set(old(self), final(self), tile_index as int, side, border),
    {
        proof {
            lemma_border_slot_in_range(self.size, tile_index as int, side);
        }
        match side {
            Side::Back => {
                let i = behind_tile(self.size, tile_index);
                self.horizontal_borders.set(i, border);
            },
            Side::Left => {
                let i = left_of_tile(self.size, tile_index);
                self.vertical_borders.set(i, border);
            },
            Side::Front => {
                let i = in_front_of_tile(self.size, tile_index);
                self.horizontal_borders.set(i, border);
            },
            Side::Right => {
                let i = right_of_tile(self.size, tile_index);
                self.vertical_borders.set(i, border);
            },
        }
    }

    /// Returns the border on a specific side of a node.
    pub fn get_border_at_node(&self, node_index: usize, side: Side) -> (r: Border)
        requires
            self.wf(),
            node_index < self.node_count(),
        ensures
            r == self.spec_border_at_node(node_index as int, side),
    {
        proof {
            lemma_counts_fit(self.size);
        }
        let nodes_size = get_nodes_size(self.size);
        let nodes_width = nodes_size.width() as usize;
        let w = self.size.width() as usize;
        let h = self.size.height() as usize;
        let x = node_index % nodes_width;
        let y = node_index / nodes_width;
        proof {
            lemma_node_slots(w as int, h as int, node_index as int);
        }
        match side {
            Side::Back => {
                if y == 0 {
                    Border::NoBorder
                } else {
                    self.vertical_borders[node_index - nodes_width]
                }
            },
            Side::Left => {
                if x == 0 {
                    Border::NoBorder
                } else {
                    self.horizontal_borders[node_index - 1 - y]
                }
            },
            Side::Front => {
                if y >= h {
                    Border::NoBorder
                } else {
                    self.vertical_borders[node_index]
                }
            },
            Side::Right => {
                if x == w {
                    Border::NoBorder
                } else {
                    self.horizontal_borders[node_index - y]
                }
            },
        }
    }
}

/// Returns a vector holding `n` copies of a value.
fn vec_of<T: Copy>(value: T, n: usize) -> (r: Vec<T>)
    ensures
        r@ == Seq::new(n as nat, |i: int| value),
{
    let mut r: Vec<T> = Vec::with_capacity(n);
    let mut i: usize = 0;
    while i < n
        invariant
            i <= n,
            r@ == Seq::new(i as nat, |j: int| value),
        decreases n - i,
    {
        r.push(value);
        i = i + 1;
        assert(r@ =~= Seq::new(i as nat, |j: int| value));
    }
    r
}

/// All counts of a grid in range fit into a `u32`.
proof fn lemma_counts_fit(size: Size2d)
    requires
        size_in_range(size),
    ensures
        size.spec_count() <= (size.w() + 1) * (size.h() + 1),
        horizontal_count(size) <= (size.w() + 1) * (size.h() + 1),
        vertical_count(size) <= (size.w() + 1) * (size.h() + 1),
        size.w() < u32::MAX,
        size.h() < u32::MAX,
        size.spec_count() != 0 ==> size.w() > 0 && size.h() > 0,
        size.w() + 1 <= (size.w() + 1) * (size.h() + 1),
        size.h() + 1 <= (size.w() + 1) * (size.h() + 1),
{
    let w = size.w() as int;
    let h = size.h() as int;
    assert(w * h != 0 ==> w != 0 && h != 0) by (nonlinear_arith);
    assert(w * h <= (w + 1) * (h + 1)) by (nonlinear_arith)
        requires
            w >= 0,
            h >= 0,
    ;
    assert(w * (h + 1) <= (w + 1) * (h + 1)) by (nonlinear_arith)
        requires
            w >= 0,
            h >= 0,
    ;
    assert((w + 1) * h <= (w + 1) * (h + 1)) by (nonlinear_arith)
        requires
            w >= 0,
            h >= 0,
    ;
    assert(w + 1 <= (w + 1) * (h + 1)) by (nonlinear_arith)
        requires
            w >= 0,
            h >= 0,
    ;
    assert(h + 1 <= (w + 1) * (h + 1)) by (nonlinear_arith)
        requires
            w >= 0,
            h >= 0,
    ;
}

/// The border on each side of a tile lies inside its kind of borders.
proof fn lemma_border_slot_in_range(size: Size2d, i: int, side: Side)
    requires
        size.w() > 0,
        size_in_range(size),
        0 <= i < size.spec_count(),
    ensures
        0 <= border_slot(size, i, side),
        is_horizontal_side(side) ==> border_slot(size, i, side) < horizontal_count(size),
        !is_horizontal_side(side) ==> border_slot(size, i, side) < vertical_count(size),
        i <= i32::MAX,
        size.w() <= i32::MAX,
        i + size.w() <= usize::MAX,
{
    lemma_counts_fit(size);
    let w = size.w() as int;
    let h = size.h() as int;
    let y = i / w;
    let x = i % w;
    assert(i == y * w + x && 0 <= x < w) by {
        vstd::arithmetic::div_mod::lemma_fundamental_div_mod(i, w);
    }
    assert(y < h) by {
        if y >= h {
            assert(y * w >= h * w) by (nonlinear_arith)
                requires
                    y >= h,
                    w > 0,
            ;
        }
    }
    assert(0 <= y) by (nonlinear_arith)
        requires
            y == i / w,
            i >= 0,
            w > 0,
    ;
    assert(y * w <= (h - 1) * w) by (nonlinear_arith)
        requires
            y <= h - 1,
            w > 0,
    ;
    assert(i + w < w * (h + 1)) by (nonlinear_arith)
        requires
            i == y * w + x,
            x < w,
            y * w <= (h - 1) * w,
    ;
    assert(i + y + 1 < (w + 1) * h) by (nonlinear_arith)
        requires
            i == y * w + x,
            x < w,
            y < h,
            y >= 0,
            x >= 0,
    ;
}

/// The borders on the sides of a node lie inside their kinds of borders.
proof fn lemma_node_slots(w: int, h: int, n: int)
    requires
        w > 0,
        h > 0,
        (w + 1) * (h + 1) <= i32::MAX,
        0 <= n < (w + 1) * (h + 1),
    ensures
        ({
            let x = n % (w + 1);
            let y = n / (w + 1);
            &&& 0 <= x <= w
            &&& 0 <= y <= h
            &&& n == y * (w + 1) + x
            &&& y > 0 ==> 0 <= n - (w + 1) < (w + 1) * h
            &&& x > 0 ==> 0 <= n - 1 - y < w * (h + 1)
            &&& y < h ==> n < (w + 1) * h
            &&& x < w ==> 0 <= n - y < w * (h + 1)
        }),
{
    let x = n % (w + 1);
    let y = n / (w + 1);
    vstd::arithmetic::div_mod::lemma_fundamental_div_mod(n, w + 1);
    assert(0 <= x <= w);
    assert(0 <= y <= h) by {
        if y > h {
            assert(y * (w + 1) >= (h + 1) * (w + 1)) by (nonlinear_arith)
                requires
                    y > h,
                    w >= 0,
            ;
        }
        if y < 0 {
            assert(y * (w + 1) <= -(w + 1)) by (nonlinear_arith)
                requires
                    y < 0,
                    w >= 0,
            ;
        }
    }
    assert(y > 0 ==> 0 <= n - (w + 1) < (w + 1) * h) by (nonlinear_arith)
        requires
            n == y * (w + 1) + x,
            0 <= x <= w,
            0 <= y <= h,
    ;
    assert(x > 0 ==> 0 <= n - 1 - y < w * (h + 1)) by (nonlinear_arith)
        requires
            n == y * (w + 1) + x,
            0 <= x <= w,
            0 <= y <= h,
    ;
    assert(y < h ==> n < (w + 1) * h) by (nonlinear_arith)
        requires
            n == y * (w + 1) + x,
            0 <= x <= w,
            0 <= y <= h,
    ;
    assert(x < w ==> 0 <= n - y < w * (h + 1)) by (nonlinear_arith)
        requires
            n == y * (w + 1) + x,
            0 <= x <= w,
            0 <= y <= h,
    ;
}

/// Setting a border & reading it back on the same tile & side returns the
/// border that was set, and leaves the other 3 sides of that tile as they were.
pub proof fn lemma_set_then_get_border(
    before: &Tilemap2d,
    after: &Tilemap2d,
    tile_index: int,
    side: Side,
    border: Border,
)
    requires
        before.wf(),
        0 <= tile_index < before.spec_count(),
        Tilemap2d::border_set(before, after, tile_index, side, border),
    ensures
        after.spec_border(tile_index, side) == border,
        forall|other: Side|
            other != side ==> after.spec_border(tile_index, other) == before.spec_border(
                tile_index,
                other,
            ),
{
    lemma_border_slot_in_range(before.spec_size(), tile_index, side);
    let size = before.spec_size();
    assert forall|other: Side| other != side implies after.spec_border(tile_index, other)
        == before.spec_border(tile_index, other) by {
        lemma_border_slot_in_range(size, tile_index, other);
        assert(is_horizontal_side(other) == is_horizontal_side(side) ==> border_slot(
            size,
            tile_index,
            other,
        ) != border_slot(size, tile_index, side));
    }
}

} // verus!
