use crate::math::color::Color;
use crate::math::point2d::{point, Point2d};
use crate::math::side::Side;
use crate::math::size2d::Size2d;
use crate::port::renderer::{Primitive, Renderer};
use crate::renderer::border::{calculate_horizontal_border, calculate_vertical_border};
use crate::renderer::node::{
    calculate_node_styles, drawn_as, node_half, resolve_node, IdNode, Node,
};
use crate::renderer::style::aab::BoxStyle;
use crate::renderer::style::StyleMgr;
use crate::renderer::view::three_four::walls_fit;
use crate::renderer::view::top_down::{lemma_node_half, nodes_fit};
use crate::renderer::view::View as _;
use crate::renderer::view::lemma_cell;
use crate::tilemap::border::{get_vertical_borders_size, spec_left_of_tile, Border};
use crate::tilemap::tile::Tile;
use crate::tilemap::tilemap2d::Tilemap2d;
use vstd::prelude::*;

verus! {

/// `d` is `size / sqrt(5)` rounded up: the smallest `d` with `5 * d * d >= size * size`.
pub open spec fn is_delta_y(size: int, d: int) -> bool {
    &&& d >= 0
    &&& 5 * d * d >= size * size
    &&& (d == 0 || 5 * (d - 1) * (d - 1) < size * size)
}

/// The vertical step of an isometric tile of a size: the size divided by the
/// square root of 5, rounded up.
pub open spec fn delta_y(size: int) -> int {
    choose|d: int| is_delta_y(size, d)
}

/// The step from the back corner to the right corner of an isometric square
/// of a size; twice as wide as high, which gives the slope of 1/2.
pub open spec fn delta_of(size: int) -> Point2d {
    point(2 * delta_y(size), delta_y(size))
}

/// The largest coordinate of the back corner of a tile, of a box or of the
/// start of the grid lines: an isometric tilemap keeps its points within it,
/// so that each corner of a box, which is at most 3 steps away, fits into an
/// `i32`.
pub open spec fn point_bound() -> int {
    0x2000_0000
}

/// The largest step, height or thickness.
pub open spec fn step_bound() -> int {
    0x0800_0000
}

pub open spec fn within(p: Point2d, bound: int) -> bool {
    -bound <= p.x <= bound && -bound <= p.y <= bound
}

pub open spec fn step(d: Point2d) -> bool {
    0 <= d.x <= step_bound() && 0 <= d.y <= step_bound()
}

pub open spec fn left_box(p: Point2d, d: Point2d) -> Point2d {
    point(p.x - d.x, p.y + d.y)
}

pub open spec fn right_box(p: Point2d, d: Point2d) -> Point2d {
    point(p.x + d.x, p.y + d.y)
}

pub open spec fn front_box(p: Point2d, delta_row: Point2d, delta_column: Point2d) -> Point2d {
    point(p.x + delta_row.x - delta_column.x, p.y + delta_row.y + delta_column.y)
}

pub open spec fn top(p: Point2d, height: int) -> Point2d {
    point(p.x as int, p.y - height)
}

/// The top of an axis aligned box.
pub open spec fn ceiling_prim(
    back: Point2d,
    height: int,
    delta_row: Point2d,
    delta_column: Point2d,
    color: Color,
) -> Primitive {
    let top_back = top(back, height);
    Primitive::Polygon {
        p0: top_back,
        p1: left_box(top_back, delta_column),
        p2: front_box(top_back, delta_row, delta_column),
        p3: right_box(top_back, delta_row),
        color,
    }
}

/// The front face of an axis aligned box.
pub open spec fn front_prim(
    back: Point2d,
    height: int,
    delta_row: Point2d,
    delta_column: Point2d,
    color: Color,
) -> Primitive {
    let left0 = left_box(back, delta_column);
    let front0 = front_box(back, delta_row, delta_column);
    Primitive::Polygon {
        p0: top(left0, height),
        p1: left0,
        p2: front0,
        p3: top(front0, height),
        color,
    }
}

/// The side face of an axis aligned box.
pub open spec fn side_prim(
    back: Point2d,
    height: int,
    delta_row: Point2d,
    delta_column: Point2d,
    color: Color,
) -> Primitive {
    let right0 = right_box(back, delta_row);
    let front0 = front_box(back, delta_row, delta_column);
    Primitive::Polygon {
        p0: right0,
        p1: top(right0, height),
        p2: top(front0, height),
        p3: front0,
        color,
    }
}

/// An axis aligned box seen isometrically from its back corner: its ceiling
/// always, its front and its side face if asked for.
pub open spec fn box_prims(
    back: Point2d,
    height: int,
    delta_row: Point2d,
    delta_column: Point2d,
    style: BoxStyle,
    front: bool,
    side: bool,
) -> Seq<Primitive> {
    seq![ceiling_prim(back, height, delta_row, delta_column, style.spec_top())] + if front {
        seq![front_prim(back, height, delta_row, delta_column, style.spec_front())]
    } else {
        seq![]
    } + if side {
        seq![side_prim(back, height, delta_row, delta_column, style.spec_side())]
    } else {
        seq![]
    }
}

/// Renders a tilemap with an isometric view.
pub struct IsometricView {
    delta: Point2d,
    tile_size: u32,
    tile_height: i32,
}

impl IsometricView {
    pub closed spec fn spec_delta(&self) -> Point2d {
        self.delta
    }

    pub closed spec fn spec_tile_size(&self) -> u32 {
        self.tile_size
    }

    pub closed spec fn spec_tile_height(&self) -> i32 {
        self.tile_height
    }

    /// The view was made from its tile size.
    pub open spec fn wf(&self) -> bool {
        &&& self.spec_tile_size() <= i32::MAX
        &&& self.spec_tile_height() >= 0
        &&& self.spec_delta() == delta_of(self.spec_tile_size() as int)
    }

    pub fn new(tile_size: u32, tile_height: u32) -> (r: IsometricView)
        requires
            tile_size <= i32::MAX,
            tile_height <= i32::MAX,
        ensures
            r.wf(),
            r.spec_tile_size() == tile_size,
            r.spec_tile_height() == tile_height,
    {
        IsometricView {
            tile_size,
            delta: IsometricView::calculate_delta(tile_size),
            tile_height: tile_height as i32,
        }
    }

    /// Returns the step from the back corner to the right corner of a tile.
    pub fn get_delta(&self) -> (r: Point2d)
        ensures
            r == self.spec_delta(),
    {
        self.delta
    }

    /// Returns the step from the back corner to the right corner of an
    /// isometric square of a size.
    pub fn calculate_delta(size: u32) -> (r: Point2d)
        requires
            size <= i32::MAX,
        ensures
            r == delta_of(size as int),
            r.x == 2 * delta_y(size as int),
            r.y == delta_y(size as int),
            0 <= r.y <= r.x,
            size <= 4 * r.y,
    {
        let delta_y = Self::calculate_delta_y(size);
        proof {
            lemma_delta_y_bound(size as int);
        }
        Point2d::new(delta_y * 2, delta_y)
    }

    /// Returns the size divided by the square root of 5, rounded up.
    pub fn calculate_delta_y(size: u32) -> (r: i32)
        ensures
            r == delta_y(size as int),
            is_delta_y(size as int, r as int),
    {
        let s = size as u128;
        let mut lo: u128 = 0;
        let mut hi: u128 = if s / 2 + 1 > 0x7fff_ffff {
            0x7fff_ffff
        } else {
            s / 2 + 1
        };
        proof {
            if s / 2 + 1 > 0x7fff_ffff {
                assert(s * s <= 0xffff_ffff * 0xffff_ffff) by (nonlinear_arith)
                    requires
                        0 <= s <= 0xffff_ffff,
                ;
                assert(5 * 0x7fff_ffff * 0x7fff_ffff >= 0xffff_ffff * 0xffff_ffff);
            } else {
                assert(5 * hi * hi >= s * s) by (nonlinear_arith)
                    requires
                        hi == s / 2 + 1,
                        s >= 0,
                ;
            }
        }
        while lo < hi
            invariant
                s == size,
                lo <= hi <= 0x7fff_ffff,
                5 * hi * hi >= s * s,
                lo == 0 || 5 * (lo - 1) * (lo - 1) < s * s,
            decreases hi - lo,
        {
            let mid = lo + (hi - lo) / 2;
            proof {
                assert(mid * mid <= hi * hi) by (nonlinear_arith)
                    requires
                        mid <= hi,
                ;
                assert(5 * mid * mid <= 5 * 0x7fff_ffff * 0x7fff_ffff) by (nonlinear_arith)
                    requires
                        0 <= mid <= 0x7fff_ffff,
                ;
                assert(s * s <= 0xffff_ffff * 0xffff_ffff) by (nonlinear_arith)
                    requires
                        0 <= s <= 0xffff_ffff,
                ;
            }
            if 5 * mid * mid >= s * s {
                hi = mid;
            } else {
                lo = mid + 1;
            }
        }
        proof {
            lemma_delta_y_unique(size as int, lo as int);
        }
        lo as i32
    }

    /// Calculates the size needed to render the floor of the tilemap.
    pub fn calculate_floor_size(&self, tiles: Size2d) -> (r: Size2d)
        requires
            self.wf(),
            (tiles.w() + tiles.h()) * self.spec_delta().x <= u32::MAX,
        ensures
            r == Size2d::spec_new(
                (self.spec_delta().x * tiles.w() + self.spec_delta().x * tiles.h()) as nat,
                (self.spec_delta().y * tiles.w() + self.spec_delta().y * tiles.h()) as nat,
            ),
    {
        let dx = self.delta.x as u32;
        let dy = self.delta.y as u32;
        proof {
            lemma_delta_y_bound(self.tile_size as int);
            let (w, h) = (tiles.w() as int, tiles.h() as int);
            assert(dx * w + dx * h == (w + h) * dx) by (nonlinear_arith);
            assert(dy * w + dy * h <= dx * w + dx * h) by (nonlinear_arith)
                requires
                    dy <= dx,
                    w >= 0,
                    h >= 0,
            ;
            assert(dx * w <= dx * w + dx * h) by (nonlinear_arith)
                requires
                    w >= 0,
                    h >= 0,
                    dx >= 0,
            ;
            assert(dy * w <= dy * w + dy * h) by (nonlinear_arith)
                requires
                    w >= 0,
                    h >= 0,
                    dy >= 0,
            ;
            assert(dx * h <= dx * w + dx * h) by (nonlinear_arith)
                requires
                    w >= 0,
                    h >= 0,
                    dx >= 0,
            ;
            assert(dy * h <= dy * w + dy * h) by (nonlinear_arith)
                requires
                    w >= 0,
                    h >= 0,
                    dy >= 0,
            ;
        }
        let left_to_center = dx * tiles.width();
        let center_to_right = dx * tiles.height();
        let center_to_bottom = dy * tiles.width();
        let center_to_top = dy * tiles.height();
        Size2d::new(left_to_center + center_to_right, center_to_bottom + center_to_top)
    }
}

/// The rounded up quotient exists, is unique and is at most half the size
/// plus one.
pub proof fn lemma_delta_y_unique(size: int, d: int)
    requires
        size >= 0,
        is_delta_y(size, d),
    ensures
        delta_y(size) == d,
{
    assert(exists|e: int| is_delta_y(size, e));
    let e = delta_y(size);
    if e < d {
        assert(5 * (d - 1) * (d - 1) >= 5 * e * e) by (nonlinear_arith)
            requires
                0 <= e <= d - 1,
        ;
    } else if e > d {
        assert(5 * (e - 1) * (e - 1) >= 5 * d * d) by (nonlinear_arith)
            requires
                0 <= d <= e - 1,
        ;
    }
}

/// For sizes that fit into an `i32` the step fits too, is a quarter of the
/// size at least, and grows with the size.
pub proof fn lemma_delta_y_bound(size: int)
    requires
        0 <= size <= i32::MAX,
    ensures
        is_delta_y(size, delta_y(size)),
        0 <= delta_y(size) <= size / 2 + 1,
        2 * delta_y(size) <= i32::MAX,
        size <= 4 * delta_y(size),
        forall|v: int| 0 <= v <= size ==> #[trigger] delta_y(v) <= delta_y(size),
{
    let d0 = size / 2 + 1;
    assert(5 * d0 * d0 >= size * size) by (nonlinear_arith)
        requires
            d0 == size / 2 + 1,
            size >= 0,
    ;
    let d = lemma_delta_y_exists(size);
    lemma_delta_y_unique(size, d);
    assert(d <= d0) by {
        if d > d0 {
            assert(5 * (d - 1) * (d - 1) >= 5 * d0 * d0) by (nonlinear_arith)
                requires
                    0 <= d0 <= d - 1,
            ;
        }
    }
    assert(2 * d <= i32::MAX) by {
        if 2 * d > i32::MAX {
            assert(5 * (d - 1) * (d - 1) >= 5 * 0x3fff_ffff * 0x3fff_ffff) by (nonlinear_arith)
                requires
                    d - 1 >= 0x3fff_ffff,
            ;
            assert(size * size <= 0x7fff_ffff * 0x7fff_ffff) by (nonlinear_arith)
                requires
                    0 <= size <= 0x7fff_ffff,
            ;
            assert(5 * 0x3fff_ffff * 0x3fff_ffff > 0x7fff_ffff * 0x7fff_ffff);
        }
    }
    assert(size <= 4 * d) by {
        if size > 4 * d {
            assert(5 * d * d < size * size) by (nonlinear_arith)
                requires
                    0 <= 4 * d < size,
            ;
        }
    }
    assert forall|v: int| 0 <= v <= size implies #[trigger] delta_y(v) <= delta_y(size) by {
        let dv = lemma_delta_y_exists(v);
        lemma_delta_y_unique(v, dv);
        if dv > d {
            assert(5 * (dv - 1) * (dv - 1) >= 5 * d * d) by (nonlinear_arith)
                requires
                    0 <= d <= dv - 1,
            ;
            assert(size * size >= v * v) by (nonlinear_arith)
                requires
                    0 <= v <= size,
            ;
        }
    }
}

/// Some step has the property: the smallest of those up to half the size plus one.
proof fn lemma_delta_y_exists(size: int) -> (d: int)
    requires
        size >= 0,
    ensures
        is_delta_y(size, d),
    decreases size,
{
    assert(5 * (size / 2 + 1) * (size / 2 + 1) >= size * size) by (nonlinear_arith)
        requires
            size >= 0,
    ;
    lemma_smallest(size, size / 2 + 1)
}

/// The smallest `d` up to `hi` with `5 * d * d >= size * size`, if `hi` has it.
proof fn lemma_smallest(size: int, hi: int) -> (d: int)
    requires
        size >= 0,
        hi >= 0,
        5 * hi * hi >= size * size,
    ensures
        is_delta_y(size, d),
    decreases hi,
{
    if hi == 0 || 5 * (hi - 1) * (hi - 1) < size * size {
        hi
    } else {
        lemma_smallest(size, hi - 1)
    }
}

/// The doors of a catalog are no thicker than `thickness` and no higher than
/// `height`.
pub open spec fn doors_fit(styles: &StyleMgr, thickness: nat, height: nat) -> bool {
    forall|id: int|
        #[trigger] styles.spec_doors().spec_get(id).spec_thickness() <= thickness
            && styles.spec_doors().spec_get(id).spec_height() <= height
}

impl IsometricView {
    /// The back corner of tile `i` of a grid of `w` x `h` tiles: the first
    /// tile's back corner is at the top, each column goes down to the right
    /// and each row down to the left.
    pub open spec fn tile_point(&self, w: int, h: int, i: int) -> Point2d {
        let d = self.spec_delta();
        let col = i % w;
        let row = i / w;
        point(d.x * (h + col - row), self.spec_tile_height() + d.y * (col + row))
    }

    /// A horizontal wall or door of tile `i` seen from its back corner `p`.
    pub open spec fn horizontal_prims(
        &self,
        tilemap: &Tilemap2d,
        styles: &StyleMgr,
        i: int,
        p: Point2d,
        style: BoxStyle,
        height: int,
        thickness: nat,
    ) -> Seq<Primitive> {
        let row = i / (tilemap.spec_size().w() as int);
        let start = node_half(tilemap, styles.spec_nodes(), styles.spec_walls(), i + row);
        let end = node_half(tilemap, styles.spec_nodes(), styles.spec_walls(), i + row + 1);
        let length = self.spec_tile_size() - (start + end);
        let delta_half = delta_of(thickness as int / 2);
        let back = right_box(point(p.x + delta_half.x, p.y - delta_half.y), delta_of(start as int));
        box_prims(back, height, delta_of(length), delta_of(thickness as int), style, true, false)
    }

    /// The floor or the solid of tile `i`.
    pub open spec fn ground_prims(&self, tilemap: &Tilemap2d, styles: &StyleMgr, i: int) -> Seq<Primitive> {
        let p = self.tile_point(tilemap.spec_size().w() as int, tilemap.spec_size().h() as int, i);
        let d = self.spec_delta();
        match tilemap.spec_tiles()[i] {
            Tile::Empty => seq![],
            Tile::Floor(id) => seq![
                Primitive::Polygon {
                    p0: p,
                    p1: left_box(p, d),
                    p2: front_box(p, d, d),
                    p3: right_box(p, d),
                    color: styles.spec_floors().spec_get(id as int).spec_floor(),
                },
            ],
            Tile::Solid(id) => box_prims(
                p,
                self.spec_tile_height() as int,
                d,
                d,
                styles.spec_solids().spec_get(id as int).spec_style(),
                true,
                true,
            ),
        }
    }

    /// The node at the back corner of tile `i`.
    pub open spec fn corner_prims(&self, tilemap: &Tilemap2d, styles: &StyleMgr, i: int) -> Seq<Primitive> {
        let w = tilemap.spec_size().w() as int;
        let p = self.tile_point(w, tilemap.spec_size().h() as int, i);
        match resolve_node(tilemap, i + i / w) {
            IdNode::Outer(id) => {
                let style = styles.spec_nodes().spec_get(
                    styles.spec_walls().spec_get(id as int).spec_node() as int,
                );
                let delta_half = delta_of(style.spec_half() as int);
                let delta_size = delta_of(style.spec_size() as int);
                box_prims(
                    point(p.x as int, p.y - 2 * delta_half.y),
                    self.spec_tile_height() as int,
                    delta_size,
                    delta_size,
                    style.spec_style(),
                    true,
                    true,
                )
            },
            _ => seq![],
        }
    }

    /// The wall or the door at the back of tile `i`: a door is a box as high as
    /// the door with a box of the wall on top of it.
    pub open spec fn back_prims(&self, tilemap: &Tilemap2d, styles: &StyleMgr, i: int) -> Seq<Primitive> {
        let p = self.tile_point(tilemap.spec_size().w() as int, tilemap.spec_size().h() as int, i);
        let th = self.spec_tile_height() as int;
        match tilemap.spec_border(i, Side::Back) {
            Border::NoBorder => seq![],
            Border::Wall(id) => {
                let wall = styles.spec_walls().spec_get(id as int);
                self.horizontal_prims(tilemap, styles, i, p, wall.spec_style(), th, wall.spec_thickness() as nat)
            },
            Border::Door(wall_id, door_id) => {
                let wall = styles.spec_walls().spec_get(wall_id as int);
                let door = styles.spec_doors().spec_get(door_id as int);
                let door_height = door.spec_height() as int;
                self.horizontal_prims(tilemap, styles, i, p, door.spec_style(), door_height, door.spec_thickness() as nat)
                    + self.horizontal_prims(tilemap, styles, i, top(p, door_height), wall.spec_style(), th - door_height, wall.spec_thickness() as nat)
            },
        }
    }

    /// The wall at the left of tile `i`; a door there is drawn as its wall.
    pub open spec fn left_prims(&self, tilemap: &Tilemap2d, styles: &StyleMgr, i: int) -> Seq<Primitive> {
        let w = tilemap.spec_size().w() as int;
        let p = self.tile_point(w, tilemap.spec_size().h() as int, i);
        match crate::tilemap::border::wall_style_of(tilemap.spec_border(i, Side::Left)) {
            None => seq![],
            Some(id) => {
                let wall = styles.spec_walls().spec_get(id as int);
                let t = wall.spec_thickness() as int;
                let border_index = i + i / w;
                let start = node_half(tilemap, styles.spec_nodes(), styles.spec_walls(), border_index);
                let end = node_half(tilemap, styles.spec_nodes(), styles.spec_walls(), border_index + w + 1);
                let length = self.spec_tile_size() - (start + end);
                let delta_half = delta_of(t / 2);
                let left = left_box(point(p.x - delta_half.x, p.y - delta_half.y), delta_of(start as int));
                box_prims(left, self.spec_tile_height() as int, delta_of(t), delta_of(length), wall.spec_style(), false, true)
            },
        }
    }

    pub open spec fn tile_prims(&self, tilemap: &Tilemap2d, styles: &StyleMgr, i: int) -> Seq<Primitive> {
        self.ground_prims(tilemap, styles, i) + self.corner_prims(tilemap, styles, i)
            + self.back_prims(tilemap, styles, i) + self.left_prims(tilemap, styles, i)
    }

    pub open spec fn tiles_prims(&self, tilemap: &Tilemap2d, styles: &StyleMgr, n: int) -> Seq<Primitive>
        decreases n,
    {
        if n <= 0 {
            seq![]
        } else {
            self.tiles_prims(tilemap, styles, n - 1) + self.tile_prims(tilemap, styles, n - 1)
        }
    }

    /// The lines between the rows, the first `n` of them.
    pub open spec fn grid_rows(&self, tiles: Size2d, styles: &StyleMgr, n: int) -> Seq<Primitive>
        decreases n,
    {
        if n <= 0 {
            seq![]
        } else {
            let d = self.spec_delta();
            let p0 = point(d.x * (tiles.h() - n), self.spec_tile_height() + d.y * n);
            self.grid_rows(tiles, styles, n - 1) + seq![
                Primitive::Line {
                    p0,
                    p1: point(p0.x + d.x * tiles.w(), p0.y + d.y * tiles.w()),
                    color: styles.spec_grid(),
                },
            ]
        }
    }

    /// The lines between the columns, the first `n` of them.
    pub open spec fn grid_columns(&self, tiles: Size2d, styles: &StyleMgr, n: int) -> Seq<Primitive>
        decreases n,
    {
        if n <= 0 {
            seq![]
        } else {
            let d = self.spec_delta();
            let p0 = point(d.x * (tiles.h() + n), self.spec_tile_height() + d.y * n);
            self.grid_columns(tiles, styles, n - 1) + seq![
                Primitive::Line {
                    p0,
                    p1: point(p0.x - d.x * tiles.h(), p0.y + d.y * tiles.h()),
                    color: styles.spec_grid(),
                },
            ]
        }
    }

    fn get_left_box(&self, p: Point2d, d: Point2d) -> (r: Point2d)
        requires
            within(p, 0x5000_0000),
            within(d, 0x1000_0000),
        ensures
            r == left_box(p, d),
    {
        Point2d::new(p.x - d.x, p.y + d.y)
    }

    fn get_right_box(&self, p: Point2d, d: Point2d) -> (r: Point2d)
        requires
            within(p, 0x5000_0000),
            within(d, 0x1000_0000),
        ensures
            r == right_box(p, d),
    {
        Point2d::new(p.x + d.x, p.y + d.y)
    }

    fn get_front_box(&self, p: Point2d, delta_row: Point2d, delta_column: Point2d) -> (r: Point2d)
        requires
            within(p, 0x5000_0000),
            within(delta_row, 0x1000_0000),
            within(delta_column, 0x1000_0000),
        ensures
            r == front_box(p, delta_row, delta_column),
    {
        Point2d::new(p.x + delta_row.x - delta_column.x, p.y + delta_row.y + delta_column.y)
    }

    fn get_top(&self, p: Point2d, height: i32) -> (r: Point2d)
        requires
            within(p, 0x3000_0000),
            -0x2000_0000 <= height <= 0x2000_0000,
        ensures
            r == top(p, height as int),
    {
        Point2d::new(p.x, p.y - height)
    }

    /// Render an axis aligned box from its back corner.
    fn render_box<R: Renderer>(
        &self,
        renderer: &mut R,
        back: Point2d,
        height: i32,
        delta_row: Point2d,
        delta_column: Point2d,
        style: &BoxStyle,
        filter: (bool, bool),
    )
        requires
            within(back, point_bound()),
            step(delta_row),
            step(delta_column),
            0 <= height <= point_bound(),
        ensures
            final(renderer).drawn() == old(renderer).drawn() + box_prims(
                back,
                height as int,
                delta_row,
                delta_column,
                *style,
                filter.0,
                filter.1,
            ),
    {
        self.render_ceiling(
            renderer,
            back,
            height,
            delta_row,
            delta_column,
            *style.get_top_color(),
        );
        let ghost after_ceiling = renderer.drawn();
        if filter.0 {
            self.render_front(
                renderer,
                back,
                height,
                delta_row,
                delta_column,
                *style.get_front_color(),
            );
        }
        let ghost after_front = renderer.drawn();
        if filter.1 {
            self.render_side(
                renderer,
                back,
                height,
                delta_row,
                delta_column,
                *style.get_side_color(),
            );
        }
        assert(renderer.drawn() =~= old(renderer).drawn() + box_prims(
            back,
            height as int,
            delta_row,
            delta_column,
            *style,
            filter.0,
            filter.1,
        ));
    }

    /// Render the top of an axis aligned box.
    fn render_ceiling<R: Renderer>(
        &self,
        renderer: &mut R,
        back: Point2d,
        height: i32,
        delta_row: Point2d,
        delta_column: Point2d,
        color: Color,
    )
        requires
            within(back, point_bound()),
            step(delta_row),
            step(delta_column),
            0 <= height <= point_bound(),
        ensures
            final(renderer).drawn() == old(renderer).drawn().push(
                ceiling_prim(back, height as int, delta_row, delta_column, color),
            ),
    {
        let top_back = self.get_top(back, height);
        renderer.render_transformed_rectangle(
            top_back,
            self.get_left_box(top_back, delta_column),
            self.get_front_box(top_back, delta_row, delta_column),
            self.get_right_box(top_back, delta_row),
            color,
        )
    }

    /// Render the front of an axis aligned box.
    fn render_front<R: Renderer>(
        &self,
        renderer: &mut R,
        back: Point2d,
        height: i32,
        delta_row: Point2d,
        delta_column: Point2d,
        color: Color,
    )
        requires
            within(back, point_bound()),
            step(delta_row),
            step(delta_column),
            0 <= height <= point_bound(),
        ensures
            final(renderer).drawn() == old(renderer).drawn().push(
                front_prim(back, height as int, delta_row, delta_column, color),
            ),
    {
        let left0 = self.get_left_box(back, delta_column);
        let left1 = self.get_top(left0, height);
        let front0 = self.get_front_box(back, delta_row, delta_column);
        let front1 = self.get_top(front0, height);
        renderer.render_transformed_rectangle(left1, left0, front0, front1, color)
    }

    /// Render the side of an axis aligned box.
    fn render_side<R: Renderer>(
        &self,
        renderer: &mut R,
        back: Point2d,
        height: i32,
        delta_row: Point2d,
        delta_column: Point2d,
        color: Color,
    )
        requires
            within(back, point_bound()),
            step(delta_row),
            step(delta_column),
            0 <= height <= point_bound(),
        ensures
            final(renderer).drawn() == old(renderer).drawn().push(
                side_prim(back, height as int, delta_row, delta_column, color),
            ),
    {
        let right0 = self.get_right_box(back, delta_row);
        let right1 = self.get_top(right0, height);
        let front0 = self.get_front_box(back, delta_row, delta_column);
        let front1 = self.get_top(front0, height);
        renderer.render_transformed_rectangle(right0, right1, front1, front0, color)
    }

    /// Render a tile relative to its back point.
    fn render_tile<R: Renderer>(&self, renderer: &mut R, back: Point2d, color: Color)
        requires
            self.wf(),
            within(back, point_bound()),
            step(self.spec_delta()),
        ensures
            final(renderer).drawn() == old(renderer).drawn().push(
                Primitive::Polygon {
                    p0: back,
                    p1: left_box(back, self.spec_delta()),
                    p2: front_box(back, self.spec_delta(), self.spec_delta()),
                    p3: right_box(back, self.spec_delta()),
                    color,
                },
            ),
    {
        renderer.render_transformed_rectangle(
            back,
            self.get_left(back),
            self.get_front(back),
            self.get_right(back),
            color,
        )
    }

    /// Calculate the left corner of the floor tile from the back corner.
    fn get_left(&self, point: Point2d) -> (r: Point2d)
        requires
            within(point, 0x5000_0000),
            step(self.spec_delta()),
        ensures
            r == left_box(point, self.spec_delta()),
    {
        self.get_left_box(point, self.delta)
    }

    /// Calculate the right corner of the floor tile from the back corner.
    fn get_right(&self, point: Point2d) -> (r: Point2d)
        requires
            within(point, 0x5000_0000),
            step(self.spec_delta()),
        ensures
            r == right_box(point, self.spec_delta()),
    {
        self.get_right_box(point, self.delta)
    }

    /// Calculate the front corner of the floor tile from the back corner.
    fn get_front(&self, point: Point2d) -> (r: Point2d)
        requires
            within(point, 0x5000_0000),
            step(self.spec_delta()),
        ensures
            r == front_box(point, self.spec_delta(), self.spec_delta()),
    {
        self.get_front_box(point, self.delta, self.delta)
    }

    /// The back corner of a box whose left corner is `delta` to the left of `point`.
    fn get_reverse_left_box(&self, p: Point2d, delta: Point2d) -> (r: Point2d)
        requires
            within(p, 0x5000_0000),
            within(delta, 0x1000_0000),
        ensures
            r == point(p.x + delta.x, p.y - delta.y),
    {
        Point2d::new(p.x + delta.x, p.y - delta.y)
    }

    /// The back corner of a box whose right corner is `delta` to the right of `point`.
    fn get_reverse_right_box(&self, p: Point2d, delta: Point2d) -> (r: Point2d)
        requires
            within(p, 0x5000_0000),
            within(delta, 0x1000_0000),
        ensures
            r == point(p.x - delta.x, p.y - delta.y),
    {
        Point2d::new(p.x - delta.x, p.y - delta.y)
    }

    /// Calculate the back point of the first tile.
    fn get_start(&self, tiles: Size2d) -> (r: Point2d)
        requires
            step(self.spec_delta()),
            tiles.h() <= i32::MAX,
            self.spec_delta().x * tiles.h() <= i32::MAX,
        ensures
            r == point(self.spec_delta().x * tiles.h(), self.spec_tile_height() as int),
    {
        Point2d::new(self.delta.x * tiles.height() as i32, self.tile_height)
    }

    /// Calculate the difference between the start & end point of a column.
    fn get_diff_column(&self, tiles: Size2d) -> (r: Point2d)
        requires
            step(self.spec_delta()),
            self.spec_delta().y <= self.spec_delta().x,
            tiles.h() <= i32::MAX,
            self.spec_delta().x * tiles.h() <= point_bound(),
        ensures
            r == point(-self.spec_delta().x * tiles.h(), self.spec_delta().y * tiles.h()),
    {
        proof {
            tiles.lemma_bounds();
            let (dx, dy, h) = (self.delta.x as int, self.delta.y as int, tiles.h() as int);
            assert(dy * h <= dx * h) by (nonlinear_arith)
                requires
                    0 <= dy <= dx,
                    h >= 0,
            ;
            assert(0 <= dy * h) by (nonlinear_arith)
                requires
                    0 <= dy,
                    h >= 0,
            ;
            assert(-dx * h == (-dx) * h) by (nonlinear_arith);
            assert((-dx) * h >= -point_bound()) by (nonlinear_arith)
                requires
                    dx * h <= point_bound(),
            ;
        }
        let origin = Point2d::default();
        let left = self.get_left(origin);
        assert(left.x == -self.delta.x && left.y == self.delta.y);
        assert(left.x * tiles.h() <= 0) by (nonlinear_arith)
            requires
                left.x <= 0,
        ;
        left * tiles.height()
    }

    /// Calculate the difference between the start & end point of a row.
    fn get_diff_row(&self, tiles: Size2d) -> (r: Point2d)
        requires
            step(self.spec_delta()),
            self.spec_delta().y <= self.spec_delta().x,
            tiles.w() <= i32::MAX,
            self.spec_delta().x * tiles.w() <= point_bound(),
        ensures
            r == point(self.spec_delta().x * tiles.w(), self.spec_delta().y * tiles.w()),
    {
        proof {
            tiles.lemma_bounds();
            let (dx, dy, w) = (self.delta.x as int, self.delta.y as int, tiles.w() as int);
            assert(dy * w <= dx * w) by (nonlinear_arith)
                requires
                    0 <= dy <= dx,
                    w >= 0,
            ;
            assert(0 <= dy * w) by (nonlinear_arith)
                requires
                    0 <= dy,
                    w >= 0,
            ;
        }
        let origin = Point2d::default();
        let right = self.get_right(origin);
        assert(right.x == self.delta.x && right.y == self.delta.y);
        right * tiles.width()
    }
}

impl IsometricView {
    /// The back corner of tile `i`.
    fn get_tile_point(&self, w: usize, h: usize, index: usize) -> (r: Point2d)
        requires
            self.wf(),
            w > 0,
            h > 0,
            index < w * h,
            w * h <= i32::MAX,
            (w + h + 2) * self.spec_delta().x + self.spec_tile_height() <= point_bound(),
        ensures
            r == self.tile_point(w as int, h as int, index as int),
            0 <= r.x,
            r.x + 2 * self.spec_delta().x <= point_bound(),
            self.spec_tile_height() <= r.y,
            r.y + self.spec_delta().y <= point_bound(),
    {
        proof {
            lemma_delta_y_bound(self.tile_size as int);
            assert(self.delta.x == 2 * delta_y(self.tile_size as int));
            assert(self.delta.y == delta_y(self.tile_size as int));
            lemma_cell(index as int, w as int, h as int, 0, 0);
            assert(h <= w * h) by (nonlinear_arith)
                requires
                    w >= 1,
                    h >= 0,
            ;
            lemma_tile_point(
                w as int,
                h as int,
                index as int % w as int,
                index as int / w as int,
                self.delta.x as int,
                self.delta.y as int,
                self.tile_height as int,
            );
        }
        let col = (index % w) as i64;
        let row = (index / w) as i64;
        let dx = self.delta.x as i64;
        let dy = self.delta.y as i64;
        Point2d::new((dx * (h as i64 + col - row)) as i32, (self.tile_height as i64 + dy * (col + row)) as i32)
    }

    fn render_horizontal_border<R: Renderer>(
        &self,
        renderer: &mut R,
        tilemap: &Tilemap2d,
        styles: &StyleMgr,
        nodes: &[Node],
        point: Point2d,
        index: usize,
        row: u32,
        style: &BoxStyle,
        height: i32,
        thickness: u32,
    )
        requires
            self.can_render(tilemap, styles),
            index < tilemap.spec_count(),
            row == index as int / tilemap.spec_size().w() as int,
            0 <= point.x,
            point.x + 2 * self.spec_delta().x <= point_bound(),
            0 <= point.y,
            point.y + self.spec_delta().y <= point_bound(),
            0 <= height <= point_bound(),
            thickness <= self.spec_tile_size(),
            nodes@.len() == tilemap.node_count(),
            forall|n: int|
                0 <= n < nodes@.len() ==> #[trigger] nodes@[n].spec_half() == node_half(
                    tilemap,
                    styles.spec_nodes(),
                    styles.spec_walls(),
                    n,
                ),
        ensures
            final(renderer).drawn() == old(renderer).drawn() + self.horizontal_prims(
                tilemap,
                styles,
                index as int,
                point,
                *style,
                height as int,
                thickness as nat,
            ),
    {
        proof {
            let tiles = tilemap.spec_size();
            tilemap.lemma_wf_bounds();
            lemma_cell(index as int, tiles.w() as int, tiles.h() as int, 0, 0);
            lemma_tile_nodes_iso(tiles.w() as int, tiles.h() as int, index as int);
            lemma_node_half(tilemap, styles, index + row, self.tile_size as nat);
            lemma_node_half(tilemap, styles, index + row + 1, self.tile_size as nat);
            lemma_delta_y_bound(self.tile_size as int);
            lemma_step_bound(tiles.w() as int, tiles.h() as int, self.delta.x as int, self.tile_height as int);
        }
        let (start, length) = calculate_horizontal_border(nodes, self.tile_size, index, row);
        let delta_half = Self::calculate_delta(thickness / 2);
        let delta_start = Self::calculate_delta(start as u32);
        let back = self.get_reverse_left_box(point, delta_half);
        let back = self.get_right_box(back, delta_start);
        let delta_length = Self::calculate_delta(length);
        let delta_thickness = Self::calculate_delta(thickness);
        self.render_box(renderer, back, height, delta_length, delta_thickness, style, (true, false));
    }

    /// Renders tile `i`: its floor or solid, the node at its back corner, and
    /// the walls at its back & its left.
    fn render_cell<R: Renderer>(
        &self,
        tilemap: &Tilemap2d,
        nodes: &[Node],
        renderer: &mut R,
        styles: &StyleMgr,
        index: usize,
    )
        requires
            self.can_render(tilemap, styles),
            index < tilemap.spec_count(),
            nodes@.len() == tilemap.node_count(),
            forall|n: int|
                0 <= n < nodes@.len() ==> drawn_as(
                    #[trigger] nodes@[n],
                    resolve_node(tilemap, n),
                    styles.spec_nodes(),
                    styles.spec_walls(),
                ),
            forall|n: int|
                0 <= n < nodes@.len() ==> #[trigger] nodes@[n].spec_half() == node_half(
                    tilemap,
                    styles.spec_nodes(),
                    styles.spec_walls(),
                    n,
                ),
        ensures
            final(renderer).drawn() == old(renderer).drawn() + self.tile_prims(
                tilemap,
                styles,
                index as int,
            ),
    {
        let tiles = tilemap.get_size();
        proof {
            tilemap.lemma_wf_bounds();
            lemma_delta_y_bound(self.tile_size as int);
            lemma_step_bound(tiles.w() as int, tiles.h() as int, self.delta.x as int, self.tile_height as int);
        }
        let w = tiles.width() as usize;
        let h = tiles.height() as usize;
        let row = index / w;
        proof {
            assert(w * h == tilemap.spec_count());
        }
        let point = self.get_tile_point(w, h, index);
        proof {
            lemma_cell(index as int, w as int, h as int, 0, 0);
            lemma_tile_nodes_iso(w as int, h as int, index as int);
        }
        self.render_ground(tilemap, renderer, styles, index, point);
        let ghost after_ground = renderer.drawn();
        self.render_corner(tilemap, nodes, renderer, styles, index, point);
        let ghost after_node = renderer.drawn();
        self.render_back(tilemap, nodes, renderer, styles, index, point);
        let ghost after_back = renderer.drawn();
        self.render_left(tilemap, nodes, renderer, styles, index, point);
        proof {
            assert(renderer.drawn() =~= old(renderer).drawn() + self.tile_prims(tilemap, styles, index as int));
        }
    }

    fn render_ground<R: Renderer>(
        &self,
        tilemap: &Tilemap2d,
        renderer: &mut R,
        styles: &StyleMgr,
        index: usize,
        point: Point2d,
    )
        requires
            self.can_render(tilemap, styles),
            index < tilemap.spec_count(),
            point == self.tile_point(tilemap.spec_size().w() as int, tilemap.spec_size().h() as int, index as int),
            0 <= point.x,
            point.x + 2 * self.spec_delta().x <= point_bound(),
            self.spec_tile_height() <= point.y,
            point.y + self.spec_delta().y <= point_bound(),
        ensures
            final(renderer).drawn() == old(renderer).drawn() + self.ground_prims(tilemap, styles, index as int),
    {
        let tiles = tilemap.get_size();
        proof {
            tilemap.lemma_wf_bounds();
            lemma_delta_y_bound(self.tile_size as int);
            lemma_step_bound(tiles.w() as int, tiles.h() as int, self.delta.x as int, self.tile_height as int);
        }
        match tilemap.get_tile(index) {
            Tile::Empty => {},
            Tile::Floor(id) => {
                self.render_tile(renderer, point, *styles.get_floor_style(id).get_floor_color());
            },
            Tile::Solid(id) => {
                let style = styles.get_solid_style(id);
                self.render_box(
                    renderer,
                    point,
                    self.tile_height,
                    self.delta,
                    self.delta,
                    style.get_style(),
                    (true, true),
                );
            },
        }
        proof {
            assert(renderer.drawn() =~= old(renderer).drawn() + self.ground_prims(tilemap, styles, index as int));
        }
    }

    fn render_corner<R: Renderer>(
        &self,
        tilemap: &Tilemap2d,
        nodes: &[Node],
        renderer: &mut R,
        styles: &StyleMgr,
        index: usize,
        point: Point2d,
    )
        requires
            self.can_render(tilemap, styles),
            index < tilemap.spec_count(),
            point == self.tile_point(tilemap.spec_size().w() as int, tilemap.spec_size().h() as int, index as int),
            0 <= point.x,
            point.x + 2 * self.spec_delta().x <= point_bound(),
            self.spec_tile_height() <= point.y,
            point.y + self.spec_delta().y <= point_bound(),
            nodes@.len() == tilemap.node_count(),
            forall|n: int|
                0 <= n < nodes@.len() ==> drawn_as(
                    #[trigger] nodes@[n],
                    resolve_node(tilemap, n),
                    styles.spec_nodes(),
                    styles.spec_walls(),
                ),
        ensures
            final(renderer).drawn() == old(renderer).drawn() + self.corner_prims(tilemap, styles, index as int),
    {
        let tiles = tilemap.get_size();
        proof {
            tilemap.lemma_wf_bounds();
            lemma_delta_y_bound(self.tile_size as int);
            lemma_step_bound(tiles.w() as int, tiles.h() as int, self.delta.x as int, self.tile_height as int);
        }
        let w = tiles.width() as usize;
        let row = index / w;
        proof {
            lemma_cell(index as int, w as int, tiles.h() as int, 0, 0);
            lemma_tile_nodes_iso(w as int, tiles.h() as int, index as int);
        }
        let node_index = index + row;
        assert(drawn_as(nodes@[node_index as int], resolve_node(tilemap, node_index as int), styles.spec_nodes(), styles.spec_walls()));
        match &nodes[node_index] {
            Node::NoNode => {},
            Node::InnerNode => {},
            Node::OuterNode(style) => {
                proof {
                    let id = resolve_node(tilemap, node_index as int)->Outer_0;
                    assert(styles.spec_nodes().spec_get(styles.spec_walls().spec_get(id as int).spec_node() as int).spec_size() <= self.tile_size);
                }
                let delta_half = Self::calculate_delta(style.get_half());
                let delta_size = Self::calculate_delta(style.get_size());
                let back = self.get_reverse_left_box(point, delta_half);
                let back = self.get_reverse_right_box(back, delta_half);
                self.render_box(
                    renderer,
                    back,
                    self.tile_height,
                    delta_size,
                    delta_size,
                    style.get_style(),
                    (true, true),
                );
            },
        }
        proof {
            assert(renderer.drawn() =~= old(renderer).drawn() + self.corner_prims(tilemap, styles, index as int));
        }
    }

    fn render_back<R: Renderer>(
        &self,
        tilemap: &Tilemap2d,
        nodes: &[Node],
        renderer: &mut R,
        styles: &StyleMgr,
        index: usize,
        point: Point2d,
    )
        requires
            self.can_render(tilemap, styles),
            index < tilemap.spec_count(),
            point == self.tile_point(tilemap.spec_size().w() as int, tilemap.spec_size().h() as int, index as int),
            0 <= point.x,
            point.x + 2 * self.spec_delta().x <= point_bound(),
            self.spec_tile_height() <= point.y,
            point.y + self.spec_delta().y <= point_bound(),
            nodes@.len() == tilemap.node_count(),
            forall|n: int|
                0 <= n < nodes@.len() ==> #[trigger] nodes@[n].spec_half() == node_half(
                    tilemap,
                    styles.spec_nodes(),
                    styles.spec_walls(),
                    n,
                ),
        ensures
            final(renderer).drawn() == old(renderer).drawn() + self.back_prims(tilemap, styles, index as int),
    {
        let tiles = tilemap.get_size();
        proof {
            tilemap.lemma_wf_bounds();
            lemma_delta_y_bound(self.tile_size as int);
            lemma_step_bound(tiles.w() as int, tiles.h() as int, self.delta.x as int, self.tile_height as int);
        }
        let w = tiles.width() as usize;
        let row = (index / w) as u32;
        match tilemap.get_border(index, Side::Back) {
            Border::NoBorder => {},
            Border::Wall(id) => {
                let style = styles.get_wall_style(id);
                proof {
                    assert(styles.spec_walls().spec_get(id as int).spec_thickness() <= self.tile_size);
                }
                self.render_horizontal_border(
                    renderer,
                    tilemap,
                    styles,
                    nodes,
                    point,
                    index,
                    row,
                    style.get_aab_style(),
                    self.tile_height,
                    style.get_thickness(),
                );
            },
            Border::Door(wall_id, door_id) => {
                let wall_style = styles.get_wall_style(wall_id);
                let door_style = styles.get_door_style(door_id);
                proof {
                    assert(styles.spec_doors().spec_get(door_id as int).spec_thickness() <= self.tile_size);
                    assert(styles.spec_doors().spec_get(door_id as int).spec_height() <= self.tile_height);
                    assert(styles.spec_walls().spec_get(wall_id as int).spec_thickness() <= self.tile_size);
                }
                let door_height = door_style.get_height() as i32;
                let wall_height = self.tile_height - door_height;
                self.render_horizontal_border(
                    renderer,
                    tilemap,
                    styles,
                    nodes,
                    point,
                    index,
                    row,
                    door_style.get_style(),
                    door_height,
                    door_style.get_thickness(),
                );
                let ghost after_door = renderer.drawn();
                let upper = self.get_top(point, door_height);
                self.render_horizontal_border(
                    renderer,
                    tilemap,
                    styles,
                    nodes,
                    upper,
                    index,
                    row,
                    wall_style.get_aab_style(),
                    wall_height,
                    wall_style.get_thickness(),
                );
            },
        }
        proof {
            assert(renderer.drawn() =~= old(renderer).drawn() + self.back_prims(tilemap, styles, index as int));
        }
    }

    fn render_left<R: Renderer>(
        &self,
        tilemap: &Tilemap2d,
        nodes: &[Node],
        renderer: &mut R,
        styles: &StyleMgr,
        index: usize,
        point: Point2d,
    )
        requires
            self.can_render(tilemap, styles),
            index < tilemap.spec_count(),
            point == self.tile_point(tilemap.spec_size().w() as int, tilemap.spec_size().h() as int, index as int),
            0 <= point.x,
            point.x + 2 * self.spec_delta().x <= point_bound(),
            self.spec_tile_height() <= point.y,
            point.y + self.spec_delta().y <= point_bound(),
            nodes@.len() == tilemap.node_count(),
            forall|n: int|
                0 <= n < nodes@.len() ==> #[trigger] nodes@[n].spec_half() == node_half(
                    tilemap,
                    styles.spec_nodes(),
                    styles.spec_walls(),
                    n,
                ),
        ensures
            final(renderer).drawn() == old(renderer).drawn() + self.left_prims(tilemap, styles, index as int),
    {
        let tiles = tilemap.get_size();
        proof {
            tilemap.lemma_wf_bounds();
            lemma_delta_y_bound(self.tile_size as int);
            lemma_step_bound(tiles.w() as int, tiles.h() as int, self.delta.x as int, self.tile_height as int);
        }
        let w = tiles.width() as usize;
        let row = index / w;
        let vertical_size = get_vertical_borders_size(tiles);
        proof {
            lemma_cell(index as int, w as int, tiles.h() as int, 0, 0);
            lemma_tile_nodes_iso(w as int, tiles.h() as int, index as int);
        }
        match tilemap.get_border(index, Side::Left).get_wall_style() {
            None => {},
            Some(id) => {
                let style = styles.get_wall_style(id);
                let thickness = style.get_thickness();
                let border_index = index + row;
                proof {
                    lemma_node_half(tilemap, styles, border_index as int, self.tile_size as nat);
                    lemma_node_half(tilemap, styles, border_index + w + 1, self.tile_size as nat);
                    assert(styles.spec_walls().spec_get(id as int).spec_thickness() <= self.tile_size);
                }
                let (start, length) = calculate_vertical_border(nodes, self.tile_size, vertical_size, border_index);
                let delta_half = Self::calculate_delta(thickness / 2);
                let delta_start = Self::calculate_delta(start as u32);
                let left = self.get_reverse_right_box(point, delta_half);
                let left = self.get_left_box(left, delta_start);
                self.render_box(
                    renderer,
                    left,
                    self.tile_height,
                    Self::calculate_delta(thickness),
                    Self::calculate_delta(length),
                    style.get_aab_style(),
                    (false, true),
                );
            },
        }
        proof {
            assert(spec_left_of_tile(tiles, index as int) == index + row);
            assert(renderer.drawn() =~= old(renderer).drawn() + self.left_prims(tilemap, styles, index as int));
        }
    }
}

impl crate::renderer::view::View for IsometricView {
    open spec fn size_fits(&self, tiles: Size2d) -> bool {
        &&& self.wf()
        &&& (tiles.w() + tiles.h()) * self.spec_delta().x + self.spec_tile_height() <= u32::MAX
    }

    open spec fn spec_get_size(&self, tiles: Size2d) -> Size2d {
        let d = self.spec_delta();
        Size2d::spec_new(
            (d.x * tiles.w() + d.x * tiles.h()) as nat,
            (d.y * tiles.w() + d.y * tiles.h() + self.spec_tile_height()) as nat,
        )
    }

    open spec fn can_render(&self, tilemap: &Tilemap2d, styles: &StyleMgr) -> bool {
        let ts = self.spec_tile_size() as nat;
        let tiles = tilemap.spec_size();
        &&& self.wf()
        &&& tilemap.wf()
        &&& (tiles.w() + tiles.h() + 2) * self.spec_delta().x + self.spec_tile_height() <= point_bound()
        &&& nodes_fit(styles, ts, ts)
        &&& walls_fit(styles, ts, ts)
        &&& doors_fit(styles, ts, self.spec_tile_height() as nat)
    }

    open spec fn rendered(&self, tilemap: &Tilemap2d, styles: &StyleMgr) -> Seq<Primitive> {
        self.tiles_prims(tilemap, styles, tilemap.spec_count() as int)
    }

    open spec fn can_render_grid(&self, tiles: Size2d) -> bool {
        &&& self.wf()
        &&& 0 < tiles.w() <= i32::MAX
        &&& 0 < tiles.h() <= i32::MAX
        &&& (tiles.w() + tiles.h() + 2) * self.spec_delta().x + self.spec_tile_height() <= point_bound()
    }

    open spec fn grid(&self, tiles: Size2d, styles: &StyleMgr) -> Seq<Primitive> {
        self.grid_rows(tiles, styles, tiles.h() - 1) + self.grid_columns(
            tiles,
            styles,
            tiles.w() - 1,
        )
    }

    /// The floor with room above it for the height of the tiles.
    fn get_size(&self, tiles: Size2d) -> (r: Size2d) {
        proof {
            lemma_delta_y_bound(self.tile_size as int);
            let (w, h, dx, dy) = (tiles.w() as int, tiles.h() as int, self.delta.x as int, self.delta.y as int);
            assert(dy * w + dy * h <= dx * w + dx * h) by (nonlinear_arith)
                requires
                    dy <= dx,
                    w >= 0,
                    h >= 0,
            ;
            assert(dx * w + dx * h == (w + h) * dx) by (nonlinear_arith);
        }
        let floor = self.calculate_floor_size(tiles);
        proof {
            Size2d::lemma_spec_new(
                (self.delta.x * tiles.w() + self.delta.x * tiles.h()) as nat,
                (self.delta.y * tiles.w() + self.delta.y * tiles.h()) as nat,
            );
        }
        Size2d::new(floor.width(), floor.height() + self.tile_height as u32)
    }

    fn render<R: Renderer>(&self, tilemap: &Tilemap2d, renderer: &mut R, styles: &StyleMgr) {
        let nodes = calculate_node_styles(styles.get_node_styles(), styles.get_wall_styles(), tilemap);
        proof {
            tilemap.lemma_wf_bounds();
        }
        let count = tilemap.get_size().count();
        let mut index: usize = 0;
        while index < count
            invariant
                self.can_render(tilemap, styles),
                count == tilemap.spec_count(),
                nodes@.len() == tilemap.node_count(),
                forall|n: int|
                    0 <= n < nodes@.len() ==> drawn_as(
                        #[trigger] nodes@[n],
                        resolve_node(tilemap, n),
                        styles.spec_nodes(),
                        styles.spec_walls(),
                    ),
                forall|n: int|
                    0 <= n < nodes@.len() ==> #[trigger] nodes@[n].spec_half() == node_half(
                        tilemap,
                        styles.spec_nodes(),
                        styles.spec_walls(),
                        n,
                    ),
                index <= count,
                renderer.drawn() == old(renderer).drawn() + self.tiles_prims(
                    tilemap,
                    styles,
                    index as int,
                ),
            decreases count - index,
        {
            self.render_cell(tilemap, nodes.as_slice(), renderer, styles, index);
            index = index + 1;
        }
    }

    fn render_grid<R: Renderer>(&self, tiles: Size2d, renderer: &mut R, styles: &StyleMgr) {
        self.render_grid_rows(tiles, renderer, styles);
        self.render_grid_columns(tiles, renderer, styles);
    }
}

impl IsometricView {
    /// Render the lines of the grid between rows.
    fn render_grid_rows<R: Renderer>(&self, tiles: Size2d, renderer: &mut R, styles: &StyleMgr)
        requires
            self.can_render_grid(tiles),
        ensures
            final(renderer).drawn() == old(renderer).drawn() + self.grid_rows(tiles, styles, tiles.h() - 1),
    {
        proof {
            lemma_delta_y_bound(self.tile_size as int);
            lemma_step_bound(tiles.w() as int, tiles.h() as int, self.delta.x as int, self.tile_height as int);
            lemma_grid_bounds(tiles.h() as int, tiles.w() as int, 1, self.delta.x as int, self.delta.y as int, self.tile_height as int);
        }
        let start = self.get_start(tiles);
        proof {
            let (dx, h) = (self.delta.x as int, tiles.h() as int);
            assert(dx * h - dx == dx * (h - 1)) by (nonlinear_arith);
        }
        let mut start_row = self.get_left(start);
        let diff_row = self.get_diff_row(tiles);
        let mut row: u32 = 1;
        while row < tiles.height()
            invariant
                self.can_render_grid(tiles),
                step(self.spec_delta()),
                1 <= row <= tiles.h(),
                start_row == point(
                    self.spec_delta().x * (tiles.h() - row),
                    self.spec_tile_height() + self.spec_delta().y * row,
                ),
                diff_row == point(self.spec_delta().x * tiles.w(), self.spec_delta().y * tiles.w()),
                renderer.drawn() == old(renderer).drawn() + self.grid_rows(tiles, styles, row - 1),
            decreases tiles.h() - row,
        {
            proof {
                lemma_delta_y_bound(self.tile_size as int);
                lemma_grid_bounds(tiles.h() as int, tiles.w() as int, row as int, self.delta.x as int, self.delta.y as int, self.tile_height as int);
                if row + 1 <= tiles.h() {
                    lemma_grid_bounds(tiles.h() as int, tiles.w() as int, row + 1, self.delta.x as int, self.delta.y as int, self.tile_height as int);
                }
                assert(self.delta.x * (tiles.h() - row) - self.delta.x == self.delta.x * (tiles.h() - (row + 1))) by (nonlinear_arith);
                assert(self.delta.y * row + self.delta.y == self.delta.y * (row + 1)) by (nonlinear_arith);
            }
            let end_row = start_row + diff_row;
            renderer.render_line(start_row, end_row, *styles.get_grid_color());
            start_row = self.get_left(start_row);
            row = row + 1;
            proof {
                assert(renderer.drawn() =~= old(renderer).drawn() + self.grid_rows(tiles, styles, row - 1));
            }
        }
    }

    /// Render the lines of the grid between columns.
    fn render_grid_columns<R: Renderer>(&self, tiles: Size2d, renderer: &mut R, styles: &StyleMgr)
        requires
            self.can_render_grid(tiles),
        ensures
            final(renderer).drawn() == old(renderer).drawn() + self.grid_columns(tiles, styles, tiles.w() - 1),
    {
        proof {
            lemma_delta_y_bound(self.tile_size as int);
            lemma_step_bound(tiles.w() as int, tiles.h() as int, self.delta.x as int, self.tile_height as int);
            lemma_grid_bounds(tiles.w() as int, tiles.h() as int, 1, self.delta.x as int, self.delta.y as int, self.tile_height as int);
            lemma_grid_bounds(tiles.h() as int, tiles.w() as int, 1, self.delta.x as int, self.delta.y as int, self.tile_height as int);
        }
        let start = self.get_start(tiles);
        proof {
            let (dx, h) = (self.delta.x as int, tiles.h() as int);
            assert(dx * h + dx == dx * (h + 1)) by (nonlinear_arith);
        }
        let mut start_column = self.get_right(start);
        let diff_column = self.get_diff_column(tiles);
        let mut column: u32 = 1;
        while column < tiles.width()
            invariant
                self.can_render_grid(tiles),
                step(self.spec_delta()),
                1 <= column <= tiles.w(),
                start_column == point(
                    self.spec_delta().x * (tiles.h() + column),
                    self.spec_tile_height() + self.spec_delta().y * column,
                ),
                diff_column == point(-self.spec_delta().x * tiles.h(), self.spec_delta().y * tiles.h()),
                renderer.drawn() == old(renderer).drawn() + self.grid_columns(tiles, styles, column - 1),
            decreases tiles.w() - column,
        {
            proof {
                lemma_delta_y_bound(self.tile_size as int);
                lemma_grid_bounds(tiles.w() as int, tiles.h() as int, column as int, self.delta.x as int, self.delta.y as int, self.tile_height as int);
                assert(self.delta.x * (tiles.h() + column) + self.delta.x == self.delta.x * (tiles.h() + (column + 1))) by (nonlinear_arith);
                assert(self.delta.y * column + self.delta.y == self.delta.y * (column + 1)) by (nonlinear_arith);
                assert(self.delta.x * (tiles.h() + column) + (-self.delta.x * tiles.h()) == self.delta.x * (tiles.h() + column) - self.delta.x * tiles.h()) by (nonlinear_arith);
                if column + 1 <= tiles.w() {
                    lemma_grid_bounds(tiles.w() as int, tiles.h() as int, column + 1, self.delta.x as int, self.delta.y as int, self.tile_height as int);
                }
            }
            let end_column = start_column + diff_column;
            renderer.render_line(start_column, end_column, *styles.get_grid_color());
            start_column = self.get_right(start_column);
            column = column + 1;
            proof {
                assert(renderer.drawn() =~= old(renderer).drawn() + self.grid_columns(tiles, styles, column - 1));
            }
        }
    }
}

/// The back corner of a tile lies within the bound, with room for 2 steps.
proof fn lemma_tile_point(w: int, h: int, col: int, row: int, dx: int, dy: int, th: int)
    requires
        0 <= col < w,
        0 <= row < h,
        0 <= dy <= dx,
        th >= 0,
        (w + h + 2) * dx + th <= point_bound(),
    ensures
        0 <= dx * (h + col - row),
        dx * (h + col - row) + 2 * dx <= point_bound(),
        th <= th + dy * (col + row),
        th + dy * (col + row) + dy <= point_bound(),
{
    assert(0 <= dx * (h + col - row)) by (nonlinear_arith)
        requires
            h + col - row >= 0,
            dx >= 0,
    ;
    assert(dx * (h + col - row) + 2 * dx <= (w + h + 2) * dx) by (nonlinear_arith)
        requires
            h + col - row + 2 <= w + h + 2,
            dx >= 0,
    ;
    assert(0 <= dy * (col + row)) by (nonlinear_arith)
        requires
            col + row >= 0,
            dy >= 0,
    ;
    assert(dy * (col + row + 1) <= dx * (col + row + 1)) by (nonlinear_arith)
        requires
            col + row + 1 >= 0,
            0 <= dy <= dx,
    ;
    assert(dx * (col + row + 1) <= dx * (w + h + 2)) by (nonlinear_arith)
        requires
            col + row + 1 <= w + h + 2,
            0 <= dx,
    ;
    assert(dy * (col + row) + dy == dy * (col + row + 1)) by (nonlinear_arith);
    assert(dx * (w + h + 2) == (w + h + 2) * dx) by (nonlinear_arith);
}

/// Each step is at most a quarter of the bound.
proof fn lemma_step_bound(w: int, h: int, dx: int, th: int)
    requires
        w >= 1,
        h >= 1,
        dx >= 0,
        th >= 0,
        (w + h + 2) * dx + th <= point_bound(),
    ensures
        dx <= step_bound(),
        th <= point_bound(),
{
    assert(4 * dx <= (w + h + 2) * dx) by (nonlinear_arith)
        requires
            w + h + 2 >= 4,
            dx >= 0,
    ;
}

/// The ends of grid line `n` lie within the bound, where `a` is the number of
/// lines' direction and `b` the other side of the grid.
proof fn lemma_grid_bounds(a: int, b: int, n: int, dx: int, dy: int, th: int)
    requires
        b >= 1,
        1 <= n <= a,
        0 <= dy <= dx,
        th >= 0,
        (a + b + 2) * dx + th <= point_bound(),
    ensures
        0 <= dx * (a - n),
        0 <= dx * a <= point_bound(),
        dx * b <= point_bound(),
        dx * (a - n) + dx * b <= point_bound(),
        0 <= dx * b,
        dx * (b + n) <= point_bound(),
        dx * (b + n) - dx * b >= 0,
        0 <= dy * n,
        0 <= dy * b,
        th + dy * n + dy * b <= point_bound(),
{
    assert(0 <= dx * (a - n)) by (nonlinear_arith)
        requires
            0 <= a - n,
            dx >= 0,
    ;
    assert(dx * (a - n) + dx * b == dx * (a - n + b)) by (nonlinear_arith);
    assert(0 <= dx * a <= dx * (a + b + 2)) by (nonlinear_arith)
        requires
            a >= 0,
            b >= 0,
            dx >= 0,
    ;
    assert(dx * b <= dx * (a + b + 2)) by (nonlinear_arith)
        requires
            a >= 0,
            b >= 0,
            dx >= 0,
    ;
    assert(dx * (a - n + b) <= dx * (a + b + 2)) by (nonlinear_arith)
        requires
            a - n + b <= a + b + 2,
            dx >= 0,
    ;
    assert(dx * (b + n) <= dx * (a + b + 2)) by (nonlinear_arith)
        requires
            b + n <= a + b + 2,
            dx >= 0,
    ;
    assert(dx * (b + n) - dx * b == dx * n) by (nonlinear_arith);
    assert(0 <= dx * n && 0 <= dx * b) by (nonlinear_arith)
        requires
            n >= 0,
            b >= 0,
            dx >= 0,
    ;
    assert(0 <= dy * n && 0 <= dy * b) by (nonlinear_arith)
        requires
            n >= 0,
            b >= 0,
            dy >= 0,
    ;
    assert(dy * n + dy * b == dy * (n + b)) by (nonlinear_arith);
    assert(dy * (n + b) <= dx * (n + b)) by (nonlinear_arith)
        requires
            n + b >= 0,
            dy <= dx,
    ;
    assert(dx * (n + b) <= dx * (a + b + 2)) by (nonlinear_arith)
        requires
            n + b <= a + b + 2,
            dx >= 0,
    ;
    assert(dx * (a + b + 2) == (a + b + 2) * dx) by (nonlinear_arith);
}

/// The nodes at the corners of tile `i` of a grid of `w` x `h` tiles exist.
proof fn lemma_tile_nodes_iso(w: int, h: int, i: int)
    requires
        w > 0,
        0 <= i < w * h,
    ensures
        0 <= i + i / w + w + 2 < (w + 1) * (h + 1),
{
    lemma_cell(i, w, h, 0, 0);
    let row = i / w;
    let col = i % w;
    assert(i + row + w + 2 < (w + 1) * (h + 1)) by (nonlinear_arith)
        requires
            i == row * w + col,
            0 <= row < h,
            0 <= col < w,
    ;
}

} // verus!
