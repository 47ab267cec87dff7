use crate::math::color::Color;
use crate::math::point2d::Point2d;
use crate::math::size2d::Size2d;
use crate::port::renderer::{Primitive, Renderer};
use crate::renderer::border::{calculate_horizontal_border, calculate_vertical_border};
use crate::renderer::node::{
    calculate_node_styles, drawn_as, node_half, resolve_node, IdNode, Node,
};
use crate::renderer::style::aab::BoxStyle;
use crate::renderer::style::StyleMgr;
use crate::renderer::view::top_down::{lemma_node_half, nodes_fit};
use crate::renderer::view::View as _;
use crate::renderer::view::{cell_origin, cell_x, cell_y, lemma_cell};
use crate::tilemap::border::{get_vertical_borders_size, wall_style_of};
use crate::math::side::Side;
use crate::tilemap::tile::Tile;
use crate::tilemap::tilemap2d::Tilemap2d;
use vstd::prelude::*;

verus! {

/// Renders a tilemap with a 3/4 view: each tile is a flat rectangle, and
/// solids, walls & nodes also get a front face below their top, as high as the
/// tile height. A door is drawn as the wall it stands in. Each tile draws the
/// walls at its back & its left and the node at its back left corner.
pub struct ThreeFourView {
    tile_size: Size2d,
    tile_height: u32,
}

/// The walls of a catalog are no thicker than `width` & `height`.
pub open spec fn walls_fit(styles: &StyleMgr, width: nat, height: nat) -> bool {
    forall|id: int|
        #[trigger] styles.spec_walls().spec_get(id).spec_thickness() <= width
            && styles.spec_walls().spec_get(id).spec_thickness() <= height
}

impl ThreeFourView {
    pub closed spec fn spec_tile_size(&self) -> Size2d {
        self.tile_size
    }

    pub closed spec fn spec_tile_height(&self) -> u32 {
        self.tile_height
    }

    pub fn new(tile_size: Size2d, tile_height: u32) -> (r: ThreeFourView)
        ensures
            r.spec_tile_size() == tile_size,
            r.spec_tile_height() == tile_height,
    {
        ThreeFourView { tile_size, tile_height }
    }

    /// An axis aligned box seen from the front: its top and, below it, its
    /// front face as high as the tile height.
    pub open spec fn box_prims(&self, x: int, y: int, width: nat, depth: nat, style: BoxStyle) -> Seq<
        Primitive,
    > {
        seq![
            Primitive::Rectangle {
                x: x as i32,
                y: y as i32,
                size: Size2d::spec_new(width, depth),
                color: style.spec_top(),
            },
            Primitive::Rectangle {
                x: x as i32,
                y: (y + depth) as i32,
                size: Size2d::spec_new(width, self.spec_tile_height() as nat),
                color: style.spec_front(),
            },
        ]
    }

    /// What is drawn for tile `i`: its floor or its solid box, the node at its
    /// back left corner, and the walls at its back & its left.
    pub open spec fn tile_prims(&self, tilemap: &Tilemap2d, styles: &StyleMgr, i: int) -> Seq<
        Primitive,
    > {
        let ts = self.spec_tile_size();
        let w = tilemap.spec_size().w() as int;
        let row = i / w;
        let x = cell_x(i, w, ts.w() as int);
        let y = cell_y(i, w, ts.h() as int);
        let ground = match tilemap.spec_tiles()[i] {
            Tile::Empty => seq![],
            Tile::Floor(id) => seq![
                Primitive::Rectangle {
                    x: x as i32,
                    y: (y + self.spec_tile_height()) as i32,
                    size: ts,
                    color: styles.spec_floors().spec_get(id as int).spec_floor(),
                },
            ],
            Tile::Solid(id) => self.box_prims(
                x,
                y,
                ts.w(),
                ts.h(),
                styles.spec_solids().spec_get(id as int).spec_style(),
            ),
        };
        let node = match resolve_node(tilemap, i + row) {
            IdNode::Outer(id) => {
                let style = styles.spec_nodes().spec_get(
                    styles.spec_walls().spec_get(id as int).spec_node() as int,
                );
                self.box_prims(
                    x - style.spec_half(),
                    y - style.spec_half(),
                    style.spec_size() as nat,
                    style.spec_size() as nat,
                    style.spec_style(),
                )
            },
            _ => seq![],
        };
        let back = self.back_prims(tilemap, styles, i);
        let left = self.left_prims(tilemap, styles, i);
        ground + node + back + left
    }

    pub open spec fn tiles_prims(&self, tilemap: &Tilemap2d, styles: &StyleMgr, n: int) -> Seq<
        Primitive,
    >
        decreases n,
    {
        if n <= 0 {
            seq![]
        } else {
            self.tiles_prims(tilemap, styles, n - 1) + self.tile_prims(tilemap, styles, n - 1)
        }
    }

    /// The lines between the rows, the first `n` of them, below the front faces
    /// of the first row.
    pub open spec fn grid_rows(&self, tiles: Size2d, styles: &StyleMgr, n: int) -> Seq<Primitive>
        decreases n,
    {
        if n <= 0 {
            seq![]
        } else {
            let y = (self.spec_tile_height() + n * self.spec_tile_size().h()) as i32;
            self.grid_rows(tiles, styles, n - 1) + seq![
                Primitive::Line {
                    p0: Point2d { x: 0, y },
                    p1: Point2d { x: (tiles.w() * self.spec_tile_size().w()) as i32, y },
                    color: styles.spec_grid(),
                },
            ]
        }
    }

    /// The lines between the columns, the first `n` of them.
    pub open spec fn grid_columns(&self, tiles: Size2d, styles: &StyleMgr, n: int) -> Seq<
        Primitive,
    >
        decreases n,
    {
        if n <= 0 {
            seq![]
        } else {
            let x = (n * self.spec_tile_size().w()) as i32;
            self.grid_columns(tiles, styles, n - 1) + seq![
                Primitive::Line {
                    p0: Point2d { x, y: self.spec_tile_height() as i32 },
                    p1: Point2d {
                        x,
                        y: (tiles.h() * self.spec_tile_size().h() + self.spec_tile_height()) as i32,
                    },
                    color: styles.spec_grid(),
                },
            ]
        }
    }

    /// Renders tile `i`: its floor or solid, the node at its back left corner,
    /// and the walls at its back & its left.
    fn render_cell<R: Renderer>(
        &self,
        tilemap: &Tilemap2d,
        nodes: &[Node],
        renderer: &mut R,
        styles: &StyleMgr,
        index: usize,
    )
        requires
            self.can_render(tilemap, styles),
            index < tilemap.spec_count(),
            nodes@.len() == tilemap.node_count(),
            forall|n: int|
                0 <= n < nodes@.len() ==> drawn_as(
                    #[trigger] nodes@[n],
                    resolve_node(tilemap, n),
                    styles.spec_nodes(),
                    styles.spec_walls(),
                ),
            forall|n: int|
                0 <= n < nodes@.len() ==> #[trigger] nodes@[n].spec_half() == node_half(
                    tilemap,
                    styles.spec_nodes(),
                    styles.spec_walls(),
                    n,
                ),
        ensures
            final(renderer).drawn() == old(renderer).drawn() + self.tile_prims(
                tilemap,
                styles,
                index as int,
            ),
    {
        let tiles = tilemap.get_size();
        proof {
            tilemap.lemma_wf_bounds();
            lemma_bounds(tiles.w(), tiles.h(), self.tile_size.w(), self.tile_size.h());
        }
        let w = tiles.width() as usize;
        let h = tiles.height() as usize;
        let tw = self.tile_size.width();
        let th = self.tile_size.height();
        let (x, y) = cell_origin(index, w, h, tw, th);
        let row = index / w;
        proof {
            lemma_cell(index as int, w as int, h as int, tw as int, th as int);
            lemma_tile_nodes(w as int, h as int, index as int);
        }
        match tilemap.get_tile(index) {
            Tile::Empty => {},
            Tile::Floor(id) => self.render_tile(
                renderer,
                x,
                y + self.tile_height as i32,
                *styles.get_floor_style(id).get_floor_color(),
            ),
            Tile::Solid(id) => {
                self.render_aabb(renderer, x, y, tw, th, styles.get_solid_style(id).get_style());
            },
        }
        let ghost after_ground = renderer.drawn();
        let node_index = index + row;
        assert(drawn_as(nodes@[node_index as int], resolve_node(tilemap, node_index as int), styles.spec_nodes(), styles.spec_walls()));
        match &nodes[node_index] {
            Node::NoNode => {},
            Node::InnerNode => {},
            Node::OuterNode(style) => {
                proof {
                    let id = resolve_node(tilemap, node_index as int)->Outer_0;
                    assert(styles.spec_nodes().spec_get(styles.spec_walls().spec_get(id as int).spec_node() as int).spec_size() <= th);
                }
                let half = style.get_half() as i32;
                self.render_aabb(
                    renderer,
                    x - half,
                    y - half,
                    style.get_size(),
                    style.get_size(),
                    style.get_style(),
                );
            },
        }
        let ghost after_node = renderer.drawn();
        self.render_back(tilemap, nodes, renderer, styles, index, x, y);
        let ghost after_back = renderer.drawn();
        self.render_left(tilemap, nodes, renderer, styles, index, x, y);
        proof {
            assert(renderer.drawn() =~= old(renderer).drawn() + self.tile_prims(tilemap, styles, index as int));
        }
    }

    /// The wall at the back of tile `i`.
    pub open spec fn back_prims(&self, tilemap: &Tilemap2d, styles: &StyleMgr, i: int) -> Seq<Primitive> {
        let ts = self.spec_tile_size();
        let w = tilemap.spec_size().w() as int;
        let row = i / w;
        let x = cell_x(i, w, ts.w() as int);
        let y = cell_y(i, w, ts.h() as int);
        match wall_style_of(tilemap.spec_border(i, Side::Back)) {
            None => seq![],
            Some(id) => {
                let style = styles.spec_walls().spec_get(id as int);
                let t = style.spec_thickness();
                let start = node_half(tilemap, styles.spec_nodes(), styles.spec_walls(), i + row);
                let end = node_half(tilemap, styles.spec_nodes(), styles.spec_walls(), i + row + 1);
                self.box_prims(
                    x + start,
                    y - t / 2,
                    (ts.w() - (start + end)) as nat,
                    t as nat,
                    style.spec_style(),
                )
            },
        }
    }

    /// The wall at the left of tile `i`.
    pub open spec fn left_prims(&self, tilemap: &Tilemap2d, styles: &StyleMgr, i: int) -> Seq<Primitive> {
        let ts = self.spec_tile_size();
        let w = tilemap.spec_size().w() as int;
        let row = i / w;
        let x = cell_x(i, w, ts.w() as int);
        let y = cell_y(i, w, ts.h() as int);
        match wall_style_of(tilemap.spec_border(i, Side::Left)) {
            None => seq![],
            Some(id) => {
                let style = styles.spec_walls().spec_get(id as int);
                let t = style.spec_thickness();
                let start = node_half(tilemap, styles.spec_nodes(), styles.spec_walls(), i + row);
                let end = node_half(tilemap, styles.spec_nodes(), styles.spec_walls(), i + row + w + 1);
                self.box_prims(
                    x - t / 2,
                    y + start,
                    t as nat,
                    (ts.h() - (start + end)) as nat,
                    style.spec_style(),
                )
            },
        }
    }

    fn render_back<R: Renderer>(
        &self,
        tilemap: &Tilemap2d,
        nodes: &[Node],
        renderer: &mut R,
        styles: &StyleMgr,
        index: usize,
        x: i32,
        y: i32,
    )
        requires
            self.can_render(tilemap, styles),
            index < tilemap.spec_count(),
            x == cell_x(index as int, tilemap.spec_size().w() as int, self.spec_tile_size().w() as int),
            y == cell_y(index as int, tilemap.spec_size().w() as int, self.spec_tile_size().h() as int),
            nodes@.len() == tilemap.node_count(),
            forall|n: int|
                0 <= n < nodes@.len() ==> #[trigger] nodes@[n].spec_half() == node_half(
                    tilemap,
                    styles.spec_nodes(),
                    styles.spec_walls(),
                    n,
                ),
        ensures
            final(renderer).drawn() == old(renderer).drawn() + self.back_prims(tilemap, styles, index as int),
    {
        let tiles = tilemap.get_size();
        proof {
            tilemap.lemma_wf_bounds();
            lemma_bounds(tiles.w(), tiles.h(), self.tile_size.w(), self.tile_size.h());
        }
        let w = tiles.width() as usize;
        let tw = self.tile_size.width();
        let th = self.tile_size.height();
        let row = index / w;
        proof {
            lemma_cell(index as int, w as int, tiles.h() as int, tw as int, th as int);
            lemma_tile_nodes(w as int, tiles.h() as int, index as int);
        }
        match tilemap.get_border(index, Side::Back).get_wall_style() {
            None => {},
            Some(id) => {
                let style = styles.get_wall_style(id);
                let thickness = style.get_thickness();
                proof {
                    lemma_node_half(tilemap, styles, index + row, tw as nat);
                    lemma_node_half(tilemap, styles, index + row + 1, tw as nat);
                    assert(styles.spec_walls().spec_get(id as int).spec_thickness() <= th);
                }
                let (start, length) = calculate_horizontal_border(nodes, tw, index, row as u32);
                self.render_aabb(
                    renderer,
                    x + start,
                    y - (thickness / 2) as i32,
                    length,
                    thickness,
                    style.get_aab_style(),
                );
            },
        }
        proof {
            assert(renderer.drawn() =~= old(renderer).drawn() + self.back_prims(tilemap, styles, index as int));
        }
    }

    fn render_left<R: Renderer>(
        &self,
        tilemap: &Tilemap2d,
        nodes: &[Node],
        renderer: &mut R,
        styles: &StyleMgr,
        index: usize,
        x: i32,
        y: i32,
    )
        requires
            self.can_render(tilemap, styles),
            index < tilemap.spec_count(),
            x == cell_x(index as int, tilemap.spec_size().w() as int, self.spec_tile_size().w() as int),
            y == cell_y(index as int, tilemap.spec_size().w() as int, self.spec_tile_size().h() as int),
            nodes@.len() == tilemap.node_count(),
            forall|n: int|
                0 <= n < nodes@.len() ==> #[trigger] nodes@[n].spec_half() == node_half(
                    tilemap,
                    styles.spec_nodes(),
                    styles.spec_walls(),
                    n,
                ),
        ensures
            final(renderer).drawn() == old(renderer).drawn() + self.left_prims(tilemap, styles, index as int),
    {
        let tiles = tilemap.get_size();
        proof {
            tilemap.lemma_wf_bounds();
            lemma_bounds(tiles.w(), tiles.h(), self.tile_size.w(), self.tile_size.h());
        }
        let w = tiles.width() as usize;
        let tw = self.tile_size.width();
        let th = self.tile_size.height();
        let row = index / w;
        let vertical_size = get_vertical_borders_size(tiles);
        proof {
            lemma_cell(index as int, w as int, tiles.h() as int, tw as int, th as int);
            lemma_tile_nodes(w as int, tiles.h() as int, index as int);
        }
        match tilemap.get_border(index, Side::Left).get_wall_style() {
            None => {},
            Some(id) => {
                let style = styles.get_wall_style(id);
                let thickness = style.get_thickness();
                let border_index = index + row;
                proof {
                    lemma_node_half(tilemap, styles, border_index as int, th as nat);
                    lemma_node_half(tilemap, styles, border_index + w + 1, th as nat);
                    assert(styles.spec_walls().spec_get(id as int).spec_thickness() <= tw);
                }
                let (start, length) = calculate_vertical_border(nodes, th, vertical_size, border_index);
                self.render_aabb(
                    renderer,
                    x - (thickness / 2) as i32,
                    y + start,
                    thickness,
                    length,
                    style.get_aab_style(),
                );
            },
        }
        proof {
            assert(renderer.drawn() =~= old(renderer).drawn() + self.left_prims(tilemap, styles, index as int));
        }
    }

    fn render_aabb<R: Renderer>(
        &self,
        renderer: &mut R,
        x: i32,
        y: i32,
        size_x: u32,
        size_y: u32,
        style: &BoxStyle,
    )
        requires
            size_y <= i32::MAX,
            y + size_y <= i32::MAX,
        ensures
            final(renderer).drawn() == old(renderer).drawn() + self.box_prims(
                x as int,
                y as int,
                size_x as nat,
                size_y as nat,
                *style,
            ),
    {
        renderer.render_rectangle(x, y, Size2d::new(size_x, size_y), *style.get_top_color());
        renderer.render_rectangle(
            x,
            y + size_y as i32,
            Size2d::new(size_x, self.tile_height),
            *style.get_front_color(),
        );
        assert(renderer.drawn() =~= old(renderer).drawn() + self.box_prims(
            x as int,
            y as int,
            size_x as nat,
            size_y as nat,
            *style,
        ));
    }

    fn render_tile<R: Renderer>(&self, renderer: &mut R, x: i32, y: i32, color: Color)
        ensures
            final(renderer).drawn() == old(renderer).drawn().push(
                Primitive::Rectangle { x, y, size: self.spec_tile_size(), color },
            ),
    {
        renderer.render_rectangle(x, y, self.tile_size, color)
    }
}

impl crate::renderer::view::View for ThreeFourView {
    open spec fn size_fits(&self, tiles: Size2d) -> bool {
        &&& tiles.w() * self.spec_tile_size().w() <= u32::MAX
        &&& tiles.h() * self.spec_tile_size().h() + self.spec_tile_height() <= u32::MAX
    }

    open spec fn spec_get_size(&self, tiles: Size2d) -> Size2d {
        Size2d::spec_new(
            tiles.w() * self.spec_tile_size().w(),
            tiles.h() * self.spec_tile_size().h() + self.spec_tile_height() as nat,
        )
    }

    open spec fn can_render(&self, tilemap: &Tilemap2d, styles: &StyleMgr) -> bool {
        let ts = self.spec_tile_size();
        &&& tilemap.wf()
        &&& (tilemap.spec_size().w() + 1) * ts.w() <= i32::MAX
        &&& (tilemap.spec_size().h() + 1) * ts.h() + self.spec_tile_height() <= i32::MAX
        &&& nodes_fit(styles, ts.w(), ts.h())
        &&& walls_fit(styles, ts.w(), ts.h())
    }

    open spec fn rendered(&self, tilemap: &Tilemap2d, styles: &StyleMgr) -> Seq<Primitive> {
        self.tiles_prims(tilemap, styles, tilemap.spec_count() as int)
    }

    open spec fn can_render_grid(&self, tiles: Size2d) -> bool {
        &&& tiles.w() > 0
        &&& tiles.h() > 0
        &&& tiles.w() * self.spec_tile_size().w() <= i32::MAX
        &&& tiles.h() * self.spec_tile_size().h() + self.spec_tile_height() <= i32::MAX
    }

    open spec fn grid(&self, tiles: Size2d, styles: &StyleMgr) -> Seq<Primitive> {
        self.grid_rows(tiles, styles, tiles.h() - 1) + self.grid_columns(
            tiles,
            styles,
            tiles.w() - 1,
        )
    }

    /// The tiles times the tile size, with room for the front faces of the
    /// last row.
    fn get_size(&self, tiles: Size2d) -> (r: Size2d) {
        let floor = tiles * self.tile_size;
        proof {
            Size2d::lemma_spec_new(tiles.w() * self.tile_size.w(), tiles.h() * self.tile_size.h());
        }
        Size2d::new(floor.width(), floor.height() + self.tile_height)
    }

    fn render<R: Renderer>(&self, tilemap: &Tilemap2d, renderer: &mut R, styles: &StyleMgr) {
        let nodes = calculate_node_styles(styles.get_node_styles(), styles.get_wall_styles(), tilemap);
        proof {
            tilemap.lemma_wf_bounds();
        }
        let count = tilemap.get_size().count();
        let mut index: usize = 0;
        while index < count
            invariant
                self.can_render(tilemap, styles),
                count == tilemap.spec_count(),
                nodes@.len() == tilemap.node_count(),
                forall|n: int|
                    0 <= n < nodes@.len() ==> drawn_as(
                        #[trigger] nodes@[n],
                        resolve_node(tilemap, n),
                        styles.spec_nodes(),
                        styles.spec_walls(),
                    ),
                forall|n: int|
                    0 <= n < nodes@.len() ==> #[trigger] nodes@[n].spec_half() == node_half(
                        tilemap,
                        styles.spec_nodes(),
                        styles.spec_walls(),
                        n,
                    ),
                index <= count,
                renderer.drawn() == old(renderer).drawn() + self.tiles_prims(
                    tilemap,
                    styles,
                    index as int,
                ),
            decreases count - index,
        {
            self.render_cell(tilemap, nodes.as_slice(), renderer, styles, index);
            index = index + 1;
        }
    }

    fn render_grid<R: Renderer>(&self, tiles: Size2d, renderer: &mut R, styles: &StyleMgr) {
        let ghost start = renderer.drawn();
        let size = self.get_size(tiles);
        let th = self.tile_size.height();
        let tw = self.tile_size.width();
        let mut row: u32 = 0;
        while row < tiles.height() - 1
            invariant
                self.can_render_grid(tiles),
                size == self.spec_get_size(tiles),
                th == self.spec_tile_size().h(),
                row <= tiles.h() - 1,
                renderer.drawn() == start + self.grid_rows(tiles, styles, row as int),
            decreases tiles.h() - 1 - row,
        {
            proof {
                Size2d::lemma_spec_new(tiles.w() * self.tile_size.w(), tiles.h() * (th as nat) + self.tile_height as nat);
                assert((row + 2) * th <= tiles.h() * th) by (nonlinear_arith)
                    requires
                        row + 2 <= tiles.h(),
                ;
                assert((row + 1) * th <= tiles.h() * th) by (nonlinear_arith)
                    requires
                        row + 1 <= tiles.h(),
                ;
            }
            let y = self.tile_height + (row + 1) * th;
            renderer.render_line(
                Point2d::new(0, y as i32),
                Point2d::new(size.width() as i32, y as i32),
                *styles.get_grid_color(),
            );
            row = row + 1;
            proof {
                assert(renderer.drawn() =~= start + self.grid_rows(tiles, styles, row as int));
            }
        }
        let ghost after_rows = renderer.drawn();
        let y = self.tile_height;
        let mut column: u32 = 0;
        while column < tiles.width() - 1
            invariant
                self.can_render_grid(tiles),
                size == self.spec_get_size(tiles),
                tw == self.spec_tile_size().w(),
                y == self.spec_tile_height(),
                column <= tiles.w() - 1,
                renderer.drawn() == after_rows + self.grid_columns(tiles, styles, column as int),
            decreases tiles.w() - 1 - column,
        {
            proof {
                Size2d::lemma_spec_new(tiles.w() * (tw as nat), tiles.h() * self.tile_size.h() + y as nat);
                assert((column + 1) * tw <= tiles.w() * tw) by (nonlinear_arith)
                    requires
                        column + 1 <= tiles.w(),
                ;
            }
            let x = ((column + 1) * tw) as i32;
            renderer.render_line(
                Point2d::new(x, y as i32),
                Point2d::new(x, size.height() as i32),
                *styles.get_grid_color(),
            );
            column = column + 1;
            proof {
                assert(renderer.drawn() =~= after_rows + self.grid_columns(tiles, styles, column as int));
            }
        }
        proof {
            assert(renderer.drawn() =~= start + self.grid(tiles, styles));
        }
    }
}

proof fn lemma_bounds(w: nat, h: nat, tw: nat, th: nat)
    ensures
        w * tw + tw == (w + 1) * tw,
        h * th + th == (h + 1) * th,
{
    assert(w * tw + tw == (w + 1) * tw) by (nonlinear_arith);
    assert(h * th + th == (h + 1) * th) by (nonlinear_arith);
}

/// The nodes at the corners of tile `i` of a grid of `w` x `h` tiles exist.
proof fn lemma_tile_nodes(w: int, h: int, i: int)
    requires
        w > 0,
        0 <= i < w * h,
    ensures
        0 <= i + i / w + w + 2 < (w + 1) * (h + 1),
{
    lemma_cell(i, w, h, 0, 0);
    let row = i / w;
    let col = i % w;
    assert(i + row + w + 2 < (w + 1) * (h + 1)) by (nonlinear_arith)
        requires
            i == row * w + col,
            0 <= row < h,
            0 <= col < w,
    ;
}

} // verus!
