use crate::math::color::Color;
use crate::math::point2d::Point2d;
use crate::math::size2d::Size2d;
use crate::port::renderer::{Primitive, Renderer};
use crate::renderer::edge::{calculate_horizontal_edge, calculate_vertical_edge};
use crate::renderer::node::{
    calculate_node_styles, drawn_as, node_half, resolve_node, IdNode, Node,
};
use crate::renderer::style::StyleMgr;
use crate::renderer::view::View as _;
use crate::renderer::view::{cell_origin, cell_x, cell_y, lemma_cell};
use crate::tilemap::border::{get_horizontal_borders_size, get_vertical_borders_size, wall_style_of};
use crate::tilemap::tile::Tile;
use crate::tilemap::tilemap2d::{horizontal_count, vertical_count, Tilemap2d};
use vstd::prelude::*;

verus! {

/// Renders a tilemap with a top-down view: each tile is a rectangle of the
/// tile size, walls are thin rectangles on the lines between the tiles, and
/// nodes are squares centred on the corners of the tiles. Without a height a
/// door looks like the wall it stands in.
pub struct TopDownView {
    tile_size: Size2d,
}

/// The node styles of a catalog are no larger than `width` & `height`.
pub open spec fn nodes_fit(styles: &StyleMgr, width: nat, height: nat) -> bool {
    forall|id: int|
        #[trigger] styles.spec_nodes().spec_get(id).spec_size() <= width
            && styles.spec_nodes().spec_get(id).spec_size() <= height
}

/// Half the footprint of each node fits twice into the node style bound.
pub proof fn lemma_node_half(tilemap: &Tilemap2d, styles: &StyleMgr, n: int, bound: nat)
    requires
        forall|id: int| #[trigger] styles.spec_nodes().spec_get(id).spec_size() <= bound,
    ensures
        node_half(tilemap, styles.spec_nodes(), styles.spec_walls(), n) * 2 <= bound,
{
    match resolve_node(tilemap, n) {
        IdNode::Outer(w) => {
            let id = styles.spec_walls().spec_get(w as int).spec_node() as int;
            assert(styles.spec_nodes().spec_get(id).spec_size() <= bound);
        },
        _ => {},
    }
}

impl TopDownView {
    pub closed spec fn spec_tile_size(&self) -> Size2d {
        self.tile_size
    }

    pub fn new(tile_size: Size2d) -> (r: TopDownView)
        ensures
            r.spec_tile_size() == tile_size,
    {
        TopDownView { tile_size }
    }

    /// What is drawn for tile `i`: a rectangle of the tile size in the color
    /// of a floor or of the top of a solid.
    pub open spec fn tile_prims(&self, tilemap: &Tilemap2d, styles: &StyleMgr, i: int) -> Seq<
        Primitive,
    > {
        let ts = self.spec_tile_size();
        let w = tilemap.spec_size().w() as int;
        let x = cell_x(i, w, ts.w() as int) as i32;
        let y = cell_y(i, w, ts.h() as int) as i32;
        match tilemap.spec_tiles()[i] {
            Tile::Empty => seq![],
            Tile::Floor(id) => seq![
                Primitive::Rectangle {
                    x,
                    y,
                    size: ts,
                    color: styles.spec_floors().spec_get(id as int).spec_floor(),
                },
            ],
            Tile::Solid(id) => seq![
                Primitive::Rectangle {
                    x,
                    y,
                    size: ts,
                    color: styles.spec_solids().spec_get(id as int).spec_style().spec_top(),
                },
            ],
        }
    }

    pub open spec fn tiles_prims(&self, tilemap: &Tilemap2d, styles: &StyleMgr, n: int) -> Seq<
        Primitive,
    >
        decreases n,
    {
        if n <= 0 {
            seq![]
        } else {
            self.tiles_prims(tilemap, styles, n - 1) + self.tile_prims(tilemap, styles, n - 1)
        }
    }

    /// What is drawn for horizontal border `i`: for a wall or a door, a
    /// rectangle as thick as the wall, centred on the line between the rows and
    /// shortened by the nodes at its ends.
    pub open spec fn horizontal_prims(
        &self,
        tilemap: &Tilemap2d,
        styles: &StyleMgr,
        i: int,
    ) -> Seq<Primitive> {
        let ts = self.spec_tile_size();
        let w = tilemap.spec_size().w() as int;
        let row = i / w;
        let x = cell_x(i, w, ts.w() as int);
        let y = cell_y(i, w, ts.h() as int);
        match wall_style_of(tilemap.spec_horizontal()[i]) {
            None => seq![],
            Some(id) => {
                let style = styles.spec_walls().spec_get(id as int);
                let t = style.spec_thickness();
                let start = node_half(tilemap, styles.spec_nodes(), styles.spec_walls(), i + row);
                let end = node_half(tilemap, styles.spec_nodes(), styles.spec_walls(), i + row + 1);
                seq![
                    Primitive::Rectangle {
                        x: (x + start) as i32,
                        y: (y - t / 2) as i32,
                        size: Size2d::spec_new((ts.w() - (start + end)) as nat, t as nat),
                        color: style.spec_style().spec_top(),
                    },
                ]
            },
        }
    }

    pub open spec fn horizontals_prims(
        &self,
        tilemap: &Tilemap2d,
        styles: &StyleMgr,
        n: int,
    ) -> Seq<Primitive>
        decreases n,
    {
        if n <= 0 {
            seq![]
        } else {
            self.horizontals_prims(tilemap, styles, n - 1) + self.horizontal_prims(
                tilemap,
                styles,
                n - 1,
            )
        }
    }

    /// What is drawn for vertical border `i`: for a wall or a door, a rectangle
    /// as thick as the wall, centred on the line between the columns and
    /// shortened by the nodes at its ends.
    pub open spec fn vertical_prims(&self, tilemap: &Tilemap2d, styles: &StyleMgr, i: int) -> Seq<
        Primitive,
    > {
        let ts = self.spec_tile_size();
        let w = tilemap.spec_size().w() as int;
        let x = cell_x(i, w + 1, ts.w() as int);
        let y = cell_y(i, w + 1, ts.h() as int);
        match wall_style_of(tilemap.spec_vertical()[i]) {
            None => seq![],
            Some(id) => {
                let style = styles.spec_walls().spec_get(id as int);
                let t = style.spec_thickness();
                let start = node_half(tilemap, styles.spec_nodes(), styles.spec_walls(), i);
                let end = node_half(tilemap, styles.spec_nodes(), styles.spec_walls(), i + w + 1);
                seq![
                    Primitive::Rectangle {
                        x: (x - t / 2) as i32,
                        y: (y + start) as i32,
                        size: Size2d::spec_new(t as nat, (ts.h() - (start + end)) as nat),
                        color: style.spec_style().spec_top(),
                    },
                ]
            },
        }
    }

    pub open spec fn verticals_prims(&self, tilemap: &Tilemap2d, styles: &StyleMgr, n: int) -> Seq<
        Primitive,
    >
        decreases n,
    {
        if n <= 0 {
            seq![]
        } else {
            self.verticals_prims(tilemap, styles, n - 1) + self.vertical_prims(
                tilemap,
                styles,
                n - 1,
            )
        }
    }

    /// What is drawn for node `n`: for an outer node, a square of its node
    /// style centred on the corner.
    pub open spec fn node_prims(&self, tilemap: &Tilemap2d, styles: &StyleMgr, n: int) -> Seq<
        Primitive,
    > {
        let ts = self.spec_tile_size();
        let w = tilemap.spec_size().w() as int;
        let x = cell_x(n, w + 1, ts.w() as int);
        let y = cell_y(n, w + 1, ts.h() as int);
        match resolve_node(tilemap, n) {
            IdNode::Outer(id) => {
                let style = styles.spec_nodes().spec_get(
                    styles.spec_walls().spec_get(id as int).spec_node() as int,
                );
                let half = style.spec_half();
                seq![
                    Primitive::Rectangle {
                        x: (x - half) as i32,
                        y: (y - half) as i32,
                        size: Size2d::spec_new(style.spec_size() as nat, style.spec_size() as nat),
                        color: style.spec_style().spec_top(),
                    },
                ]
            },
            _ => seq![],
        }
    }

    pub open spec fn nodes_prims(&self, tilemap: &Tilemap2d, styles: &StyleMgr, n: int) -> Seq<
        Primitive,
    >
        decreases n,
    {
        if n <= 0 {
            seq![]
        } else {
            self.nodes_prims(tilemap, styles, n - 1) + self.node_prims(tilemap, styles, n - 1)
        }
    }

    /// The lines between the rows, the first `n` of them.
    pub open spec fn grid_rows(&self, tiles: Size2d, styles: &StyleMgr, n: int) -> Seq<Primitive>
        decreases n,
    {
        if n <= 0 {
            seq![]
        } else {
            let y = (n * self.spec_tile_size().h()) as i32;
            self.grid_rows(tiles, styles, n - 1) + seq![
                Primitive::Line {
                    p0: Point2d { x: 0, y },
                    p1: Point2d { x: (tiles.w() * self.spec_tile_size().w()) as i32, y },
                    color: styles.spec_grid(),
                },
            ]
        }
    }

    /// The lines between the columns, the first `n` of them.
    pub open spec fn grid_columns(&self, tiles: Size2d, styles: &StyleMgr, n: int) -> Seq<
        Primitive,
    >
        decreases n,
    {
        if n <= 0 {
            seq![]
        } else {
            let x = (n * self.spec_tile_size().w()) as i32;
            self.grid_columns(tiles, styles, n - 1) + seq![
                Primitive::Line {
                    p0: Point2d { x, y: 0 },
                    p1: Point2d { x, y: (tiles.h() * self.spec_tile_size().h()) as i32 },
                    color: styles.spec_grid(),
                },
            ]
        }
    }

    fn render_tiles<R: Renderer>(&self, tilemap: &Tilemap2d, renderer: &mut R, styles: &StyleMgr)
        requires
            self.can_render(tilemap, styles),
        ensures
            final(renderer).drawn() == old(renderer).drawn() + self.tiles_prims(
                tilemap,
                styles,
                tilemap.spec_count() as int,
            ),
    {
        let tiles = tilemap.get_size();
        proof {
            tilemap.lemma_wf_bounds();
            lemma_view_bounds(tiles.w(), tiles.h(), self.tile_size.w(), self.tile_size.h());
        }
        let count = tiles.count();
        let w = tiles.width() as usize;
        let h = tiles.height() as usize;
        let mut index: usize = 0;
        while index < count
            invariant
                self.can_render(tilemap, styles),
                count == tilemap.spec_count(),
                w == tilemap.spec_size().w(),
                h == tilemap.spec_size().h(),
                w * self.tile_size.w() <= i32::MAX,
                h * self.tile_size.h() <= i32::MAX,
                index <= count,
                renderer.drawn() == old(renderer).drawn() + self.tiles_prims(
                    tilemap,
                    styles,
                    index as int,
                ),
            decreases count - index,
        {
            let (x, y) = cell_origin(index, w, h, self.tile_size.width(), self.tile_size.height());
            let ghost before = renderer.drawn();
            match tilemap.get_tile(index) {
                Tile::Empty => {},
                Tile::Floor(id) => self.render_tile(
                    renderer,
                    x,
                    y,
                    *styles.get_floor_style(id).get_floor_color(),
                ),
                Tile::Solid(id) => {
                    let color = styles.get_solid_style(id).get_style().get_top_color();
                    self.render_tile(renderer, x, y, *color)
                },
            }
            proof {
                assert(renderer.drawn() =~= before + self.tile_prims(tilemap, styles, index as int));
            }
            index = index + 1;
        }
    }

    fn render_horizontal_borders<R: Renderer>(
        &self,
        tilemap: &Tilemap2d,
        nodes: &[Node],
        renderer: &mut R,
        styles: &StyleMgr,
    )
        requires
            self.can_render(tilemap, styles),
            nodes@.len() == tilemap.node_count(),
            forall|n: int|
                0 <= n < nodes@.len() ==> #[trigger] nodes@[n].spec_half() == node_half(
                    tilemap,
                    styles.spec_nodes(),
                    styles.spec_walls(),
                    n,
                ),
        ensures
            final(renderer).drawn() == old(renderer).drawn() + self.horizontals_prims(
                tilemap,
                styles,
                horizontal_count(tilemap.spec_size()) as int,
            ),
    {
        let tiles = tilemap.get_size();
        proof {
            tilemap.lemma_wf_bounds();
            lemma_view_bounds(tiles.w(), tiles.h(), self.tile_size.w(), self.tile_size.h());
        }
        let size = get_horizontal_borders_size(tiles);
        let borders = tilemap.get_horizontal_borders();
        let count = size.count();
        let w = size.width() as usize;
        let rows = size.height() as usize;
        let mut index: usize = 0;
        while index < count
            invariant
                self.can_render(tilemap, styles),
                tilemap.wf(),
                tilemap.node_count() <= i32::MAX,
                count == horizontal_count(tilemap.spec_size()),
                borders@ == tilemap.spec_horizontal(),
                borders@.len() == count,
                w == tilemap.spec_size().w(),
                rows == tilemap.spec_size().h() + 1,
                w * self.tile_size.w() + self.tile_size.w() <= i32::MAX,
                rows * self.tile_size.h() <= i32::MAX,
                nodes@.len() == tilemap.node_count(),
                forall|n: int|
                    0 <= n < nodes@.len() ==> #[trigger] nodes@[n].spec_half() == node_half(
                        tilemap,
                        styles.spec_nodes(),
                        styles.spec_walls(),
                        n,
                    ),
                index <= count,
                renderer.drawn() == old(renderer).drawn() + self.horizontals_prims(
                    tilemap,
                    styles,
                    index as int,
                ),
            decreases count - index,
        {
            let (x, y) = cell_origin(index, w, rows, self.tile_size.width(), self.tile_size.height());
            let row = index / w;
            let ghost before = renderer.drawn();
            proof {
                lemma_cell(index as int, w as int, rows as int, self.tile_size.w() as int, self.tile_size.h() as int);
                lemma_border_nodes(w as int, rows as int - 1, index as int);
            }
            match borders[index].get_wall_style() {
                None => {},
                Some(id) => {
                    let style = styles.get_wall_style(id);
                    let thickness = style.get_thickness();
                    proof {
                        lemma_node_half(tilemap, styles, index + row, self.tile_size.w());
                        lemma_node_half(tilemap, styles, index + row + 1, self.tile_size.w());
                    }
                    let (start, length) = calculate_horizontal_edge(
                        nodes,
                        self.tile_size.width(),
                        index,
                        row as u32,
                    );
                    renderer.render_rectangle(
                        x + start,
                        y - (thickness / 2) as i32,
                        Size2d::new(length, thickness),
                        *style.get_aab_style().get_top_color(),
                    );
                    proof {
                        Size2d::lemma_spec_new(length as nat, thickness as nat);
                    }
                },
            }
            proof {
                assert(renderer.drawn() =~= before + self.horizontal_prims(tilemap, styles, index as int));
            }
            index = index + 1;
        }
    }

    fn render_vertical_borders<R: Renderer>(
        &self,
        tilemap: &Tilemap2d,
        nodes: &[Node],
        renderer: &mut R,
        styles: &StyleMgr,
    )
        requires
            self.can_render(tilemap, styles),
            nodes@.len() == tilemap.node_count(),
            forall|n: int|
                0 <= n < nodes@.len() ==> #[trigger] nodes@[n].spec_half() == node_half(
                    tilemap,
                    styles.spec_nodes(),
                    styles.spec_walls(),
                    n,
                ),
        ensures
            final(renderer).drawn() == old(renderer).drawn() + self.verticals_prims(
                tilemap,
                styles,
                vertical_count(tilemap.spec_size()) as int,
            ),
    {
        let tiles = tilemap.get_size();
        proof {
            tilemap.lemma_wf_bounds();
            lemma_view_bounds(tiles.w(), tiles.h(), self.tile_size.w(), self.tile_size.h());
        }
        let size = get_vertical_borders_size(tiles);
        let borders = tilemap.get_vertical_borders();
        let count = size.count();
        let per_row = size.width() as usize;
        let rows = size.height() as usize;
        let mut index: usize = 0;
        while index < count
            invariant
                self.can_render(tilemap, styles),
                tilemap.wf(),
                tilemap.node_count() <= i32::MAX,
                count == vertical_count(tilemap.spec_size()),
                borders@ == tilemap.spec_vertical(),
                borders@.len() == count,
                per_row == tilemap.spec_size().w() + 1,
                rows == tilemap.spec_size().h(),
                size.w() == per_row,
                per_row * self.tile_size.w() <= i32::MAX,
                rows * self.tile_size.h() + self.tile_size.h() <= i32::MAX,
                nodes@.len() == tilemap.node_count(),
                forall|n: int|
                    0 <= n < nodes@.len() ==> #[trigger] nodes@[n].spec_half() == node_half(
                        tilemap,
                        styles.spec_nodes(),
                        styles.spec_walls(),
                        n,
                    ),
                index <= count,
                renderer.drawn() == old(renderer).drawn() + self.verticals_prims(
                    tilemap,
                    styles,
                    index as int,
                ),
            decreases count - index,
        {
            let (x, y) = cell_origin(
                index,
                per_row,
                rows,
                self.tile_size.width(),
                self.tile_size.height(),
            );
            let ghost before = renderer.drawn();
            proof {
                lemma_cell(index as int, per_row as int, rows as int, self.tile_size.w() as int, self.tile_size.h() as int);
                lemma_border_nodes(per_row as int - 1, rows as int, index as int);
            }
            match borders[index].get_wall_style() {
                None => {},
                Some(id) => {
                    let style = styles.get_wall_style(id);
                    let thickness = style.get_thickness();
                    proof {
                        lemma_node_half(tilemap, styles, index as int, self.tile_size.h());
                        lemma_node_half(tilemap, styles, index + per_row, self.tile_size.h());
                    }
                    let (start, length) = calculate_vertical_edge(
                        nodes,
                        self.tile_size.height(),
                        size,
                        index,
                    );
                    renderer.render_rectangle(
                        x - (thickness / 2) as i32,
                        y + start,
                        Size2d::new(thickness, length),
                        *style.get_aab_style().get_top_color(),
                    );
                    proof {
                        Size2d::lemma_spec_new(thickness as nat, length as nat);
                    }
                },
            }
            proof {
                assert(renderer.drawn() =~= before + self.vertical_prims(tilemap, styles, index as int));
            }
            index = index + 1;
        }
    }

    fn render_nodes<R: Renderer>(
        &self,
        tilemap: &Tilemap2d,
        nodes: &[Node],
        renderer: &mut R,
        styles: &StyleMgr,
    )
        requires
            self.can_render(tilemap, styles),
            nodes@.len() == tilemap.node_count(),
            forall|n: int|
                0 <= n < nodes@.len() ==> drawn_as(
                    #[trigger] nodes@[n],
                    resolve_node(tilemap, n),
                    styles.spec_nodes(),
                    styles.spec_walls(),
                ),
        ensures
            final(renderer).drawn() == old(renderer).drawn() + self.nodes_prims(
                tilemap,
                styles,
                tilemap.node_count() as int,
            ),
    {
        let tiles = tilemap.get_size();
        proof {
            tilemap.lemma_wf_bounds();
            lemma_view_bounds(tiles.w(), tiles.h(), self.tile_size.w(), self.tile_size.h());
        }
        let per_row = tiles.width() as usize + 1;
        let rows = tiles.height() as usize + 1;
        let count = per_row * rows;
        let mut index: usize = 0;
        while index < count
            invariant
                self.can_render(tilemap, styles),
                count == tilemap.node_count(),
                per_row == tilemap.spec_size().w() + 1,
                rows == tilemap.spec_size().h() + 1,
                per_row * self.tile_size.w() <= i32::MAX,
                rows * self.tile_size.h() <= i32::MAX,
                nodes@.len() == count,
                forall|n: int|
                    0 <= n < nodes@.len() ==> drawn_as(
                        #[trigger] nodes@[n],
                        resolve_node(tilemap, n),
                        styles.spec_nodes(),
                        styles.spec_walls(),
                    ),
                index <= count,
                renderer.drawn() == old(renderer).drawn() + self.nodes_prims(
                    tilemap,
                    styles,
                    index as int,
                ),
            decreases count - index,
        {
            let (x, y) = cell_origin(
                index,
                per_row,
                rows,
                self.tile_size.width(),
                self.tile_size.height(),
            );
            let ghost before = renderer.drawn();
            assert(drawn_as(nodes@[index as int], resolve_node(tilemap, index as int), styles.spec_nodes(), styles.spec_walls()));
            match &nodes[index] {
                Node::NoNode => {},
                Node::InnerNode => {},
                Node::OuterNode(style) => {
                    proof {
                        let id = resolve_node(tilemap, index as int)->Outer_0;
                        assert(styles.spec_nodes().spec_get(styles.spec_walls().spec_get(id as int).spec_node() as int).spec_size() <= self.tile_size.w());
                    }
                    let half = style.get_half() as i32;
                    renderer.render_rectangle(
                        x - half,
                        y - half,
                        Size2d::square(style.get_size()),
                        *style.get_style().get_top_color(),
                    );
                    proof {
                        Size2d::lemma_spec_new(style.spec_size() as nat, style.spec_size() as nat);
                    }
                },
            }
            proof {
                assert(renderer.drawn() =~= before + self.node_prims(tilemap, styles, index as int));
            }
            index = index + 1;
        }
    }

    fn render_tile<R: Renderer>(&self, renderer: &mut R, x: i32, y: i32, color: Color)
        ensures
            final(renderer).drawn() == old(renderer).drawn().push(
                Primitive::Rectangle { x, y, size: self.spec_tile_size(), color },
            ),
    {
        renderer.render_rectangle(x, y, self.tile_size, color)
    }
}

/// The canvas of a grid, with room for one more tile in each direction, fits
/// into an `i32`; so does the canvas without it.
proof fn lemma_view_bounds(w: nat, h: nat, tw: nat, th: nat)
    requires
        (w + 1) * tw <= i32::MAX,
        (h + 1) * th <= i32::MAX,
    ensures
        w * tw <= i32::MAX,
        h * th <= i32::MAX,
        w * tw + tw == (w + 1) * tw,
        h * th + th == (h + 1) * th,
{
    assert(w * tw + tw == (w + 1) * tw) by (nonlinear_arith);
    assert(h * th + th == (h + 1) * th) by (nonlinear_arith);
}

/// The nodes at the ends of border `i` of a grid of `w` x `h` tiles exist.
proof fn lemma_border_nodes(w: int, h: int, i: int)
    requires
        w > 0,
        h >= 0,
    ensures
        0 <= i < w * (h + 1) ==> 0 <= i + i / w + 1 < (w + 1) * (h + 1),
        0 <= i < (w + 1) * h ==> 0 <= i + w + 1 < (w + 1) * (h + 1),
{
    if 0 <= i < w * (h + 1) {
        lemma_cell(i, w, h + 1, 0, 0);
        let row = i / w;
        let col = i % w;
        assert(i + row + 1 < (w + 1) * (h + 1)) by (nonlinear_arith)
            requires
                i == row * w + col,
                0 <= row < h + 1,
                0 <= col < w,
        ;
    }
    if 0 <= i < (w + 1) * h {
        assert(i + w + 1 < (w + 1) * (h + 1)) by (nonlinear_arith)
            requires
                0 <= i < (w + 1) * h,
        ;
    }
}

impl crate::renderer::view::View for TopDownView {
    open spec fn size_fits(&self, tiles: Size2d) -> bool {
        tiles.w() * self.spec_tile_size().w() <= u32::MAX && tiles.h() * self.spec_tile_size().h()
            <= u32::MAX
    }

    open spec fn spec_get_size(&self, tiles: Size2d) -> Size2d {
        Size2d::spec_new(
            tiles.w() * self.spec_tile_size().w(),
            tiles.h() * self.spec_tile_size().h(),
        )
    }

    open spec fn can_render(&self, tilemap: &Tilemap2d, styles: &StyleMgr) -> bool {
        let ts = self.spec_tile_size();
        &&& tilemap.wf()
        &&& (tilemap.spec_size().w() + 1) * ts.w() <= i32::MAX
        &&& (tilemap.spec_size().h() + 1) * ts.h() <= i32::MAX
        &&& nodes_fit(styles, ts.w(), ts.h())
    }

    open spec fn rendered(&self, tilemap: &Tilemap2d, styles: &StyleMgr) -> Seq<Primitive> {
        self.tiles_prims(tilemap, styles, tilemap.spec_count() as int) + self.horizontals_prims(
            tilemap,
            styles,
            horizontal_count(tilemap.spec_size()) as int,
        ) + self.verticals_prims(tilemap, styles, vertical_count(tilemap.spec_size()) as int)
            + self.nodes_prims(tilemap, styles, tilemap.node_count() as int)
    }

    open spec fn can_render_grid(&self, tiles: Size2d) -> bool {
        &&& tiles.w() > 0
        &&& tiles.h() > 0
        &&& tiles.w() * self.spec_tile_size().w() <= i32::MAX
        &&& tiles.h() * self.spec_tile_size().h() <= i32::MAX
    }

    open spec fn grid(&self, tiles: Size2d, styles: &StyleMgr) -> Seq<Primitive> {
        self.grid_rows(tiles, styles, tiles.h() - 1) + self.grid_columns(
            tiles,
            styles,
            tiles.w() - 1,
        )
    }

    /// The tiles times the tile size.
    fn get_size(&self, tiles: Size2d) -> (r: Size2d) {
        tiles * self.tile_size
    }

    fn render<R: Renderer>(&self, tilemap: &Tilemap2d, renderer: &mut R, styles: &StyleMgr) {
        let ghost start = renderer.drawn();
        self.render_tiles(tilemap, renderer, styles);
        let nodes = calculate_node_styles(styles.get_node_styles(), styles.get_wall_styles(), tilemap);
        self.render_horizontal_borders(tilemap, nodes.as_slice(), renderer, styles);
        self.render_vertical_borders(tilemap, nodes.as_slice(), renderer, styles);
        self.render_nodes(tilemap, nodes.as_slice(), renderer, styles);
        proof {
            assert(renderer.drawn() =~= start + self.rendered(tilemap, styles));
        }
    }

    fn render_grid<R: Renderer>(&self, tiles: Size2d, renderer: &mut R, styles: &StyleMgr) {
        let ghost start = renderer.drawn();
        let size = self.get_size(tiles);
        proof {
            Size2d::lemma_spec_new(tiles.w() * self.tile_size.w(), tiles.h() * self.tile_size.h());
        }
        let th = self.tile_size.height();
        let tw = self.tile_size.width();
        let mut row: u32 = 0;
        while row < tiles.height() - 1
            invariant
                self.can_render_grid(tiles),
                size.w() == tiles.w() * self.spec_tile_size().w(),
                size.h() == tiles.h() * self.spec_tile_size().h(),
                th == self.spec_tile_size().h(),
                row <= tiles.h() - 1,
                renderer.drawn() == start + self.grid_rows(tiles, styles, row as int),
            decreases tiles.h() - 1 - row,
        {
            proof {
                assert((row + 1) * th <= tiles.h() * th) by (nonlinear_arith)
                    requires
                        row + 1 <= tiles.h(),
                ;
            }
            let y = ((row + 1) * th) as i32;
            renderer.render_line(
                Point2d::new(0, y),
                Point2d::new(size.width() as i32, y),
                *styles.get_grid_color(),
            );
            row = row + 1;
            proof {
                assert(renderer.drawn() =~= start + self.grid_rows(tiles, styles, row as int));
            }
        }
        let ghost after_rows = renderer.drawn();
        let mut column: u32 = 0;
        while column < tiles.width() - 1
            invariant
                self.can_render_grid(tiles),
                size.w() == tiles.w() * self.spec_tile_size().w(),
                size.h() == tiles.h() * self.spec_tile_size().h(),
                tw == self.spec_tile_size().w(),
                column <= tiles.w() - 1,
                renderer.drawn() == after_rows + self.grid_columns(tiles, styles, column as int),
            decreases tiles.w() - 1 - column,
        {
            proof {
                assert((column + 1) * tw <= tiles.w() * tw) by (nonlinear_arith)
                    requires
                        column + 1 <= tiles.w(),
                ;
            }
            let x = ((column + 1) * tw) as i32;
            renderer.render_line(
                Point2d::new(x, 0),
                Point2d::new(x, size.height() as i32),
                *styles.get_grid_color(),
            );
            column = column + 1;
            proof {
                assert(renderer.drawn() =~= after_rows + self.grid_columns(tiles, styles, column as int));
            }
        }
        proof {
            assert(renderer.drawn() =~= start + self.grid(tiles, styles));
        }
    }
}

} // verus!
