use tilemap::math::color::Color;
use tilemap::math::point2d::Point2d;
use tilemap::math::side::Side::{Back, Left};
use tilemap::math::size2d::Size2d;
use tilemap::port::renderer::Renderer;
use tilemap::renderer::style::aab::BoxStyle;
use tilemap::renderer::style::door::DoorStyle;
use tilemap::renderer::style::floor::FloorStyle;
use tilemap::renderer::style::node::NodeStyle;
use tilemap::renderer::style::solid::SolidStyle;
use tilemap::renderer::style::wall::WallStyle;
use tilemap::renderer::style::StyleMgr;
use tilemap::renderer::top_down::TopDownRenderer;
use tilemap::renderer::view::isometric::IsometricView;
use tilemap::renderer::view::three_four::ThreeFourView;
use tilemap::renderer::view::top_down::TopDownView;
use tilemap::renderer::view::View;
use tilemap::svg::renderer::SvgBuilder;
use tilemap::tilemap::border::Border;
use tilemap::tilemap::tile::Tile;
use tilemap::tilemap::tilemap2d::Tilemap2d;

#[test]
fn test_calculate_delta_y() {
    assert_eq!(IsometricView::calculate_delta_y(100), 45);
}

#[test]
fn test_delta() {
    let viewer = IsometricView::new(100, 2000);

    assert_eq!(viewer.get_delta().x, 90);
    assert_eq!(viewer.get_delta().y, 45);
}

#[test]
fn test_floor_size() {
    let tiles = Size2d::new(2, 3);
    let viewer = IsometricView::new(100, 2000);

    assert_eq!(viewer.calculate_floor_size(tiles), Size2d::new(450, 225));
}

#[test]
fn isometric_test_get_size() {
    let viewer = IsometricView::new(100, 200);

    assert_eq!(viewer.get_size(Size2d::new(2, 3)), Size2d::new(450, 425));
}

#[test]
fn three_four_test_get_size() {
    let viewer = ThreeFourView::new(Size2d::new(15, 25), 35);

    assert_eq!(viewer.get_size(Size2d::new(2, 3)), Size2d::new(30, 110));
}

#[test]
fn top_down_test_get_size() {
    let viewer = TopDownView::new(Size2d::new(15, 25));

    assert_eq!(viewer.get_size(Size2d::new(2, 3)), Size2d::new(30, 75));
}

#[test]
fn delta_y_is_size_over_root_five_rounded_up() {
    assert_eq!(IsometricView::calculate_delta_y(0), 0);
    assert_eq!(IsometricView::calculate_delta_y(1), 1);
    assert_eq!(IsometricView::calculate_delta_y(5), 3);
    assert_eq!(IsometricView::calculate_delta_y(50), 23);
    assert_eq!(IsometricView::calculate_delta(10), Point2d::new(10, 5));
}

fn styles() -> StyleMgr {
    StyleMgr::without_manager(
        vec![DoorStyle::new("door", BoxStyle::new(Color::red(), Color::green(), Color::blue()), 40, 6)],
        vec![FloorStyle::new("grass", Color::green())],
        vec![NodeStyle::new("post", BoxStyle::new(Color::black(), Color::gray(50), Color::white()), 10)],
        vec![SolidStyle::new("rock", BoxStyle::new(Color::gray(10), Color::gray(20), Color::gray(30)))],
        vec![WallStyle::new("brick", BoxStyle::new(Color::red(), Color::orange(), Color::yellow()), 0, 4)],
        Color::cyan(),
    )
}

fn small_map() -> Tilemap2d {
    let mut tilemap = Tilemap2d::default(Size2d::new(2, 1), Tile::Floor(0)).unwrap();
    tilemap.set_tile(1, Tile::Solid(0));
    tilemap.set_border(0, Back, Border::Wall(0));
    tilemap
}

fn svg_lines(builder: SvgBuilder) -> Vec<String> {
    builder.finish().export().lines().map(|l| l.to_string()).collect()
}

#[test]
fn top_down_render_draws_tiles_walls_and_nodes() {
    let view = TopDownView::new(Size2d::new(100, 100));
    let mut builder = SvgBuilder::new(view.get_size(Size2d::new(2, 1)));
    view.render(&small_map(), &mut builder, &styles());
    let lines = svg_lines(builder);
    assert_eq!(
        lines,
        vec![
            "<svg viewBox=\"0 0 200 100\" xmlns=\"http://www.w3.org/2000/svg\">",
            "  <rect x=\"0\" y=\"0\" width=\"100\" height=\"100\" fill=\"#00FF00\"/>",
            "  <rect x=\"100\" y=\"0\" width=\"100\" height=\"100\" fill=\"#1E1E1E\"/>",
            "  <rect x=\"5\" y=\"-2\" width=\"90\" height=\"4\" fill=\"#FFFF00\"/>",
            "  <rect x=\"-5\" y=\"-5\" width=\"10\" height=\"10\" fill=\"#FFFFFF\"/>",
            "  <rect x=\"95\" y=\"-5\" width=\"10\" height=\"10\" fill=\"#FFFFFF\"/>",
            "</svg>",
        ]
    );
}

#[test]
fn top_down_grid_lines() {
    let view = TopDownView::new(Size2d::new(10, 20));
    let mut builder = SvgBuilder::new(Size2d::new(30, 40));
    view.render_grid(Size2d::new(3, 2), &mut builder, &styles());
    let lines = svg_lines(builder);
    assert_eq!(
        lines[1..4].to_vec(),
        vec![
            "  <path d=\"M0 20 30 20\" stroke=\"#00FFFF\" stroke-dasharray=\"1,4\"/>",
            "  <path d=\"M10 0 10 40\" stroke=\"#00FFFF\" stroke-dasharray=\"1,4\"/>",
            "  <path d=\"M20 0 20 40\" stroke=\"#00FFFF\" stroke-dasharray=\"1,4\"/>",
        ]
    );
}

#[test]
fn three_four_render_adds_front_faces() {
    let view = ThreeFourView::new(Size2d::new(100, 100), 50);
    let mut builder = SvgBuilder::new(view.get_size(Size2d::new(2, 1)));
    view.render(&small_map(), &mut builder, &styles());
    let lines = svg_lines(builder);
    assert_eq!(
        lines,
        vec![
            "<svg viewBox=\"0 0 200 150\" xmlns=\"http://www.w3.org/2000/svg\">",
            "  <rect x=\"0\" y=\"50\" width=\"100\" height=\"100\" fill=\"#00FF00\"/>",
            "  <rect x=\"-5\" y=\"-5\" width=\"10\" height=\"10\" fill=\"#FFFFFF\"/>",
            "  <rect x=\"-5\" y=\"5\" width=\"10\" height=\"50\" fill=\"#000000\"/>",
            "  <rect x=\"5\" y=\"-2\" width=\"90\" height=\"4\" fill=\"#FFFF00\"/>",
            "  <rect x=\"5\" y=\"2\" width=\"90\" height=\"50\" fill=\"#FF0000\"/>",
            "  <rect x=\"100\" y=\"0\" width=\"100\" height=\"100\" fill=\"#1E1E1E\"/>",
            "  <rect x=\"100\" y=\"100\" width=\"100\" height=\"50\" fill=\"#0A0A0A\"/>",
            "  <rect x=\"95\" y=\"-5\" width=\"10\" height=\"10\" fill=\"#FFFFFF\"/>",
            "  <rect x=\"95\" y=\"5\" width=\"10\" height=\"50\" fill=\"#000000\"/>",
            "</svg>",
        ]
    );
}

#[test]
fn three_four_grid_lines_start_below_the_front_faces() {
    let view = ThreeFourView::new(Size2d::new(10, 20), 5);
    let mut builder = SvgBuilder::new(Size2d::new(20, 45));
    view.render_grid(Size2d::new(2, 2), &mut builder, &styles());
    let lines = svg_lines(builder);
    assert_eq!(
        lines[1..3].to_vec(),
        vec![
            "  <path d=\"M0 25 20 25\" stroke=\"#00FFFF\" stroke-dasharray=\"1,4\"/>",
            "  <path d=\"M10 5 10 45\" stroke=\"#00FFFF\" stroke-dasharray=\"1,4\"/>",
        ]
    );
}

#[test]
fn isometric_floor_tile_is_a_diamond() {
    let view = IsometricView::new(10, 20);
    let tilemap = Tilemap2d::default(Size2d::new(1, 1), Tile::Floor(0)).unwrap();
    let mut builder = SvgBuilder::new(view.get_size(Size2d::new(1, 1)));
    view.render(&tilemap, &mut builder, &styles());
    let lines = svg_lines(builder);
    assert_eq!(
        lines[1],
        "  <polygon points=\"10,20 0,25 10,30 20,25\" fill=\"#00FF00\"/>"
    );
    assert_eq!(lines.len(), 3);
}

#[test]
fn isometric_door_is_split_into_door_and_wall() {
    let view = IsometricView::new(10, 100);
    let mut tilemap = Tilemap2d::default(Size2d::new(1, 1), Tile::Empty).unwrap();
    tilemap.set_border(0, Back, Border::Door(0, 0));
    let styles = StyleMgr::one_style(
        DoorStyle::new("door", BoxStyle::new(Color::red(), Color::green(), Color::blue()), 40, 0),
        FloorStyle::new("floor", Color::green()),
        NodeStyle::new("none", BoxStyle::shaded(Color::black()), 0),
        SolidStyle::new("solid", BoxStyle::shaded(Color::black())),
        WallStyle::new("wall", BoxStyle::new(Color::white(), Color::gray(1), Color::gray(2)), 0, 0),
        Color::cyan(),
    );
    let mut builder = SvgBuilder::new(Size2d::new(100, 100));
    view.render(&tilemap, &mut builder, &styles);
    let lines = svg_lines(builder);
    // The node at the back corner comes first: a box of size 0 with 3 faces.
    let door_ceiling = &lines[4];
    let wall_ceiling = &lines[6];
    assert_eq!(door_ceiling, "  <polygon points=\"10,60 10,60 20,65 20,65\" fill=\"#0000FF\"/>");
    assert_eq!(wall_ceiling, "  <polygon points=\"10,0 10,0 20,5 20,5\" fill=\"#020202\"/>");
}

#[test]
fn isometric_grid_lines() {
    let view = IsometricView::new(10, 20);
    let mut builder = SvgBuilder::new(Size2d::new(100, 100));
    view.render_grid(Size2d::new(2, 2), &mut builder, &styles());
    let lines = svg_lines(builder);
    assert_eq!(
        lines[1..3].to_vec(),
        vec![
            "  <path d=\"M10 25 30 35\" stroke=\"#00FFFF\" stroke-dasharray=\"1,4\"/>",
            "  <path d=\"M30 25 10 35\" stroke=\"#00FFFF\" stroke-dasharray=\"1,4\"/>",
        ]
    );
}

#[test]
fn old_top_down_renderer_uses_fixed_colors() {
    let renderer = TopDownRenderer::new(10);
    assert_eq!(renderer.get_tile_size(), Size2d::new(10, 10));
    let mut builder = SvgBuilder::new(Size2d::new(20, 10));
    renderer.render(&small_map(), &mut builder);
    let lines = svg_lines(builder);
    assert_eq!(
        lines[1..3].to_vec(),
        vec![
            "  <rect x=\"0\" y=\"0\" width=\"10\" height=\"10\" fill=\"#00FFFF\"/>",
            "  <rect x=\"10\" y=\"0\" width=\"10\" height=\"10\" fill=\"#000000\"/>",
        ]
    );
}

#[test]
fn left_walls_in_three_four_use_the_vertical_nodes() {
    let view = ThreeFourView::new(Size2d::new(100, 100), 10);
    let mut tilemap = Tilemap2d::default(Size2d::new(1, 2), Tile::Empty).unwrap();
    tilemap.set_border(1, Left, Border::Wall(0));
    let mut builder = SvgBuilder::new(Size2d::new(100, 210));
    view.render(&tilemap, &mut builder, &styles());
    let lines = svg_lines(builder);
    // the wall runs from node 2 (an end cap) to node 4 (an end cap)
    assert_eq!(
        lines[3],
        "  <rect x=\"-2\" y=\"105\" width=\"4\" height=\"90\" fill=\"#FFFF00\"/>"
    );
}

#[test]
fn renderer_records_in_order() {
    let mut builder = SvgBuilder::new(Size2d::new(1, 1));
    builder.render_line(Point2d::new(-3, 4), Point2d::new(5, -6), Color::black());
    builder.render_transformed_rectangle(
        Point2d::new(0, 0),
        Point2d::new(1, 0),
        Point2d::new(1, 1),
        Point2d::new(0, 1),
        Color::white(),
    );
    let lines = svg_lines(builder);
    assert_eq!(lines[1], "  <path d=\"M-3 4 5 -6\" stroke=\"#000000\" stroke-dasharray=\"1,4\"/>");
    assert_eq!(lines[2], "  <polygon points=\"0,0 1,0 1,1 0,1\" fill=\"#FFFFFF\"/>");
}
