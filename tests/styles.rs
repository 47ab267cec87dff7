use tilemap::math::color::Color;
use tilemap::math::point2d::Point2d;
use tilemap::math::size2d::Size2d;
use tilemap::renderer::style::aab::BoxStyle;
use tilemap::renderer::style::door::DoorStyle;
use tilemap::renderer::style::floor::FloorStyle;
use tilemap::renderer::style::node::NodeStyle;
use tilemap::renderer::style::solid::SolidStyle;
use tilemap::renderer::style::wall::WallStyle;
use tilemap::renderer::style::{Style, StyleMgr};
use tilemap::utils::resource::{Resource, ResourceManager};

#[test]
fn shaded_box_darkens_front_and_side() {
    let style = BoxStyle::shaded(Color::from_rgb(0, 100, 255));
    assert_eq!(*style.get_top_color(), Color::from_rgb(0, 100, 255));
    assert_eq!(*style.get_front_color(), Color::from_rgb(0, 80, 204));
    assert_eq!(*style.get_side_color(), Color::from_rgb(0, 60, 153));
}

#[test]
fn unknown_ids_get_the_default() {
    let manager = ResourceManager::new(
        vec![FloorStyle::new("a", Color::red()), FloorStyle::new("b", Color::green())],
        FloorStyle::new("fallback", Color::blue()),
    );
    assert_eq!(*manager.get(1).get_floor_color(), Color::green());
    assert_eq!(*manager.get(2).get_floor_color(), Color::blue());
    assert_eq!(manager.len(), 2);
    assert!(!manager.is_empty());
    assert_eq!(manager.get_id("b"), Some(1));
    assert_eq!(manager.get_id("c"), None);
    assert_eq!(manager.get_names(), vec!["a", "b"]);
}

#[test]
fn managers_with_default_styles() {
    let manager: ResourceManager<NodeStyle> = ResourceManager::with_default(Vec::new());
    assert!(manager.is_empty());
    assert_eq!(manager.get(3).get_size(), 1);
    assert_eq!(manager.get(3).get_name(), "default");
    let walls: ResourceManager<WallStyle> = ResourceManager::with_default(Vec::new());
    assert_eq!(walls.get(0).get_thickness(), 1);
    let doors: ResourceManager<DoorStyle> = ResourceManager::with_default(Vec::new());
    assert_eq!(doors.get(0).get_height(), 2000);
    assert_eq!(doors.get(0).get_thickness(), 50);
}

#[test]
fn style_manager_lookups() {
    let wall = WallStyle::new("wall", BoxStyle::shaded(Color::red()), 3, 7);
    let manager = StyleMgr::one_style(
        DoorStyle::new("door", BoxStyle::shaded(Color::blue()), 10, 2),
        FloorStyle::new("floor", Color::green()),
        NodeStyle::new("node", BoxStyle::shaded(Color::white()), 9),
        SolidStyle::new("solid", BoxStyle::shaded(Color::black())),
        wall,
        Color::cyan(),
    );
    assert_eq!(manager.get_wall_style(12).get_thickness(), 7);
    assert_eq!(manager.get_wall_style(0).get_node_style(), 3);
    assert_eq!(manager.get_door_style(4).get_height(), 10);
    assert_eq!(manager.get_node_style(1).get_half(), 4);
    assert_eq!(*manager.get_floor_style(0).get_floor_color(), Color::green());
    assert_eq!(*manager.get_solid_style(5).get_style().get_top_color(), Color::black());
    assert_eq!(*manager.get_grid_color(), Color::cyan());
    assert_eq!(manager.get_node_styles().len(), 0);
    assert_eq!(manager.get_wall_styles().get_names().len(), 0);
}

#[test]
fn simple_style_colors() {
    let style = Style::new_simple(Color::red(), Color::green(), Color::blue(), Color::white());
    assert_eq!(*style.get_floor_color(), Color::red());
    assert_eq!(*style.get_front_color(), Color::green());
    assert_eq!(*style.get_side_color(), Color::blue());
    assert_eq!(*style.get_top_color(), Color::white());
}

#[test]
fn size_arithmetic() {
    let size = Size2d::new(2, 3);
    assert_eq!(size.count(), 6);
    assert_eq!(size.flip(), Size2d::new(3, 2));
    assert_eq!(Size2d::square(4), Size2d::new(4, 4));
    assert_eq!(size.to_x(5), 1);
    assert_eq!(size.to_y(5), 2);
    assert_eq!(size.convert_x_y(1, 2), 5);
    assert_eq!(Size2d::new(10, 30) * Size2d::new(2, 5), Size2d::new(20, 150));
}

#[test]
fn point_arithmetic() {
    let a = Point2d::new(1, 2);
    let b = Point2d::new(30, 50);
    assert_eq!(a + b, Point2d::new(31, 52));
    assert_eq!(a + 2, Point2d::new(3, 4));
    assert_eq!(a + Size2d::new(30, 50), Point2d::new(31, 52));
    assert_eq!(a - 2, Point2d::new(-1, 0));
    assert_eq!(a - b, Point2d::new(-29, -48));
    assert_eq!(a - Size2d::new(30, 50), Point2d::new(-29, -48));
    assert_eq!(Point2d::new(10, 30) * 2, Point2d::new(20, 60));
    assert_eq!(Point2d::new(10, 30) * Size2d::new(20, 40), Point2d::new(200, 1200));
    assert_eq!(Point2d::new(10, -30) / 2, Point2d::new(5, -15));
    assert_eq!(Point2d::new(-7, 7) / 2, Point2d::new(-3, 3));
    assert_eq!(Point2d::default(), Point2d::new(0, 0));
}
