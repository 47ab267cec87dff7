use tilemap::math::size2d::Size2d;
use tilemap::renderer::border::{calculate_horizontal_border, calculate_vertical_border};
use tilemap::renderer::edge::{calculate_horizontal_edge, calculate_vertical_edge};
use tilemap::renderer::node::Node;
use tilemap::renderer::style::aab::BoxStyle;
use tilemap::renderer::style::node::NodeStyle;
use tilemap::math::color::Color;
use tilemap::tilemap::border::{
    behind_tile, get_horizontal_borders_size, get_vertical_borders_size, in_front_of_tile,
    left_of_tile, right_of_tile, Border,
};
use tilemap::tilemap::node::{
    get_end_of_horizontal_border, get_end_of_vertical_border, get_nodes_size,
    get_start_of_horizontal_border, get_start_of_vertical_border,
};

const WALL: Border = Border::Wall(42);
const DOOR: Border = Border::Door(101, 102);

#[test]
fn test_get_wall_style() {
    assert_eq!(Border::NoBorder.get_wall_style(), None);
    assert_eq!(WALL.get_wall_style(), Some(42));
    assert_eq!(DOOR.get_wall_style(), Some(101));
}

#[test]
fn border_indices_of_a_tile() {
    let size = Size2d::new(2, 3);
    assert_eq!(behind_tile(size, 5), 5);
    assert_eq!(in_front_of_tile(size, 5), 7);
    assert_eq!(left_of_tile(size, 5), 7);
    assert_eq!(right_of_tile(size, 5), 8);
    assert_eq!(get_horizontal_borders_size(size), Size2d::new(2, 4));
    assert_eq!(get_vertical_borders_size(size), Size2d::new(3, 3));
    assert_eq!(get_nodes_size(size), Size2d::new(3, 4));
}

#[test]
fn nodes_at_the_ends_of_borders() {
    assert_eq!(get_start_of_horizontal_border(4, 2), 6);
    assert_eq!(get_end_of_horizontal_border(4, 2), 7);
    assert_eq!(get_start_of_vertical_border(4), 4);
    assert_eq!(get_end_of_vertical_border(Size2d::new(3, 2), 4), 7);
}

fn node_style(size: u32) -> NodeStyle {
    NodeStyle::new("node", BoxStyle::shaded(Color::gray(100)), size)
}

#[test]
fn offset_and_length_between_nodes() {
    let big = node_style(20);
    let small = node_style(7);
    let nodes = vec![Node::OuterNode(&big), Node::InnerNode, Node::OuterNode(&small), Node::NoNode];

    assert_eq!(calculate_horizontal_border(&nodes, 100, 0, 0), (10, 90));
    assert_eq!(calculate_horizontal_border(&nodes, 100, 0, 1), (0, 97));
    assert_eq!(calculate_vertical_border(&nodes, 100, Size2d::new(2, 1), 0), (10, 87));
    assert_eq!(calculate_horizontal_edge(&nodes, 100, 1, 1), (3, 97));
    assert_eq!(calculate_vertical_edge(&nodes, 50, Size2d::new(3, 1), 0), (10, 40));
    assert_eq!(calculate_horizontal_border(&nodes, 13, 2, 0), (3, 10));
}

#[test]
fn half_of_a_node() {
    let style = node_style(9);
    assert_eq!(Node::OuterNode(&style).calculate_half(), 4);
    assert_eq!(Node::InnerNode.calculate_half(), 0);
    assert_eq!(Node::NoNode.calculate_half(), 0);
}
