use tilemap::math::side::Side::{Back, Front, Left, Right};
use tilemap::math::size2d::Size2d;
use tilemap::renderer::node::IdNode::{Inner, No, Outer};
use tilemap::renderer::node::{
    calculate_dominant_wall_style, calculate_dominant_wall_styles, calculate_node_styles,
    calculate_sides_per_style, get_top_styles, Node,
};
use tilemap::renderer::style::aab::BoxStyle;
use tilemap::renderer::style::node::NodeStyle;
use tilemap::renderer::style::wall::WallStyle;
use tilemap::math::color::Color;
use tilemap::tilemap::border::Border::{Door, Wall};
use tilemap::tilemap::tile::Tile::Empty;
use tilemap::tilemap::tilemap2d::Tilemap2d;
use tilemap::utils::resource::ResourceManager;

#[test]
fn test_wall_style_twice_at_node_dominates() {
    let size = Size2d::new(2, 2);
    let mut tilemap = Tilemap2d::default(size, Empty).unwrap();

    tilemap.set_border(2, Back, Wall(2));
    tilemap.set_border(3, Back, Wall(2));
    tilemap.set_border(3, Left, Wall(3));

    assert_eq!(
        calculate_dominant_wall_styles(&tilemap),
        vec![No, No, No, Outer(2), Outer(2), Outer(2), No, Outer(3), No]
    );
}

#[test]
fn test_line_with_same_wall_style() {
    let size = Size2d::new(2, 2);
    let mut tilemap = Tilemap2d::default(size, Empty).unwrap();

    tilemap.set_border(2, Back, Wall(2));
    tilemap.set_border(3, Back, Wall(2));

    assert_eq!(
        calculate_dominant_wall_styles(&tilemap),
        vec![No, No, No, Outer(2), Inner, Outer(2), No, No, No]
    );
}

#[test]
fn test_four_different_wall_styles_at_node() {
    let size = Size2d::new(2, 2);
    let mut tilemap = Tilemap2d::default(size, Empty).unwrap();

    tilemap.set_border(1, Left, Wall(13));
    tilemap.set_border(2, Back, Wall(12));
    tilemap.set_border(3, Back, Wall(11));
    tilemap.set_border(3, Left, Wall(10));

    assert_eq!(
        calculate_dominant_wall_styles(&tilemap),
        vec![No, Outer(13), No, Outer(12), Outer(10), Outer(11), No, Outer(10), No]
    );
}

#[test]
fn test_get_top_styles_empty() {
    assert_eq!(get_top_styles(Vec::new()), Vec::new());
}

#[test]
fn test_get_top_styles_one() {
    assert_eq!(
        get_top_styles(vec![(1, vec![Back, Left]), (2, vec![Right])]),
        vec![(1, vec![Back, Left])]
    );
}

#[test]
fn test_get_top_styles_two() {
    let top_styles = get_top_styles(vec![(1, vec![Back, Left]), (2, vec![Right, Front])]);

    assert_eq!(2, top_styles.len());
    assert!(top_styles.contains(&(1, vec![Back, Left])));
    assert!(top_styles.contains(&(2, vec![Right, Front])));
}

#[test]
fn node_test_get_border_at_node() {
    let size = Size2d::new(3, 3);
    let mut tilemap = Tilemap2d::default(size, Empty).unwrap();

    tilemap.set_border(0, Front, Wall(1));
    tilemap.set_border(0, Right, Wall(1));
    tilemap.set_border(4, Back, Wall(2));
    tilemap.set_border(4, Left, Wall(3));

    assert_eq!(
        calculate_sides_per_style(&tilemap, 5),
        vec![(1, vec![Back, Left]), (3, vec![Front]), (2, vec![Right])]
    );
}

/// A 3x3 map whose centre node is node 5, with the given walls around it.
fn map_with_walls_at_node_5(walls: &[(usize, tilemap::math::side::Side, usize)]) -> Tilemap2d {
    let mut tilemap = Tilemap2d::default(Size2d::new(3, 3), Empty).unwrap();
    for (tile, side, id) in walls {
        tilemap.set_border(*tile, *side, Wall(*id));
    }
    tilemap
}

#[test]
fn straight_wall_through_a_node_is_inner() {
    let vertical = map_with_walls_at_node_5(&[(0, Right, 4), (3, Right, 4)]);
    assert_eq!(calculate_dominant_wall_style(&vertical, 5), Inner);
    let horizontal = map_with_walls_at_node_5(&[(0, Front, 4), (1, Front, 4)]);
    assert_eq!(calculate_dominant_wall_style(&horizontal, 5), Inner);
}

#[test]
fn corner_of_one_style_is_outer() {
    let corner = map_with_walls_at_node_5(&[(0, Right, 4), (1, Front, 4)]);
    assert_eq!(calculate_dominant_wall_style(&corner, 5), Outer(4));
}

#[test]
fn end_cap_and_cross_of_one_style_are_outer() {
    let end = map_with_walls_at_node_5(&[(0, Right, 6)]);
    assert_eq!(calculate_dominant_wall_style(&end, 5), Outer(6));
    let cross = map_with_walls_at_node_5(&[(0, Right, 6), (3, Right, 6), (0, Front, 6), (1, Front, 6)]);
    assert_eq!(calculate_dominant_wall_style(&cross, 5), Outer(6));
}

#[test]
fn style_on_more_sides_wins_over_smaller_id() {
    let map = map_with_walls_at_node_5(&[(0, Right, 9), (3, Right, 9), (0, Front, 1)]);
    assert_eq!(calculate_dominant_wall_style(&map, 5), Outer(9));
}

#[test]
fn tie_goes_to_the_smaller_id() {
    let map = map_with_walls_at_node_5(&[(0, Right, 9), (3, Right, 2), (0, Front, 9), (1, Front, 2)]);
    assert_eq!(calculate_dominant_wall_style(&map, 5), Outer(2));
    let straight_pairs =
        map_with_walls_at_node_5(&[(0, Right, 9), (3, Right, 9), (0, Front, 2), (1, Front, 2)]);
    assert_eq!(calculate_dominant_wall_style(&straight_pairs, 5), Outer(2));
}

#[test]
fn doors_count_as_their_wall_style() {
    let mut tilemap = Tilemap2d::default(Size2d::new(2, 1), Empty).unwrap();
    tilemap.set_border(0, Back, Wall(3));
    tilemap.set_border(1, Back, Door(3, 8));
    assert_eq!(calculate_dominant_wall_styles(&tilemap), vec![Outer(3), Inner, Outer(3), No, No, No]);
}

#[test]
fn node_styles_follow_the_wall_styles() {
    let mut tilemap = Tilemap2d::default(Size2d::new(1, 1), Empty).unwrap();
    tilemap.set_border(0, Back, Wall(1));
    let node_styles = ResourceManager::new(
        vec![
            NodeStyle::new("thin", BoxStyle::shaded(Color::red()), 4),
            NodeStyle::new("thick", BoxStyle::shaded(Color::blue()), 12),
        ],
        NodeStyle::new("fallback", BoxStyle::shaded(Color::pink()), 2),
    );
    let wall_styles = ResourceManager::new(
        vec![
            WallStyle::new("a", BoxStyle::shaded(Color::red()), 0, 2),
            WallStyle::new("b", BoxStyle::shaded(Color::blue()), 1, 6),
        ],
        WallStyle::new("fallback", BoxStyle::shaded(Color::pink()), 5, 1),
    );
    let nodes = calculate_node_styles(&node_styles, &wall_styles, &tilemap);
    assert_eq!(nodes.len(), 4);
    match &nodes[0] {
        Node::OuterNode(style) => assert_eq!(style.get_size(), 12),
        other => panic!("expected an outer node, got {:?}", other),
    }
    assert_eq!(nodes[1].calculate_half(), 6);
    assert!(matches!(nodes[2], Node::NoNode));
    assert!(matches!(nodes[3], Node::NoNode));

    tilemap.set_border(0, Back, Wall(7));
    let nodes = calculate_node_styles(&node_styles, &wall_styles, &tilemap);
    assert_eq!(nodes[0].calculate_half(), 1);
}
