use tilemap::math::side::Side::{Back, Front, Left, Right};
use tilemap::math::size2d::Size2d;
use tilemap::tilemap::border::Border::{self, NoBorder, Wall};
use tilemap::tilemap::tile::Tile::{self, Empty, Floor, Solid};
use tilemap::tilemap::tilemap2d::{Tilemap2d, TilemapError};

fn create_tiles() -> Vec<Tile> {
    vec![Floor(1), Empty, Solid(3), Empty, Floor(4), Empty]
}

#[test]
fn test_default() {
    let size = Size2d::new(2, 3);
    let tilemap = Tilemap2d::default(size, Empty).unwrap();

    assert_eq!(tilemap.get_size(), size);
    assert_eq!(tilemap.get_tiles(), &vec![Empty; 6]);
}

#[test]
fn test_new() {
    let size = Size2d::new(2, 3);
    let tiles = create_tiles();
    let tilemap = Tilemap2d::new(size, tiles.clone()).unwrap();

    assert_eq!(tilemap.get_size(), size);

    for i in 0..6 {
        assert_eq!(tilemap.get_tile(i), tiles[i]);
    }
}

#[test]
fn test_new_with_invalid_size() {
    assert!(Tilemap2d::new(Size2d::new(0, 3), vec![]).is_err());
    assert!(Tilemap2d::new(Size2d::new(2, 0), vec![]).is_err());
}

#[test]
fn test_new_with_invalid_tiles() {
    assert!(Tilemap2d::new(Size2d::new(2, 3), vec![Empty]).is_err());
}

#[test]
fn test_set_tile() {
    let size = Size2d::new(2, 3);
    let mut tilemap = Tilemap2d::default(size, Empty).unwrap();

    tilemap.set_tile(0, Floor(1));
    tilemap.set_tile(2, Solid(3));
    tilemap.set_tile(4, Floor(4));

    assert_eq!(tilemap.get_size(), size);
    assert_eq!(tilemap.get_tiles(), &create_tiles());
}

#[test]
fn test_set_border() {
    let size = Size2d::new(2, 3);
    let mut tilemap = Tilemap2d::default(size, Empty).unwrap();

    tilemap.set_border(5, Back, Wall(1));
    tilemap.set_border(5, Left, Wall(2));
    tilemap.set_border(5, Front, Wall(3));
    tilemap.set_border(5, Right, Wall(4));

    assert_eq!(tilemap.get_border(5, Back), Wall(1));
    assert_eq!(tilemap.get_border(5, Left), Wall(2));
    assert_eq!(tilemap.get_border(5, Front), Wall(3));
    assert_eq!(tilemap.get_border(5, Right), Wall(4));
}

#[test]
fn tilemap2d_test_get_border_at_node() {
    let size = Size2d::new(3, 3);
    let mut tilemap = Tilemap2d::default(size, Empty).unwrap();

    tilemap.set_border(4, Back, Wall(1));
    tilemap.set_border(4, Left, Wall(2));

    assert_eq!(tilemap.get_border_at_node(5, Back), NoBorder);
    assert_eq!(tilemap.get_border_at_node(5, Left), NoBorder);
    assert_eq!(tilemap.get_border_at_node(5, Front), Wall(2));
    assert_eq!(tilemap.get_border_at_node(5, Right), Wall(1));

    assert_eq!(tilemap.get_border_at_node(6, Back), NoBorder);
    assert_eq!(tilemap.get_border_at_node(6, Left), Wall(1));
    assert_eq!(tilemap.get_border_at_node(6, Front), NoBorder);
    assert_eq!(tilemap.get_border_at_node(6, Right), NoBorder);

    assert_eq!(tilemap.get_border_at_node(9, Back), Wall(2));
    assert_eq!(tilemap.get_border_at_node(9, Left), NoBorder);
    assert_eq!(tilemap.get_border_at_node(9, Front), NoBorder);
    assert_eq!(tilemap.get_border_at_node(9, Right), NoBorder);

    assert_eq!(tilemap.get_border_at_node(10, Back), NoBorder);
    assert_eq!(tilemap.get_border_at_node(10, Left), NoBorder);
    assert_eq!(tilemap.get_border_at_node(10, Front), NoBorder);
    assert_eq!(tilemap.get_border_at_node(10, Right), NoBorder);
}

#[test]
fn constructor_error_kinds() {
    let size = Size2d::new(2, 1);
    let tiles = vec![Empty; 2];
    assert_eq!(
        Tilemap2d::new(Size2d::new(0, 3), vec![]).unwrap_err(),
        TilemapError::ZeroSize
    );
    assert_eq!(
        Tilemap2d::new(size, vec![Empty]).unwrap_err(),
        TilemapError::TileCount
    );
    assert_eq!(
        Tilemap2d::with_borders(size, tiles.clone(), vec![NoBorder; 3], vec![NoBorder; 3])
            .unwrap_err(),
        TilemapError::HorizontalBorderCount
    );
    assert_eq!(
        Tilemap2d::with_borders(size, tiles.clone(), vec![NoBorder; 4], vec![NoBorder; 2])
            .unwrap_err(),
        TilemapError::VerticalBorderCount
    );
    assert!(Tilemap2d::with_borders(size, tiles, vec![NoBorder; 4], vec![NoBorder; 3]).is_ok());
}

#[test]
fn set_border_then_get_it_back_on_each_side() {
    let size = Size2d::new(3, 2);
    for tile in 0..6 {
        for (side, border) in [
            (Back, Wall(7)),
            (Left, Border::Door(8, 9)),
            (Front, Wall(10)),
            (Right, Border::Door(11, 12)),
        ] {
            let mut tilemap = Tilemap2d::default(size, Empty).unwrap();
            tilemap.set_border(tile, side, border);
            assert_eq!(tilemap.get_border(tile, side), border);
            for other in [Back, Left, Front, Right] {
                if other != side {
                    assert_eq!(tilemap.get_border(tile, other), NoBorder);
                }
            }
        }
    }
}

#[test]
fn neighbouring_tiles_share_borders() {
    let size = Size2d::new(3, 2);
    let mut tilemap = Tilemap2d::default(size, Empty).unwrap();
    tilemap.set_border(1, Right, Wall(5));
    tilemap.set_border(1, Front, Wall(6));
    assert_eq!(tilemap.get_border(2, Left), Wall(5));
    assert_eq!(tilemap.get_border(4, Back), Wall(6));
    assert_eq!(tilemap.get_horizontal_borders().len(), 9);
    assert_eq!(tilemap.get_vertical_borders().len(), 8);
}
