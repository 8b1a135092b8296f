use sunny_days::map::tile::Tile;
use sunny_days::map::TileMap;

#[test]
fn new_map_is_filled_with_the_given_tile() {
    let map = TileMap::new(4, 3, Tile::Wall);
    assert_eq!(map.width, 4);
    assert_eq!(map.height, 3);
    assert_eq!(map.tiles.len(), 12);
    for y in 0..3 {
        for x in 0..4 {
            assert_eq!(map.get(x, y), Tile::Wall);
        }
    }
    let floor = TileMap::new(2, 2, Tile::Floor);
    assert_eq!(floor.tiles, vec![Tile::Floor; 4]);
}

#[test]
fn empty_map_has_no_tiles() {
    let map = TileMap::new(0, 5, Tile::Wall);
    assert_eq!(map.tiles.len(), 0);
    assert_eq!(map.find_first_floor(), None);
}

#[test]
fn set_changes_one_cell_only() {
    let mut map = TileMap::new(4, 3, Tile::Wall);
    map.set(2, 1, Tile::Floor);
    assert_eq!(map.get(2, 1), Tile::Floor);
    assert_eq!(map.tiles[1 * 4 + 2], Tile::Floor);
    for y in 0..3 {
        for x in 0..4 {
            if (x, y) != (2, 1) {
                assert_eq!(map.get(x, y), Tile::Wall);
            }
        }
    }
    map.set(2, 1, Tile::DoorBack);
    assert_eq!(map.get(2, 1), Tile::DoorBack);
}

#[test]
fn rows_are_stored_one_after_another() {
    let mut map = TileMap::new(3, 2, Tile::Wall);
    map.set(0, 1, Tile::DoorForward);
    assert_eq!(
        map.tiles,
        vec![Tile::Wall, Tile::Wall, Tile::Wall, Tile::DoorForward, Tile::Wall, Tile::Wall]
    );
}

#[test]
fn walls_block_and_everything_else_is_walkable() {
    let mut map = TileMap::new(4, 1, Tile::Wall);
    map.set(1, 0, Tile::Floor);
    map.set(2, 0, Tile::DoorForward);
    map.set(3, 0, Tile::DoorBack);
    assert!(!map.is_walkable(0, 0));
    assert!(map.is_walkable(1, 0));
    assert!(map.is_walkable(2, 0));
    assert!(map.is_walkable(3, 0));
}

#[test]
fn first_floor_is_found_in_row_major_order() {
    let mut map = TileMap::new(5, 4, Tile::Wall);
    map.set(1, 2, Tile::Floor);
    map.set(3, 1, Tile::Floor);
    assert_eq!(map.find_first_floor(), Some((3, 1)));
    map.set(4, 1, Tile::Floor);
    assert_eq!(map.find_first_floor(), Some((3, 1)));
    map.set(0, 1, Tile::Floor);
    assert_eq!(map.find_first_floor(), Some((0, 1)));
    map.set(4, 0, Tile::Floor);
    assert_eq!(map.find_first_floor(), Some((4, 0)));
}

#[test]
fn doors_do_not_count_as_floor() {
    let mut map = TileMap::new(3, 3, Tile::Wall);
    assert_eq!(map.find_first_floor(), None);
    map.set(0, 0, Tile::DoorForward);
    map.set(1, 0, Tile::DoorBack);
    assert_eq!(map.find_first_floor(), None);
    map.set(2, 2, Tile::Floor);
    assert_eq!(map.find_first_floor(), Some((2, 2)));
}

#[test]
fn clone_copies_size_and_tiles() {
    let mut map = TileMap::new(3, 2, Tile::Wall);
    map.set(1, 1, Tile::Floor);
    let copy = map.clone();
    assert_eq!(copy.width, 3);
    assert_eq!(copy.height, 2);
    assert_eq!(copy.tiles, map.tiles);
    map.set(0, 0, Tile::Floor);
    assert_eq!(copy.get(0, 0), Tile::Wall);
}
