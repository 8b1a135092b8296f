use sunny_days::engine::entity::{Player, STARTING_HP};
use sunny_days::map::tile::Tile;
use sunny_days::map::TileMap;

fn corridor_map() -> TileMap {
    let mut map = TileMap::new(5, 5, Tile::Wall);
    map.set(2, 2, Tile::Floor);
    map.set(3, 2, Tile::Floor);
    map.set(2, 3, Tile::DoorForward);
    map.set(2, 1, Tile::DoorBack);
    map
}

#[test]
fn new_player_has_full_hit_points() {
    let player = Player::new(7, -2);
    assert_eq!((player.x, player.y, player.hp), (7, -2, 30));
    assert_eq!(STARTING_HP, 30);
}

#[test]
fn player_steps_onto_floor() {
    let map = corridor_map();
    let mut player = Player::new(2, 2);
    player.try_move(1, 0, &map);
    assert_eq!((player.x, player.y, player.hp), (3, 2, 30));
    player.try_move(-1, 0, &map);
    assert_eq!((player.x, player.y), (2, 2));
}

#[test]
fn player_steps_onto_doors() {
    let map = corridor_map();
    let mut player = Player::new(2, 2);
    player.try_move(0, 1, &map);
    assert_eq!((player.x, player.y), (2, 3));
    player.try_move(0, -1, &map);
    player.try_move(0, -1, &map);
    assert_eq!((player.x, player.y), (2, 1));
}

#[test]
fn player_does_not_walk_into_walls() {
    let map = corridor_map();
    let mut player = Player::new(3, 2);
    player.try_move(1, 0, &map);
    assert_eq!((player.x, player.y), (3, 2));
    player.try_move(0, 1, &map);
    assert_eq!((player.x, player.y), (3, 2));
    player.try_move(0, -1, &map);
    assert_eq!((player.x, player.y), (3, 2));
}

#[test]
fn player_does_not_leave_the_map() {
    let map = TileMap::new(3, 3, Tile::Floor);
    for (start, step) in [
        ((0, 0), (-1, 0)),
        ((0, 0), (0, -1)),
        ((2, 2), (1, 0)),
        ((2, 2), (0, 1)),
        ((1, 1), (5, 0)),
        ((1, 1), (0, -5)),
        ((1, 1), (i32::MAX, 0)),
        ((1, 1), (0, i32::MIN)),
        ((1, 1), (i32::MIN, i32::MAX)),
    ] {
        let mut player = Player::new(start.0, start.1);
        player.try_move(step.0, step.1, &map);
        assert_eq!((player.x, player.y), start);
    }
}

#[test]
fn player_takes_longer_and_diagonal_steps_to_open_cells() {
    let map = TileMap::new(4, 4, Tile::Floor);
    let mut player = Player::new(0, 0);
    player.try_move(3, 2, &map);
    assert_eq!((player.x, player.y), (3, 2));
    player.try_move(-1, 1, &map);
    assert_eq!((player.x, player.y), (2, 3));
}

#[test]
fn player_off_the_map_can_step_onto_it() {
    let map = TileMap::new(3, 3, Tile::Floor);
    let mut player = Player::new(-1, 5);
    player.try_move(1, -3, &map);
    assert_eq!((player.x, player.y), (0, 2));
    let mut far = Player::new(i32::MIN, i32::MAX);
    far.try_move(-1, 1, &map);
    assert_eq!((far.x, far.y), (i32::MIN, i32::MAX));
}
