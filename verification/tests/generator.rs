use rand::rngs::StdRng;
use rand::SeedableRng;
use sunny_days::map::generator::{
    carve_bend, carve_corridor, carve_h, carve_room, carve_v, draw_room, generate_layout,
    generate_rooms_and_corridors, intersects_any, place_room, Room, MAX_ROOMS, MAX_ROOM_SIZE,
    MIN_ROOM_SIZE,
};
use sunny_days::map::tile::Tile;
use sunny_days::map::TileMap;

fn floors_of(map: &TileMap) -> Vec<(usize, usize)> {
    let mut cells = Vec::new();
    for y in 0..map.height {
        for x in 0..map.width {
            if map.get(x, y) == Tile::Floor {
                cells.push((x, y));
            }
        }
    }
    cells
}

fn bend_cells(
    from: (usize, usize),
    to: (usize, usize),
    horizontal_first: bool,
) -> Vec<(usize, usize)> {
    let (x1, y1) = from;
    let (x2, y2) = to;
    let mut cells = Vec::new();
    let (row, column) = if horizontal_first { (y1, x2) } else { (y2, x1) };
    for x in x1.min(x2)..=x1.max(x2) {
        cells.push((x, row));
    }
    for y in y1.min(y2)..=y1.max(y2) {
        cells.push((column, y));
    }
    cells
}

fn rooms_of_seed_42() -> Vec<(usize, usize, usize, usize)> {
    vec![
        (44, 14, 53, 23),
        (54, 5, 59, 13),
        (26, 18, 38, 27),
        (31, 30, 40, 35),
        (69, 16, 77, 24),
        (61, 27, 67, 35),
        (22, 6, 33, 17),
    ]
}

#[test]
fn room_spans_from_corner_by_size() {
    let room = Room::new(2, 3, 5, 4);
    assert_eq!((room.x1, room.y1, room.x2, room.y2), (2, 3, 7, 7));
}

#[test]
fn center_is_the_midpoint_rounded_down() {
    assert_eq!(Room::new(2, 3, 5, 4).center(), (4, 5));
    assert_eq!(Room { x1: 1, y1: 1, x2: 4, y2: 6 }.center(), (2, 3));
    assert_eq!(Room { x1: 0, y1: 0, x2: 0, y2: 1 }.center(), (0, 0));
    assert_eq!(
        Room { x1: usize::MAX, y1: usize::MAX - 1, x2: usize::MAX, y2: usize::MAX }.center(),
        (usize::MAX, usize::MAX - 1)
    );
}

#[test]
fn overlapping_rooms_intersect() {
    let a = Room::new(2, 2, 5, 5);
    let b = Room::new(4, 4, 5, 5);
    assert!(a.intersects(&b));
    assert!(b.intersects(&a));
    assert!(a.intersects(&a));
}

#[test]
fn distant_rooms_do_not_intersect() {
    let a = Room::new(1, 1, 5, 5);
    assert!(!a.intersects(&Room::new(7, 1, 5, 5)));
    assert!(!Room::new(7, 1, 5, 5).intersects(&a));
    assert!(!a.intersects(&Room::new(1, 7, 5, 5)));
    assert!(!a.intersects(&Room::new(20, 20, 5, 5)));
}

#[test]
fn rooms_that_share_a_border_intersect() {
    let a = Room::new(0, 0, 5, 5);
    assert!(a.intersects(&Room::new(5, 0, 5, 5)));
    assert!(a.intersects(&Room::new(0, 5, 5, 5)));
    assert!(a.intersects(&Room::new(5, 5, 5, 5)));
    assert!(!a.intersects(&Room::new(6, 0, 5, 5)));
}

#[test]
fn intersects_any_looks_at_every_room() {
    let rooms = vec![Room::new(1, 1, 5, 5), Room::new(20, 1, 5, 5), Room::new(1, 20, 5, 5)];
    assert!(intersects_any(&rooms, &Room::new(3, 22, 5, 5)));
    assert!(intersects_any(&rooms, &Room::new(25, 6, 5, 5)));
    assert!(!intersects_any(&rooms, &Room::new(10, 10, 5, 5)));
    assert!(!intersects_any(&Vec::new(), &Room::new(1, 1, 5, 5)));
}

#[test]
fn carve_room_opens_the_covered_cells() {
    let mut map = TileMap::new(10, 8, Tile::Wall);
    carve_room(&mut map, &Room { x1: 2, y1: 1, x2: 5, y2: 4 });
    let mut expected = Vec::new();
    for y in 1..4 {
        for x in 2..5 {
            expected.push((x, y));
        }
    }
    assert_eq!(floors_of(&map), expected);
    assert_eq!(map.get(5, 1), Tile::Wall);
    assert_eq!(map.get(2, 4), Tile::Wall);
}

#[test]
fn carve_room_of_no_extent_opens_nothing() {
    let mut map = TileMap::new(6, 6, Tile::Wall);
    carve_room(&mut map, &Room { x1: 3, y1: 3, x2: 3, y2: 5 });
    assert_eq!(floors_of(&map), Vec::new());
}

#[test]
fn carve_h_includes_both_ends_in_either_direction() {
    let mut map = TileMap::new(10, 6, Tile::Wall);
    carve_h(&mut map, 6, 2, 3);
    assert_eq!(floors_of(&map), vec![(2, 3), (3, 3), (4, 3), (5, 3), (6, 3)]);
    let mut other = TileMap::new(10, 6, Tile::Wall);
    carve_h(&mut other, 2, 6, 3);
    assert_eq!(other.tiles, map.tiles);
    let mut single = TileMap::new(10, 6, Tile::Wall);
    carve_h(&mut single, 9, 9, 0);
    assert_eq!(floors_of(&single), vec![(9, 0)]);
}

#[test]
fn carve_v_includes_both_ends_in_either_direction() {
    let mut map = TileMap::new(6, 10, Tile::Wall);
    carve_v(&mut map, 7, 4, 1);
    assert_eq!(floors_of(&map), vec![(1, 4), (1, 5), (1, 6), (1, 7)]);
    let mut other = TileMap::new(6, 10, Tile::Wall);
    carve_v(&mut other, 4, 7, 1);
    assert_eq!(other.tiles, map.tiles);
}

#[test]
fn bend_goes_along_the_row_first() {
    let mut map = TileMap::new(6, 5, Tile::Wall);
    carve_bend(&mut map, 1, 1, 4, 3, true);
    assert_eq!(floors_of(&map), vec![(1, 1), (2, 1), (3, 1), (4, 1), (4, 2), (4, 3)]);
    assert_eq!(map.get(1, 3), Tile::Wall);
}

#[test]
fn bend_goes_along_the_column_first() {
    let mut map = TileMap::new(6, 5, Tile::Wall);
    carve_bend(&mut map, 1, 1, 4, 3, false);
    assert_eq!(floors_of(&map), vec![(1, 1), (1, 2), (1, 3), (2, 3), (3, 3), (4, 3)]);
    assert_eq!(map.get(4, 1), Tile::Wall);
}

#[test]
fn bend_keeps_what_was_open() {
    let mut map = TileMap::new(6, 5, Tile::Wall);
    map.set(0, 0, Tile::DoorBack);
    map.set(5, 4, Tile::Floor);
    carve_bend(&mut map, 4, 3, 1, 1, true);
    assert_eq!(map.get(0, 0), Tile::DoorBack);
    assert_eq!(map.get(5, 4), Tile::Floor);
    assert_eq!(map.get(1, 3), Tile::Floor);
    assert_eq!(map.get(1, 1), Tile::Floor);
    assert_eq!(map.get(4, 1), Tile::Wall);
}

#[test]
fn corridor_takes_one_of_the_two_bends() {
    let mut seen_row_first = false;
    let mut seen_column_first = false;
    for seed in 0..32u64 {
        let mut rng = StdRng::seed_from_u64(seed);
        let mut map = TileMap::new(8, 8, Tile::Wall);
        carve_corridor(&mut map, 1, 1, 5, 6, &mut rng);
        let mut row_first = TileMap::new(8, 8, Tile::Wall);
        carve_bend(&mut row_first, 1, 1, 5, 6, true);
        let mut column_first = TileMap::new(8, 8, Tile::Wall);
        carve_bend(&mut column_first, 1, 1, 5, 6, false);
        if map.tiles == row_first.tiles {
            seen_row_first = true;
        } else {
            assert_eq!(map.tiles, column_first.tiles);
            seen_column_first = true;
        }
    }
    assert!(seen_row_first);
    assert!(seen_column_first);
}

#[test]
fn corridor_is_the_same_for_the_same_generator_state() {
    let mut first = TileMap::new(8, 8, Tile::Wall);
    let mut second = TileMap::new(8, 8, Tile::Wall);
    carve_corridor(&mut first, 1, 1, 5, 6, &mut StdRng::seed_from_u64(99));
    carve_corridor(&mut second, 1, 1, 5, 6, &mut StdRng::seed_from_u64(99));
    assert_eq!(first.tiles, second.tiles);
}

#[test]
fn seed_42_places_these_rooms() {
    let (_map, rooms) = generate_layout(80, 45, 42);
    let found: Vec<(usize, usize, usize, usize)> =
        rooms.iter().map(|r| (r.x1, r.y1, r.x2, r.y2)).collect();
    assert_eq!(found, rooms_of_seed_42());
}

#[test]
fn same_seed_gives_the_same_map() {
    let first = generate_rooms_and_corridors(80, 45, 42);
    let second = generate_rooms_and_corridors(80, 45, 42);
    assert_eq!(first.width, second.width);
    assert_eq!(first.height, second.height);
    assert_eq!(first.tiles, second.tiles);
    let (third, _rooms) = generate_layout(80, 45, 42);
    assert_eq!(first.tiles, third.tiles);
}

#[test]
fn other_seed_gives_another_map() {
    let first = generate_rooms_and_corridors(80, 45, 42);
    let second = generate_rooms_and_corridors(80, 45, 43);
    assert_ne!(first.tiles, second.tiles);
}

#[test]
fn generated_map_has_the_requested_size() {
    let map = generate_rooms_and_corridors(30, 20, 5);
    assert_eq!(map.width, 30);
    assert_eq!(map.height, 20);
    assert_eq!(map.tiles.len(), 600);
}

#[test]
fn accepted_rooms_do_not_intersect() {
    for seed in 0..20u64 {
        let (_map, rooms) = generate_layout(80, 45, seed);
        assert!(rooms.len() >= 1);
        assert!(rooms.len() <= MAX_ROOMS);
        for i in 0..rooms.len() {
            for j in 0..rooms.len() {
                if i != j {
                    assert!(!rooms[i].intersects(&rooms[j]));
                }
            }
        }
    }
}

#[test]
fn rooms_keep_their_size_and_margin() {
    for seed in 0..20u64 {
        let (map, rooms) = generate_layout(40, 30, seed);
        for room in rooms.iter() {
            let w = room.x2 - room.x1;
            let h = room.y2 - room.y1;
            assert!(MIN_ROOM_SIZE <= w && w <= MAX_ROOM_SIZE);
            assert!(MIN_ROOM_SIZE <= h && h <= MAX_ROOM_SIZE);
            assert!(room.x1 >= 1 && room.y1 >= 1);
            assert!(room.x2 + 3 <= map.width);
            assert!(room.y2 + 3 <= map.height);
        }
    }
}

#[test]
fn every_room_cell_is_floor() {
    for seed in 0..20u64 {
        let (map, rooms) = generate_layout(80, 45, seed);
        for room in rooms.iter() {
            for y in room.y1..room.y2 {
                for x in room.x1..room.x2 {
                    assert_eq!(map.get(x, y), Tile::Floor);
                }
            }
        }
    }
}

#[test]
fn consecutive_rooms_are_joined_by_an_open_corridor() {
    for seed in 0..20u64 {
        let (map, rooms) = generate_layout(80, 45, seed);
        for i in 1..rooms.len() {
            let from = rooms[i - 1].center();
            let to = rooms[i].center();
            let open = |cells: Vec<(usize, usize)>| {
                cells.iter().all(|&(x, y)| map.get(x, y) == Tile::Floor)
            };
            assert!(open(bend_cells(from, to, true)) || open(bend_cells(from, to, false)));
        }
    }
}

#[test]
fn floor_comes_from_rooms_and_corridors_only() {
    let (map, rooms) = generate_layout(80, 45, 42);
    let mut allowed = vec![false; map.width * map.height];
    for room in rooms.iter() {
        for y in room.y1..room.y2 {
            for x in room.x1..room.x2 {
                allowed[y * map.width + x] = true;
            }
        }
    }
    for i in 1..rooms.len() {
        for bend in [true, false] {
            for (x, y) in bend_cells(rooms[i - 1].center(), rooms[i].center(), bend) {
                allowed[y * map.width + x] = true;
            }
        }
    }
    for y in 0..map.height {
        for x in 0..map.width {
            let tile = map.get(x, y);
            assert!(tile == Tile::Wall || tile == Tile::Floor);
            if tile == Tile::Floor {
                assert!(allowed[y * map.width + x]);
            }
        }
    }
}

#[test]
fn smallest_map_still_gets_a_room() {
    let (map, rooms) = generate_layout(16, 16, 7);
    let found: Vec<(usize, usize, usize, usize)> =
        rooms.iter().map(|r| (r.x1, r.y1, r.x2, r.y2)).collect();
    assert_eq!(found, vec![(2, 4, 7, 11)]);
    assert_eq!(floors_of(&map).len(), 35);
}

#[test]
fn drawn_room_is_the_first_room_of_the_seed() {
    let mut rng = StdRng::seed_from_u64(42);
    let room = draw_room(80, 45, &mut rng);
    assert_eq!((room.x1, room.y1, room.x2, room.y2), (44, 14, 53, 23));
    let next = draw_room(80, 45, &mut rng);
    assert_eq!((next.x1, next.y1, next.x2, next.y2), (54, 5, 59, 13));
}

#[test]
fn drawn_rooms_keep_their_size_and_margin() {
    let mut rng = StdRng::seed_from_u64(1);
    let mut widths = Vec::new();
    for _ in 0..500 {
        let room = draw_room(16, 20, &mut rng);
        let w = room.x2 - room.x1;
        let h = room.y2 - room.y1;
        assert!(5 <= w && w <= 12 && 5 <= h && h <= 12);
        assert!(1 <= room.x1 && room.x2 + 3 <= 16);
        assert!(1 <= room.y1 && room.y2 + 3 <= 20);
        if !widths.contains(&w) {
            widths.push(w);
        }
    }
    widths.sort();
    assert_eq!(widths, vec![5, 6, 7, 8, 9, 10, 11, 12]);
}

#[test]
fn first_room_is_carved_without_a_corridor() {
    let mut map = TileMap::new(30, 30, Tile::Wall);
    let mut rooms = Vec::new();
    let mut rng = StdRng::seed_from_u64(0);
    assert!(place_room(&mut map, &mut rooms, Room::new(3, 4, 6, 5), &mut rng));
    assert_eq!(rooms.len(), 1);
    let mut expected = Vec::new();
    for y in 4..9 {
        for x in 3..9 {
            expected.push((x, y));
        }
    }
    assert_eq!(floors_of(&map), expected);
}

#[test]
fn room_that_intersects_is_dropped() {
    let mut map = TileMap::new(30, 30, Tile::Wall);
    let mut rooms = Vec::new();
    let mut rng = StdRng::seed_from_u64(0);
    assert!(place_room(&mut map, &mut rooms, Room::new(3, 4, 6, 5), &mut rng));
    let before = map.tiles.clone();
    assert!(!place_room(&mut map, &mut rooms, Room::new(7, 7, 5, 5), &mut rng));
    assert!(!place_room(&mut map, &mut rooms, Room::new(9, 4, 5, 5), &mut rng));
    assert_eq!(rooms.len(), 1);
    assert_eq!(map.tiles, before);
}

#[test]
fn second_room_is_joined_to_the_first() {
    for seed in 0..8u64 {
        let mut map = TileMap::new(30, 30, Tile::Wall);
        let mut rooms = Vec::new();
        let mut rng = StdRng::seed_from_u64(seed);
        let first = Room::new(3, 4, 6, 5);
        let second = Room::new(15, 14, 5, 7);
        assert!(place_room(&mut map, &mut rooms, first, &mut rng));
        assert!(place_room(&mut map, &mut rooms, second, &mut rng));
        assert_eq!(rooms.len(), 2);
        assert_eq!((rooms[1].x1, rooms[1].y1, rooms[1].x2, rooms[1].y2), (15, 14, 20, 21));

        let mut row_first = TileMap::new(30, 30, Tile::Wall);
        carve_room(&mut row_first, &first);
        carve_room(&mut row_first, &second);
        let mut column_first = row_first.clone();
        carve_bend(&mut row_first, 6, 6, 17, 17, true);
        carve_bend(&mut column_first, 6, 6, 17, 17, false);
        assert!(map.tiles == row_first.tiles || map.tiles == column_first.tiles);
    }
}
