//! Rooms and corridors: how a map is carved out of solid rock from a seed.

use crate::map::tile::Tile;
use crate::map::{filled_grid, is_floor, TileMap};
use crate::rng::{
    draw_in_range, draw_ratio, ratio_draw, rng_state, seeded_rng, seeded_state, uniform_draw,
};
use rand::rngs::StdRng;
use vstd::prelude::*;

verus! {

/// An axis-aligned rectangle of the grid, from `(x1, y1)` to `(x2, y2)`.
#[derive(Clone, Copy, Debug)]
pub struct Room {
    pub x1: usize,
    pub y1: usize,
    pub x2: usize,
    pub y2: usize,
}

impl Room {
    /// Whether the closed rectangles of the two rooms share a point. Rooms
    /// that merely touch along a border count as intersecting.
    pub open spec fn spec_intersects(&self, other: &Room) -> bool {
        self.x1 <= other.x2 && self.x2 >= other.x1 && self.y1 <= other.y2 && self.y2 >= other.y1
    }

    /// The midpoint of the room's bounds, rounded down.
    pub open spec fn spec_center(&self) -> (usize, usize) {
        (((self.x1 + self.x2) / 2) as usize, ((self.y1 + self.y2) / 2) as usize)
    }

    /// Whether `(x, y)` is one of the cells that carving the room opens:
    /// its left and top edges belong to it, its right and bottom edges do not.
    pub open spec fn covers(&self, x: int, y: int) -> bool {
        self.x1 <= x < self.x2 && self.y1 <= y < self.y2
    }

    /// Whether the room lies inside a `width` by `height` grid.
    pub open spec fn fits(&self, width: int, height: int) -> bool {
        self.x1 <= self.x2 <= width && self.y1 <= self.y2 <= height
    }

    /// The room whose top-left corner is `(x, y)` and that spans `w` by `h`.
    pub fn new(x: usize, y: usize, w: usize, h: usize) -> (room: Room)
        requires
            x + w <= usize::MAX,
            y + h <= usize::MAX,
        ensures
            room == (Room { x1: x, y1: y, x2: (x + w) as usize, y2: (y + h) as usize }),
    {
        Room { x1: x, y1: y, x2: x + w, y2: y + h }
    }

    /// The midpoint of the room's bounds, rounded down: where corridors end.
    #[verifier::when_used_as_spec(spec_center)]
    pub fn center(&self) -> (c: (usize, usize))
        ensures
            c == self.spec_center(),
            c.0 == (self.x1 + self.x2) / 2,
            c.1 == (self.y1 + self.y2) / 2,
    {
        let cx: u128 = (self.x1 as u128 + self.x2 as u128) / 2;
        let cy: u128 = (self.y1 as u128 + self.y2 as u128) / 2;
        (cx as usize, cy as usize)
    }

    /// Whether the closed rectangles of the two rooms share a point.
    #[verifier::when_used_as_spec(spec_intersects)]
    pub fn intersects(&self, other: &Room) -> (hit: bool)
        ensures
            hit == self.spec_intersects(other),
    {
        self.x1 <= other.x2 && self.x2 >= other.x1 && self.y1 <= other.y2 && self.y2 >= other.y1
    }
}

/// The smaller of two coordinates.
pub open spec fn lower(a: int, b: int) -> int {
    if a <= b {
        a
    } else {
        b
    }
}

/// The larger of two coordinates.
pub open spec fn upper(a: int, b: int) -> int {
    if a <= b {
        b
    } else {
        a
    }
}

/// Whether `(x, y)` lies on the horizontal run of row `row` between columns
/// `x1` and `x2`, both ends included, whichever of the two is larger.
pub open spec fn on_row_run(x1: int, x2: int, row: int, x: int, y: int) -> bool {
    y == row && lower(x1, x2) <= x <= upper(x1, x2)
}

/// Whether `(x, y)` lies on the vertical run of column `column` between rows
/// `y1` and `y2`, both ends included, whichever of the two is larger.
pub open spec fn on_column_run(y1: int, y2: int, column: int, x: int, y: int) -> bool {
    x == column && lower(y1, y2) <= y <= upper(y1, y2)
}

/// Whether `(x, y)` lies on the L-shaped corridor from `(x1, y1)` to
/// `(x2, y2)`. Going horizontally first, the bend is at `(x2, y1)`; going
/// vertically first, it is at `(x1, y2)`.
pub open spec fn on_corridor(
    x1: int,
    y1: int,
    x2: int,
    y2: int,
    horizontal_first: bool,
    x: int,
    y: int,
) -> bool {
    if horizontal_first {
        on_row_run(x1, x2, y1, x, y) || on_column_run(y1, y2, x2, x, y)
    } else {
        on_column_run(y1, y2, x1, x, y) || on_row_run(x1, x2, y2, x, y)
    }
}

/// The grid after `room` has been carved into it: every cell the room covers
/// is floor, every other cell is what it was.
pub open spec fn room_carved(grid: Seq<Seq<Tile>>, room: Room) -> Seq<Seq<Tile>> {
    Seq::new(
        grid.len(),
        |y: int|
            Seq::new(
                grid[y].len(),
                |x: int|
                    if room.covers(x, y) {
                        Tile::Floor
                    } else {
                        grid[y][x]
                    },
            ),
    )
}

/// The grid after row `row` has been opened from column `x1` to column `x2`.
pub open spec fn row_carved(grid: Seq<Seq<Tile>>, x1: int, x2: int, row: int) -> Seq<Seq<Tile>> {
    Seq::new(
        grid.len(),
        |y: int|
            Seq::new(
                grid[y].len(),
                |x: int|
                    if on_row_run(x1, x2, row, x, y) {
                        Tile::Floor
                    } else {
                        grid[y][x]
                    },
            ),
    )
}

/// The grid after column `column` has been opened from row `y1` to row `y2`.
pub open spec fn column_carved(grid: Seq<Seq<Tile>>, y1: int, y2: int, column: int) -> Seq<
    Seq<Tile>,
> {
    Seq::new(
        grid.len(),
        |y: int|
            Seq::new(
                grid[y].len(),
                |x: int|
                    if on_column_run(y1, y2, column, x, y) {
                        Tile::Floor
                    } else {
                        grid[y][x]
                    },
            ),
    )
}

/// The grid after the L-shaped corridor from `(x1, y1)` to `(x2, y2)` has
/// been carved into it.
pub open spec fn corridor_carved(
    grid: Seq<Seq<Tile>>,
    x1: int,
    y1: int,
    x2: int,
    y2: int,
    horizontal_first: bool,
) -> Seq<Seq<Tile>> {
    Seq::new(
        grid.len(),
        |y: int|
            Seq::new(
                grid[y].len(),
                |x: int|
                    if on_corridor(x1, y1, x2, y2, horizontal_first, x, y) {
                        Tile::Floor
                    } else {
                        grid[y][x]
                    },
            ),
    )
}

/// Opens every cell that `room` covers and leaves the rest of the map as it is.
pub fn carve_room(map: &mut TileMap, room: &Room)
    requires
        old(map).wf(),
        room.fits(old(map).width as int, old(map).height as int),
    ensures
        final(map).wf(),
        final(map).width == old(map).width,
        final(map).height == old(map).height,
        final(map)@ == room_carved(old(map)@, *room),
{
    let mut y: usize = room.y1;
    while y < room.y2
        invariant
            map.wf(),
            map.width == old(map).width,
            map.height == old(map).height,
            room.fits(map.width as int, map.height as int),
            room.y1 <= y <= room.y2,
            forall|cx: int, cy: int|
                map.in_bounds(cx, cy) ==> #[trigger] map.at(cx, cy) == if room.covers(cx, cy) && cy
                    < y {
                    Tile::Floor
                } else {
                    old(map).at(cx, cy)
                },
        decreases room.y2 - y,
    {
        let mut x: usize = room.x1;
        while x < room.x2
            invariant
                map.wf(),
                map.width == old(map).width,
                map.height == old(map).height,
                room.fits(map.width as int, map.height as int),
                room.y1 <= y < room.y2,
                room.x1 <= x <= room.x2,
                forall|cx: int, cy: int|
                    map.in_bounds(cx, cy) ==> #[trigger] map.at(cx, cy) == if room.covers(cx, cy)
                        && (cy < y || (cy == y && cx < x)) {
                        Tile::Floor
                    } else {
                        old(map).at(cx, cy)
                    },
            decreases room.x2 - x,
        {
            map.set(x, y, Tile::Floor);
            x += 1;
        }
        y += 1;
    }
    assert(map@ =~~= room_carved(old(map)@, *room));
}

/// Opens row `y` from column `x1` to column `x2`, both ends included,
/// whichever of the two is larger.
pub fn carve_h(map: &mut TileMap, x1: usize, x2: usize, y: usize)
    requires
        old(map).wf(),
        old(map).in_bounds(x1 as int, y as int),
        old(map).in_bounds(x2 as int, y as int),
    ensures
        final(map).wf(),
        final(map).width == old(map).width,
        final(map).height == old(map).height,
        final(map)@ == row_carved(old(map)@, x1 as int, x2 as int, y as int),
{
    let (start, end) = if x1 <= x2 {
        (x1, x2)
    } else {
        (x2, x1)
    };
    let mut x: usize = start;
    while x <= end
        invariant
            map.wf(),
            map.width == old(map).width,
            map.height == old(map).height,
            y < map.height,
            start == lower(x1 as int, x2 as int),
            end == upper(x1 as int, x2 as int),
            start <= x <= end + 1,
            end < map.width,
            forall|cx: int, cy: int|
                map.in_bounds(cx, cy) ==> #[trigger] map.at(cx, cy) == if on_row_run(
                    x1 as int,
                    x2 as int,
                    y as int,
                    cx,
                    cy,
                ) && cx < x {
                    Tile::Floor
                } else {
                    old(map).at(cx, cy)
                },
        decreases end + 1 - x,
    {
        map.set(x, y, Tile::Floor);
        x += 1;
    }
    assert(map@ =~~= row_carved(old(map)@, x1 as int, x2 as int, y as int));
}

/// Opens column `x` from row `y1` to row `y2`, both ends included, whichever
/// of the two is larger.
pub fn carve_v(map: &mut TileMap, y1: usize, y2: usize, x: usize)
    requires
        old(map).wf(),
        old(map).in_bounds(x as int, y1 as int),
        old(map).in_bounds(x as int, y2 as int),
    ensures
        final(map).wf(),
        final(map).width == old(map).width,
        final(map).height == old(map).height,
        final(map)@ == column_carved(old(map)@, y1 as int, y2 as int, x as int),
{
    let (start, end) = if y1 <= y2 {
        (y1, y2)
    } else {
        (y2, y1)
    };
    let mut y: usize = start;
    while y <= end
        invariant
            map.wf(),
            map.width == old(map).width,
            map.height == old(map).height,
            x < map.width,
            start == lower(y1 as int, y2 as int),
            end == upper(y1 as int, y2 as int),
            start <= y <= end + 1,
            end < map.height,
            forall|cx: int, cy: int|
                map.in_bounds(cx, cy) ==> #[trigger] map.at(cx, cy) == if on_column_run(
                    y1 as int,
                    y2 as int,
                    x as int,
                    cx,
                    cy,
                ) && cy < y {
                    Tile::Floor
                } else {
                    old(map).at(cx, cy)
                },
        decreases end + 1 - y,
    {
        map.set(x, y, Tile::Floor);
        y += 1;
    }
    assert(map@ =~~= column_carved(old(map)@, y1 as int, y2 as int, x as int));
}

/// Opens the L-shaped corridor from `(x1, y1)` to `(x2, y2)`: one row run and
/// one column run that meet at the bend. `horizontal_first` picks the bend.
pub fn carve_bend(
    map: &mut TileMap,
    x1: usize,
    y1: usize,
    x2: usize,
    y2: usize,
    horizontal_first: bool,
)
    requires
        old(map).wf(),
        old(map).in_bounds(x1 as int, y1 as int),
        old(map).in_bounds(x2 as int, y2 as int),
    ensures
        final(map).wf(),
        final(map).width == old(map).width,
        final(map).height == old(map).height,
        final(map)@ == corridor_carved(
            old(map)@,
            x1 as int,
            y1 as int,
            x2 as int,
            y2 as int,
            horizontal_first,
        ),
{
    if horizontal_first {
        carve_h(map, x1, x2, y1);
        carve_v(map, y1, y2, x2);
    } else {
        carve_v(map, y1, y2, x1);
        carve_h(map, x1, x2, y2);
    }
    assert(map@ =~~= corridor_carved(
        old(map)@,
        x1 as int,
        y1 as int,
        x2 as int,
        y2 as int,
        horizontal_first,
    ));
}

/// Draws the bend of a corridor from `rng`, each way with even odds, and
/// opens the L-shaped corridor from `(x1, y1)` to `(x2, y2)`.
pub fn carve_corridor(
    map: &mut TileMap,
    x1: usize,
    y1: usize,
    x2: usize,
    y2: usize,
    rng: &mut StdRng,
)
    requires
        old(map).wf(),
        old(map).in_bounds(x1 as int, y1 as int),
        old(map).in_bounds(x2 as int, y2 as int),
    ensures
        final(map).wf(),
        final(map).width == old(map).width,
        final(map).height == old(map).height,
        final(map)@ == corridor_carved(
            old(map)@,
            x1 as int,
            y1 as int,
            x2 as int,
            y2 as int,
            ratio_draw(rng_state(*old(rng)), 1, 2).0,
        ),
        rng_state(*final(rng)) == ratio_draw(rng_state(*old(rng)), 1, 2).1,
{
    let horizontal_first = draw_ratio(rng, 1, 2);
    carve_bend(map, x1, y1, x2, y2, horizontal_first);
}

/// How many rooms the generator tries to place.
pub const MAX_ROOMS: usize = 14;

/// The smallest width and height a room can have.
pub const MIN_ROOM_SIZE: usize = 5;

/// The largest width and height a room can have.
pub const MAX_ROOM_SIZE: usize = 12;

/// The smallest map side on which a room of any size still finds a place
/// that leaves its margin free.
pub const MIN_MAP_SIDE: usize = 16;

/// Whether a map of this size can be generated: every side leaves room for
/// the largest room with its margin, and the cells can be counted.
pub open spec fn carvable_size(width: usize, height: usize) -> bool {
    MIN_MAP_SIDE <= width && MIN_MAP_SIDE <= height && width * height <= usize::MAX
}

/// Checks at run time whether a map of this size can be generated.
pub fn is_carvable_size(width: usize, height: usize) -> (ok: bool)
    ensures
        ok == carvable_size(width, height),
{
    MIN_MAP_SIDE <= width && MIN_MAP_SIDE <= height && width.checked_mul(height).is_some()
}

/// Whether `room` intersects one of `rooms`.
pub open spec fn spec_intersects_any(rooms: Seq<Room>, room: Room) -> bool {
    exists|i: int| 0 <= i < rooms.len() && #[trigger] rooms[i].spec_intersects(&room)
}

/// Whether `room` intersects one of `rooms`.
pub fn intersects_any(rooms: &Vec<Room>, room: &Room) -> (hit: bool)
    ensures
        hit == spec_intersects_any(rooms@, *room),
{
    let mut i: usize = 0;
    while i < rooms.len()
        invariant
            i <= rooms.len(),
            forall|k: int| 0 <= k < i ==> !(#[trigger] rooms@[k].spec_intersects(room)),
        decreases rooms.len() - i,
    {
        if rooms[i].intersects(room) {
            return true;
        }
        i += 1;
    }
    false
}

/// What generation has produced so far.
pub struct Layout {
    /// The rows of the map.
    pub grid: Seq<Seq<Tile>>,
    /// The rooms accepted so far, oldest first.
    pub rooms: Seq<Room>,
    /// The state of the random generator.
    pub rng: Seq<u8>,
}

/// The room that one attempt proposes, and the generator state after its
/// four draws: width, height, then the column and the row of the top-left
/// corner, which leave a margin towards the right and bottom border.
pub open spec fn candidate_room(width: usize, height: usize, rng: Seq<u8>) -> (Room, Seq<u8>) {
    let (w, rng_w) = uniform_draw(rng, MIN_ROOM_SIZE, MAX_ROOM_SIZE);
    let (h, rng_h) = uniform_draw(rng_w, MIN_ROOM_SIZE, MAX_ROOM_SIZE);
    let (x, rng_x) = uniform_draw(rng_h, 1, (width - w - 3) as usize);
    let (y, rng_y) = uniform_draw(rng_x, 1, (height - h - 3) as usize);
    (Room { x1: x, y1: y, x2: (x + w) as usize, y2: (y + h) as usize }, rng_y)
}

/// The layout after `room` has been proposed. A room that intersects an
/// accepted room is dropped and the layout stays as it is. Any other room is
/// carved and accepted, and unless it is the first room, a corridor with a
/// freshly drawn bend joins the centre of the room accepted before it to its
/// own centre.
pub open spec fn placed(before: Layout, room: Room) -> Layout {
    if spec_intersects_any(before.rooms, room) {
        before
    } else if before.rooms.len() == 0 {
        Layout {
            grid: room_carved(before.grid, room),
            rooms: before.rooms.push(room),
            rng: before.rng,
        }
    } else {
        let (horizontal_first, rng_bend) = ratio_draw(before.rng, 1, 2);
        let from = before.rooms.last().spec_center();
        let to = room.spec_center();
        Layout {
            grid: corridor_carved(
                room_carved(before.grid, room),
                from.0 as int,
                from.1 as int,
                to.0 as int,
                to.1 as int,
                horizontal_first,
            ),
            rooms: before.rooms.push(room),
            rng: rng_bend,
        }
    }
}

/// One placement attempt: a candidate room is drawn and proposed.
pub open spec fn attempt(width: usize, height: usize, before: Layout) -> Layout {
    let (room, rng) = candidate_room(width, height, before.rng);
    placed(Layout { grid: before.grid, rooms: before.rooms, rng }, room)
}

/// The layout after `attempts` placement attempts on a blank map, with the
/// generator seeded from `seed`.
pub open spec fn layout_after(width: usize, height: usize, seed: u64, attempts: nat) -> Layout
    decreases attempts,
{
    if attempts == 0 {
        Layout {
            grid: filled_grid(width, height, Tile::Wall),
            rooms: Seq::empty(),
            rng: seeded_state(seed),
        }
    } else {
        attempt(width, height, layout_after(width, height, seed, (attempts - 1) as nat))
    }
}

/// The finished layout for a seed: the one after all `MAX_ROOMS` attempts.
pub open spec fn generated(width: usize, height: usize, seed: u64) -> Layout {
    layout_after(width, height, seed, MAX_ROOMS as nat)
}

/// Whether no two of `rooms` intersect.
pub open spec fn rooms_apart(rooms: Seq<Room>) -> bool {
    forall|i: int, j: int|
        #![trigger rooms[i], rooms[j]]
        0 <= i < j < rooms.len() ==> !rooms[i].spec_intersects(&rooms[j])
}

/// Whether every cell that one of `rooms` covers is a floor cell of `grid`.
pub open spec fn rooms_open(grid: Seq<Seq<Tile>>, rooms: Seq<Room>) -> bool {
    forall|i: int, x: int, y: int|
        0 <= i < rooms.len() && #[trigger] rooms[i].covers(x, y) ==> is_floor(grid, x, y)
}

/// Whether every cell of the corridor from `from` to `to` with the given
/// bend is a floor cell of `grid`.
pub open spec fn corridor_open(
    grid: Seq<Seq<Tile>>,
    from: (usize, usize),
    to: (usize, usize),
    horizontal_first: bool,
) -> bool {
    forall|x: int, y: int|
        #[trigger] on_corridor(
            from.0 as int,
            from.1 as int,
            to.0 as int,
            to.1 as int,
            horizontal_first,
            x,
            y,
        ) ==> is_floor(grid, x, y)
}

/// Whether each of `rooms` but the first is joined to the room before it by
/// an open corridor between their centres, bent one way or the other.
pub open spec fn rooms_linked(grid: Seq<Seq<Tile>>, rooms: Seq<Room>) -> bool {
    forall|i: int|
        1 <= i < rooms.len() ==> {
            ||| corridor_open(
                grid,
                rooms[i - 1].spec_center(),
                #[trigger] rooms[i].spec_center(),
                true,
            )
            ||| corridor_open(grid, rooms[i - 1].spec_center(), rooms[i].spec_center(), false)
        }
}

/// Whether `room` keeps clear of the border of a `width` by `height` map:
/// one cell at the left and top, three at the right and bottom.
pub open spec fn within_margin(room: Room, width: usize, height: usize) -> bool {
    &&& 1 <= room.x1
    &&& 1 <= room.y1
    &&& room.x1 + MIN_ROOM_SIZE <= room.x2 <= room.x1 + MAX_ROOM_SIZE
    &&& room.y1 + MIN_ROOM_SIZE <= room.y2 <= room.y1 + MAX_ROOM_SIZE
    &&& room.x2 + 3 <= width
    &&& room.y2 + 3 <= height
}

/// Whether every one of `rooms` keeps clear of the border.
pub open spec fn rooms_within_margin(rooms: Seq<Room>, width: usize, height: usize) -> bool {
    forall|i: int| 0 <= i < rooms.len() ==> within_margin(#[trigger] rooms[i], width, height)
}

/// Whether `grid` has `height` rows of `width` cells, each wall or floor.
pub open spec fn rock_and_floor(grid: Seq<Seq<Tile>>, width: usize, height: usize) -> bool {
    &&& grid.len() == height
    &&& forall|y: int| 0 <= y < height ==> (#[trigger] grid[y]).len() == width
    &&& forall|x: int, y: int|
        0 <= y < height && 0 <= x < width ==> {
            ||| (#[trigger] grid[y][x]) == Tile::Wall
            ||| grid[y][x] == Tile::Floor
        }
}

/// Whether every floor cell of `grid` keeps clear of the border of a `width`
/// by `height` map: one cell at the left and top, three at the right and
/// bottom.
pub open spec fn floor_within_margin(grid: Seq<Seq<Tile>>, width: usize, height: usize) -> bool {
    forall|x: int, y: int|
        #[trigger] is_floor(grid, x, y) ==> 1 <= x && x + 4 <= width && 1 <= y && y + 4 <= height
}

/// What every stage of generation keeps true of a layout: the grid has the
/// map's shape and holds only rock and floor, with no floor near the border;
/// the accepted rooms keep clear of the border and of each other; every cell
/// of every accepted room is floor; and each room but the first is joined to
/// its predecessor by an open corridor.
pub open spec fn sound_layout(layout: Layout, width: usize, height: usize) -> bool {
    &&& rock_and_floor(layout.grid, width, height)
    &&& floor_within_margin(layout.grid, width, height)
    &&& rooms_within_margin(layout.rooms, width, height)
    &&& rooms_apart(layout.rooms)
    &&& rooms_open(layout.grid, layout.rooms)
    &&& rooms_linked(layout.grid, layout.rooms)
}

/// The centre of a room that keeps clear of the border is a cell of the room.
proof fn lemma_center_is_covered(room: Room, width: usize, height: usize)
    requires
        within_margin(room, width, height),
    ensures
        room.covers(room.spec_center().0 as int, room.spec_center().1 as int),
        room.spec_center().0 < width,
        room.spec_center().1 < height,
{
}

/// One placement attempt keeps a sound layout sound, provided the candidate
/// it proposes keeps clear of the border.
pub proof fn lemma_attempt_stays_sound(width: usize, height: usize, before: Layout)
    requires
        sound_layout(before, width, height),
        within_margin(candidate_room(width, height, before.rng).0, width, height),
    ensures
        sound_layout(attempt(width, height, before), width, height),
{
    let room = candidate_room(width, height, before.rng).0;
    let after = attempt(width, height, before);
    if spec_intersects_any(before.rooms, room) {
    } else {
        lemma_center_is_covered(room, width, height);
        let opened = room_carved(before.grid, room);
        assert(rock_and_floor(opened, width, height));
        assert(rock_and_floor(after.grid, width, height));
        assert forall|x: int, y: int| is_floor(before.grid, x, y) implies is_floor(
            after.grid,
            x,
            y,
        ) by {}
        assert forall|x: int, y: int| room.covers(x, y) implies is_floor(after.grid, x, y) by {
            assert(is_floor(opened, x, y));
        }
        assert forall|x: int, y: int| #[trigger] is_floor(after.grid, x, y) implies 1 <= x && x + 4
            <= width && 1 <= y && y + 4 <= height by {
            if is_floor(before.grid, x, y) {
            } else if room.covers(x, y) {
            } else {
                let previous = before.rooms.last();
                assert(before.rooms.len() > 0);
                assert(within_margin(previous, width, height));
                lemma_center_is_covered(previous, width, height);
            }
        }
        assert forall|i: int| 0 <= i < after.rooms.len() implies within_margin(
            #[trigger] after.rooms[i],
            width,
            height,
        ) by {
            if i < before.rooms.len() {
                assert(after.rooms[i] == before.rooms[i]);
            }
        }
        assert forall|i: int, j: int|
            #![trigger after.rooms[i], after.rooms[j]]
            0 <= i < j < after.rooms.len() implies !after.rooms[i].spec_intersects(
            &after.rooms[j],
        ) by {
            assert(after.rooms[i] == before.rooms[i]);
            if j < before.rooms.len() {
                assert(after.rooms[j] == before.rooms[j]);
            } else {
                assert(!before.rooms[i].spec_intersects(&room));
            }
        }
        assert forall|i: int, x: int, y: int|
            0 <= i < after.rooms.len() && #[trigger] after.rooms[i].covers(x, y) implies is_floor(
            after.grid,
            x,
            y,
        ) by {
            if i < before.rooms.len() {
                assert(before.rooms[i].covers(x, y));
                assert(is_floor(before.grid, x, y));
            }
        }
        assert forall|i: int| 1 <= i < after.rooms.len() implies {
            ||| corridor_open(
                after.grid,
                after.rooms[i - 1].spec_center(),
                #[trigger] after.rooms[i].spec_center(),
                true,
            )
            ||| corridor_open(
                after.grid,
                after.rooms[i - 1].spec_center(),
                after.rooms[i].spec_center(),
                false,
            )
        } by {
            assert(after.rooms[i - 1] == before.rooms[i - 1]);
            if i < before.rooms.len() {
                assert(after.rooms[i] == before.rooms[i]);
                let from = before.rooms[i - 1].spec_center();
                let to = before.rooms[i].spec_center();
                if corridor_open(before.grid, from, to, true) {
                    assert(corridor_open(after.grid, from, to, true));
                } else {
                    assert(corridor_open(before.grid, from, to, false));
                    assert(corridor_open(after.grid, from, to, false));
                }
            } else {
                let previous = before.rooms.last();
                assert(within_margin(previous, width, height));
                lemma_center_is_covered(previous, width, height);
                let bend = ratio_draw(candidate_room(width, height, before.rng).1, 1, 2).0;
                assert(corridor_open(after.grid, previous.spec_center(), room.spec_center(), bend));
            }
        }
    }
}

/// Draws the room that one attempt proposes: its width and height, then the
/// column and the row of its top-left corner, placed so that the room keeps
/// clear of the border.
pub fn draw_room(width: usize, height: usize, rng: &mut StdRng) -> (room: Room)
    requires
        MIN_MAP_SIDE <= width,
        MIN_MAP_SIDE <= height,
    ensures
        room == candidate_room(width, height, rng_state(*old(rng))).0,
        rng_state(*final(rng)) == candidate_room(width, height, rng_state(*old(rng))).1,
        within_margin(room, width, height),
{
    let w: usize = draw_in_range(rng, MIN_ROOM_SIZE, MAX_ROOM_SIZE);
    let h: usize = draw_in_range(rng, MIN_ROOM_SIZE, MAX_ROOM_SIZE);
    let x: usize = draw_in_range(rng, 1, width.saturating_sub(w + 2) - 1);
    let y: usize = draw_in_range(rng, 1, height.saturating_sub(h + 2) - 1);
    Room::new(x, y, w, h)
}

/// Proposes `room`. If it intersects one of `rooms`, nothing changes.
/// Otherwise it is carved into `map`, joined by a corridor to the last of
/// `rooms` if there is one, and appended to `rooms`. Returns whether the room
/// was accepted.
pub fn place_room(
    map: &mut TileMap,
    rooms: &mut Vec<Room>,
    room: Room,
    rng: &mut StdRng,
) -> (accepted: bool)
    requires
        old(map).wf(),
        within_margin(room, old(map).width, old(map).height),
        rooms_within_margin(old(rooms)@, old(map).width, old(map).height),
    ensures
        final(map).wf(),
        final(map).width == old(map).width,
        final(map).height == old(map).height,
        accepted == !spec_intersects_any(old(rooms)@, room),
        (Layout { grid: final(map)@, rooms: final(rooms)@, rng: rng_state(*final(rng)) }) == placed(
            Layout { grid: old(map)@, rooms: old(rooms)@, rng: rng_state(*old(rng)) },
            room,
        ),
{
    if intersects_any(rooms, &room) {
        return false;
    }
    proof {
        lemma_center_is_covered(room, map.width, map.height);
    }
    carve_room(map, &room);
    if rooms.len() > 0 {
        let previous = rooms[rooms.len() - 1];
        proof {
            assert(previous == old(rooms)@.last());
            assert(within_margin(previous, map.width, map.height));
            lemma_center_is_covered(previous, map.width, map.height);
        }
        let (new_x, new_y) = room.center();
        let (previous_x, previous_y) = previous.center();
        carve_corridor(map, previous_x, previous_y, new_x, new_y, rng);
    }
    rooms.push(room);
    true
}

/// Carves a map from `seed` and returns it together with the rooms that were
/// accepted, oldest first.
///
/// `MAX_ROOMS` times over, a room of random size is proposed at a random
/// place. A proposal that intersects an accepted room is dropped and not
/// retried; any other is carved and joined to the room accepted before it.
pub fn generate_layout(width: usize, height: usize, seed: u64) -> (built: (TileMap, Vec<Room>))
    requires
        carvable_size(width, height),
    ensures
        built.0.wf(),
        built.0.width == width,
        built.0.height == height,
        built.0@ == generated(width, height, seed).grid,
        built.1@ == generated(width, height, seed).rooms,
        1 <= built.1.len() <= MAX_ROOMS,
        sound_layout(generated(width, height, seed), width, height),
{
    let mut rng = seeded_rng(seed);
    let mut map = TileMap::new(width, height, Tile::Wall);
    let mut rooms: Vec<Room> = Vec::new();
    let mut tried: usize = 0;
    while tried < MAX_ROOMS
        invariant
            MIN_MAP_SIDE <= width,
            MIN_MAP_SIDE <= height,
            tried <= MAX_ROOMS,
            map.wf(),
            map.width == width,
            map.height == height,
            map@ == layout_after(width, height, seed, tried as nat).grid,
            rooms@ == layout_after(width, height, seed, tried as nat).rooms,
            rng_state(rng) == layout_after(width, height, seed, tried as nat).rng,
            sound_layout(layout_after(width, height, seed, tried as nat), width, height),
            rooms.len() <= tried,
            tried >= 1 ==> rooms.len() >= 1,
        decreases MAX_ROOMS - tried,
    {
        let ghost before = layout_after(width, height, seed, tried as nat);
        let room = draw_room(width, height, &mut rng);
        proof {
            lemma_attempt_stays_sound(width, height, before);
        }
        place_room(&mut map, &mut rooms, room, &mut rng);
        tried += 1;
        assert(layout_after(width, height, seed, tried as nat) == attempt(width, height, before));
    }
    (map, rooms)
}

/// Carves a map from `seed`: solid rock with rooms and corridors opened in it.
pub fn generate_rooms_and_corridors(width: usize, height: usize, seed: u64) -> (map: TileMap)
    requires
        carvable_size(width, height),
    ensures
        map.wf(),
        map.width == width,
        map.height == height,
        map@ == generated(width, height, seed).grid,
        sound_layout(generated(width, height, seed), width, height),
        1 <= generated(width, height, seed).rooms.len() <= MAX_ROOMS,
{
    let (map, _rooms) = generate_layout(width, height, seed);
    map
}

/// Generation is deterministic: any two maps that come out of
/// `generate_rooms_and_corridors` for the same size and seed have the same
/// size and the same tile in every cell.
pub proof fn lemma_generation_is_deterministic(
    width: usize,
    height: usize,
    seed: u64,
    first: TileMap,
    second: TileMap,
)
    requires
        call_ensures(generate_rooms_and_corridors, (width, height, seed), first),
        call_ensures(generate_rooms_and_corridors, (width, height, seed), second),
    ensures
        first.width == second.width,
        first.height == second.height,
        first@ == second@,
{
}

/// No two rooms that generation accepts intersect, not even along a border.
pub proof fn lemma_accepted_rooms_are_apart(
    width: usize,
    height: usize,
    seed: u64,
    built: (TileMap, Vec<Room>),
    i: int,
    j: int,
)
    requires
        call_ensures(generate_layout, (width, height, seed), built),
        0 <= i < built.1.len(),
        0 <= j < built.1.len(),
        i != j,
    ensures
        !built.1[i].spec_intersects(&built.1[j]),
{
    let rooms = generated(width, height, seed).rooms;
    if i < j {
        assert(!rooms[i].spec_intersects(&rooms[j]));
    } else {
        assert(!rooms[j].spec_intersects(&rooms[i]));
    }
}

/// Every cell of every room that generation accepts is a floor cell of the
/// generated map.
pub proof fn lemma_room_cells_are_floor(
    width: usize,
    height: usize,
    seed: u64,
    built: (TileMap, Vec<Room>),
    i: int,
    x: int,
    y: int,
)
    requires
        call_ensures(generate_layout, (width, height, seed), built),
        0 <= i < built.1.len(),
        built.1[i].covers(x, y),
    ensures
        built.0.in_bounds(x, y),
        built.0.at(x, y) == Tile::Floor,
{
    let layout = generated(width, height, seed);
    assert(layout.rooms[i].covers(x, y));
    assert(is_floor(layout.grid, x, y));
}

/// Every room that generation accepts after the first is joined to the room
/// accepted before it: every cell of the corridor between their centres, bent
/// one way or the other, is a floor cell of the generated map.
pub proof fn lemma_corridor_cells_are_floor(
    width: usize,
    height: usize,
    seed: u64,
    built: (TileMap, Vec<Room>),
    i: int,
)
    requires
        call_ensures(generate_layout, (width, height, seed), built),
        1 <= i < built.1.len(),
    ensures
        corridor_open(built.0@, built.1[i - 1].spec_center(), built.1[i].spec_center(), true)
            || corridor_open(
            built.0@,
            built.1[i - 1].spec_center(),
            built.1[i].spec_center(),
            false,
        ),
{
    let layout = generated(width, height, seed);
    let from = layout.rooms[i - 1].spec_center();
    let to = layout.rooms[i].spec_center();
    if corridor_open(layout.grid, from, to, true) {
    } else {
        assert(corridor_open(layout.grid, from, to, false));
    }
}

} // verus!
