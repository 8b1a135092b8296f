use crate::engine::text::{append_signed, signed_decimal};
use crate::engine::world::{World, WorldView};
use crate::map::tile::Tile;
use vstd::prelude::*;
use vstd::string::*;

verus! {

/// How many tiles wide the camera is at most.
pub const VIEW_W: i32 = 35;

/// How many tiles tall the camera is at most.
pub const VIEW_H: i32 = 20;

/// Where a window of `view` cells starts on an axis of `map` cells when it
/// is centred on `p` and then pushed back inside the map: first away from
/// the low end, then away from the high end. A window larger than the map
/// starts at 0.
pub open spec fn window_start(p: int, map: int, view: int) -> int {
    let centered = p - view / 2;
    let start = if centered < 0 {
        0
    } else {
        centered
    };
    if start + view > map {
        if map - view > 0 {
            map - view
        } else {
            0
        }
    } else {
        start
    }
}

/// Where the window that starts at `start` ends: `view` cells on, or at the
/// end of the map if that comes first.
pub open spec fn window_end(start: int, map: int, view: int) -> int {
    if start + view < map {
        start + view
    } else {
        map
    }
}

/// One axis of the viewport: the start and the end of the window.
fn window(p: i32, map: i32, view: i32) -> (span: (i32, i32))
    requires
        0 <= view,
    ensures
        span.0 == window_start(p as int, map as int, view as int),
        span.1 == window_end(span.0 as int, map as int, view as int),
{
    let mut start: i64 = p as i64 - (view / 2) as i64;
    if start < 0 {
        start = 0;
    }
    if start + view as i64 > map as i64 {
        start = if map as i64 - view as i64 > 0 {
            map as i64 - view as i64
        } else {
            0
        };
    }
    let end: i64 = if start + (view as i64) < map as i64 {
        start + view as i64
    } else {
        map as i64
    };
    (start as i32, end as i32)
}

/// The part of the map that is on screen, as `(x0, y0, x1, y1)`: columns
/// `x0` up to but not including `x1`, rows `y0` up to but not including
/// `y1`. The window is centred on the player and clamped to the map on each
/// axis by itself; where the map is smaller than the view, it is the whole
/// map.
pub fn compute_viewport(
    px: i32,
    py: i32,
    map_w: i32,
    map_h: i32,
    view_w: i32,
    view_h: i32,
) -> (port: (i32, i32, i32, i32))
    requires
        0 <= view_w,
        0 <= view_h,
    ensures
        port.0 == window_start(px as int, map_w as int, view_w as int),
        port.1 == window_start(py as int, map_h as int, view_h as int),
        port.2 == window_end(port.0 as int, map_w as int, view_w as int),
        port.3 == window_end(port.1 as int, map_h as int, view_h as int),
        0 <= map_w ==> 0 <= port.0 <= port.2 <= map_w && port.2 - port.0 <= view_w,
        0 <= map_h ==> 0 <= port.1 <= port.3 <= map_h && port.3 - port.1 <= view_h,
        0 <= px < map_w && 0 < view_w ==> port.0 <= px < port.2,
        0 <= py < map_h && 0 < view_h ==> port.1 <= py < port.3,
{
    let (x0, x1) = window(px, map_w, view_w);
    let (y0, y1) = window(py, map_h, view_h);
    (x0, y0, x1, y1)
}

/// The camera size for a screen area: the full view where the area has
/// room for it, else as much as the area holds.
pub fn camera_size(area_w: u16, area_h: u16) -> (size: (i32, i32))
    ensures
        size.0 == if area_w < VIEW_W {
            area_w as int
        } else {
            VIEW_W as int
        },
        size.1 == if area_h < VIEW_H {
            area_h as int
        } else {
            VIEW_H as int
        },
{
    let w: i32 = if (area_w as i32) < VIEW_W {
        area_w as i32
    } else {
        VIEW_W
    };
    let h: i32 = if (area_h as i32) < VIEW_H {
        area_h as i32
    } else {
        VIEW_H
    };
    (w, h)
}

/// What is drawn in one cell of the screen.
#[derive(Debug, Clone, Copy, PartialEq, Eq, Structural)]
pub enum Glyph {
    Player,
    Wall,
    Floor,
    DoorForward,
    DoorBack,
}

/// What stands for a tile on screen.
pub open spec fn spec_glyph_for(tile: Tile) -> Glyph {
    match tile {
        Tile::Wall => Glyph::Wall,
        Tile::Floor => Glyph::Floor,
        Tile::DoorForward => Glyph::DoorForward,
        Tile::DoorBack => Glyph::DoorBack,
    }
}

/// What stands for a tile on screen.
#[verifier::when_used_as_spec(spec_glyph_for)]
pub fn glyph_for(tile: Tile) -> (glyph: Glyph)
    ensures
        glyph == spec_glyph_for(tile),
{
    match tile {
        Tile::Wall => Glyph::Wall,
        Tile::Floor => Glyph::Floor,
        Tile::DoorForward => Glyph::DoorForward,
        Tile::DoorBack => Glyph::DoorBack,
    }
}

/// What is drawn for the cell `(x, y)` of the current map: the player where
/// the player stands, else the tile.
pub open spec fn glyph_at(world: WorldView, x: int, y: int) -> Glyph {
    if x == world.player.x && y == world.player.y {
        Glyph::Player
    } else {
        spec_glyph_for(world.grid()[y][x])
    }
}

/// The viewport of `world` for a camera of the given size.
pub open spec fn viewport_of(world: WorldView, view_w: int, view_h: int) -> (int, int, int, int) {
    let x0 = window_start(world.player.x as int, world.width as int, view_w);
    let y0 = window_start(world.player.y as int, world.height as int, view_h);
    let x1 = window_end(x0, world.width as int, view_w);
    let y1 = window_end(y0, world.height as int, view_h);
    (x0, y0, x1, y1)
}

/// The glyphs of the visible part of the current map, row by row, for a
/// camera of `view_w` by `view_h` tiles.
pub fn visible_rows(world: &World, view_w: i32, view_h: i32) -> (rows: Vec<Vec<Glyph>>)
    requires
        world.wf(),
        0 <= view_w,
        0 <= view_h,
    ensures
        ({
            let port = viewport_of(world@, view_w as int, view_h as int);
            &&& rows.len() == port.3 - port.1
            &&& forall|j: int|
                0 <= j < rows.len() ==> {
                    &&& (#[trigger] rows[j]).len() == port.2 - port.0
                    &&& forall|i: int|
                        0 <= i < rows[j].len() ==> (#[trigger] rows[j][i]) == glyph_at(
                            world@,
                            port.0 + i,
                            port.1 + j,
                        )
                }
        }),
{
    let map = world.current_map();
    let px: i32 = world.player.x;
    let py: i32 = world.player.y;
    let (x0, y0, x1, y1) = compute_viewport(
        px,
        py,
        map.width as i32,
        map.height as i32,
        view_w,
        view_h,
    );
    let mut rows: Vec<Vec<Glyph>> = Vec::new();
    let mut wy: i32 = y0;
    while wy < y1
        invariant
            world.wf(),
            *map == world.levels@.last().map,
            px == world.player.x,
            py == world.player.y,
            0 <= x0 <= x1 <= map.width,
            0 <= y0 <= wy <= y1 <= map.height,
            rows.len() == wy - y0,
            forall|j: int|
                0 <= j < rows.len() ==> {
                    &&& (#[trigger] rows[j]).len() == x1 - x0
                    &&& forall|i: int|
                        0 <= i < rows[j].len() ==> (#[trigger] rows[j][i]) == glyph_at(
                            world@,
                            x0 + i,
                            y0 + j,
                        )
                },
        decreases y1 - wy,
    {
        let mut row: Vec<Glyph> = Vec::new();
        let mut wx: i32 = x0;
        while wx < x1
            invariant
                world.wf(),
                *map == world.levels@.last().map,
                px == world.player.x,
                py == world.player.y,
                0 <= x0 <= wx <= x1 <= map.width,
                0 <= y0 <= wy < y1 <= map.height,
                row.len() == wx - x0,
                forall|i: int|
                    0 <= i < row.len() ==> (#[trigger] row[i]) == glyph_at(
                        world@,
                        x0 + i,
                        wy as int,
                    ),
            decreases x1 - wx,
        {
            if wx == px && wy == py {
                row.push(Glyph::Player);
            } else {
                row.push(glyph_for(map.get(wx as usize, wy as usize)));
            }
            wx += 1;
        }
        rows.push(row);
        wy += 1;
    }
    rows
}

/// The hit points shown in the side panel.
pub open spec fn hp_text(hp: i32) -> Seq<char> {
    signed_decimal(hp as int) + "/"@ + signed_decimal(hp as int)
}

/// The position shown in the side panel.
pub open spec fn position_text(x: i32, y: i32) -> Seq<char> {
    "Pos: ("@ + signed_decimal(x as int) + ", "@ + signed_decimal(y as int) + ")"@
}

/// The hit points shown in the side panel: current over full.
pub fn hp_line(hp: i32) -> (line: String)
    ensures
        line@ == hp_text(hp),
{
    let mut line = String::from_str("");
    proof {
        reveal_strlit("");
    }
    append_signed(&mut line, hp);
    line.append("/");
    append_signed(&mut line, hp);
    assert(line@ =~= hp_text(hp));
    line
}

/// The position shown in the side panel.
pub fn position_line(x: i32, y: i32) -> (line: String)
    ensures
        line@ == position_text(x, y),
{
    let mut line = String::from_str("Pos: (");
    append_signed(&mut line, x);
    line.append(", ");
    append_signed(&mut line, y);
    line.append(")");
    line
}

} // verus!
