//! The floor cells of a map, listed in the order in which the map is read,
//! and the spawn point that the list yields.

use crate::map::tile::Tile;
use crate::map::{is_floor, scanned_before, TileMap};
use vstd::prelude::*;

verus! {

/// Whether `cell` names a cell of a `width` by `height` map.
pub open spec fn on_map(cell: (i32, i32), width: usize, height: usize) -> bool {
    0 <= cell.0 < width && 0 <= cell.1 < height
}

/// Checks at run time whether `cell` names a cell of a `width` by `height`
/// map.
pub fn is_on_map(cell: (i32, i32), width: usize, height: usize) -> (ok: bool)
    ensures
        ok == on_map(cell, width, height),
{
    0 <= cell.0 && 0 <= cell.1 && (cell.0 as u64) < width as u64 && (cell.1 as u64) < height as u64
}

/// The floor cells among the first `upto` cells of row `y`, left to right.
pub open spec fn row_floors(row: Seq<Tile>, y: int, upto: nat) -> Seq<(i32, i32)>
    decreases upto,
{
    if upto == 0 {
        Seq::empty()
    } else {
        let x = upto - 1;
        let before = row_floors(row, y, x as nat);
        if row[x] == Tile::Floor {
            before.push((x as i32, y as i32))
        } else {
            before
        }
    }
}

/// The floor cells of the first `rows` rows, row by row.
pub open spec fn rows_floors(grid: Seq<Seq<Tile>>, rows: nat) -> Seq<(i32, i32)>
    decreases rows,
{
    if rows == 0 {
        Seq::empty()
    } else {
        let y = rows - 1;
        rows_floors(grid, y as nat) + row_floors(grid[y], y, grid[y].len())
    }
}

/// Every floor cell of the grid, in row-major order.
pub open spec fn floor_cells(grid: Seq<Seq<Tile>>) -> Seq<(i32, i32)> {
    rows_floors(grid, grid.len())
}

/// Every floor cell of `map`, in row-major order.
pub fn collect_floors(map: &TileMap) -> (floors: Vec<(i32, i32)>)
    requires
        map.wf(),
        map.width <= i32::MAX,
        map.height <= i32::MAX,
    ensures
        floors@ == floor_cells(map@),
        forall|k: int|
            0 <= k < floors.len() ==> on_map(#[trigger] floors[k], map.width, map.height),
        forall|k: int|
            0 <= k < floors.len() ==> map.at((#[trigger] floors[k]).0 as int, floors[k].1 as int)
                == Tile::Floor,
{
    let mut floors: Vec<(i32, i32)> = Vec::new();
    let mut y: usize = 0;
    while y < map.height
        invariant
            map.wf(),
            map.width <= i32::MAX,
            map.height <= i32::MAX,
            y <= map.height,
            floors@ == rows_floors(map@, y as nat),
            forall|k: int|
                0 <= k < floors.len() ==> on_map(#[trigger] floors[k], map.width, map.height),
            forall|k: int|
                0 <= k < floors.len() ==> map.at(
                    (#[trigger] floors[k]).0 as int,
                    floors[k].1 as int,
                ) == Tile::Floor,
        decreases map.height - y,
    {
        let ghost done = floors@;
        let mut x: usize = 0;
        while x < map.width
            invariant
                map.wf(),
                map.width <= i32::MAX,
                map.height <= i32::MAX,
                y < map.height,
                x <= map.width,
                done == rows_floors(map@, y as nat),
                floors@ == done + row_floors(map@[y as int], y as int, x as nat),
                forall|k: int|
                    0 <= k < floors.len() ==> on_map(#[trigger] floors[k], map.width, map.height),
                forall|k: int|
                    0 <= k < floors.len() ==> map.at(
                        (#[trigger] floors[k]).0 as int,
                        floors[k].1 as int,
                    ) == Tile::Floor,
            decreases map.width - x,
        {
            let ghost row_before = row_floors(map@[y as int], y as int, x as nat);
            if map.get(x, y) == Tile::Floor {
                floors.push((x as i32, y as i32));
                assert(floors@ =~= done + row_before.push((x as i32, y as i32)));
            }
            x += 1;
        }
        y += 1;
    }
    floors
}

/// Where the player enters a map that has no floor at all.
pub const FALLBACK_SPAWN: (i32, i32) = (1, 1);

/// The spawn point of a grid: its first floor cell in row-major order, or
/// `FALLBACK_SPAWN` when it has none.
pub open spec fn spawn_of(grid: Seq<Seq<Tile>>) -> (i32, i32) {
    if floor_cells(grid).len() == 0 {
        FALLBACK_SPAWN
    } else {
        floor_cells(grid)[0]
    }
}

/// A stretch of a row without floor contributes no floor cell.
proof fn lemma_row_floors_none(row: Seq<Tile>, y: int, upto: nat)
    requires
        upto <= row.len(),
        forall|x: int| 0 <= x < upto ==> row[x] != Tile::Floor,
    ensures
        row_floors(row, y, upto) == Seq::<(i32, i32)>::empty(),
    decreases upto,
{
    if upto > 0 {
        lemma_row_floors_none(row, y, (upto - 1) as nat);
    }
}

/// The floor cells of a row begin with the leftmost floor cell of the row.
proof fn lemma_row_floors_first(row: Seq<Tile>, y: int, x: int, upto: nat)
    requires
        0 <= x < upto <= row.len(),
        row[x] == Tile::Floor,
        forall|cx: int| 0 <= cx < x ==> row[cx] != Tile::Floor,
    ensures
        row_floors(row, y, upto).len() > 0,
        row_floors(row, y, upto)[0] == (x as i32, y as i32),
    decreases upto,
{
    if upto == x + 1 {
        lemma_row_floors_none(row, y, x as nat);
    } else {
        lemma_row_floors_first(row, y, x, (upto - 1) as nat);
    }
}

/// Rows without floor contribute no floor cell.
proof fn lemma_rows_floors_none(grid: Seq<Seq<Tile>>, rows: nat)
    requires
        rows <= grid.len(),
        forall|x: int, y: int|
            0 <= y < rows && 0 <= x < grid[y].len() ==> (#[trigger] grid[y][x]) != Tile::Floor,
    ensures
        rows_floors(grid, rows) == Seq::<(i32, i32)>::empty(),
    decreases rows,
{
    if rows > 0 {
        let y = rows - 1;
        lemma_rows_floors_none(grid, y as nat);
        assert forall|x: int| 0 <= x < grid[y].len() implies grid[y][x] != Tile::Floor by {}
        lemma_row_floors_none(grid[y], y, grid[y].len());
    }
}

/// The floor cells of a grid begin with its first floor cell in row-major
/// order.
proof fn lemma_rows_floors_first(grid: Seq<Seq<Tile>>, x: int, y: int, rows: nat)
    requires
        0 <= y < rows <= grid.len(),
        0 <= x < grid[y].len(),
        grid[y][x] == Tile::Floor,
        forall|cx: int, cy: int|
            0 <= cy < grid.len() && 0 <= cx < grid[cy].len() && scanned_before(cx, cy, x, y) ==> (
            #[trigger] grid[cy][cx]) != Tile::Floor,
    ensures
        rows_floors(grid, rows).len() > 0,
        rows_floors(grid, rows)[0] == (x as i32, y as i32),
    decreases rows,
{
    if rows == y + 1 {
        assert forall|cx: int, cy: int|
            0 <= cy < y && 0 <= cx < grid[cy].len() implies (#[trigger] grid[cy][cx])
            != Tile::Floor by {
            assert(scanned_before(cx, cy, x, y));
        }
        lemma_rows_floors_none(grid, y as nat);
        assert forall|cx: int| 0 <= cx < x implies grid[y][cx] != Tile::Floor by {
            assert(scanned_before(cx, y, x, y));
        }
        lemma_row_floors_first(grid[y], y, x, grid[y].len());
    } else {
        lemma_rows_floors_first(grid, x, y, (rows - 1) as nat);
    }
}

/// The spawn point of `map`: its first floor cell, or `FALLBACK_SPAWN` when
/// it has none.
pub fn find_spawn(map: &TileMap) -> (spawn: (i32, i32))
    requires
        map.wf(),
        map.width <= i32::MAX,
        map.height <= i32::MAX,
    ensures
        spawn == spawn_of(map@),
        map.has_no_floor() <==> floor_cells(map@).len() == 0,
        !map.has_no_floor() ==> map.is_first_floor(spawn.0 as int, spawn.1 as int),
{
    match map.find_first_floor() {
        Some((x, y)) => {
            proof {
                assert forall|cx: int, cy: int|
                    0 <= cy < map@.len() && 0 <= cx < map@[cy].len() && scanned_before(
                        cx,
                        cy,
                        x as int,
                        y as int,
                    ) implies (#[trigger] map@[cy][cx]) != Tile::Floor by {
                    assert(map.at(cx, cy) != Tile::Floor);
                }
                lemma_rows_floors_first(map@, x as int, y as int, map@.len());
                assert(map.at(x as int, y as int) == Tile::Floor);
            }
            (x as i32, y as i32)
        },
        None => {
            proof {
                assert forall|cx: int, cy: int|
                    0 <= cy < map@.len() && 0 <= cx < map@[cy].len() implies (
                #[trigger] map@[cy][cx]) != Tile::Floor by {
                    assert(map.at(cx, cy) != Tile::Floor);
                }
                lemma_rows_floors_none(map@, map@.len());
            }
            FALLBACK_SPAWN
        },
    }
}

/// Whether the cells of `cells` come in row-major order, none of them twice.
pub open spec fn in_scan_order(cells: Seq<(i32, i32)>) -> bool {
    forall|i: int, j: int|
        #![trigger cells[i], cells[j]]
        0 <= i < j < cells.len() ==> scanned_before(
            cells[i].0 as int,
            cells[i].1 as int,
            cells[j].0 as int,
            cells[j].1 as int,
        )
}

/// The floor cells taken from the start of a row lie in that row, before the
/// point up to which the row was read, and come left to right.
proof fn lemma_row_floors_ordered(row: Seq<Tile>, y: int, upto: nat)
    requires
        0 <= y <= i32::MAX,
        upto <= row.len() <= i32::MAX,
    ensures
        in_scan_order(row_floors(row, y, upto)),
        forall|k: int|
            0 <= k < row_floors(row, y, upto).len() ==> {
                &&& (#[trigger] row_floors(row, y, upto)[k]).1 == y
                &&& 0 <= row_floors(row, y, upto)[k].0 < upto
            },
    decreases upto,
{
    if upto > 0 {
        lemma_row_floors_ordered(row, y, (upto - 1) as nat);
    }
}

/// The floor cells of the first rows of a grid lie in those rows and come in
/// row-major order.
proof fn lemma_rows_floors_ordered(grid: Seq<Seq<Tile>>, rows: nat)
    requires
        rows <= grid.len() <= i32::MAX,
        forall|y: int| 0 <= y < grid.len() ==> (#[trigger] grid[y]).len() <= i32::MAX,
    ensures
        in_scan_order(rows_floors(grid, rows)),
        forall|k: int|
            0 <= k < rows_floors(grid, rows).len() ==> 0 <= (#[trigger] rows_floors(
                grid,
                rows,
            )[k]).1 < rows,
    decreases rows,
{
    if rows > 0 {
        let y = rows - 1;
        lemma_rows_floors_ordered(grid, y as nat);
        lemma_row_floors_ordered(grid[y], y, grid[y].len());
    }
}

/// A floor cell of a row is among the floor cells taken from any stretch of
/// the row that reaches past it.
proof fn lemma_row_floor_is_listed(row: Seq<Tile>, y: int, x: int, upto: nat)
    requires
        0 <= x < upto <= row.len(),
        row[x] == Tile::Floor,
    ensures
        row_floors(row, y, upto).contains((x as i32, y as i32)),
    decreases upto,
{
    let before = row_floors(row, y, (upto - 1) as nat);
    if upto == x + 1 {
        assert(before.push((x as i32, y as i32))[before.len() as int] == (x as i32, y as i32));
    } else {
        lemma_row_floor_is_listed(row, y, x, (upto - 1) as nat);
        let k = choose|k: int| 0 <= k < before.len() && before[k] == (x as i32, y as i32);
        assert(row_floors(row, y, upto)[k] == (x as i32, y as i32));
    }
}

/// Every floor cell of a grid is among its floor cells.
proof fn lemma_floor_is_listed(grid: Seq<Seq<Tile>>, x: int, y: int, rows: nat)
    requires
        0 <= y < rows <= grid.len(),
        0 <= x < grid[y].len(),
        grid[y][x] == Tile::Floor,
    ensures
        rows_floors(grid, rows).contains((x as i32, y as i32)),
    decreases rows,
{
    let above = rows_floors(grid, (rows - 1) as nat);
    let row = row_floors(grid[rows - 1], rows - 1, grid[rows - 1].len());
    if rows == y + 1 {
        lemma_row_floor_is_listed(grid[y], y, x, grid[y].len());
        let k = choose|k: int| 0 <= k < row.len() && row[k] == (x as i32, y as i32);
        assert((above + row)[above.len() + k] == (x as i32, y as i32));
    } else {
        lemma_floor_is_listed(grid, x, y, (rows - 1) as nat);
        let k = choose|k: int| 0 <= k < above.len() && above[k] == (x as i32, y as i32);
        assert((above + row)[k] == (x as i32, y as i32));
    }
}

/// A grid with two different floor cells has at least two floor cells in its
/// list.
pub proof fn lemma_two_floors_are_listed(grid: Seq<Seq<Tile>>, a: (int, int), b: (int, int))
    requires
        grid.len() <= i32::MAX,
        forall|y: int| 0 <= y < grid.len() ==> (#[trigger] grid[y]).len() <= i32::MAX,
        is_floor(grid, a.0, a.1),
        is_floor(grid, b.0, b.1),
        a != b,
    ensures
        floor_cells(grid).len() >= 2,
{
    lemma_floor_is_listed(grid, a.0, a.1, grid.len());
    lemma_floor_is_listed(grid, b.0, b.1, grid.len());
}

/// The floor cells of a grid come in row-major order, none of them twice.
pub proof fn lemma_floor_cells_are_ordered(grid: Seq<Seq<Tile>>)
    requires
        grid.len() <= i32::MAX,
        forall|y: int| 0 <= y < grid.len() ==> (#[trigger] grid[y]).len() <= i32::MAX,
    ensures
        in_scan_order(floor_cells(grid)),
{
    lemma_rows_floors_ordered(grid, grid.len());
}

} // verus!
