//! Where a freshly carved map gets its doors, and the seeds they are drawn
//! from.

use crate::engine::floors::{floor_cells, lemma_floor_cells_are_ordered, on_map, spawn_of};
use crate::map::tile::Tile;
use crate::map::{scanned_before, with_tile, TileMap};
use crate::rng::{draw_in_range, rng_state, uniform_draw};
use rand::rngs::StdRng;
use vstd::prelude::*;

verus! {

/// The step by which the seed moves from one depth to the next.
pub const DEPTH_STRIDE: u64 = 9_973;

/// What separates the seed of a level's door from the seed of its rooms.
pub const DOOR_SALT: u64 = 0xA11CE;

/// How often the forward door is drawn again after landing on the spawn
/// point, before the last floor tile is taken instead.
pub const MAX_DOOR_DRAWS: usize = 4096;

/// The seed of the level at `depth`: the base seed moved on by
/// `DEPTH_STRIDE` per level, wrapping around at the end of `u64`.
pub open spec fn spec_level_seed(base_seed: u64, depth: usize) -> u64 {
    base_seed.wrapping_add((depth as u64).wrapping_mul(DEPTH_STRIDE))
}

/// The seed of the level at `depth`.
#[verifier::when_used_as_spec(spec_level_seed)]
pub fn level_seed(base_seed: u64, depth: usize) -> (seed: u64)
    ensures
        seed == spec_level_seed(base_seed, depth),
{
    base_seed.wrapping_add((depth as u64).wrapping_mul(DEPTH_STRIDE))
}

/// The seed from which a level's forward door is drawn.
pub open spec fn spec_door_seed(seed: u64) -> u64 {
    seed ^ DOOR_SALT
}

/// The seed from which a level's forward door is drawn: kept apart from the
/// seed of the rooms so that the two random streams are independent.
#[verifier::when_used_as_spec(spec_door_seed)]
pub fn door_seed(seed: u64) -> (salted: u64)
    ensures
        salted == spec_door_seed(seed),
{
    seed ^ DOOR_SALT
}

/// The forward door drawn from `floors` with at most `tries` draws left:
/// the first drawn floor cell that is not the spawn point, or the last
/// floor cell when every draw lands on the spawn point.
pub open spec fn drawn_door(
    floors: Seq<(i32, i32)>,
    spawn: (i32, i32),
    rng: Seq<u8>,
    tries: nat,
) -> ((i32, i32), Seq<u8>)
    decreases tries,
{
    if tries == 0 {
        (floors.last(), rng)
    } else {
        let (index, rng_after) = uniform_draw(rng, 0, (floors.len() - 1) as usize);
        if floors[index as int] != spawn {
            (floors[index as int], rng_after)
        } else {
            drawn_door(floors, spawn, rng_after, (tries - 1) as nat)
        }
    }
}

/// Where the forward door goes: on a drawn floor cell other than the spawn
/// point when there is more than one floor cell, else on the spawn point.
pub open spec fn forward_door_of(floors: Seq<(i32, i32)>, spawn: (i32, i32), rng: Seq<u8>) -> (
    i32,
    i32,
) {
    if floors.len() > 1 {
        drawn_door(floors, spawn, rng, MAX_DOOR_DRAWS as nat).0
    } else {
        spawn
    }
}

/// Picks the cell of the forward door.
///
/// With more than one floor cell to choose from, cells are drawn uniformly
/// until one differs from `spawn`. With one or none, the door falls on the
/// spawn point itself.
pub fn choose_forward_door(
    floors: &Vec<(i32, i32)>,
    spawn: (i32, i32),
    rng: &mut StdRng,
) -> (door: (i32, i32))
    ensures
        door == forward_door_of(floors@, spawn, rng_state(*old(rng))),
        door == spawn || exists|k: int| 0 <= k < floors.len() && floors[k] == door,
        floors.len() <= 1 ==> rng_state(*final(rng)) == rng_state(*old(rng)),
        floors.len() > 1 ==> rng_state(*final(rng)) == drawn_door(
            floors@,
            spawn,
            rng_state(*old(rng)),
            MAX_DOOR_DRAWS as nat,
        ).1,
{
    if floors.len() <= 1 {
        return spawn;
    }
    let mut tries: usize = MAX_DOOR_DRAWS;
    while tries > 0
        invariant
            floors.len() > 1,
            tries <= MAX_DOOR_DRAWS,
            drawn_door(floors@, spawn, rng_state(*rng), tries as nat) == drawn_door(
                floors@,
                spawn,
                rng_state(*old(rng)),
                MAX_DOOR_DRAWS as nat,
            ),
        decreases tries,
    {
        let index: usize = draw_in_range(rng, 0, floors.len() - 1);
        let candidate = floors[index];
        if candidate.0 != spawn.0 || candidate.1 != spawn.1 {
            return candidate;
        }
        tries -= 1;
    }
    floors[floors.len() - 1]
}

/// The grid with `tile` at `cell` and every other cell as it was.
pub open spec fn stamped(grid: Seq<Seq<Tile>>, cell: (i32, i32), tile: Tile) -> Seq<Seq<Tile>> {
    with_tile(grid, cell.0 as int, cell.1 as int, tile)
}

/// Puts `tile` on `cell`.
pub fn stamp(map: &mut TileMap, cell: (i32, i32), tile: Tile)
    requires
        old(map).wf(),
        on_map(cell, old(map).width, old(map).height),
    ensures
        final(map).wf(),
        final(map).width == old(map).width,
        final(map).height == old(map).height,
        final(map)@ == stamped(old(map)@, cell, tile),
{
    map.set(cell.0 as usize, cell.1 as usize, tile);
}

/// With two or more floor cells to choose from, the forward door never
/// falls on the spawn point.
pub proof fn lemma_door_is_off_the_spawn(grid: Seq<Seq<Tile>>, rng: Seq<u8>)
    requires
        grid.len() <= i32::MAX,
        forall|y: int| 0 <= y < grid.len() ==> (#[trigger] grid[y]).len() <= i32::MAX,
        floor_cells(grid).len() >= 2,
    ensures
        forward_door_of(floor_cells(grid), spawn_of(grid), rng) != spawn_of(grid),
{
    let floors = floor_cells(grid);
    lemma_floor_cells_are_ordered(grid);
    assert(scanned_before(
        floors[0].0 as int,
        floors[0].1 as int,
        floors[floors.len() - 1].0 as int,
        floors[floors.len() - 1].1 as int,
    ));
    lemma_drawn_door_is_not(floors, spawn_of(grid), rng, MAX_DOOR_DRAWS as nat);
}

/// A drawn door differs from the spawn point whenever the last floor cell
/// does.
proof fn lemma_drawn_door_is_not(
    floors: Seq<(i32, i32)>,
    spawn: (i32, i32),
    rng: Seq<u8>,
    tries: nat,
)
    requires
        floors.len() >= 1,
        floors.last() != spawn,
    ensures
        drawn_door(floors, spawn, rng, tries).0 != spawn,
    decreases tries,
{
    if tries > 0 {
        let (index, rng_after) = uniform_draw(rng, 0, (floors.len() - 1) as usize);
        if floors[index as int] == spawn {
            lemma_drawn_door_is_not(floors, spawn, rng_after, (tries - 1) as nat);
        }
    }
}

} // verus!
