use crate::map::tile::Tile;
use crate::map::{on_grid, TileMap};
use vstd::prelude::*;

verus! {

/// The hit points every player starts with.
pub const STARTING_HP: i32 = 30;

/// The player: a position on the current map and hit points.
#[derive(Debug, Clone, Copy)]
pub struct Player {
    pub x: i32,
    pub y: i32,
    pub hp: i32,
}

impl Player {
    /// Whether the player stands on a cell of `grid`.
    pub open spec fn is_on(&self, grid: Seq<Seq<Tile>>) -> bool {
        on_grid(grid, self.x as int, self.y as int)
    }

    /// Whether a step by `(dx, dy)` is taken: the cell it leads to must lie
    /// on the grid, be walkable, and have coordinates a player can hold.
    pub open spec fn can_step(&self, dx: i32, dy: i32, grid: Seq<Seq<Tile>>) -> bool {
        let nx = self.x + dx;
        let ny = self.y + dy;
        &&& on_grid(grid, nx, ny)
        &&& nx <= i32::MAX
        &&& ny <= i32::MAX
        &&& grid[ny][nx].walkable()
    }

    /// The player after trying a step by `(dx, dy)` on `grid`: moved if the
    /// step is taken, unchanged if it is not.
    pub open spec fn stepped(&self, dx: i32, dy: i32, grid: Seq<Seq<Tile>>) -> Player {
        if self.can_step(dx, dy, grid) {
            Player { x: (self.x + dx) as i32, y: (self.y + dy) as i32, hp: self.hp }
        } else {
            *self
        }
    }

    /// A player at `(x, y)` with full hit points.
    pub fn new(x: i32, y: i32) -> (player: Player)
        ensures
            player == (Player { x, y, hp: STARTING_HP }),
    {
        Player { x, y, hp: STARTING_HP }
    }

    /// Tries one step by `(dx, dy)`. The step is refused, and the player left
    /// where it is, when the target lies off the map or cannot be walked on.
    pub fn try_move(&mut self, dx: i32, dy: i32, map: &TileMap)
        requires
            map.wf(),
        ensures
            *final(self) == old(self).stepped(dx, dy, map@),
            old(self).is_on(map@) ==> final(self).is_on(map@),
            *final(self) != *old(self) ==> final(self).is_on(map@) && map.at(
                final(self).x as int,
                final(self).y as int,
            ) != Tile::Wall,
    {
        let nx: i64 = self.x as i64 + dx as i64;
        let ny: i64 = self.y as i64 + dy as i64;
        if nx < 0 || ny < 0 || nx > i32::MAX as i64 || ny > i32::MAX as i64 {
            return ;
        }
        if nx as u64 >= map.width as u64 || ny as u64 >= map.height as u64 {
            return ;
        }
        if map.is_walkable(nx as usize, ny as usize) {
            self.x = nx as i32;
            self.y = ny as i32;
        }
    }
}

} // verus!
