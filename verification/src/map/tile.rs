use vstd::prelude::*;

verus! {

/// One cell of a map.
#[derive(Debug, Clone, Copy, PartialEq, Eq, Structural)]
pub enum Tile {
    /// Solid rock: what every map starts as. Never walkable.
    Wall,
    /// Open ground.
    Floor,
    /// Walkable; stepping on it descends into a fresh level.
    DoorForward,
    /// Walkable; stepping on it climbs back to the previous level.
    DoorBack,
}

impl Tile {
    /// Whether an entity may stand on this tile: everything but a wall.
    pub open spec fn walkable(self) -> bool {
        self == Tile::Floor || self == Tile::DoorForward || self == Tile::DoorBack
    }
}

} // verus!
