//! A seed-driven dungeon: tile maps, a room-and-corridor generator, and a
//! stack of levels that the player descends and climbs through doors.
//!
//! Everything here is verified with Verus. The terminal front end lives outside
//! this crate and talks to it through [`engine::world::World`].

pub mod engine;
pub mod map;
pub mod rng;
pub mod tui;
