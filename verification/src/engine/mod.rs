//! The game state and the rules that move it.

pub mod action;
pub mod doors;
pub mod entity;
pub mod floors;
pub mod game_loop;
pub mod text;
pub mod world;
