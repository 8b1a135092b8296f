//! What the terminal front end needs decided for it: which action a key
//! means and which part of the map is on screen.

pub mod input;
pub mod renderer;
