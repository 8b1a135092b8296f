use crate::engine::action::Action;
use vstd::prelude::*;

verus! {

/// A key press, as far as the game tells keys apart.
#[derive(Debug, Clone, Copy)]
pub enum Key {
    /// A key that produces a character.
    Char(char),
    Up,
    Down,
    Left,
    Right,
    /// Any other key.
    Other,
}

/// The action a key stands for: `q` quits, the arrow keys and `w`, `a`,
/// `s`, `d` move by one cell, letters count in either case, and every other
/// key does nothing.
pub open spec fn spec_action_for_key(key: Key) -> Action {
    match key {
        Key::Char(c) => if c == 'q' || c == 'Q' {
            Action::Quit
        } else if c == 'w' || c == 'W' {
            Action::Move(0, -1i32)
        } else if c == 's' || c == 'S' {
            Action::Move(0, 1)
        } else if c == 'a' || c == 'A' {
            Action::Move(-1i32, 0)
        } else if c == 'd' || c == 'D' {
            Action::Move(1, 0)
        } else {
            Action::Idle
        },
        Key::Up => Action::Move(0, -1i32),
        Key::Down => Action::Move(0, 1),
        Key::Left => Action::Move(-1i32, 0),
        Key::Right => Action::Move(1, 0),
        Key::Other => Action::Idle,
    }
}

/// The action a key stands for.
#[verifier::when_used_as_spec(spec_action_for_key)]
pub fn action_for_key(key: Key) -> (action: Action)
    ensures
        action == spec_action_for_key(key),
{
    match key {
        Key::Char(c) => {
            if c == 'q' || c == 'Q' {
                Action::Quit
            } else if c == 'w' || c == 'W' {
                Action::Move(0, -1)
            } else if c == 's' || c == 'S' {
                Action::Move(0, 1)
            } else if c == 'a' || c == 'A' {
                Action::Move(-1, 0)
            } else if c == 'd' || c == 'D' {
                Action::Move(1, 0)
            } else {
                Action::Idle
            }
        },
        Key::Up => Action::Move(0, -1),
        Key::Down => Action::Move(0, 1),
        Key::Left => Action::Move(-1, 0),
        Key::Right => Action::Move(1, 0),
        Key::Other => Action::Idle,
    }
}

} // verus!
