use crate::engine::action::Action;
use vstd::prelude::*;

verus! {

/// The shortest time, in milliseconds, between two moves that are carried
/// out: about eleven moves a second, whatever the key repeat rate.
pub const MOVE_COOLDOWN_MS: u64 = 90;

/// How long, in milliseconds, the loop waits for input before it ticks.
pub const TICK_MS: u64 = 60;

/// The action that is carried out when `action` arrives `since_last_move_ms`
/// after the last move that was carried out: a move that comes too soon is
/// dropped, everything else goes through.
pub open spec fn debounced(action: Action, since_last_move_ms: u64) -> Action {
    if action is Move && since_last_move_ms < MOVE_COOLDOWN_MS {
        Action::Idle
    } else {
        action
    }
}

/// Paces the moves. Returns the action to carry out and whether it is a
/// move, in which case the caller starts timing the cooldown anew.
pub fn debounce(action: Action, since_last_move_ms: u64) -> (paced: (Action, bool))
    ensures
        paced.0 == debounced(action, since_last_move_ms),
        paced.1 == (paced.0 is Move),
{
    match action {
        Action::Move(_, _) => {
            if since_last_move_ms < MOVE_COOLDOWN_MS {
                (Action::Idle, false)
            } else {
                (action, true)
            }
        },
        _ => (action, false),
    }
}

} // verus!
