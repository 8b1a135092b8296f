use vstd::prelude::*;

verus! {

/// What the player asked for, already decoded from raw input.
#[derive(Debug, Clone, Copy)]
pub enum Action {
    /// Step by `(dx, dy)`.
    Move(i32, i32),
    ToggleInventory,
    ToggleInvTab,
    InventoryUp,
    InventoryDown,
    UseConsumable,
    ToggleStats,
    Confirm,
    Interact,
    Choice(char),
    /// Leave the game.
    Quit,
    /// Nothing happened this tick.
    Idle,
}

} // verus!
