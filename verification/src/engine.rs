//! The shared loop/dispatch contract: the outcome a game hands back to the
//! driving loop, per-game metadata, the key model the games consume, and the
//! timing decisions of the scheduler.

use vstd::prelude::*;

verus! {

/// Outcome of one dispatched event: either the game goes on, the player
/// quit, or the game reached a terminal state.
#[derive(Clone, Copy, Debug, PartialEq, Eq, Structural)]
pub enum GameAction {
    Continue,
    Quit,
    GameOver,
}

/// Per-game metadata consumed by the game-selection layer.
#[derive(Clone, Debug)]
pub struct GameInfo {
    pub name: String,
    pub description: String,
}

impl GameInfo {
    pub fn new(name: String, description: String) -> (r: GameInfo)
        ensures
            r.name == name,
            r.description == description,
    {
        GameInfo { name, description }
    }
}

/// A key press as the games see it. The embedding shell translates raw
/// terminal events into this closed set and filters out key releases and
/// repeats before dispatching.
#[derive(Clone, Copy, Debug, PartialEq, Eq, Structural)]
pub enum Key {
    Up,
    Down,
    Left,
    Right,
    Enter,
    F(u8),
    Char(char),
    Other,
}

/// How long the loop may block polling for input: the time left until the
/// next tick, never negative.
pub fn poll_timeout(tick_rate_ms: u64, elapsed_ms: u64) -> (r: u64)
    ensures
        r == if elapsed_ms >= tick_rate_ms {
            0u64
        } else {
            (tick_rate_ms - elapsed_ms) as u64
        },
{
    if elapsed_ms >= tick_rate_ms {
        0
    } else {
        tick_rate_ms - elapsed_ms
    }
}

/// Whether enough time has passed since the last tick that the loop must
/// dispatch an update to the active game.
pub fn tick_due(tick_rate_ms: u64, elapsed_ms: u64) -> (r: bool)
    ensures
        r == (elapsed_ms >= tick_rate_ms),
{
    elapsed_ms >= tick_rate_ms
}

/// Whether an outcome terminates the per-game loop: both a player quit and
/// a terminal game state end it; only `Continue` keeps it running.
pub fn ends_loop(action: &GameAction) -> (r: bool)
    ensures
        r == !(action is Continue),
{
    match action {
        GameAction::Continue => false,
        GameAction::Quit => true,
        GameAction::GameOver => true,
    }
}

} // verus!
