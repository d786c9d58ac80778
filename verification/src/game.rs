//! The states of a game and of a timer.
use vstd::prelude::*;

verus! {

/// What the game is doing.
#[allow(non_camel_case_types)]
#[derive(Clone, Copy, Debug, PartialEq, Eq, Structural)]
pub enum GameState {
    ACTIVE,
    MENU,
    WIN,
    LOSE,
    TRANSITION,
}

/// How far a timer has come.
#[allow(non_camel_case_types)]
#[derive(Clone, Copy, Debug, PartialEq, Eq, Structural)]
pub enum TimerState {
    UNSTARTED,
    RUNNING,
    PAUSED,
    READY,
    STOPPED,
    COMPLETED,
}

} // verus!
