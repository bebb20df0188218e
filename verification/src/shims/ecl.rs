//! The client's game states.
use vstd::prelude::*;

verus! {

/// A state of the client's game state machine.
#[derive(Clone, Copy, Debug, PartialEq, Eq)]
pub enum GameState {
    Menu,
    Lobby,
    Paused,
    Running,
}

} // verus!
