//! The server's game states.
use vstd::prelude::*;

verus! {

/// A state of the server's game state machine.
#[derive(Clone, Copy, Debug, PartialEq, Eq)]
pub enum GameState {
    Menu,
    Lobby,
    Paused,
    Running,
}

} // verus!
