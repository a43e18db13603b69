//! Plain data carried across the session boundary: the session status, the
//! resolved caller origin, the notifications the store emits, and the errors
//! its operations return.

use vstd::prelude::*;

verus! {

/// The status of the shared session. Exactly one value is current at any
/// time; it alone decides which operations are legal.
#[derive(Clone, Copy, PartialEq, Eq, Structural, Debug)]
pub enum GameState {
    CurrentlyPlaying,
    Ended,
}

impl Default for GameState {
    /// A store begins with no session running.
    fn default() -> (s: Self)
        ensures
            s == GameState::Ended,
    {
        GameState::Ended
    }
}

/// A caller whose credential has already been resolved upstream: either the
/// authority permitted to start and end sessions, or a signed account acting
/// for itself.
#[derive(Clone, Copy, PartialEq, Eq, Structural, Debug)]
pub enum Origin {
    Root,
    Signed(u64),
}

/// A notification, recorded in emission order on the store's event log.
#[derive(Clone, Copy, PartialEq, Eq, Structural, Debug)]
pub enum GameEvent {
    GameStarted,
    GameEnded,
    GameWonBy(u64, u64),
    NewPlayerJoined(u64),
    ScoreAddedFor(u64, u64),
    NoWinnerInThisMatch,
}

/// Why an operation was rejected. Every rejection is detected before any
/// mutation, so a failed call leaves the store exactly as it was.
#[derive(Clone, Copy, PartialEq, Eq, Structural, Debug)]
pub enum GameError {
    /// The caller lacks the authority required for this operation.
    Unauthorized,
    /// Starting was asked for while a session is already running.
    GameAlreadyStarted,
    /// Ending, or submitting a score, was asked for while no session runs.
    GameAlreadyEnded,
}

} // verus!
