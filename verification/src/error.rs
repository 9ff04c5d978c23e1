//! The reasons for which an action on a game is refused.

use vstd::prelude::*;

verus! {

/// Why an action was refused. A refused action changes nothing.
#[derive(Clone, Copy, Debug, PartialEq, Eq, Structural)]
pub enum ContractError {
    /// The coordinate lies outside the three by three board.
    InvalidCoordinate,
    /// The addressed cell already holds a mark.
    CellOccupied,
    /// No game is stored under the addressed key.
    GameNotFound,
    /// The game is not in the stage that the action needs.
    InvalidStatus,
    /// The move was submitted by the player who is not to move.
    NotYourTurn,
    /// Host and opponent of an invitation are the same participant.
    SelfInvite,
    /// A game is already stored under the key of the new game.
    DuplicateGame,
}

} // verus!
