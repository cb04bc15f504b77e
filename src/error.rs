//! Error kinds of the field arithmetic, the deck and the coordinator.
use crate::types::BaseState;
use vstd::prelude::*;

verus! {

/// Failures of the field and curve arithmetic.
#[derive(Clone, Copy, Debug, PartialEq, Eq, Structural)]
pub enum FieldError {
    /// A compressed coordinate above (q - 1) / 2.
    DeltaOutOfRange,
    /// A compressed point that does not satisfy the curve equation.
    PointNotOnCurve,
    /// Inverse of zero.
    InverseUndefined,
}

impl FieldError {
    /// The error's message.
    pub fn message(&self) -> (r: &'static str)
        ensures
            *self == FieldError::DeltaOutOfRange ==> r@ == "delta out of range"@,
            *self == FieldError::PointNotOnCurve ==> r@ == "point not on curve"@,
            *self == FieldError::InverseUndefined ==> r@ == "inverse undefined"@,
    {
        match self {
            FieldError::DeltaOutOfRange => "delta out of range",
            FieldError::PointNotOnCurve => "point not on curve",
            FieldError::InverseUndefined => "inverse undefined",
        }
    }
}

/// Failures of the compressed-deck conversions.
#[derive(Clone, Copy, Debug, PartialEq, Eq, Structural)]
pub enum DeckError {
    /// The two decks are of different kinds.
    ConfigMismatch,
    /// A deck whose arrays do not have the kind's length.
    LengthMismatch,
}

/// Failures of the coordinator's commands.
#[derive(Clone, Copy, Debug, PartialEq, Eq, Structural)]
pub enum ContractError {
    /// Delta out of range, inverse undefined, or a point off the curve.
    Field(FieldError),
    /// A compressed deck of the wrong kind or length.
    Deck(DeckError),
    /// The sender is not the game's owner.
    Unauthorized,
    /// No active game with this id.
    GameNotFound { game_id: u64 },
    /// Every player is already registered.
    GameFull { game_id: u64 },
    /// The command is not allowed in the game's phase.
    InvalidState { game_id: u64, expected: BaseState, actual: BaseState },
    /// The sender does not hold the turn, or the turn is not back at player 0.
    NotPlayersTurn { game_id: u64 },
    /// No players, a player index out of range, or a key off the curve.
    InvalidPlayer,
    /// A card index out of range.
    InvalidCardIndex,
    /// The selected cards and the arrays sent with them do not match.
    InvalidCardSelection,
    /// The player already decrypted this card.
    AlreadyDecrypted,
    /// A callback was expected and none is stored.
    MissingCallback,
    /// The operation is not offered.
    NotSupported,
}

} // verus!
