//! Error taxonomy for the session-coordination layer.
//!
//! Every failure is explicit: operations return `Result` and never
//! panic. `message` renders the human-readable reason a client or a
//! log line would show.

use vstd::prelude::*;

verus! {

/// A rejection from the pluggable game's own rules.
#[derive(Debug, Clone, Copy, PartialEq, Eq, Structural)]
pub enum GameError {
    /// The named user is not part of the game's player list.
    UnknownPlayer,
    /// The acting user is not the current player.
    NotYourTurn,
    /// A draw was attempted while the draw deck is empty.
    EmptyDeck,
    /// The action is not valid in the game's current phase.
    WrongPhase,
    /// The princess card can never be played.
    PlayedPrincess,
    /// The acting player does not hold the card named in the action.
    CardNotHeld,
    /// An elimination attempt targeted a player with no hidden cards.
    TargetHasNoCards,
    /// The swap resolution named a player other than the swapped one.
    NotSwappedPlayer,
    /// The payload matched no action the game recognizes.
    MalformedAction,
}

/// A failure from the registry, a room, or the active game.
#[derive(Debug, Clone, Copy, PartialEq, Eq, Structural)]
pub enum Error {
    /// An empty or malformed identifier was supplied.
    InvalidName,
    /// A room with the given name is already registered.
    AlreadyExists,
    /// No room with the given name is registered.
    NotFound,
    /// A game-level action arrived while no game is active.
    NoActiveGame,
    /// The active game rejected the action.
    GameRule(GameError),
}

impl GameError {
    /// The reason rendered for this rejection.
    pub open spec fn message_spec(self) -> Seq<char> {
        match self {
            GameError::UnknownPlayer => "player is not playing"@,
            GameError::NotYourTurn => "not your turn"@,
            GameError::EmptyDeck => "attempted to draw from empty deck"@,
            GameError::WrongPhase => "invalid action during this phase"@,
            GameError::PlayedPrincess => "tried to play princess"@,
            GameError::CardNotHeld => "player doesn't have that card"@,
            GameError::TargetHasNoCards => "target has no cards"@,
            GameError::NotSwappedPlayer => "not swapped player"@,
            GameError::MalformedAction => "unrecognized action payload"@,
        }
    }

    /// Human-readable reason for the rejection.
    pub fn message(&self) -> (r: String)
        ensures
            r@ == self.message_spec(),
    {
        match self {
            GameError::UnknownPlayer => "player is not playing".to_owned(),
            GameError::NotYourTurn => "not your turn".to_owned(),
            GameError::EmptyDeck => "attempted to draw from empty deck".to_owned(),
            GameError::WrongPhase => "invalid action during this phase".to_owned(),
            GameError::PlayedPrincess => "tried to play princess".to_owned(),
            GameError::CardNotHeld => "player doesn't have that card".to_owned(),
            GameError::TargetHasNoCards => "target has no cards".to_owned(),
            GameError::NotSwappedPlayer => "not swapped player".to_owned(),
            GameError::MalformedAction => "unrecognized action payload".to_owned(),
        }
    }
}

impl Error {
    /// The reason rendered for this failure.
    pub open spec fn message_spec(self) -> Seq<char> {
        match self {
            Error::InvalidName => "can't create room without name"@,
            Error::AlreadyExists => "room already exists"@,
            Error::NotFound => "room does not exist"@,
            Error::NoActiveGame => "no game is active"@,
            Error::GameRule(g) => g.message_spec(),
        }
    }

    /// Human-readable reason for the failure.
    pub fn message(&self) -> (r: String)
        ensures
            r@ == self.message_spec(),
    {
        match self {
            Error::InvalidName => "can't create room without name".to_owned(),
            Error::AlreadyExists => "room already exists".to_owned(),
            Error::NotFound => "room does not exist".to_owned(),
            Error::NoActiveGame => "no game is active".to_owned(),
            Error::GameRule(g) => g.message(),
        }
    }
}

} // verus!
