//! The game contract a room delegates domain-specific actions to.
//!
//! The set of playable games is closed: a room-type tag picked at
//! room creation selects the variant, and `Game` carries the running
//! instance together with its tag. Both tags currently select the
//! reference card game.

use vstd::prelude::*;

use crate::errors::GameError;
use crate::test_game::{
    fresh_game, game_step, snapshot_matches, GameModel, TestGame, TestGameAction, TestGameState,
};

verus! {

/// Room-type tag, chosen at room creation, selecting which game the
/// room hosts.
#[derive(Debug, Clone, Copy, PartialEq, Eq, Structural)]
pub enum GameType {
    /// The reference card game.
    TestGame,
    /// A second tag for the same reference game, exercising the
    /// closed-variant selection.
    OtherTestGame,
}

impl GameType {
    /// The tags clients may pick at room creation, in display order.
    pub fn names() -> (r: Vec<&'static str>)
        ensures
            r@.len() == 2,
            r@[0]@ == "test_game"@,
            r@[1]@ == "other_test_game"@,
    {
        let mut v: Vec<&'static str> = Vec::new();
        v.push("test_game");
        v.push("other_test_game");
        v
    }

    /// Start the game this tag selects from the ordered roster.
    pub fn create(&self, players: Vec<String>) -> (g: Game)
        requires
            3 * players@.len() + 4 <= usize::MAX,
        ensures
            g.wf(),
            g.kind() == *self,
            fresh_game(g.model(), players@),
    {
        match self {
            GameType::TestGame => Game { kind: GameType::TestGame, inner: TestGame::new(players) },
            GameType::OtherTestGame => Game {
                kind: GameType::OtherTestGame,
                inner: TestGame::new(players),
            },
        }
    }
}

/// A running game instance: the tag that selected it and its state.
#[derive(Debug)]
pub struct Game {
    /// The room-type tag the instance was created from.
    pub kind: GameType,
    /// The running game.
    pub inner: TestGame,
}

impl Game {
    /// The mathematical state of the running game.
    pub open spec fn model(self) -> GameModel {
        self.inner@
    }

    /// The tag the instance was created from.
    pub open spec fn kind(self) -> GameType {
        self.kind
    }

    /// The running game is well formed.
    pub open spec fn wf(self) -> bool {
        self.inner.wf()
    }

    /// Human-readable phase description, purely informational.
    pub fn status(&self) -> (r: String)
        ensures
            r@ == (if self.model().phase is Ended {
                "ended"@
            } else {
                "in game"@
            }),
    {
        self.inner.status()
    }

    /// Whether the instance has reached a terminal condition; decides
    /// whether a restart is allowed.
    pub fn ended(&self) -> (r: bool)
        ensures
            r == (self.model().phase is Ended),
    {
        self.inner.ended()
    }

    /// The current state snapshot, safe to call at any time.
    pub fn state(&self) -> (r: TestGameState)
        requires
            self.wf(),
        ensures
            snapshot_matches(r, self.model()),
    {
        self.inner.state()
    }

    /// Validate and apply one action; `state()` observably advances
    /// exactly as `game_step` says.
    pub fn action(&mut self, action: TestGameAction) -> (r: Result<(), GameError>)
        requires
            old(self).wf(),
        ensures
            final(self).wf(),
            final(self).kind() == old(self).kind(),
            final(self).model() == game_step(old(self).model(), action@).0,
            r == game_step(old(self).model(), action@).1,
    {
        self.inner.action(action)
    }
}

} // verus!
