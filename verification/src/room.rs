//! One room's session: roster, color assignments, the active game
//! and the subscribed connections.
//!
//! All mutation goes through `action` (or the operations it routes
//! to), which reports the snapshot to broadcast exactly when the
//! action was accepted: rejected actions produce no snapshot and, but
//! for a partial mutation the game itself committed, leave the state
//! unchanged.

use vstd::prelude::*;

use crate::errors::{Error, GameError};
use crate::game::{Game, GameType};
use crate::palette::ColorPicker;
use crate::search::{first_where, lemma_first_where, lemma_first_where_unique};
use crate::test_game::{
    clone_names, fresh_game, game_step, lemma_player_index, model_wf, name_matches, player_index,
    roster_has, snapshot_matches, GameActionModel, GameModel, TestGameAction, TestGameState,
};

verus! {

/// A room-level action: the tagged envelope a room socket frame
/// resolves to. A payload that matches neither the room-level schema
/// nor the game's own schema is `Unrecognized`.
#[derive(Debug)]
pub enum GameRoomAction {
    /// Add a player to the roster.
    JoinGame {
        /// The joining player's display name.
        name: String,
    },
    /// Start (or legitimately restart) the game.
    StartGame,
    /// A payload of the active game's schema, forwarded verbatim.
    Game(TestGameAction),
    /// A payload matching no recognized schema.
    Unrecognized,
}

/// Mathematical model of a `GameRoomAction`.
pub enum RoomActionModel {
    /// Add a player to the roster.
    JoinGame { name: String },
    /// Start (or legitimately restart) the game.
    StartGame,
    /// A payload of the active game's schema.
    Game(GameActionModel),
    /// A payload matching no recognized schema.
    Unrecognized,
}

impl View for GameRoomAction {
    type V = RoomActionModel;

    open spec fn view(&self) -> RoomActionModel {
        match self {
            GameRoomAction::JoinGame { name } => RoomActionModel::JoinGame { name: *name },
            GameRoomAction::StartGame => RoomActionModel::StartGame,
            GameRoomAction::Game(a) => RoomActionModel::Game(a@),
            GameRoomAction::Unrecognized => RoomActionModel::Unrecognized,
        }
    }
}

/// Mathematical model of a room: the roster and its parallel color
/// assignment, the active game's model, and the subscriber ids.
#[verifier::ext_equal]
pub struct RoomModel {
    /// The room-type tag, immutable after creation.
    pub type_: GameType,
    /// The active game, if one was started.
    pub game: Option<GameModel>,
    /// Roster in join order, names unique.
    pub players: Seq<String>,
    /// Color of `players[i]` at index `i`.
    pub colors: Seq<String>,
    /// Subscribed connection ids.
    pub clients: Seq<u128>,
}

/// Each roster entry has exactly one color, names are unique, the
/// game (if any) is well formed, and no subscriber is repeated.
pub open spec fn room_model_wf(m: RoomModel) -> bool {
    &&& m.colors.len() == m.players.len()
    &&& forall|i: int, j: int|
        0 <= i < j < m.players.len() ==> m.players[i]@ != m.players[j]@
    &&& match m.game {
        Some(g) => model_wf(g),
        None => true,
    }
    &&& m.clients.no_duplicates()
}

/// The predicate "this subscriber id is `id`".
pub open spec fn id_matches(id: u128) -> spec_fn(u128) -> bool {
    |x: u128| x == id
}

/// Index of the first occurrence of `id`, or the length if absent.
pub open spec fn client_index(clients: Seq<u128>, id: u128) -> int {
    first_where(clients, id_matches(id))
}

/// The room snapshot pushed to every room subscriber: the game state
/// (absent before the first start), the roster, and the colors.
#[derive(Debug)]
pub struct GameState {
    /// The active game's snapshot, if a game was started.
    pub game: Option<TestGameState>,
    /// Roster in join order.
    pub players: Vec<String>,
    /// Color of `players[i]` at index `i`.
    pub player_colors: Vec<String>,
}

/// What a room snapshot shows: exactly the model `m`.
pub open spec fn room_snapshot_matches(r: GameState, m: RoomModel) -> bool {
    &&& match (r.game, m.game) {
        (Some(s), Some(gm)) => snapshot_matches(s, gm),
        (None, None) => true,
        _ => false,
    }
    &&& r.players@ == m.players
    &&& r.player_colors@ == m.colors
}

/// The public summary of a room shown in the lobby.
#[derive(Debug)]
pub struct GameRoomState {
    /// The room-type tag.
    pub type_: GameType,
    /// Roster in join order.
    pub players: Vec<String>,
    /// Human-readable room status line.
    pub status: String,
}

/// What a lobby summary shows of a room.
pub open spec fn room_summary_matches(r: GameRoomState, m: RoomModel) -> bool {
    &&& r.type_ == m.type_
    &&& r.players@ == m.players
    &&& r.status@ == "waiting on players..."@
}

/// What `join` does: an empty name is rejected, a name already on the
/// roster is an accepted no-op, and a new name is appended with a
/// freshly allocated color.
pub open spec fn join_rel(
    pre: RoomModel,
    post: RoomModel,
    pk0: ColorPicker,
    pk1: ColorPicker,
    name: String,
    r: Result<(), Error>,
) -> bool {
    if name@.len() == 0 {
        &&& r == Err::<(), Error>(Error::InvalidName)
        &&& post == pre
        &&& pk1 == pk0
    } else if roster_has(pre.players, name@) {
        &&& r == Ok::<(), Error>(())
        &&& post == pre
        &&& pk1 == pk0
    } else {
        &&& r == Ok::<(), Error>(())
        &&& exists|c: String|
            {
                &&& #[trigger] ColorPicker::picked(pk0, pk1, c)
                &&& post == (RoomModel {
                    players: pre.players.push(name),
                    colors: pre.colors.push(c),
                    ..pre
                })
            }
    }
}

/// A fresh game was started from the pre-state roster; nothing else
/// changed.
pub open spec fn started(pre: RoomModel, post: RoomModel) -> bool {
    &&& match post.game {
        Some(m) => fresh_game(m, pre.players),
        None => false,
    }
    &&& post.type_ == pre.type_
    &&& post.players == pre.players
    &&& post.colors == pre.colors
    &&& post.clients == pre.clients
}

/// What `start` does: always accepted; a game in progress is left
/// untouched, otherwise a fresh game is dealt from the roster.
pub open spec fn start_rel(pre: RoomModel, post: RoomModel, r: Result<(), Error>) -> bool {
    &&& r == Ok::<(), Error>(())
    &&& match pre.game {
        Some(g) => if !(g.phase is Ended) {
            post == pre
        } else {
            started(pre, post)
        },
        None => started(pre, post),
    }
}

/// What `action` does, per envelope variant: joins and starts as
/// `join_rel` / `start_rel`; a game payload steps the active game by
/// `game_step` (an error while no game is active); an unrecognized
/// payload is an error. An accepted action reports the snapshot of
/// the new state for broadcast, a rejected one reports none.
pub open spec fn action_rel(
    pre: RoomModel,
    post: RoomModel,
    pk0: ColorPicker,
    pk1: ColorPicker,
    a: RoomActionModel,
    r: Result<GameState, Error>,
) -> bool {
    match a {
        RoomActionModel::JoinGame { name } => match r {
            Ok(snap) => join_rel(pre, post, pk0, pk1, name, Ok(()))
                && room_snapshot_matches(snap, post),
            Err(e) => join_rel(pre, post, pk0, pk1, name, Err(e)),
        },
        RoomActionModel::StartGame => match r {
            Ok(snap) => start_rel(pre, post, Ok(())) && room_snapshot_matches(snap, post),
            Err(e) => start_rel(pre, post, Err(e)),
        },
        RoomActionModel::Game(ga) => match pre.game {
            None => {
                &&& post == pre
                &&& pk1 == pk0
                &&& r == Err::<GameState, Error>(Error::NoActiveGame)
            },
            Some(gm) => {
                &&& post == (RoomModel { game: Some(game_step(gm, ga).0), ..pre })
                &&& pk1 == pk0
                &&& match game_step(gm, ga).1 {
                    Ok(u) => match r {
                        Ok(snap) => room_snapshot_matches(snap, post),
                        Err(_) => false,
                    },
                    Err(e) => r == Err::<GameState, Error>(Error::GameRule(e)),
                }
            },
        },
        RoomActionModel::Unrecognized => {
            &&& post == pre
            &&& pk1 == pk0
            &&& match pre.game {
                None => r == Err::<GameState, Error>(Error::NoActiveGame),
                Some(gm) => r == Err::<GameState, Error>(Error::GameRule(
                    GameError::MalformedAction,
                )),
            }
        },
    }
}

/// Broadcasts happen on success only: an action rejected by the room
/// reports no snapshot, and — except the elimination paths that
/// commit a partial card move — leaves the room, its game, and the
/// color allocator unchanged.
pub proof fn lemma_room_rejected_unchanged(
    pre: RoomModel,
    post: RoomModel,
    pk0: ColorPicker,
    pk1: ColorPicker,
    a: RoomActionModel,
    e: Error,
)
    requires
        action_rel(pre, post, pk0, pk1, a, Err(e)),
        e != Error::GameRule(GameError::CardNotHeld),
    ensures
        post == pre,
        pk1 == pk0,
{
    match a {
        RoomActionModel::Game(ga) => {
            match pre.game {
                Some(gm) => {
                    crate::test_game::lemma_rejected_unchanged(gm, ga);
                    assert(post =~= pre);
                },
                None => {
                },
            }
        },
        _ => {
        },
    }
}

/// The model of a freshly created room: no players, no game, no
/// subscribers.
pub open spec fn empty_room_model(type_: GameType) -> RoomModel {
    RoomModel {
        type_: type_,
        game: None::<GameModel>,
        players: Seq::<String>::empty(),
        colors: Seq::<String>::empty(),
        clients: Seq::<u128>::empty(),
    }
}

/// One room's session state.
#[derive(Debug)]
pub struct GameRoom {
    /// The room-type tag, immutable after creation.
    pub type_: GameType,
    /// The active game, if one was started.
    pub game: Option<Game>,
    /// Roster in join order, names unique.
    pub players: Vec<String>,
    /// Color of `players[i]` at index `i`.
    pub player_colors: Vec<String>,
    /// Subscribed connection ids.
    pub clients: Vec<u128>,
}

impl View for GameRoom {
    type V = RoomModel;

    open spec fn view(&self) -> RoomModel {
        RoomModel {
            type_: self.type_,
            game: match self.game {
                Some(g) => Some(g.model()),
                None => None,
            },
            players: self.players@,
            colors: self.player_colors@,
            clients: self.clients@,
        }
    }
}

impl GameRoom {
    /// The model is well formed and the active game (if any) was
    /// created from this room's tag.
    pub open spec fn wf(self) -> bool {
        &&& room_model_wf(self@)
        &&& match self.game {
            Some(g) => g.kind() == self.type_,
            None => true,
        }
    }

    /// An empty room of the given type: no players, no game, no
    /// subscribers.
    pub fn new(type_: GameType) -> (r: GameRoom)
        ensures
            r.wf(),
            r@ == empty_room_model(type_),
    {
        let r = GameRoom {
            type_,
            game: None,
            players: Vec::new(),
            player_colors: Vec::new(),
            clients: Vec::new(),
        };
        proof {
            assert(r@ =~= empty_room_model(type_));
        }
        r
    }

    /// Add `name` to the roster with a freshly allocated color; a
    /// name already present is an accepted no-op, an empty name is
    /// rejected.
    pub fn join(&mut self, name: String, picker: &mut ColorPicker) -> (r: Result<(), Error>)
        requires
            old(self).wf(),
            old(picker).wf(),
        ensures
            final(self).wf(),
            final(picker).wf(),
            join_rel(old(self)@, final(self)@, *old(picker), *final(picker), name, r),
    {
        if name.as_str().is_empty() {
            return Err(Error::InvalidName);
        }
        let mut i: usize = 0;
        while i < self.players.len()
            invariant
                i <= self.players@.len(),
                self == old(self),
                picker == old(picker),
                old(self).wf(),
                old(picker).wf(),
                name@.len() != 0,
                forall|k: int| 0 <= k < i ==> self.players@[k]@ != name@,
            decreases self.players@.len() - i,
        {
            if self.players[i] == name {
                proof {
                    lemma_first_where_unique(self.players@, name_matches(name@), i as int);
                }
                return Ok(());
            }
            i += 1;
        }
        proof {
            lemma_player_index(self.players@, name@);
        }
        let c = picker.next_color();
        self.players.push(name);
        self.player_colors.push(c.clone());
        proof {
            assert(forall|k: int, j: int|
                0 <= k < j < self@.players.len() ==> self@.players[k]@ != self@.players[j]@);
            assert(join_rel(old(self)@, self@, *old(picker), *picker, name, Ok(()))) by {
                assert(ColorPicker::picked(*old(picker), *picker, c));
                assert(self@ == (RoomModel {
                    players: old(self)@.players.push(name),
                    colors: old(self)@.colors.push(c),
                    ..old(self)@
                }));
            }
        }
        Ok(())
    }

    /// Start the game from the current roster; a game in progress is
    /// left untouched (impatient restart clicks are no-ops), a
    /// concluded or absent game is replaced by a fresh deal.
    pub fn start(&mut self) -> (r: Result<(), Error>)
        requires
            old(self).wf(),
            3 * old(self)@.players.len() + 4 <= usize::MAX,
        ensures
            final(self).wf(),
            final(self)@.clients == old(self)@.clients,
            start_rel(old(self)@, final(self)@, r),
    {
        let restart = match &self.game {
            None => true,
            Some(g) => g.ended(),
        };
        if restart {
            let roster = clone_names(&self.players);
            let g = self.type_.create(roster);
            self.game = Some(g);
        }
        Ok(())
    }

    /// The room snapshot: the active game's state (if any), the
    /// roster, and the color assignments.
    pub fn state(&self) -> (r: GameState)
        requires
            self.wf(),
        ensures
            room_snapshot_matches(r, self@),
    {
        GameState {
            game: match &self.game {
                Some(g) => Some(g.state()),
                None => None,
            },
            players: clone_names(&self.players),
            player_colors: clone_names(&self.player_colors),
        }
    }

    /// The public summary of this room for the lobby.
    pub fn room_state(&self) -> (r: GameRoomState)
        requires
            self.wf(),
        ensures
            room_summary_matches(r, self@),
    {
        GameRoomState {
            type_: self.type_,
            players: clone_names(&self.players),
            status: "waiting on players...".to_owned(),
        }
    }

    /// Register a subscriber; an id already subscribed stays
    /// subscribed once.
    pub fn subscribe(&mut self, id: u128)
        requires
            old(self).wf(),
        ensures
            final(self).wf(),
            final(self)@ == (RoomModel {
                clients: if old(self)@.clients.contains(id) {
                    old(self)@.clients
                } else {
                    old(self)@.clients.push(id)
                },
                ..old(self)@
            }),
    {
        let mut i: usize = 0;
        while i < self.clients.len()
            invariant
                i <= self.clients@.len(),
                self == old(self),
                old(self).wf(),
                forall|k: int| 0 <= k < i ==> self.clients@[k] != id,
            decreases self.clients@.len() - i,
        {
            if self.clients[i] == id {
                proof {
                    assert(old(self)@.clients[i as int] == id);
                    assert(old(self)@.clients.contains(id));
                }
                return ;
            }
            i += 1;
        }
        self.clients.push(id);
        proof {
            assert(forall|k: int|
                0 <= k < old(self)@.clients.len() ==> old(self)@.clients[k] != id);
            assert(!old(self)@.clients.contains(id));
            assert(self@ =~= (RoomModel {
                clients: old(self)@.clients.push(id),
                ..old(self)@
            }));
        }
    }

    /// Deregister a subscriber and report whether the subscriber set
    /// is now empty, so the caller can request the room's
    /// destruction.
    pub fn unsubscribe(&mut self, id: u128) -> (empty: bool)
        requires
            old(self).wf(),
        ensures
            final(self).wf(),
            final(self)@ == (RoomModel {
                clients: (if client_index(old(self)@.clients, id) < old(self)@.clients.len() {
                    old(self)@.clients.remove(client_index(old(self)@.clients, id))
                } else {
                    old(self)@.clients
                }),
                ..old(self)@
            }),
            empty == (final(self)@.clients.len() == 0),
    {
        let mut i: usize = 0;
        while i < self.clients.len()
            invariant
                i <= self.clients@.len(),
                self == old(self),
                old(self).wf(),
                forall|k: int| 0 <= k < i ==> self.clients@[k] != id,
            decreases self.clients@.len() - i,
        {
            if self.clients[i] == id {
                proof {
                    lemma_first_where_unique(self.clients@, id_matches(id), i as int);
                }
                let _ = self.clients.remove(i);
                proof {
                    assert(self@ =~= (RoomModel {
                        clients: old(self)@.clients.remove(i as int),
                        ..old(self)@
                    }));
                }
                return self.clients.len() == 0;
            }
            i += 1;
        }
        proof {
            lemma_first_where(self.clients@, id_matches(id));
            assert(self@ =~= (RoomModel { clients: old(self)@.clients, ..old(self)@ }));
        }
        self.clients.len() == 0
    }

    /// Route one envelope: room-level joins and starts are handled
    /// here, game payloads go to the active game. An accepted action
    /// returns the snapshot of the new state to broadcast; a rejected
    /// one returns the error and no snapshot.
    pub fn action(&mut self, action: GameRoomAction, picker: &mut ColorPicker) -> (r: Result<
        GameState,
        Error,
    >)
        requires
            old(self).wf(),
            old(picker).wf(),
            action@ is StartGame ==> 3 * old(self)@.players.len() + 4 <= usize::MAX,
        ensures
            final(self).wf(),
            final(picker).wf(),
            action_rel(old(self)@, final(self)@, *old(picker), *final(picker), action@, r),
    {
        let ghost av = action@;
        let res: Result<(), Error> = match action {
            GameRoomAction::JoinGame { name } => self.join(name, picker),
            GameRoomAction::StartGame => self.start(),
            GameRoomAction::Game(a) => {
                match self.game.take() {
                    None => Err(Error::NoActiveGame),
                    Some(mut g) => {
                        let rr = g.action(a);
                        self.game = Some(g);
                        match rr {
                            Ok(()) => Ok(()),
                            Err(e) => Err(Error::GameRule(e)),
                        }
                    },
                }
            },
            GameRoomAction::Unrecognized => {
                match &self.game {
                    Some(_) => Err(Error::GameRule(GameError::MalformedAction)),
                    None => Err(Error::NoActiveGame),
                }
            },
        };
        match res {
            Ok(()) => Ok(self.state()),
            Err(e) => Err(e),
        }
    }
}

} // verus!
