//! The lobby: a registry of named rooms, the lobby subscriber set,
//! and the shared color allocator.
//!
//! Room names are unique, case-sensitive and non-empty. The registry
//! owns every room; connections reach a room through the forwarding
//! operations here, which also decide when a room is destroyed.

use vstd::prelude::*;

use crate::errors::Error;
use crate::game::GameType;
use crate::palette::ColorPicker;
use crate::room::{
    action_rel, client_index, empty_room_model, id_matches, room_snapshot_matches,
    room_summary_matches, GameRoom, GameRoomAction, GameRoomState, GameState, RoomActionModel,
    RoomModel,
};
use crate::search::{first_where, lemma_first_where, lemma_first_where_unique};

verus! {

/// An element-wise copy of a list of subscriber ids.
fn clone_ids(v: &Vec<u128>) -> (r: Vec<u128>)
    ensures
        r@ == v@,
{
    let mut r: Vec<u128> = Vec::new();
    let mut i: usize = 0;
    while i < v.len()
        invariant
            i <= v@.len(),
            r@ == v@.take(i as int),
        decreases v@.len() - i,
    {
        r.push(v[i]);
        i += 1;
        proof {
            assert(v@.take(i as int) =~= v@.take(i - 1).push(v@[i - 1]));
        }
    }
    proof {
        assert(v@.take(v@.len() as int) =~= v@);
    }
    r
}

/// One registered room: its unique name and its session state.
#[derive(Debug)]
pub struct RoomEntry {
    /// The room's unique, non-empty name.
    pub name: String,
    /// The room's session state.
    pub room: GameRoom,
}

/// Mathematical model of the registry: the named room models in
/// registration order, and the lobby subscriber ids.
#[verifier::ext_equal]
pub struct RegistryModel {
    /// Rooms as (name, model) pairs, names unique.
    pub rooms: Seq<(String, RoomModel)>,
    /// Lobby subscriber ids.
    pub waiters: Seq<u128>,
}

/// The predicate "this entry is named `name`".
pub open spec fn room_name_matches(name: Seq<char>) -> spec_fn((String, RoomModel)) -> bool {
    |e: (String, RoomModel)| e.0@ == name
}

/// Index of the first room named `name`, or the number of rooms if
/// none is.
pub open spec fn room_index(rooms: Seq<(String, RoomModel)>, name: Seq<char>) -> int {
    first_where(rooms, room_name_matches(name))
}

/// Whether a room named `name` is registered.
pub open spec fn registry_has(rooms: Seq<(String, RoomModel)>, name: Seq<char>) -> bool {
    room_index(rooms, name) < rooms.len()
}

/// `room_index` is in `0..=len`, names the first matching entry when
/// in range, and is in range exactly when the name is registered.
pub proof fn lemma_room_index(rooms: Seq<(String, RoomModel)>, name: Seq<char>)
    ensures
        0 <= room_index(rooms, name) <= rooms.len(),
        room_index(rooms, name) < rooms.len() ==> rooms[room_index(rooms, name)].0@ == name,
        forall|k: int| 0 <= k < room_index(rooms, name) ==> rooms[k].0@ != name,
        (exists|k: int| 0 <= k < rooms.len() && rooms[k].0@ == name) <==> registry_has(
            rooms,
            name,
        ),
{
    lemma_first_where(rooms, room_name_matches(name));
}

/// What `create_room` does: an empty name is rejected, a taken name
/// is rejected, and otherwise an empty room of the given type is
/// appended under the name.
pub open spec fn create_rel(
    pre: RegistryModel,
    post: RegistryModel,
    name: String,
    type_: GameType,
    r: Result<(), Error>,
) -> bool {
    if name@.len() == 0 {
        &&& r == Err::<(), Error>(Error::InvalidName)
        &&& post == pre
    } else if registry_has(pre.rooms, name@) {
        &&& r == Err::<(), Error>(Error::AlreadyExists)
        &&& post == pre
    } else {
        &&& r == Ok::<(), Error>(())
        &&& post.rooms == pre.rooms.push((name, empty_room_model(type_)))
        &&& post.waiters == pre.waiters
    }
}

/// What `destroy_room` does: an absent name is rejected, a present
/// room is removed; a repeated destruction thus observes `NotFound`
/// and changes nothing.
pub open spec fn destroy_rel(
    pre: RegistryModel,
    post: RegistryModel,
    name: Seq<char>,
    r: Result<(), Error>,
) -> bool {
    if registry_has(pre.rooms, name) {
        &&& r == Ok::<(), Error>(())
        &&& post.rooms == pre.rooms.remove(room_index(pre.rooms, name))
        &&& post.waiters == pre.waiters
    } else {
        &&& r == Err::<(), Error>(Error::NotFound)
        &&& post == pre
    }
}

/// Room names are unique on creation: after a room was created under
/// a name, a second creation under the same name fails with
/// `AlreadyExists`, changes nothing, and the registry still holds
/// exactly one room so named.
pub proof fn lemma_create_unique(
    m0: RegistryModel,
    m1: RegistryModel,
    m2: RegistryModel,
    name: String,
    type_: GameType,
    r2: Result<(), Error>,
)
    requires
        name@.len() > 0,
        create_rel(m0, m1, name, type_, Ok(())),
        create_rel(m1, m2, name, type_, r2),
    ensures
        r2 == Err::<(), Error>(Error::AlreadyExists),
        m2 == m1,
        exists|i: int| 0 <= i < m2.rooms.len() && m2.rooms[i].0@ == name@,
        forall|i: int, j: int|
            (0 <= i < m2.rooms.len() && 0 <= j < m2.rooms.len() && m2.rooms[i].0@ == name@
                && m2.rooms[j].0@ == name@) ==> i == j,
{
    lemma_room_index(m0.rooms, name@);
    let n = m0.rooms.len() as int;
    assert(m1.rooms[n].0@ == name@);
    lemma_room_index(m1.rooms, name@);
    assert(registry_has(m1.rooms, name@));
    assert forall|i: int, j: int|
        (0 <= i < m2.rooms.len() && 0 <= j < m2.rooms.len() && m2.rooms[i].0@ == name@
            && m2.rooms[j].0@ == name@) implies i == j by {
        if i < n && j < n {
            assert(m1.rooms[i] == m0.rooms[i]);
            assert(!(exists|k: int| 0 <= k < m0.rooms.len() && m0.rooms[k].0@ == name@));
        } else if i < n {
            assert(m1.rooms[i] == m0.rooms[i]);
            assert(!(exists|k: int| 0 <= k < m0.rooms.len() && m0.rooms[k].0@ == name@));
        } else if j < n {
            assert(m1.rooms[j] == m0.rooms[j]);
            assert(!(exists|k: int| 0 <= k < m0.rooms.len() && m0.rooms[k].0@ == name@));
        }
    }
}

/// Destruction is observed exactly once: with room names unique, a
/// destruction that succeeded leaves no room under the name, so a
/// second, concurrent destruction request for the same name observes
/// `NotFound` and changes nothing.
pub proof fn lemma_destroy_once(
    m0: RegistryModel,
    m1: RegistryModel,
    m2: RegistryModel,
    name: Seq<char>,
    r2: Result<(), Error>,
)
    requires
        forall|a: int, b: int|
            0 <= a < b < m0.rooms.len() ==> m0.rooms[a].0@ != m0.rooms[b].0@,
        destroy_rel(m0, m1, name, Ok(())),
        destroy_rel(m1, m2, name, r2),
    ensures
        r2 == Err::<(), Error>(Error::NotFound),
        m2 == m1,
{
    lemma_room_index(m0.rooms, name);
    let i = room_index(m0.rooms, name);
    assert forall|k: int| 0 <= k < m1.rooms.len() implies m1.rooms[k].0@ != name by {
        if k < i {
            assert(m1.rooms[k] == m0.rooms[k]);
        } else {
            assert(m1.rooms[k] == m0.rooms[k + 1]);
            assert(m0.rooms[i].0@ == name);
        }
    }
    lemma_room_index(m1.rooms, name);
}

/// One row of the lobby snapshot.
#[derive(Debug)]
pub struct WaitingRoomEntry {
    /// The room's name.
    pub name: String,
    /// The room's public summary.
    pub info: GameRoomState,
}

/// The lobby snapshot pushed to every lobby subscriber: each room's
/// name and public summary, in registration order.
#[derive(Debug)]
pub struct WaitingRoomState {
    /// One row per registered room.
    pub rooms: Vec<WaitingRoomEntry>,
}

/// What a lobby snapshot shows: one matching row per room, in order.
pub open spec fn lobby_snapshot_matches(r: WaitingRoomState, m: RegistryModel) -> bool {
    &&& r.rooms@.len() == m.rooms.len()
    &&& forall|i: int|
        0 <= i < m.rooms.len() ==> (#[trigger] r.rooms@[i]).name == m.rooms[i].0
            && room_summary_matches(r.rooms@[i].info, m.rooms[i].1)
}

/// A lobby-level action: the tagged envelope a lobby socket frame
/// resolves to.
#[derive(Debug)]
pub enum WaitingRoomAction {
    /// Register a new room.
    CreateRoom {
        /// The new room's name.
        room_name: String,
        /// The game the new room will host.
        room_type: GameType,
    },
    /// Remove a room.
    DestroyRoom {
        /// The name of the room to remove.
        room_name: String,
    },
}

/// What `action` does: routes to create or destroy and reports the
/// result unchanged; an accepted action reports the snapshot of the
/// new state for broadcast.
pub open spec fn dispatch_rel(
    pre: RegistryModel,
    post: RegistryModel,
    a: WaitingRoomAction,
    r: Result<WaitingRoomState, Error>,
) -> bool {
    match a {
        WaitingRoomAction::CreateRoom { room_name, room_type } => match r {
            Ok(snap) => create_rel(pre, post, room_name, room_type, Ok(()))
                && lobby_snapshot_matches(snap, post),
            Err(e) => create_rel(pre, post, room_name, room_type, Err(e)),
        },
        WaitingRoomAction::DestroyRoom { room_name } => match r {
            Ok(snap) => destroy_rel(pre, post, room_name@, Ok(())) && lobby_snapshot_matches(
                snap,
                post,
            ),
            Err(e) => destroy_rel(pre, post, room_name@, Err(e)),
        },
    }
}

/// Rooms other than the one at `i` are untouched, and so are the
/// lobby subscribers.
pub open spec fn rooms_updated_at(pre: RegistryModel, post: RegistryModel, i: int) -> bool {
    &&& post.rooms.len() == pre.rooms.len()
    &&& post.rooms[i].0 == pre.rooms[i].0
    &&& forall|j: int| 0 <= j < pre.rooms.len() && j != i ==> post.rooms[j] == pre.rooms[j]
    &&& post.waiters == pre.waiters
}

/// The lobby: every registered room, the lobby subscribers, and the
/// process-wide color allocator. Constructed once at startup and
/// alive for the process.
#[derive(Debug)]
pub struct WaitingRoom {
    /// Registered rooms in registration order, names unique.
    pub rooms: Vec<RoomEntry>,
    /// Lobby subscriber ids.
    pub waiters: Vec<u128>,
    /// The shared round-robin color allocator.
    pub picker: ColorPicker,
}

impl View for WaitingRoom {
    type V = RegistryModel;

    open spec fn view(&self) -> RegistryModel {
        RegistryModel {
            rooms: self.rooms@.map_values(|e: RoomEntry| (e.name, e.room@)),
            waiters: self.waiters@,
        }
    }
}

impl WaitingRoom {
    /// Room names are unique, every room is well formed, no lobby
    /// subscriber repeats, and the color cursor is in range.
    pub open spec fn wf(self) -> bool {
        &&& forall|i: int, j: int|
            0 <= i < j < self.rooms@.len() ==> self.rooms@[i].name@ != self.rooms@[j].name@
        &&& forall|i: int| 0 <= i < self.rooms@.len() ==> (#[trigger] self.rooms@[i]).room.wf()
        &&& self.waiters@.no_duplicates()
        &&& self.picker.wf()
    }

    /// An empty lobby with a fresh color allocator.
    pub fn new() -> (r: WaitingRoom)
        ensures
            r.wf(),
            r@.rooms == Seq::<(String, RoomModel)>::empty(),
            r@.waiters == Seq::<u128>::empty(),
    {
        let r = WaitingRoom { rooms: Vec::new(), waiters: Vec::new(), picker: ColorPicker::new() };
        proof {
            assert(r@.rooms =~= Seq::<(String, RoomModel)>::empty());
        }
        r
    }

    /// Index of the room named `name`, if one is registered.
    fn find_room(&self, name: &String) -> (r: Option<usize>)
        ensures
            match r {
                Some(i) => {
                    &&& (i as int) < self@.rooms.len()
                    &&& i as int == room_index(self@.rooms, name@)
                },
                None => !registry_has(self@.rooms, name@),
            },
    {
        let mut i: usize = 0;
        while i < self.rooms.len()
            invariant
                i <= self.rooms@.len(),
                forall|k: int| 0 <= k < i ==> self@.rooms[k].0@ != name@,
            decreases self.rooms@.len() - i,
        {
            if self.rooms[i].name == *name {
                proof {
                    lemma_first_where_unique(self@.rooms, room_name_matches(name@), i as int);
                }
                return Some(i);
            }
            i += 1;
        }
        proof {
            lemma_room_index(self@.rooms, name@);
        }
        None
    }

    /// Whether a room named `name` is registered.
    pub fn contains_room(&self, name: &String) -> (r: bool)
        ensures
            r == registry_has(self@.rooms, name@),
    {
        match self.find_room(name) {
            Some(_) => true,
            None => {
                proof {
                    lemma_room_index(self@.rooms, name@);
                }
                false
            },
        }
    }

    /// Register a new empty room under `name`: rejected if the name
    /// is empty or already taken.
    pub fn create_room(&mut self, name: String, room_type: GameType) -> (r: Result<(), Error>)
        requires
            old(self).wf(),
        ensures
            final(self).wf(),
            final(self).picker == old(self).picker,
            create_rel(old(self)@, final(self)@, name, room_type, r),
    {
        if name.as_str().is_empty() {
            return Err(Error::InvalidName);
        }
        match self.find_room(&name) {
            Some(_) => Err(Error::AlreadyExists),
            None => {
                proof {
                    lemma_room_index(self@.rooms, name@);
                }
                let room = GameRoom::new(room_type);
                self.rooms.push(RoomEntry { name, room });
                proof {
                    let pre = old(self)@.rooms;
                    assert(self@.rooms =~= pre.push((name, empty_room_model(room_type))));
                    assert forall|i: int|
                        0 <= i < self.rooms@.len() implies (#[trigger] self.rooms@[i]).room.wf() by {
                        if i < pre.len() {
                            assert(self.rooms@[i] == old(self).rooms@[i]);
                        }
                    }
                    assert forall|i: int, j: int|
                        0 <= i < j < self.rooms@.len() implies self.rooms@[i].name@
                        != self.rooms@[j].name@ by {
                        if j == self.rooms@.len() - 1 {
                            assert(self.rooms@[i] == old(self).rooms@[i]);
                            assert(pre[i] == (old(self).rooms@[i].name, old(self).rooms@[i].room@));
                            assert(pre[i].0@ != name@);
                        } else {
                            assert(self.rooms@[i] == old(self).rooms@[i]);
                            assert(self.rooms@[j] == old(self).rooms@[j]);
                        }
                    }
                }
                Ok(())
            },
        }
    }

    /// Remove the room named `name`: rejected with `NotFound` if it
    /// is not registered, so a repeated destruction is observed and
    /// changes nothing.
    pub fn destroy_room(&mut self, name: &String) -> (r: Result<(), Error>)
        requires
            old(self).wf(),
        ensures
            final(self).wf(),
            final(self).picker == old(self).picker,
            destroy_rel(old(self)@, final(self)@, name@, r),
    {
        match self.find_room(name) {
            None => Err(Error::NotFound),
            Some(i) => {
                let _ = self.rooms.remove(i);
                proof {
                    assert(self@.rooms =~= old(self)@.rooms.remove(i as int));
                }
                Ok(())
            },
        }
    }

    /// The lobby snapshot: each room's name and public summary.
    pub fn state(&self) -> (r: WaitingRoomState)
        requires
            self.wf(),
        ensures
            lobby_snapshot_matches(r, self@),
    {
        let mut rooms: Vec<WaitingRoomEntry> = Vec::new();
        let mut i: usize = 0;
        while i < self.rooms.len()
            invariant
                self.wf(),
                i <= self.rooms@.len(),
                rooms@.len() == i,
                forall|k: int|
                    0 <= k < i ==> (#[trigger] rooms@[k]).name == self@.rooms[k].0
                        && room_summary_matches(rooms@[k].info, self@.rooms[k].1),
            decreases self.rooms@.len() - i,
        {
            let name = self.rooms[i].name.clone();
            let info = self.rooms[i].room.room_state();
            rooms.push(WaitingRoomEntry { name, info });
            i += 1;
        }
        WaitingRoomState { rooms }
    }

    /// Route one lobby envelope to create or destroy; an accepted
    /// action returns the snapshot of the new state to broadcast.
    pub fn action(&mut self, action: WaitingRoomAction) -> (r: Result<WaitingRoomState, Error>)
        requires
            old(self).wf(),
        ensures
            final(self).wf(),
            final(self).picker == old(self).picker,
            dispatch_rel(old(self)@, final(self)@, action, r),
    {
        let res: Result<(), Error> = match &action {
            WaitingRoomAction::CreateRoom { room_name, room_type } => self.create_room(
                room_name.clone(),
                *room_type,
            ),
            WaitingRoomAction::DestroyRoom { room_name } => self.destroy_room(room_name),
        };
        match res {
            Ok(()) => Ok(self.state()),
            Err(e) => Err(e),
        }
    }

    /// Register a lobby subscriber; an id already subscribed stays
    /// subscribed once.
    pub fn subscribe(&mut self, id: u128)
        requires
            old(self).wf(),
        ensures
            final(self).wf(),
            final(self)@.rooms == old(self)@.rooms,
            final(self).picker == old(self).picker,
            final(self)@.waiters == (if old(self)@.waiters.contains(id) {
                old(self)@.waiters
            } else {
                old(self)@.waiters.push(id)
            }),
    {
        let mut i: usize = 0;
        while i < self.waiters.len()
            invariant
                i <= self.waiters@.len(),
                self == old(self),
                old(self).wf(),
                forall|k: int| 0 <= k < i ==> self.waiters@[k] != id,
            decreases self.waiters@.len() - i,
        {
            if self.waiters[i] == id {
                proof {
                    assert(old(self)@.waiters[i as int] == id);
                    assert(old(self)@.waiters.contains(id));
                }
                return ;
            }
            i += 1;
        }
        proof {
            assert(forall|k: int|
                0 <= k < old(self)@.waiters.len() ==> old(self)@.waiters[k] != id);
            assert(!old(self)@.waiters.contains(id));
        }
        self.waiters.push(id);
    }

    /// Deregister a lobby subscriber; an absent id changes nothing.
    pub fn unsubscribe(&mut self, id: u128)
        requires
            old(self).wf(),
        ensures
            final(self).wf(),
            final(self)@.rooms == old(self)@.rooms,
            final(self).picker == old(self).picker,
            final(self)@.waiters == (if client_index(old(self)@.waiters, id) < old(
                self,
            )@.waiters.len() {
                old(self)@.waiters.remove(client_index(old(self)@.waiters, id))
            } else {
                old(self)@.waiters
            }),
    {
        let mut i: usize = 0;
        while i < self.waiters.len()
            invariant
                i <= self.waiters@.len(),
                self == old(self),
                old(self).wf(),
                forall|k: int| 0 <= k < i ==> self.waiters@[k] != id,
            decreases self.waiters@.len() - i,
        {
            if self.waiters[i] == id {
                proof {
                    lemma_first_where_unique(self.waiters@, id_matches(id), i as int);
                }
                let _ = self.waiters.remove(i);
                return ;
            }
            i += 1;
        }
        proof {
            lemma_first_where(self.waiters@, id_matches(id));
        }
    }

    /// Forward a subscription to the room named `name`.
    pub fn room_subscribe(&mut self, name: &String, id: u128) -> (r: Result<(), Error>)
        requires
            old(self).wf(),
        ensures
            final(self).wf(),
            final(self).picker == old(self).picker,
            ({
                let i = room_index(old(self)@.rooms, name@);
                if i < old(self)@.rooms.len() {
                    &&& r == Ok::<(), Error>(())
                    &&& rooms_updated_at(old(self)@, final(self)@, i)
                    &&& final(self)@.rooms[i].1 == (RoomModel {
                        clients: (if old(self)@.rooms[i].1.clients.contains(id) {
                            old(self)@.rooms[i].1.clients
                        } else {
                            old(self)@.rooms[i].1.clients.push(id)
                        }),
                        ..old(self)@.rooms[i].1
                    })
                } else {
                    &&& r == Err::<(), Error>(Error::NotFound)
                    &&& final(self)@ == old(self)@
                }
            }),
    {
        match self.find_room(name) {
            None => Err(Error::NotFound),
            Some(i) => {
                let mut entry = self.rooms.remove(i);
                entry.room.subscribe(id);
                self.rooms.insert(i, entry);
                proof {
                    self.lemma_entry_update(*old(self), i as int);
                }
                Ok(())
            },
        }
    }

    /// Forward an unsubscription to the room named `name` and report
    /// whether its subscriber set is now empty, so the caller can
    /// request the room's destruction.
    pub fn room_unsubscribe(&mut self, name: &String, id: u128) -> (r: Result<bool, Error>)
        requires
            old(self).wf(),
        ensures
            final(self).wf(),
            final(self).picker == old(self).picker,
            ({
                let i = room_index(old(self)@.rooms, name@);
                if i < old(self)@.rooms.len() {
                    let c0 = old(self)@.rooms[i].1.clients;
                    let c1 = final(self)@.rooms[i].1.clients;
                    &&& r == Ok::<bool, Error>(c1.len() == 0)
                    &&& rooms_updated_at(old(self)@, final(self)@, i)
                    &&& final(self)@.rooms[i].1 == (RoomModel {
                        clients: (if client_index(c0, id) < c0.len() {
                            c0.remove(client_index(c0, id))
                        } else {
                            c0
                        }),
                        ..old(self)@.rooms[i].1
                    })
                } else {
                    &&& r == Err::<bool, Error>(Error::NotFound)
                    &&& final(self)@ == old(self)@
                }
            }),
    {
        match self.find_room(name) {
            None => Err(Error::NotFound),
            Some(i) => {
                let mut entry = self.rooms.remove(i);
                let empty = entry.room.unsubscribe(id);
                self.rooms.insert(i, entry);
                proof {
                    self.lemma_entry_update(*old(self), i as int);
                }
                Ok(empty)
            },
        }
    }

    /// Forward one room envelope to the room named `name`, allocating
    /// from the shared palette if a player joins; an accepted action
    /// returns the room snapshot to broadcast.
    pub fn room_action(&mut self, name: &String, action: GameRoomAction) -> (r: Result<
        GameState,
        Error,
    >)
        requires
            old(self).wf(),
            action@ is StartGame && registry_has(old(self)@.rooms, name@) ==> 3 * old(
                self,
            )@.rooms[room_index(old(self)@.rooms, name@)].1.players.len() + 4 <= usize::MAX,
        ensures
            final(self).wf(),
            ({
                let i = room_index(old(self)@.rooms, name@);
                if i < old(self)@.rooms.len() {
                    &&& rooms_updated_at(old(self)@, final(self)@, i)
                    &&& action_rel(
                        old(self)@.rooms[i].1,
                        final(self)@.rooms[i].1,
                        old(self).picker,
                        final(self).picker,
                        action@,
                        r,
                    )
                } else {
                    &&& r == Err::<GameState, Error>(Error::NotFound)
                    &&& final(self)@ == old(self)@
                    &&& final(self).picker == old(self).picker
                }
            }),
    {
        match self.find_room(name) {
            None => Err(Error::NotFound),
            Some(i) => {
                let mut entry = self.rooms.remove(i);
                let r = entry.room.action(action, &mut self.picker);
                self.rooms.insert(i, entry);
                proof {
                    self.lemma_entry_update(*old(self), i as int);
                }
                r
            },
        }
    }

    /// The current snapshot of the room named `name`, for a room
    /// subscriber's initial push.
    pub fn room_state(&self, name: &String) -> (r: Result<GameState, Error>)
        requires
            self.wf(),
        ensures
            match r {
                Ok(snap) => registry_has(self@.rooms, name@) && room_snapshot_matches(
                    snap,
                    self@.rooms[room_index(self@.rooms, name@)].1,
                ),
                Err(e) => e == Error::NotFound && !registry_has(self@.rooms, name@),
            },
    {
        match self.find_room(name) {
            None => Err(Error::NotFound),
            Some(i) => {
                proof {
                    assert(self@.rooms[i as int] == (self.rooms@[i as int].name,
                    self.rooms@[i as int].room@));
                }
                Ok(self.rooms[i].room.state())
            },
        }
    }

    /// The subscriber ids of the room named `name`, the broadcast
    /// targets of its snapshots.
    pub fn room_clients(&self, name: &String) -> (r: Result<Vec<u128>, Error>)
        requires
            self.wf(),
        ensures
            match r {
                Ok(v) => registry_has(self@.rooms, name@) && v@ == self@.rooms[room_index(
                    self@.rooms,
                    name@,
                )].1.clients,
                Err(e) => e == Error::NotFound && !registry_has(self@.rooms, name@),
            },
    {
        match self.find_room(name) {
            None => Err(Error::NotFound),
            Some(i) => {
                proof {
                    assert(self@.rooms[i as int] == (self.rooms@[i as int].name,
                    self.rooms@[i as int].room@));
                }
                Ok(clone_ids(&self.rooms[i].room.clients))
            },
        }
    }

    /// The lobby subscriber ids, the broadcast targets of lobby
    /// snapshots.
    pub fn waiter_ids(&self) -> (r: Vec<u128>)
        ensures
            r@ == self@.waiters,
    {
        clone_ids(&self.waiters)
    }

    /// After an update of the entry at `i` that kept its name and its
    /// room's well-formedness, the registry is well formed again.
    proof fn lemma_entry_update(&self, pre: WaitingRoom, i: int)
        requires
            pre.wf(),
            0 <= i < pre.rooms@.len(),
            self.rooms@.len() == pre.rooms@.len(),
            forall|j: int| 0 <= j < pre.rooms@.len() && j != i ==> self.rooms@[j] == pre.rooms@[j],
            self.rooms@[i].name == pre.rooms@[i].name,
            self.rooms@[i].room.wf(),
            self.waiters@ == pre.waiters@,
            self.picker.wf(),
        ensures
            self.wf(),
            rooms_updated_at(pre@, self@, i),
            self@.rooms[i].0 == pre@.rooms[i].0,
            self@.rooms[i].1 == self.rooms@[i].room@,
            pre@.rooms[i].1 == pre.rooms@[i].room@,
    {
        assert forall|a: int, b: int|
            0 <= a < b < self.rooms@.len() implies self.rooms@[a].name@ != self.rooms@[b].name@ by {
            assert(pre.rooms@[a].name@ != pre.rooms@[b].name@);
        }
        assert forall|j: int|
            0 <= j < self.rooms@.len() implies (#[trigger] self.rooms@[j]).room.wf() by {
            if j != i {
                assert(self.rooms@[j] == pre.rooms@[j]);
            }
        }
        assert forall|j: int|
            0 <= j < pre.rooms@.len() && j != i implies self@.rooms[j] == pre@.rooms[j] by {
            assert(self@.rooms[j] == (self.rooms@[j].name, self.rooms@[j].room@));
            assert(pre@.rooms[j] == (pre.rooms@[j].name, pre.rooms@[j].room@));
        }
        assert(self@.rooms[i] == (self.rooms@[i].name, self.rooms@[i].room@));
        assert(pre@.rooms[i] == (pre.rooms@[i].name, pre.rooms@[i].room@));
    }

    /// Allocate the next color from the shared palette cursor (also
    /// used by the landing page).
    pub fn next_color(&mut self) -> (c: String)
        requires
            old(self).wf(),
        ensures
            final(self).wf(),
            final(self)@ == old(self)@,
            ColorPicker::picked(old(self).picker, final(self).picker, c),
    {
        self.picker.next_color()
    }
}

} // verus!
