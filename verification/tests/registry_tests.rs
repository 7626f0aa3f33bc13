use game_rooms::errors::Error;
use game_rooms::game::GameType;
use game_rooms::registry::{WaitingRoom, WaitingRoomAction};
use game_rooms::room::GameRoomAction;

#[test]
fn create_then_duplicate_fails() {
    // Name uniqueness on create: the second create of "r1" fails with
    // AlreadyExists and the snapshot still shows exactly one "r1".
    let mut lobby = WaitingRoom::new();
    assert_eq!(lobby.create_room("r1".to_string(), GameType::TestGame), Ok(()));
    assert_eq!(
        lobby.create_room("r1".to_string(), GameType::TestGame),
        Err(Error::AlreadyExists)
    );
    let snap = lobby.state();
    let named: Vec<_> = snap.rooms.iter().filter(|e| e.name == "r1").collect();
    assert_eq!(named.len(), 1);
    assert_eq!(snap.rooms.len(), 1);
}

#[test]
fn create_empty_name_rejected() {
    let mut lobby = WaitingRoom::new();
    assert_eq!(
        lobby.create_room(String::new(), GameType::TestGame),
        Err(Error::InvalidName)
    );
    assert_eq!(lobby.state().rooms.len(), 0);
}

#[test]
fn destroy_missing_room_not_found() {
    let mut lobby = WaitingRoom::new();
    assert_eq!(lobby.destroy_room(&"nope".to_string()), Err(Error::NotFound));
}

#[test]
fn destroy_on_empty_is_exactly_once() {
    // A room with one subscriber: the subscriber disconnecting
    // empties the room, the room is destroyed, and a second destroy
    // request observes NotFound without corrupting the registry.
    let mut lobby = WaitingRoom::new();
    let name = "r1".to_string();
    lobby.create_room(name.clone(), GameType::TestGame).unwrap();
    lobby.room_subscribe(&name, 7).unwrap();
    let empty = lobby.room_unsubscribe(&name, 7).unwrap();
    assert!(empty);
    assert_eq!(lobby.destroy_room(&name), Ok(()));
    assert_eq!(lobby.destroy_room(&name), Err(Error::NotFound));
    assert_eq!(lobby.state().rooms.len(), 0);
    // The registry still works after the repeated destroy.
    assert_eq!(lobby.create_room(name.clone(), GameType::TestGame), Ok(()));
}

#[test]
fn unsubscribe_not_last_keeps_room() {
    let mut lobby = WaitingRoom::new();
    let name = "r1".to_string();
    lobby.create_room(name.clone(), GameType::TestGame).unwrap();
    lobby.room_subscribe(&name, 1).unwrap();
    lobby.room_subscribe(&name, 2).unwrap();
    assert!(!lobby.room_unsubscribe(&name, 1).unwrap());
    assert!(lobby.room_unsubscribe(&name, 2).unwrap());
}

#[test]
fn lobby_snapshot_rows() {
    let mut lobby = WaitingRoom::new();
    lobby.create_room("alpha".to_string(), GameType::TestGame).unwrap();
    lobby.create_room("beta".to_string(), GameType::OtherTestGame).unwrap();
    let name = "alpha".to_string();
    lobby
        .room_action(&name, GameRoomAction::JoinGame { name: "P1".to_string() })
        .unwrap();
    let snap = lobby.state();
    assert_eq!(snap.rooms.len(), 2);
    assert_eq!(snap.rooms[0].name, "alpha");
    assert_eq!(snap.rooms[0].info.type_, GameType::TestGame);
    assert_eq!(snap.rooms[0].info.players, vec!["P1".to_string()]);
    assert_eq!(snap.rooms[0].info.status, "waiting on players...");
    assert_eq!(snap.rooms[1].name, "beta");
    assert_eq!(snap.rooms[1].info.type_, GameType::OtherTestGame);
    assert_eq!(snap.rooms[1].info.players.len(), 0);
}

#[test]
fn dispatch_routes_create_and_destroy() {
    let mut lobby = WaitingRoom::new();
    let snap = lobby
        .action(WaitingRoomAction::CreateRoom {
            room_name: "r1".to_string(),
            room_type: GameType::TestGame,
        })
        .unwrap();
    assert_eq!(snap.rooms.len(), 1);
    let err = lobby
        .action(WaitingRoomAction::DestroyRoom { room_name: "zzz".to_string() })
        .unwrap_err();
    assert_eq!(err, Error::NotFound);
    let snap = lobby
        .action(WaitingRoomAction::DestroyRoom { room_name: "r1".to_string() })
        .unwrap();
    assert_eq!(snap.rooms.len(), 0);
}

#[test]
fn lobby_subscribers_tracked() {
    let mut lobby = WaitingRoom::new();
    lobby.subscribe(10);
    lobby.subscribe(11);
    lobby.subscribe(10);
    assert_eq!(lobby.waiter_ids(), vec![10, 11]);
    lobby.unsubscribe(10);
    assert_eq!(lobby.waiter_ids(), vec![11]);
    lobby.unsubscribe(10);
    assert_eq!(lobby.waiter_ids(), vec![11]);
}

#[test]
fn contains_room_reports_registration() {
    let mut lobby = WaitingRoom::new();
    assert!(!lobby.contains_room(&"r1".to_string()));
    lobby.create_room("r1".to_string(), GameType::TestGame).unwrap();
    assert!(lobby.contains_room(&"r1".to_string()));
}
