use game_rooms::errors::{Error, GameError};
use game_rooms::game::GameType;
use game_rooms::palette::{palette_color, ColorPicker};
use game_rooms::room::{GameRoom, GameRoomAction};
use game_rooms::test_game::{TestGameAction, TestGameDeck};

#[test]
fn join_is_idempotent() {
    // Joining with a name already present leaves roster order, size,
    // and the color mapping unchanged.
    let mut room = GameRoom::new(GameType::TestGame);
    let mut picker = ColorPicker::with_cursor(0);
    room.join("alice".to_string(), &mut picker).unwrap();
    room.join("bob".to_string(), &mut picker).unwrap();
    let before = room.state();
    assert_eq!(room.join("alice".to_string(), &mut picker), Ok(()));
    let after = room.state();
    assert_eq!(after.players, before.players);
    assert_eq!(after.player_colors, before.player_colors);
    assert_eq!(after.players, vec!["alice".to_string(), "bob".to_string()]);
}

#[test]
fn join_rejects_empty_name() {
    let mut room = GameRoom::new(GameType::TestGame);
    let mut picker = ColorPicker::new();
    assert_eq!(room.join(String::new(), &mut picker), Err(Error::InvalidName));
    assert_eq!(room.state().players.len(), 0);
}

#[test]
fn join_assigns_round_robin_colors() {
    let mut room = GameRoom::new(GameType::TestGame);
    let mut picker = ColorPicker::with_cursor(4);
    room.join("alice".to_string(), &mut picker).unwrap();
    room.join("bob".to_string(), &mut picker).unwrap();
    let snap = room.state();
    assert_eq!(snap.player_colors, vec![palette_color(4), palette_color(5)]);
}

#[test]
fn start_is_idempotent_while_game_runs() {
    // start() with an unconcluded game active leaves the game and its
    // state unchanged.
    let mut room = GameRoom::new(GameType::TestGame);
    let mut picker = ColorPicker::new();
    room.join("alice".to_string(), &mut picker).unwrap();
    room.join("bob".to_string(), &mut picker).unwrap();
    room.start().unwrap();
    let before = room.state();
    let g_before = before.game.expect("game started");
    room.start().unwrap();
    let after = room.state();
    let g_after = after.game.expect("game still there");
    assert_eq!(g_after.players, g_before.players);
    assert_eq!(g_after.phase, g_before.phase);
    assert_eq!(g_after.down_hands, g_before.down_hands);
    assert_eq!(g_after.up_hands, g_before.up_hands);
    assert_eq!(g_after.deck_count, g_before.deck_count);
    assert_eq!(g_after.log, g_before.log);
}

#[test]
fn start_creates_game_from_roster() {
    let mut room = GameRoom::new(GameType::TestGame);
    let mut picker = ColorPicker::new();
    room.join("alice".to_string(), &mut picker).unwrap();
    room.join("bob".to_string(), &mut picker).unwrap();
    assert!(room.state().game.is_none());
    room.start().unwrap();
    let snap = room.state().game.expect("game started");
    let mut roster = snap.players.clone();
    roster.sort();
    assert_eq!(roster, vec!["alice".to_string(), "bob".to_string()]);
    // Each player was dealt one hidden card; 2 players get a deck of
    // 1 princess + 1 protect + 6 stabs, leaving 6 after the deal.
    assert_eq!(snap.down_hands.len(), 2);
    assert!(snap.down_hands.iter().all(|h| h.len() == 1));
    assert_eq!(snap.deck_count, 6);
}

#[test]
fn start_after_conclusion_deals_fresh_game_from_current_roster() {
    let mut room = GameRoom::new(GameType::TestGame);
    let mut picker = ColorPicker::new();
    room.join("alice".to_string(), &mut picker).unwrap();
    room.join("bob".to_string(), &mut picker).unwrap();
    room.start().unwrap();
    // Play the deterministic two-player game to its end.
    let mut g = game_rooms::test_game::TestGame::from_deck(
        vec!["alice".to_string(), "bob".to_string()],
        vec![
            game_rooms::test_game::TestGameCard::Princess,
            game_rooms::test_game::TestGameCard::Protect,
            game_rooms::test_game::TestGameCard::Stabby,
            game_rooms::test_game::TestGameCard::Stabby,
        ],
    );
    g.action(TestGameAction::Draw { user: "alice".to_string(), deck: TestGameDeck::Deck })
        .unwrap();
    g.action(TestGameAction::Play {
        user: "alice".to_string(),
        card: game_rooms::test_game::TestGameCard::Stabby,
        target: "alice".to_string(),
    })
    .unwrap();
    g.action(TestGameAction::Draw { user: "bob".to_string(), deck: TestGameDeck::Deck })
        .unwrap();
    g.action(TestGameAction::Play {
        user: "bob".to_string(),
        card: game_rooms::test_game::TestGameCard::Stabby,
        target: "bob".to_string(),
    })
    .unwrap();
    assert!(g.ended());
    // Swap the concluded game in (the fields are public state) and
    // grow the roster; a restart now deals a fresh game from the
    // then-current player list.
    room.game = Some(game_rooms::game::Game { kind: GameType::TestGame, inner: g });
    room.join("carol".to_string(), &mut picker).unwrap();
    room.start().unwrap();
    let snap = room.state().game.expect("fresh game");
    assert_eq!(snap.phase, game_rooms::test_game::TestGamePhase::BeforeTurn);
    let mut roster = snap.players.clone();
    roster.sort();
    assert_eq!(
        roster,
        vec!["alice".to_string(), "bob".to_string(), "carol".to_string()]
    );
    assert!(snap.down_hands.iter().all(|h| h.len() == 1));
}

#[test]
fn game_action_without_game_is_error() {
    let mut room = GameRoom::new(GameType::TestGame);
    let mut picker = ColorPicker::new();
    let before = room.state();
    let r = room.action(
        GameRoomAction::Game(TestGameAction::Draw {
            user: "alice".to_string(),
            deck: TestGameDeck::Deck,
        }),
        &mut picker,
    );
    assert_eq!(r.unwrap_err(), Error::NoActiveGame);
    let after = room.state();
    assert_eq!(after.players, before.players);
    assert!(after.game.is_none());
}

#[test]
fn unrecognized_payload_is_error() {
    let mut room = GameRoom::new(GameType::TestGame);
    let mut picker = ColorPicker::new();
    assert_eq!(
        room.action(GameRoomAction::Unrecognized, &mut picker).unwrap_err(),
        Error::NoActiveGame
    );
    room.join("alice".to_string(), &mut picker).unwrap();
    room.start().unwrap();
    assert_eq!(
        room.action(GameRoomAction::Unrecognized, &mut picker).unwrap_err(),
        Error::GameRule(GameError::MalformedAction)
    );
}

#[test]
fn accepted_action_reports_snapshot_of_new_state() {
    // Broadcast on success only: an accepted action hands back
    // exactly one snapshot reflecting the post-mutation state; a
    // rejected one hands back none and changes nothing.
    let mut room = GameRoom::new(GameType::TestGame);
    let mut picker = ColorPicker::with_cursor(0);
    let snap = room
        .action(GameRoomAction::JoinGame { name: "alice".to_string() }, &mut picker)
        .unwrap();
    assert_eq!(snap.players, vec!["alice".to_string()]);
    assert_eq!(snap.player_colors, vec![palette_color(0)]);
    let before = room.state();
    let err = room
        .action(GameRoomAction::JoinGame { name: String::new() }, &mut picker)
        .unwrap_err();
    assert_eq!(err, Error::InvalidName);
    let after = room.state();
    assert_eq!(after.players, before.players);
    assert_eq!(after.player_colors, before.player_colors);
}

#[test]
fn subscribers_and_empty_signal() {
    let mut room = GameRoom::new(GameType::TestGame);
    room.subscribe(1);
    room.subscribe(2);
    room.subscribe(1);
    assert!(!room.unsubscribe(1));
    assert!(!room.unsubscribe(1));
    assert!(room.unsubscribe(2));
}
