use game_rooms::errors::GameError;
use game_rooms::game::GameType;
use game_rooms::test_game::{
    TestGame, TestGameAction, TestGameCard, TestGameDeck, TestGamePhase,
};

fn two_player_game() -> TestGame {
    // The deterministic four-card deck of the reference scenario:
    // dealing pops from the end, so P1 and P2 each start with a stab
    // and the deck keeps [Princess, Protect].
    TestGame::from_deck(
        vec!["P1".to_string(), "P2".to_string()],
        vec![
            TestGameCard::Princess,
            TestGameCard::Protect,
            TestGameCard::Stabby,
            TestGameCard::Stabby,
        ],
    )
}

fn draw(user: &str) -> TestGameAction {
    TestGameAction::Draw { user: user.to_string(), deck: TestGameDeck::Deck }
}

fn play(user: &str, card: TestGameCard, target: &str) -> TestGameAction {
    TestGameAction::Play { user: user.to_string(), card, target: target.to_string() }
}

#[test]
fn end_to_end_two_player_scenario() {
    let mut g = two_player_game();
    let s = g.state();
    assert_eq!(s.phase, TestGamePhase::BeforeTurn);
    assert_eq!(s.current_player, Some("P1".to_string()));
    assert_eq!(s.down_hands, vec![vec![TestGameCard::Stabby], vec![TestGameCard::Stabby]]);
    assert_eq!(s.deck_count, 2);

    // P1 draws: BeforeTurn -> Turn, P1 now holds a second card.
    g.action(draw("P1")).unwrap();
    let s = g.state();
    assert_eq!(s.phase, TestGamePhase::Turn);
    assert_eq!(s.down_hands[0], vec![TestGameCard::Stabby, TestGameCard::Protect]);
    assert_eq!(s.deck_count, 1);

    // P1 stabs the unprotected P2: P2's hidden card moves to P1's
    // hand and the phase becomes DecidingStabby.
    g.action(play("P1", TestGameCard::Stabby, "P2")).unwrap();
    let s = g.state();
    assert_eq!(s.phase, TestGamePhase::DecidingStabby);
    assert_eq!(s.down_hands[1], Vec::<TestGameCard>::new());
    assert_eq!(s.down_hands[0], vec![TestGameCard::Protect, TestGameCard::Stabby]);

    // P1 hands one held card back to the swapped player; the turn
    // passes to P2's BeforeTurn.
    g.action(play("P1", TestGameCard::Protect, "P2")).unwrap();
    let s = g.state();
    assert_eq!(s.phase, TestGamePhase::BeforeTurn);
    assert_eq!(s.current_player, Some("P2".to_string()));
    assert_eq!(s.down_hands[0], vec![TestGameCard::Stabby]);
    assert_eq!(s.down_hands[1], vec![TestGameCard::Protect]);
}

#[test]
fn game_runs_to_the_end_and_names_winner() {
    let mut g = two_player_game();
    g.action(draw("P1")).unwrap();
    // P1 discards a stab at themselves; the turn passes to P2.
    g.action(play("P1", TestGameCard::Stabby, "P1")).unwrap();
    let s = g.state();
    assert_eq!(s.phase, TestGamePhase::BeforeTurn);
    assert_eq!(s.current_player, Some("P2".to_string()));
    assert_eq!(s.discard_top, Some(TestGameCard::Stabby));
    // P2 draws the last card (the princess) and discards a stab at
    // themselves; the deck is exhausted, so the game ends and the
    // princess holder wins.
    g.action(draw("P2")).unwrap();
    assert!(!g.ended());
    g.action(play("P2", TestGameCard::Stabby, "P2")).unwrap();
    assert!(g.ended());
    assert_eq!(g.status(), "ended");
    let s = g.state();
    assert_eq!(s.phase, TestGamePhase::Ended);
    assert_eq!(s.deck_count, 0);
    let log = s.log;
    assert_eq!(log[log.len() - 2], "P2 has the Princess");
    assert_eq!(log[log.len() - 1], "P2 wins!");
}

#[test]
fn draw_out_of_turn_rejected() {
    let mut g = two_player_game();
    assert_eq!(g.action(draw("P2")), Err(GameError::NotYourTurn));
    assert_eq!(g.state().phase, TestGamePhase::BeforeTurn);
}

#[test]
fn unknown_player_rejected() {
    let mut g = two_player_game();
    assert_eq!(g.action(draw("P9")), Err(GameError::UnknownPlayer));
    assert_eq!(
        g.find_player(&"P9".to_string()),
        Err(GameError::UnknownPlayer)
    );
    assert_eq!(g.find_player(&"P2".to_string()), Ok(1));
}

#[test]
fn play_before_drawing_logs_reminder() {
    let mut g = two_player_game();
    let before = g.state().log.len();
    g.action(play("P1", TestGameCard::Stabby, "P2")).unwrap();
    let s = g.state();
    assert_eq!(s.phase, TestGamePhase::BeforeTurn);
    assert_eq!(s.log.len(), before + 1);
    assert_eq!(s.log[before], "P1 needs to draw..");
}

#[test]
fn princess_can_never_be_played() {
    let mut g = two_player_game();
    g.action(draw("P1")).unwrap();
    assert_eq!(
        g.action(play("P1", TestGameCard::Princess, "P2")),
        Err(GameError::PlayedPrincess)
    );
}

#[test]
fn protected_target_blocks_the_stab() {
    let mut g = two_player_game();
    // P1 draws the protect and places it on themselves (a marker on
    // the incoming player would be discarded when their turn starts).
    g.action(draw("P1")).unwrap();
    g.action(play("P1", TestGameCard::Protect, "P1")).unwrap();
    assert_eq!(g.state().up_hands[0], vec![TestGameCard::Protect]);
    // P2 draws and stabs the protected P1: accepted with a log line,
    // no cards move, and the turn does not advance.
    g.action(draw("P2")).unwrap();
    let hands_before = g.state().down_hands;
    g.action(play("P2", TestGameCard::Stabby, "P1")).unwrap();
    let s = g.state();
    assert_eq!(s.down_hands, hands_before);
    assert_eq!(s.phase, TestGamePhase::Turn);
    assert_eq!(s.log[s.log.len() - 1], "P1 is protected...");
}

#[test]
fn wrong_phase_rejected() {
    let mut g = two_player_game();
    g.action(draw("P1")).unwrap();
    assert_eq!(g.action(draw("P1")), Err(GameError::WrongPhase));
}

#[test]
fn card_not_held_rejected() {
    let mut g = two_player_game();
    g.action(draw("P1")).unwrap();
    // P1 holds a stab and a protect, no second protect to give away
    // after playing the held one... play a protect on P1 twice: the
    // second is not held.
    g.action(play("P1", TestGameCard::Protect, "P1")).unwrap();
    g.action(draw("P2")).unwrap();
    assert_eq!(
        g.action(play("P2", TestGameCard::Protect, "P2")),
        Err(GameError::CardNotHeld)
    );
}

#[test]
fn not_swapped_player_rejected() {
    let mut g = two_player_game();
    g.action(draw("P1")).unwrap();
    g.action(play("P1", TestGameCard::Stabby, "P2")).unwrap();
    assert_eq!(g.state().phase, TestGamePhase::DecidingStabby);
    // Resolving the swap against a player who still holds cards is
    // rejected.
    assert_eq!(
        g.action(play("P1", TestGameCard::Protect, "P1")),
        Err(GameError::NotSwappedPlayer)
    );
}

#[test]
fn empty_deck_draw_rejected() {
    let mut g = TestGame::from_deck(
        vec!["P1".to_string(), "P2".to_string()],
        vec![TestGameCard::Stabby, TestGameCard::Stabby],
    );
    assert_eq!(g.action(draw("P1")), Err(GameError::EmptyDeck));
}

#[test]
fn target_with_no_cards_rejected() {
    // Constructed directly: P2 has no hidden cards in the Turn phase.
    let mut g = TestGame {
        players: vec!["P1".to_string(), "P2".to_string()],
        current: 0,
        phase: TestGamePhase::Turn,
        up_hands: vec![vec![], vec![]],
        down_hands: vec![vec![TestGameCard::Stabby], vec![]],
        deck: vec![TestGameCard::Princess],
        discard: vec![],
        log: vec![],
    };
    assert_eq!(
        g.action(play("P1", TestGameCard::Stabby, "P2")),
        Err(GameError::TargetHasNoCards)
    );
}

#[test]
fn end_turn_passes_and_clears_up_hand() {
    let mut g = TestGame {
        players: vec!["P1".to_string(), "P2".to_string()],
        current: 0,
        phase: TestGamePhase::Turn,
        up_hands: vec![vec![], vec![TestGameCard::Protect]],
        down_hands: vec![vec![TestGameCard::Stabby], vec![TestGameCard::Princess]],
        deck: vec![TestGameCard::Stabby],
        discard: vec![],
        log: vec![],
    };
    g.end_turn();
    let s = g.state();
    assert_eq!(s.current_player, Some("P2".to_string()));
    assert_eq!(s.phase, TestGamePhase::BeforeTurn);
    assert_eq!(s.up_hands[1], Vec::<TestGameCard>::new());
    assert_eq!(s.discard_top, Some(TestGameCard::Protect));
}

#[test]
fn new_deals_one_card_each_from_sized_deck() {
    let players = vec!["a".to_string(), "b".to_string(), "c".to_string()];
    let g = TestGame::new(players.clone());
    let s = g.state();
    assert_eq!(s.phase, TestGamePhase::BeforeTurn);
    let mut roster = s.players.clone();
    roster.sort();
    assert_eq!(roster, players);
    assert_eq!(s.down_hands.len(), 3);
    assert!(s.down_hands.iter().all(|h| h.len() == 1));
    // 3 players: 1 princess + 2 protects + 8 stabs, minus 3 dealt.
    assert_eq!(s.deck_count, 8);
    assert_eq!(s.discard_count, 0);
    assert_eq!(s.log.len(), 3);
}

#[test]
fn status_reflects_phase() {
    let g = two_player_game();
    assert_eq!(g.status(), "in game");
    assert!(!g.ended());
}

#[test]
fn game_type_names_and_create() {
    assert_eq!(GameType::names(), vec!["test_game", "other_test_game"]);
    let g = GameType::OtherTestGame.create(vec!["a".to_string()]);
    assert_eq!(g.kind, GameType::OtherTestGame);
    assert!(!g.ended());
    assert_eq!(g.status(), "in game");
    assert_eq!(g.state().players, vec!["a".to_string()]);
}
