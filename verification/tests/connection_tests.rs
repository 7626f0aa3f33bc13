use game_rooms::connection::{Connection, WsDirective, WsMessage};
use game_rooms::errors::{Error, GameError};

#[test]
fn heartbeat_timeout_after_twice_the_interval() {
    // Heartbeat interval H = 1s: no ping/pong for more than 2s means
    // the connection is closed; exactly 2s is still alive.
    let c = Connection::new(1000, 0);
    assert!(!c.timed_out(1000));
    assert!(!c.timed_out(2000));
    assert!(c.timed_out(2001));
}

#[test]
fn ping_and_pong_refresh_liveness() {
    let mut c = Connection::new(1000, 0);
    assert_eq!(c.on_message(WsMessage::Ping, 1500), WsDirective::ReplyPong);
    assert_eq!(c.heartbeat_last_ms, 1500);
    assert_eq!(c.on_message(WsMessage::Pong, 2500), WsDirective::Ignore);
    assert_eq!(c.heartbeat_last_ms, 2500);
    assert!(!c.timed_out(4500));
    assert!(c.timed_out(4501));
}

#[test]
fn data_frames_do_not_refresh_liveness() {
    let mut c = Connection::new(1000, 0);
    assert_eq!(c.on_message(WsMessage::Text, 1500), WsDirective::Forward);
    assert_eq!(c.heartbeat_last_ms, 0);
    assert_eq!(c.on_message(WsMessage::Other, 1800), WsDirective::Ignore);
    assert_eq!(c.heartbeat_last_ms, 0);
    assert_eq!(c.on_message(WsMessage::Close, 2100), WsDirective::Stop);
    assert_eq!(c.heartbeat_last_ms, 0);
    assert!(c.timed_out(2101));
}

#[test]
fn error_messages_are_descriptive() {
    assert_eq!(Error::InvalidName.message(), "can't create room without name");
    assert_eq!(Error::AlreadyExists.message(), "room already exists");
    assert_eq!(Error::NotFound.message(), "room does not exist");
    assert_eq!(Error::NoActiveGame.message(), "no game is active");
    assert_eq!(
        Error::GameRule(GameError::NotYourTurn).message(),
        "not your turn"
    );
    assert_eq!(
        Error::GameRule(GameError::EmptyDeck).message(),
        "attempted to draw from empty deck"
    );
    assert_eq!(
        GameError::UnknownPlayer.message(),
        "player is not playing"
    );
    assert_eq!(GameError::PlayedPrincess.message(), "tried to play princess");
    assert_eq!(GameError::CardNotHeld.message(), "player doesn't have that card");
    assert_eq!(GameError::TargetHasNoCards.message(), "target has no cards");
    assert_eq!(GameError::NotSwappedPlayer.message(), "not swapped player");
    assert_eq!(GameError::WrongPhase.message(), "invalid action during this phase");
    assert_eq!(GameError::MalformedAction.message(), "unrecognized action payload");
}
