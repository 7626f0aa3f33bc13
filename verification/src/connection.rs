//! Per-connection liveness: the heartbeat state machine every
//! connection (lobby- or room-scoped) runs.
//!
//! Only ping and pong control frames refresh liveness; ordinary data
//! frames do not. A periodic check with the heartbeat period compares
//! the clock against the last liveness signal and orders the
//! connection closed once the gap exceeds twice the heartbeat
//! interval.

use vstd::prelude::*;

verus! {

/// Relies on uuid's `Uuid::new_v4` and `Uuid::as_u128`: a fresh
/// random version-4 identifier as a plain integer. Nothing is
/// promised of the value; the subscriber sets treat ids as opaque.
#[verifier::external_body]
fn fresh_id() -> u128 {
    uuid::Uuid::new_v4().as_u128()
}

/// One inbound websocket message, reduced to what the liveness and
/// routing decisions depend on.
#[derive(Debug, Clone, Copy, PartialEq, Eq, Structural)]
pub enum WsMessage {
    /// A ping control frame (a liveness signal to be echoed).
    Ping,
    /// A pong control frame (a liveness signal).
    Pong,
    /// A close frame from the peer.
    Close,
    /// A text frame carrying an action payload.
    Text,
    /// Anything else (binary, continuation, protocol error).
    Other,
}

/// What the connection handler must do with a message.
#[derive(Debug, Clone, Copy, PartialEq, Eq, Structural)]
pub enum WsDirective {
    /// Echo a pong to the peer.
    ReplyPong,
    /// Close the connection and stop the handler.
    Stop,
    /// Decode the text frame and forward it to the room or lobby.
    Forward,
    /// Drop the message (logged as a warning by the handler).
    Ignore,
}

/// The decision `on_message` implements: ping and pong refresh
/// liveness, a ping is echoed, a close stops the handler, a text
/// frame is forwarded, anything else is dropped.
pub open spec fn directive_spec(msg: WsMessage) -> WsDirective {
    match msg {
        WsMessage::Ping => WsDirective::ReplyPong,
        WsMessage::Pong => WsDirective::Ignore,
        WsMessage::Close => WsDirective::Stop,
        WsMessage::Text => WsDirective::Forward,
        WsMessage::Other => WsDirective::Ignore,
    }
}

/// One client connection's liveness state: its identifier, its
/// heartbeat interval, and the time of the last liveness signal, in
/// milliseconds of a monotonic clock the caller supplies.
#[derive(Debug, Clone, Copy, PartialEq, Eq, Structural)]
pub struct Connection {
    /// Unique identifier, used as the subscriber id.
    pub id: u128,
    /// Heartbeat interval in milliseconds.
    pub heartbeat_ms: u64,
    /// Clock reading of the last observed ping or pong.
    pub heartbeat_last_ms: u64,
}

impl Connection {
    /// Twice the heartbeat interval stays representable.
    pub open spec fn wf(self) -> bool {
        self.heartbeat_ms <= u64::MAX / 2
    }

    /// A fresh connection with a random identifier, alive as of
    /// `now_ms`.
    pub fn new(heartbeat_ms: u64, now_ms: u64) -> (c: Connection)
        requires
            heartbeat_ms <= u64::MAX / 2,
        ensures
            c.wf(),
            c.heartbeat_ms == heartbeat_ms,
            c.heartbeat_last_ms == now_ms,
    {
        Connection { id: fresh_id(), heartbeat_ms, heartbeat_last_ms: now_ms }
    }

    /// Handle one inbound message: ping and pong refresh liveness to
    /// `now_ms`, every other message leaves it untouched; the
    /// returned directive tells the handler what to do.
    pub fn on_message(&mut self, msg: WsMessage, now_ms: u64) -> (d: WsDirective)
        ensures
            final(self).id == old(self).id,
            final(self).heartbeat_ms == old(self).heartbeat_ms,
            final(self).heartbeat_last_ms == (match msg {
                WsMessage::Ping => now_ms,
                WsMessage::Pong => now_ms,
                _ => old(self).heartbeat_last_ms,
            }),
            d == directive_spec(msg),
    {
        match msg {
            WsMessage::Ping => {
                self.heartbeat_last_ms = now_ms;
                WsDirective::ReplyPong
            },
            WsMessage::Pong => {
                self.heartbeat_last_ms = now_ms;
                WsDirective::Ignore
            },
            WsMessage::Close => WsDirective::Stop,
            WsMessage::Text => WsDirective::Forward,
            WsMessage::Other => WsDirective::Ignore,
        }
    }

    /// The periodic check: whether the gap since the last liveness
    /// signal exceeds twice the heartbeat interval, in which case the
    /// connection is forcibly closed.
    pub fn timed_out(&self, now_ms: u64) -> (r: bool)
        requires
            self.wf(),
            self.heartbeat_last_ms <= now_ms,
        ensures
            r == (now_ms - self.heartbeat_last_ms > 2 * self.heartbeat_ms),
    {
        now_ms - self.heartbeat_last_ms > 2 * self.heartbeat_ms
    }
}

} // verus!
