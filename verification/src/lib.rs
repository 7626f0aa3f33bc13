//! A session-coordination library for real-time multiplayer game rooms.
//!
//! Clients discover and create named rooms from a shared lobby, join a
//! room, and exchange turn-based game actions while every connected
//! client's view stays synchronized via server-pushed state snapshots.

pub mod connection;
pub mod errors;
pub mod game;
pub mod palette;
pub mod registry;
pub mod room;
pub mod search;
pub mod test_game;
