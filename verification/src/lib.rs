//! A realtime multi-room server core for a word-association party game:
//! the game rules engine, the in-memory store of rooms, games and sessions,
//! the hub that serialises every request, and the per-connection endpoint
//! state machine. Sockets, timers and the wire encoding live with the caller.

pub mod board;
pub mod client;
pub mod database;
pub mod event;
pub mod game;
pub mod integrity;
pub mod protocol;
pub mod random;
pub mod server;
pub mod store;
pub mod text;
