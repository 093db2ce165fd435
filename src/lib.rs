//! Verified core of a real-time party game server: the binary wire protocol,
//! the shared game store with its atomic transitions, and the per-connection
//! session state machines of players and displays.
//!
//! The store here is an in-memory one; a server that keeps its state in
//! Redis runs the same operations as Lua scripts, which are not verified
//! (see `store`).

pub mod bits;
pub mod game;
pub mod wire;
pub mod messages;
pub mod notify;
pub mod session;
pub mod shuffle;
pub mod socket;
pub mod store;
