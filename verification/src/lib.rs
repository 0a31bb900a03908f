//! Session layer of a two-player rock-paper-scissors game server.
//!
//! The library holds the verified core: the connection registry and
//! matchmaking queue (`server`), the per-match round state machine
//! (`room`), the client-facing message types (`client_messages`), and
//! the heartbeat liveness rule (`connection`). Transport, wire encoding
//! and the process entry point live outside the library and talk to it
//! through plain values.

pub mod types;
pub mod room;
pub mod server_messages;
pub mod client_messages;
pub mod server;
pub mod connection;
