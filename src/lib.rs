//! Core of a multi-user chat server: the user and message store, the
//! broadcast hub, the per-connection session rules, the wire payloads, and
//! the state of the terminal client.
pub mod client;
pub mod hub;
pub mod ids;
pub mod protocol;
pub mod session;
pub mod store;
pub mod text;
pub mod timestamp;
