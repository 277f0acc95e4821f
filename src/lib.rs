//! Presence tracking for a game client's friend list: each poll of the roster is
//! compared with what was seen before, and a friend who comes online through the
//! tracked client surface yields an alert.
pub mod types;
pub mod notify;
pub mod classify;
pub mod store;
pub mod cycle;
pub mod lemmas;
