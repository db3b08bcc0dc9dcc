//! Presence tracking for a game server: turns successive status snapshots
//! into "player joined" events and the notification texts that announce them.
pub mod ident;
pub mod notify;
pub mod poll;
pub mod presence;
pub mod text;
