//! The decision logic of a small Discord bot: command recognition, reply
//! texts, digit grouping, per-second message activity counting and
//! played-game records. Network, database and gateway handling live in app/.

pub mod text;
pub mod pretty_numbers;
pub mod commands;
pub mod timestamps;
pub mod ping;
pub mod last_seen;
pub mod dictionary;
pub mod most_played_game;
pub mod message_activity;
