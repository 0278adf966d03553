//! Verified core of a small automation helper for a game client: configuration
//! defaults, parsing of what the user types at the prompts, the decisions made
//! while enumerating client windows, reading the client's chat buffer and
//! replacing a collector's battery.

pub mod config;
pub mod text;
pub mod input;
pub mod memory;
pub mod notify;
pub mod clients;
pub mod battery;
