//! What each module of the bot does once, while the bot starts.

pub mod config;
pub mod music;
pub mod permission;
pub mod points;
