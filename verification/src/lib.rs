//! The logic of a Telegram bot that fetches the media of social posts.
use vstd::prelude::*;

pub mod accounts;
pub mod commands;
pub mod config;
pub mod decoding;
pub mod delivery;
pub mod document;
pub mod download;
pub mod encode;
pub mod filename;
pub mod images;
pub mod json;
pub mod laws;
pub mod links;
pub mod listing;
pub mod metadata;
pub mod mine_bot;
pub mod numbers;
pub mod order;
pub mod posts;
pub mod present;
pub mod progress;
pub mod round_trip;
pub mod schema;
pub mod settings;
pub mod status;
pub mod text;
pub mod users;

verus! {

} // verus!
