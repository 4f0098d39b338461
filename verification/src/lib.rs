//! Verified core of a terminal web-radio player: search-query language,
//! autocompletion, pagination, station bookkeeping and user preferences.

pub mod config;
pub mod text;
pub mod search;
pub mod api;
pub mod player;
pub mod clock;
pub mod storage;
pub mod cli;
pub mod ipc_client;
pub mod tui;
pub mod daemon;
pub mod playlist;
