//! The user's saved stations, play history, search history and votes.

pub mod favorites;
pub mod autovote;
pub mod search_history;
pub mod history;
pub mod votes;
pub mod cache;
