//! The command-line front end: search options, the result pages of one
//! session and what the user's choices in them mean.

pub mod args;
pub mod session;
pub mod commands;
pub mod listing;
