//! Records of the station directory and the requests made to it.

pub mod models;
pub mod client;
