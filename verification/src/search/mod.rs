//! The search-query language: the query type, its textual syntax,
//! autocompletion of partly typed queries, and a cache of result pages.

pub mod types;
pub mod validation;
pub mod parser;
pub mod autocomplete;
pub mod pagination;
pub mod round_trip;
