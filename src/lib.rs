//! A small line-oriented text search library.
//!
//! [`Config::build`] turns invocation arguments into a search request, and
//! [`search`] / [`search_case_insensitive`] pick the lines of a text that
//! contain a query.
pub mod config;
pub mod laws;
pub mod lines;
pub mod search;

pub use config::{Config, ConfigError};
pub use lines::lines;
pub use search::{matching_lines, search, search_case_insensitive, select_folded};
