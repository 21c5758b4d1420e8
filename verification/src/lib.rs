//! A small verified line-search library: split a text into lines and return
//! the lines that contain a query string, case-sensitively or after
//! lowercasing both sides.
//!
//! The search functions return views into the caller's text, in the order the
//! lines appear there, and their contracts pin the result down exactly over
//! `Seq<char>` models of the inputs.

pub mod config;
pub mod laws;
pub mod lines;
pub mod matching;
pub mod search;

pub use config::Config;
pub use config::ConfigError;
pub use search::run_search;
pub use search::search;
pub use search::search_case_insensitive;
