//! Plain substring search over the lines of a text.
//!
//! [`search`] and [`search_case_insensitive`] report every line of a text that
//! contains a query, each with its zero-based position. [`Config`] holds what
//! one invocation asks for, and [`run`] picks the matcher that it names.

pub mod config;
pub mod search;
pub mod text;

pub use config::{Config, ConfigError};
pub use search::{run, search, search_case_insensitive, select_lines};
