//! Line-oriented text search: find the lines of a text that contain a query,
//! with or without regard to letter case.
//!
//! Texts are modelled as sequences of `char`, and every executable function
//! states its result over the spec functions of this crate: what a line is
//! (`lines::lines_of`), what trimming leaves (`trim::trimmed`), when one text
//! holds another (`pattern::contains`), and which lines a search finds
//! (`search::found_lines`). The module `laws` proves what follows from these
//! for every query and every text.
//!
//! One thing is taken from the standard library without proof: the lowercase
//! form of a text, which `lowercase::std_lowercase` names.

pub mod config;
pub mod error;
pub mod laws;
pub mod lines;
pub mod lowercase;
pub mod pattern;
pub mod search;
pub mod slicing;
pub mod trim;

pub use config::Config;
pub use error::GrepError;
pub use search::{run, search};
