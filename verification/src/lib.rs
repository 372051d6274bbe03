//! A declarative skip filter for a suite of test files.
//!
//! A [`Filter`] maps folder names to the files, the file name patterns and the
//! named cases that a test run leaves out. [`Filter::is_skipped`] decides for
//! one file or case, and [`Filter::diff`] names the folders on which two
//! filters disagree.

pub mod diff;
pub mod filter;
pub mod listing;
pub mod path;
pub mod pattern;

pub use diff::map_diff;
pub use filter::{Filter, PatternError};
pub use listing::FilterMap;
pub use path::PathWrapper;
