//! Scans comma-separated records with a regular expression: collects the
//! matching fields, counts them, or rewrites the rows that hold a match.

use vstd::prelude::*;

pub mod coincidence;
pub mod error;
pub mod path;
pub mod pattern;
pub mod scan;
pub mod table;
pub mod laws;

pub use coincidence::{count_coincidences, find_partial_matches, merge_coincidence};
pub use error::ScanError;
pub use path::validate_csv_extension;
pub use pattern::Pattern;
