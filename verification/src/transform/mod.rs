//! From duplicate groups to what is kept of them.

pub mod compare;
pub mod diff;
pub mod difference_cleaner;
pub mod dupe_analyzer;
pub mod dupe_cleaner;
pub mod filter;
pub mod grouping;
pub mod laws;
pub mod model;
