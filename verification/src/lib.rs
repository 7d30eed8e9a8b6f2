//! Extraction of episode metadata from markdown posts and consolidation of
//! the extracted records into linked series and episode tables.

pub mod consolidate;
pub mod document;
pub mod extract;
pub mod store;
pub mod text;
