//! Verified core of a photo-search-and-download tool.
//!
//! The library holds the logic that decides what the tool does: validating
//! the page-count input, building the request parameters, turning a search
//! response body into photo records, and deriving the output path for each
//! record's image file. The surrounding binary performs the console,
//! network and filesystem work and calls into this crate for every decision.

pub mod filename;
pub mod pages;
pub mod plan;
pub mod request;
pub mod search;
pub mod text;
