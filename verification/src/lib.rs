//! Incremental crawler for a paginated listing of dependent repositories.
//!
//! The listing grows at its head between runs. A crawl session always starts
//! at the first page, recognises the record at which an earlier session began,
//! and jumps to the cursor that session ended on.

pub mod count;
pub mod extractor;
pub mod fetcher;
pub mod loader;
pub mod markup;
pub mod ranking;
pub mod report;
pub mod resume;
pub mod text;
