//! Extraction of catalyst events from a regulatory calendar page: an exact
//! US-dollar type with its text grammar, and the row extraction, filtering
//! and grouping that turn one HTML document into an ordered catalog.

pub mod currency;
pub mod fda_scraper;
pub mod text;
