//! Rows of the calendar page, read through CSS selectors.

pub mod catalog;
pub mod date;
pub mod dom;
pub mod error;
pub mod grouping;
pub mod label_order;
pub mod laws;
pub mod predicates;
pub mod row;

pub use catalog::parse_all_rows;
pub use catalog::parse_rows;
pub use catalog::parse_rows_read;
pub use catalog::CatalystGroup;
pub use catalog::ScrapedCatalysts;
pub use date::CatalystDate;
pub use dom::build_selector_for;
pub use dom::is_parseable;
pub use dom::retrieve_attr_from;
pub use dom::retrieve_text_from;
pub use dom::select_first_element_from;
pub use dom::select_first_text_from;
pub use error::ScrapeError;
pub use predicates::ScrapePredicates;
pub use row::assemble_row;
pub use row::ParsedRow;
pub use row::PhaseLabel;
pub use row::RowSelectors;
