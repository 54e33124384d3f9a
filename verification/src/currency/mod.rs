//! Exact US-dollar amounts in sign-and-magnitude form, with the text grammar
//! `[-]$D[.CC]` and the canonical rendering `[-]$D.CC`.

pub mod decimal;
pub mod grammar;
pub mod money;
pub mod order;
pub mod round_trip;

pub use grammar::MoneyFault;
pub use money::USDParseError;
pub use money::USD;
