//! The ceilings by which rows are kept or dropped.

use super::date::date_lt;
use super::date::CatalystDate;
use crate::currency::order::money_lt;
use crate::currency::USD;
use vstd::prelude::*;

verus! {

/// An optional price ceiling and an optional date ceiling. The price ceiling
/// is inclusive, the date ceiling exclusive; an absent ceiling accepts all.
pub struct ScrapePredicates {
    pub price_limit: Option<USD>,
    pub date_limit: Option<CatalystDate>,
}

impl ScrapePredicates {
    /// A price passes when no ceiling is set, or it is at or below the ceiling.
    pub open spec fn accepts_price(&self, price: USD) -> bool {
        match self.price_limit {
            Some(limit) => money_lt(price, limit) || price == limit,
            None => true,
        }
    }

    /// A date passes when no ceiling is set, or it is before the ceiling.
    pub open spec fn accepts_date(&self, date: CatalystDate) -> bool {
        match self.date_limit {
            Some(limit) => date_lt(date, limit),
            None => true,
        }
    }

    /// A row is kept when both its price and its date pass.
    pub open spec fn accepts(&self, price: USD, date: CatalystDate) -> bool {
        self.accepts_price(price) && self.accepts_date(date)
    }

    /// No ceilings: every row is kept.
    pub fn new() -> (predicates: ScrapePredicates)
        ensures
            predicates == (ScrapePredicates { price_limit: None, date_limit: None }),
    {
        ScrapePredicates { price_limit: None, date_limit: None }
    }

    /// The same predicates with the price ceiling set to `price_limit`.
    pub fn set_price_limit(self, price_limit: USD) -> (predicates: ScrapePredicates)
        ensures
            predicates == (ScrapePredicates { price_limit: Some(price_limit), ..self }),
    {
        ScrapePredicates { price_limit: Some(price_limit), date_limit: self.date_limit }
    }

    /// The same predicates with the date ceiling set to `date_limit`.
    pub fn set_date_limit(self, date_limit: CatalystDate) -> (predicates: ScrapePredicates)
        ensures
            predicates == (ScrapePredicates { date_limit: Some(date_limit), ..self }),
    {
        ScrapePredicates { price_limit: self.price_limit, date_limit: Some(date_limit) }
    }

    /// Whether a price passes the price ceiling.
    pub fn test_price(&self, test_value: &USD) -> (passes: bool)
        ensures
            passes == self.accepts_price(*test_value),
    {
        match &self.price_limit {
            Some(price_limit) => *test_value <= *price_limit,
            None => true,
        }
    }

    /// Whether a date passes the date ceiling.
    pub fn test_date(&self, test_value: &CatalystDate) -> (passes: bool)
        ensures
            passes == self.accepts_date(*test_value),
    {
        match &self.date_limit {
            Some(date_limit) => *test_value < *date_limit,
            None => true,
        }
    }
}

} // verus!
