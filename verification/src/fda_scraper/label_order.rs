//! The order of grouping labels: that of their texts.

use super::row::PhaseLabel;
use crate::text::text_before;
use crate::text::text_lt;
use core::cmp::Ordering;
use vstd::prelude::*;

verus! {

impl PartialOrd for PhaseLabel {
    fn partial_cmp(&self, other: &PhaseLabel) -> (r: Option<Ordering>) {
        if text_before(self.0.as_str(), other.0.as_str()) {
            Some(Ordering::Less)
        } else if self.0 == other.0 {
            Some(Ordering::Equal)
        } else {
            Some(Ordering::Greater)
        }
    }
}

impl vstd::std_specs::cmp::PartialOrdSpecImpl for PhaseLabel {
    open spec fn obeys_partial_cmp_spec() -> bool {
        true
    }

    open spec fn partial_cmp_spec(&self, other: &PhaseLabel) -> Option<Ordering> {
        if text_lt(self@, other@) {
            Some(Ordering::Less)
        } else if self@ == other@ {
            Some(Ordering::Equal)
        } else {
            Some(Ordering::Greater)
        }
    }
}

} // verus!
