//! The order of dollar amounts: by sign first, then by magnitude, with the
//! magnitude reversed among negative amounts.

use super::money::USD;
use core::cmp::Ordering;
use vstd::prelude::*;

verus! {

/// Whether `a` sorts strictly before `b`. A negative amount is before every
/// positive one; of two positive amounts the smaller magnitude is first, of
/// two negative amounts the larger. Negative zero is before positive zero.
pub open spec fn money_lt(a: USD, b: USD) -> bool {
    if a.is_negative != b.is_negative {
        a.is_negative
    } else if a.is_negative {
        a.cents > b.cents
    } else {
        a.cents < b.cents
    }
}

impl PartialOrd for USD {
    fn partial_cmp(&self, other: &USD) -> (r: Option<Ordering>) {
        if self.is_negative != other.is_negative {
            if self.is_negative {
                Some(Ordering::Less)
            } else {
                Some(Ordering::Greater)
            }
        } else if self.cents == other.cents {
            Some(Ordering::Equal)
        } else if (self.cents < other.cents) != self.is_negative {
            Some(Ordering::Less)
        } else {
            Some(Ordering::Greater)
        }
    }
}

impl vstd::std_specs::cmp::PartialOrdSpecImpl for USD {
    open spec fn obeys_partial_cmp_spec() -> bool {
        true
    }

    open spec fn partial_cmp_spec(&self, other: &USD) -> Option<Ordering> {
        if money_lt(*self, *other) {
            Some(Ordering::Less)
        } else if *self == *other {
            Some(Ordering::Equal)
        } else {
            Some(Ordering::Greater)
        }
    }
}

/// The order is total and strict: of any two amounts exactly one of
/// "before", "equal" and "after" holds, and "before" is transitive.
pub proof fn lemma_money_order(a: USD, b: USD, c: USD)
    ensures
        money_lt(a, b) || a == b || money_lt(b, a),
        !(money_lt(a, b) && a == b),
        !(money_lt(a, b) && money_lt(b, a)),
        !(a == b && money_lt(b, a)),
        money_lt(a, b) && money_lt(b, c) ==> money_lt(a, c),
{
}

} // verus!
