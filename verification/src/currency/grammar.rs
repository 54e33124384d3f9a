//! The text grammar of a dollar amount, as a function from characters to
//! either an amount or the reason the text is refused.

use super::decimal::all_digits;
use super::decimal::decimal_digits;
use super::decimal::decimal_value;
use super::decimal::two_digits;
use super::money::USD;
use vstd::prelude::*;

verus! {

/// Why a text is not a dollar amount.
pub enum MoneyFault {
    /// No `$` follows the optional sign.
    NoDollarSign,
    /// A fractional part is present and is not exactly two characters long.
    DecimalWithInsufficientCents,
    /// Nothing follows the `$`, there is more than one `.`, a part is not
    /// made of digits, the dollars do not fit in 64 bits, or, of a text
    /// that is well formed otherwise, the amount does not fit in 64 bits of
    /// cents.
    InvalidStructure,
}

/// The position of the first `.` in `s`, or `s.len()` when there is none.
pub open spec fn first_dot(s: Seq<char>) -> int
    decreases s.len(),
{
    if s.len() == 0 || s[0] == '.' {
        0
    } else {
        1 + first_dot(s.drop_first())
    }
}

/// The cents denoted by what follows the `$`: a whole-dollar digit string,
/// possibly empty, and optionally a `.` with exactly two digits of cents.
///
/// The text is judged from left to right. First its shape: it is not empty
/// and holds at most one `.`. Then the dollars: digits that denote a number
/// of 64 bits. Then the cents, if there are any: two characters, and both
/// digits. Last the amount, a hundred times the dollars plus the cents: it
/// fits in 64 bits.
pub open spec fn parse_amount(body: Seq<char>) -> Result<u64, MoneyFault> {
    let split = first_dot(body);
    let dollars = body.take(split);
    let cents = body.skip(split + 1);
    if body.len() == 0 {
        Err(MoneyFault::InvalidStructure)
    } else if split < body.len() && cents.contains('.') {
        Err(MoneyFault::InvalidStructure)
    } else if !all_digits(dollars) || decimal_value(dollars) > u64::MAX {
        Err(MoneyFault::InvalidStructure)
    } else if split == body.len() {
        if decimal_value(dollars) * 100 > u64::MAX {
            Err(MoneyFault::InvalidStructure)
        } else {
            Ok((decimal_value(dollars) * 100) as u64)
        }
    } else if cents.len() != 2 {
        Err(MoneyFault::DecimalWithInsufficientCents)
    } else if !all_digits(cents) {
        Err(MoneyFault::InvalidStructure)
    } else if decimal_value(dollars) * 100 + decimal_value(cents) > u64::MAX {
        Err(MoneyFault::InvalidStructure)
    } else {
        Ok((decimal_value(dollars) * 100 + decimal_value(cents)) as u64)
    }
}

/// The amount a text denotes: an optional leading `-`, then `$`, then the
/// amount proper. The text is taken exactly as given, with no trimming.
pub open spec fn parse_money(text: Seq<char>) -> Result<USD, MoneyFault> {
    let is_negative = text.len() > 0 && text[0] == '-';
    let unsigned = if is_negative {
        text.skip(1)
    } else {
        text
    };
    if unsigned.len() == 0 || unsigned[0] != '$' {
        Err(MoneyFault::NoDollarSign)
    } else {
        match parse_amount(unsigned.skip(1)) {
            Ok(cents) => Ok(USD { is_negative, cents }),
            Err(fault) => Err(fault),
        }
    }
}

/// The canonical text of an amount: `-` if negative, `$`, the dollars with no
/// leading zeros, `.`, and the cents as two digits.
pub open spec fn format_money(amount: USD) -> Seq<char> {
    let sign = if amount.is_negative {
        seq!['-']
    } else {
        Seq::<char>::empty()
    };
    sign + seq!['$'] + decimal_digits((amount.cents / 100) as nat) + seq!['.'] + two_digits(
        (amount.cents % 100) as nat,
    )
}

/// Where the first `.` of a string is: no `.` before it, and a `.` at it
/// unless it is the end of the string.
pub proof fn lemma_first_dot(s: Seq<char>)
    ensures
        0 <= first_dot(s) <= s.len(),
        forall|j: int| 0 <= j < first_dot(s) ==> s[j] != '.',
        first_dot(s) < s.len() ==> s[first_dot(s)] == '.',
    decreases s.len(),
{
    if s.len() == 0 || s[0] == '.' {
    } else {
        let rest = s.drop_first();
        lemma_first_dot(rest);
        assert forall|j: int| 0 <= j < first_dot(s) implies s[j] != '.' by {
            if j > 0 {
                assert(s[j] == rest[j - 1]);
            }
        }
        assert(first_dot(s) < s.len() ==> s[first_dot(s)] == rest[first_dot(rest)]);
    }
}

/// A position with no `.` before it, which holds a `.` or is the end of the
/// string, is the position of the first `.`.
pub proof fn lemma_first_dot_at(s: Seq<char>, k: int)
    requires
        0 <= k <= s.len(),
        forall|j: int| 0 <= j < k ==> s[j] != '.',
        k < s.len() ==> s[k] == '.',
    ensures
        first_dot(s) == k,
{
    lemma_first_dot(s);
    let f = first_dot(s);
    if f < k {
        assert(s[f] == '.');
    } else if k < f {
        assert(s[k] == '.');
    }
}

} // verus!
