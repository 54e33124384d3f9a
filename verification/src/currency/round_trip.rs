//! The canonical text of an amount denotes that amount.

use super::decimal::all_digits;
use super::decimal::decimal_digits;
use super::decimal::decimal_value;
use super::decimal::is_digit;
use super::decimal::lemma_decimal_digits;
use super::decimal::lemma_two_digits;
use super::decimal::two_digits;
use super::grammar::format_money;
use super::grammar::lemma_first_dot_at;
use super::grammar::parse_amount;
use super::grammar::parse_money;
use super::grammar::MoneyFault;
use super::money::USD;
use vstd::prelude::*;

verus! {

/// Digits, a `.`, and two digits denote a hundred times the first number plus the second.
proof fn lemma_amount_of_parts(dollars: Seq<char>, cents: Seq<char>)
    requires
        dollars.len() >= 1,
        all_digits(dollars),
        all_digits(cents),
        cents.len() == 2,
        decimal_value(dollars) * 100 + decimal_value(cents) <= u64::MAX,
    ensures
        parse_amount(dollars + seq!['.'] + cents) == Ok::<u64, MoneyFault>(
            (decimal_value(dollars) * 100 + decimal_value(cents)) as u64,
        ),
{
    let body = dollars + seq!['.'] + cents;
    let split = dollars.len() as int;
    assert forall|j: int| 0 <= j < split implies body[j] != '.' by {
        assert(is_digit(dollars[j]));
    }
    assert(body[split] == '.');
    lemma_first_dot_at(body, split);
    assert(body.take(split) =~= dollars);
    assert(body.skip(split + 1) =~= cents);
    assert(!cents.contains('.')) by {
        if cents.contains('.') {
            let j = choose|j: int| 0 <= j < cents.len() && cents[j] == '.';
            assert(is_digit(cents[j]));
        }
    }
}

/// Parsing the canonical text of any amount gives that amount back.
pub proof fn lemma_format_parses(amount: USD)
    ensures
        parse_money(format_money(amount)) == Ok::<USD, MoneyFault>(amount),
{
    let dollars = decimal_digits((amount.cents / 100) as nat);
    let cents = two_digits((amount.cents % 100) as nat);
    lemma_decimal_digits((amount.cents / 100) as nat);
    lemma_two_digits((amount.cents % 100) as nat);
    lemma_amount_of_parts(dollars, cents);
    let text = format_money(amount);
    let body = dollars + seq!['.'] + cents;
    if amount.is_negative {
        assert(text[0] == '-');
        assert(text.skip(1) =~= seq!['$'] + body);
        assert(text.skip(1).skip(1) =~= body);
    } else {
        assert(text[0] == '$');
        assert(text =~= seq!['$'] + body);
        assert(text.skip(1) =~= body);
    }
}

/// Round trip: whenever a text is a dollar amount, the canonical text of that
/// amount parses to the same amount.
pub proof fn lemma_round_trip(text: Seq<char>)
    requires
        parse_money(text) is Ok,
    ensures
        parse_money(format_money(parse_money(text)->Ok_0)) == parse_money(text),
{
    lemma_format_parses(parse_money(text)->Ok_0);
}

} // verus!
