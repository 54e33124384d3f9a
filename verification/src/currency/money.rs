//! The dollar amount itself, its parser and its canonical text.

use super::decimal::all_digits;
use super::decimal::decimal_digits;
use super::decimal::digit_char;
use super::decimal::lemma_two_characters;
use super::decimal::read_decimal;
use super::grammar::first_dot;
use super::grammar::format_money;
use super::grammar::lemma_first_dot_at;
use super::grammar::parse_amount;
use super::grammar::parse_money;
use super::grammar::MoneyFault;
use crate::text::chars_of;
use vstd::prelude::*;

verus! {

/// A US-dollar amount: a sign and a magnitude in cents. Zero has two
/// representations, which are different values.
#[derive(Debug, Clone, Copy, PartialEq, Eq, Structural)]
pub struct USD {
    pub is_negative: bool,
    pub cents: u64,
}

/// A refused text, by the reason it was refused. Each variant carries the
/// text exactly as it was given.
#[derive(Debug, PartialEq, Eq)]
pub enum USDParseError {
    NoDollarSign(String),
    DecimalWithInsufficientCents(String),
    InvalidStructure(String),
}

impl USDParseError {
    /// The reason, without the text.
    pub open spec fn fault(&self) -> MoneyFault {
        match self {
            USDParseError::NoDollarSign(_) => MoneyFault::NoDollarSign,
            USDParseError::DecimalWithInsufficientCents(_) => MoneyFault::DecimalWithInsufficientCents,
            USDParseError::InvalidStructure(_) => MoneyFault::InvalidStructure,
        }
    }

    /// The text that was refused.
    pub open spec fn input(&self) -> Seq<char> {
        match self {
            USDParseError::NoDollarSign(text) => text@,
            USDParseError::DecimalWithInsufficientCents(text) => text@,
            USDParseError::InvalidStructure(text) => text@,
        }
    }
}

/// The words that open the description of a refusal.
pub open spec fn describe_fault(fault: MoneyFault) -> Seq<char> {
    match fault {
        MoneyFault::DecimalWithInsufficientCents => "Not enough decimal places "@,
        MoneyFault::InvalidStructure => "Invalid structure "@,
        MoneyFault::NoDollarSign => "No dollar sign "@,
    }
}

/// Reads the amount that follows the `$`, from `chars[start..]`.
fn read_amount(chars: &Vec<char>, start: usize) -> (r: Result<u64, MoneyFault>)
    requires
        start <= chars.len(),
    ensures
        r == parse_amount(chars@.skip(start as int)),
{
    let ghost body = chars@.skip(start as int);
    let len = chars.len();
    if start == len {
        return Err(MoneyFault::InvalidStructure);
    }
    let mut dot: usize = start;
    while dot < len && chars[dot] != '.'
        invariant
            start <= dot <= len == chars.len(),
            forall|j: int| start <= j < dot ==> chars@[j] != '.',
        decreases len - dot,
    {
        dot += 1;
    }
    proof {
        lemma_first_dot_at(body, dot - start);
        assert(body.take(dot - start) =~= chars@.subrange(start as int, dot as int));
    }
    let ghost cents_text = body.skip(dot - start + 1);
    if dot < len {
        let mut i: usize = dot + 1;
        while i < len
            invariant
                start <= dot < i <= len == chars.len(),
                cents_text == chars@.skip(start as int).skip(dot - start + 1),
                first_dot(chars@.skip(start as int)) == dot - start,
                forall|j: int| dot < j < i ==> chars@[j] != '.',
            decreases len - i,
        {
            if chars[i] == '.' {
                assert(cents_text[i - dot - 1] == '.');
                return Err(MoneyFault::InvalidStructure);
            }
            i += 1;
        }
        assert(!cents_text.contains('.')) by {
            if cents_text.contains('.') {
                let j = choose|j: int| 0 <= j < cents_text.len() && cents_text[j] == '.';
                assert(chars@[j + dot + 1] == '.');
            }
        }
    }
    let dollars = match read_decimal(chars, start, dot) {
        Some(dollars) => dollars,
        None => {
            return Err(MoneyFault::InvalidStructure);
        },
    };
    if dot == len {
        if dollars > u64::MAX / 100 {
            return Err(MoneyFault::InvalidStructure);
        }
        return Ok(dollars * 100);
    }
    proof {
        assert(cents_text =~= chars@.subrange(dot + 1, len as int));
    }
    if len - dot - 1 != 2 {
        return Err(MoneyFault::DecimalWithInsufficientCents);
    }
    let cents = match read_decimal(chars, dot + 1, len) {
        Some(cents) => cents,
        None => {
            proof {
                if all_digits(cents_text) {
                    lemma_two_characters(cents_text);
                }
            }
            return Err(MoneyFault::InvalidStructure);
        },
    };
    if dollars > u64::MAX / 100 {
        return Err(MoneyFault::InvalidStructure);
    }
    let whole = dollars * 100;
    if cents > u64::MAX - whole {
        Err(MoneyFault::InvalidStructure)
    } else {
        Ok(whole + cents)
    }
}

/// The one-character text of a digit.
fn digit_text(d: u64) -> (text: &'static str)
    requires
        d < 10,
    ensures
        text@ == seq![digit_char(d as nat)],
{
    proof {
        reveal_strlit("0");
        reveal_strlit("1");
        reveal_strlit("2");
        reveal_strlit("3");
        reveal_strlit("4");
        reveal_strlit("5");
        reveal_strlit("6");
        reveal_strlit("7");
        reveal_strlit("8");
        reveal_strlit("9");
    }
    let text = if d == 0 {
        "0"
    } else if d == 1 {
        "1"
    } else if d == 2 {
        "2"
    } else if d == 3 {
        "3"
    } else if d == 4 {
        "4"
    } else if d == 5 {
        "5"
    } else if d == 6 {
        "6"
    } else if d == 7 {
        "7"
    } else if d == 8 {
        "8"
    } else {
        "9"
    };
    assert(text@ =~= seq![digit_char(d as nat)]);
    text
}

/// Appends the digits of `n`, without leading zeros, to `out`.
fn append_decimal(out: &mut String, n: u64)
    ensures
        final(out)@ == old(out)@ + decimal_digits(n as nat),
    decreases n,
{
    if n >= 10 {
        append_decimal(out, n / 10);
    }
    out.append(digit_text(n % 10));
    proof {
        if n >= 10 {
            assert(old(out)@ + decimal_digits((n / 10) as nat) + seq![digit_char((n % 10) as nat)]
                =~= old(out)@ + decimal_digits(n as nat));
        }
    }
}

impl USD {
    /// Parses a dollar amount from text of the form `[-]$D[.CC]`.
    ///
    /// The text is read as given: nothing is trimmed. The dollars may be
    /// empty (`$.05` is five cents); the cents, if present, are exactly two
    /// digits. Every refusal carries the whole text.
    pub fn new(usd_original: &str) -> (r: Result<USD, USDParseError>)
        ensures
            match r {
                Ok(amount) => parse_money(usd_original@) == Ok::<USD, MoneyFault>(amount),
                Err(e) => parse_money(usd_original@) == Err::<USD, MoneyFault>(e.fault())
                    && e.input() == usd_original@,
            },
    {
        let chars = chars_of(usd_original);
        let len = chars.len();
        let is_negative = len > 0 && chars[0] == '-';
        let sign_end: usize = if is_negative {
            1
        } else {
            0
        };
        let ghost unsigned = chars@.skip(sign_end as int);
        proof {
            assert(chars@.skip(0) =~= chars@);
        }
        if sign_end == len || chars[sign_end] != '$' {
            return Err(USDParseError::NoDollarSign(usd_original.to_owned()));
        }
        proof {
            assert(unsigned.skip(1) =~= chars@.skip(sign_end + 1));
        }
        match read_amount(&chars, sign_end + 1) {
            Ok(cents) => Ok(USD { is_negative, cents }),
            Err(MoneyFault::NoDollarSign) => Err(USDParseError::NoDollarSign(usd_original.to_owned())),
            Err(MoneyFault::DecimalWithInsufficientCents) => Err(
                USDParseError::DecimalWithInsufficientCents(usd_original.to_owned()),
            ),
            Err(MoneyFault::InvalidStructure) => Err(
                USDParseError::InvalidStructure(usd_original.to_owned()),
            ),
        }
    }

    /// Whether the amount carries no minus sign.
    pub fn is_positive(&self) -> (positive: bool)
        ensures
            positive == !self.is_negative,
    {
        !self.is_negative
    }

    /// The canonical text of the amount, `[-]$D.CC`.
    pub fn to_string(&self) -> (text: String)
        ensures
            text@ == format_money(*self),
    {
        proof {
            reveal_strlit("-");
            reveal_strlit("$");
            reveal_strlit(".");
        }
        let mut text = String::new();
        if self.is_negative {
            text.append("-");
        }
        text.append("$");
        append_decimal(&mut text, self.cents / 100);
        text.append(".");
        let cents = self.cents % 100;
        text.append(digit_text(cents / 10));
        text.append(digit_text(cents % 10));
        assert(text@ =~= format_money(*self));
        text
    }
}

impl USDParseError {
    /// A one-line description: the reason, then the refused text.
    pub fn to_string(&self) -> (text: String)
        ensures
            text@ == describe_fault(self.fault()) + self.input(),
    {
        match self {
            USDParseError::DecimalWithInsufficientCents(malformed_input) => {
                String::from_str("Not enough decimal places ").concat(malformed_input.as_str())
            },
            USDParseError::InvalidStructure(malformed_input) => {
                String::from_str("Invalid structure ").concat(malformed_input.as_str())
            },
            USDParseError::NoDollarSign(malformed_input) => {
                String::from_str("No dollar sign ").concat(malformed_input.as_str())
            },
        }
    }
}

} // verus!
