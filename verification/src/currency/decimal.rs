//! Decimal digit strings and the numbers they denote.

use vstd::prelude::*;

verus! {

/// Whether `c` is one of the ASCII digits `0` to `9`.
pub open spec fn is_digit(c: char) -> bool {
    '0' <= c && c <= '9'
}

/// The number an ASCII digit stands for.
pub open spec fn digit_value(c: char) -> nat {
    (c as int - '0' as int) as nat
}

/// The ASCII digit for a number below ten.
pub open spec fn digit_char(d: nat) -> char {
    if d == 0 {
        '0'
    } else if d == 1 {
        '1'
    } else if d == 2 {
        '2'
    } else if d == 3 {
        '3'
    } else if d == 4 {
        '4'
    } else if d == 5 {
        '5'
    } else if d == 6 {
        '6'
    } else if d == 7 {
        '7'
    } else if d == 8 {
        '8'
    } else {
        '9'
    }
}

/// Whether every character of `s` is an ASCII digit. Holds of the empty string.
pub open spec fn all_digits(s: Seq<char>) -> bool {
    forall|i: int| 0 <= i < s.len() ==> is_digit(#[trigger] s[i])
}

/// The number denoted by a digit string read in base ten; zero for the empty
/// string. Leading zeros do not change the value.
pub open spec fn decimal_value(s: Seq<char>) -> nat
    decreases s.len(),
{
    if s.len() == 0 {
        0
    } else {
        decimal_value(s.drop_last()) * 10 + digit_value(s.last())
    }
}

/// The shortest digit string that denotes `n`: no leading zeros, and `"0"` for zero.
pub open spec fn decimal_digits(n: nat) -> Seq<char>
    decreases n,
{
    if n < 10 {
        seq![digit_char(n)]
    } else {
        decimal_digits(n / 10).push(digit_char(n % 10))
    }
}

/// A number below one hundred as exactly two digits, zero-padded.
pub open spec fn two_digits(n: nat) -> Seq<char> {
    seq![digit_char(n / 10), digit_char(n % 10)]
}

/// The digit of a number below ten is a digit, denotes that number, and is
/// none of the grammar's other characters.
pub proof fn lemma_digit_char(d: nat)
    requires
        d < 10,
    ensures
        is_digit(digit_char(d)),
        digit_value(digit_char(d)) == d,
        digit_char(d) != '.',
        digit_char(d) != '-',
        digit_char(d) != '$',
{
}

/// A prefix of a string never denotes more than the whole string.
pub proof fn lemma_prefix_value(s: Seq<char>, k: int)
    requires
        0 <= k <= s.len(),
    ensures
        decimal_value(s.take(k)) <= decimal_value(s),
    decreases s.len() - k,
{
    if k == s.len() {
        assert(s.take(k) =~= s);
    } else {
        lemma_prefix_value(s, k + 1);
        let longer = s.take(k + 1);
        assert(longer.drop_last() =~= s.take(k));
        assert(decimal_value(longer) == decimal_value(s.take(k)) * 10 + digit_value(longer.last()));
    }
}

/// The canonical digits of `n` are digits, and denote `n`.
pub proof fn lemma_decimal_digits(n: nat)
    ensures
        decimal_digits(n).len() >= 1,
        all_digits(decimal_digits(n)),
        decimal_value(decimal_digits(n)) == n,
    decreases n,
{
    if n < 10 {
        lemma_digit_char(n);
        let s = decimal_digits(n);
        assert(s.drop_last() =~= Seq::<char>::empty());
        assert(decimal_value(s.drop_last()) == 0);
    } else {
        lemma_decimal_digits(n / 10);
        lemma_digit_char(n % 10);
        let s = decimal_digits(n);
        assert(s.drop_last() =~= decimal_digits(n / 10));
    }
}

/// Two zero-padded digits are digits, and denote the number they were made from.
pub proof fn lemma_two_digits(n: nat)
    requires
        n < 100,
    ensures
        two_digits(n).len() == 2,
        all_digits(two_digits(n)),
        decimal_value(two_digits(n)) == n,
{
    lemma_digit_char(n / 10);
    lemma_digit_char(n % 10);
    let s = two_digits(n);
    let head = s.drop_last();
    assert(head =~= seq![digit_char(n / 10)]);
    assert(head.drop_last() =~= Seq::<char>::empty());
    assert(decimal_value(head.drop_last()) == 0);
    assert(decimal_value(head) == n / 10);
}

/// Two digits denote a number below one hundred.
pub proof fn lemma_two_characters(s: Seq<char>)
    requires
        s.len() == 2,
        all_digits(s),
    ensures
        decimal_value(s) < 100,
{
    let head = s.drop_last();
    assert(head.drop_last() =~= Seq::<char>::empty());
    assert(decimal_value(head.drop_last()) == 0);
    assert(is_digit(s[0]));
    assert(is_digit(s[1]));
    assert(head.last() == s[0]);
    assert(decimal_value(head) == digit_value(s[0]));
    assert(decimal_value(s) == decimal_value(head) * 10 + digit_value(s[1]));
}

/// The number of a single digit character, if it is one.
pub fn digit_of(c: char) -> (r: Option<u64>)
    ensures
        r is Some <==> is_digit(c),
        r matches Some(d) ==> d == digit_value(c) && d < 10,
{
    if '0' <= c && c <= '9' {
        Some((c as u64) - ('0' as u64))
    } else {
        None
    }
}

/// Reads `chars[from..to]` as a base-ten number. `None` when a character is
/// not a digit or the number does not fit in 64 bits.
pub fn read_decimal(chars: &Vec<char>, from: usize, to: usize) -> (r: Option<u64>)
    requires
        from <= to <= chars.len(),
    ensures
        r is Some <==> all_digits(chars@.subrange(from as int, to as int)) && decimal_value(
            chars@.subrange(from as int, to as int),
        ) <= u64::MAX,
        r matches Some(n) ==> n == decimal_value(chars@.subrange(from as int, to as int)),
{
    let ghost piece = chars@.subrange(from as int, to as int);
    let mut value: u64 = 0;
    let mut i: usize = from;
    assert(piece.take(0) =~= Seq::<char>::empty());
    while i < to
        invariant
            from <= i <= to <= chars.len(),
            piece == chars@.subrange(from as int, to as int),
            all_digits(piece.take(i - from)),
            value == decimal_value(piece.take(i - from)),
        decreases to - i,
    {
        let ghost seen = piece.take(i - from);
        let ghost next = piece.take(i - from + 1);
        proof {
            assert(next.drop_last() =~= seen);
            assert(next.last() == chars@[i as int]);
            lemma_prefix_value(piece, i - from + 1);
        }
        match digit_of(chars[i]) {
            None => {
                assert(!is_digit(piece[i - from]));
                return None;
            },
            Some(d) => {
                if value > (u64::MAX - d) / 10 {
                    return None;
                }
                value = value * 10 + d;
            },
        }
        i += 1;
        assert(all_digits(next)) by {
            assert forall|j: int| 0 <= j < next.len() implies is_digit(#[trigger] next[j]) by {
                if j < seen.len() {
                    assert(next[j] == seen[j]);
                }
            }
        }
    }
    assert(piece.take(to - from) =~= piece);
    Some(value)
}

} // verus!
