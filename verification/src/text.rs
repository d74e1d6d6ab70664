//! Decimal text of an integer.

use vstd::prelude::*;
use vstd::string::StringExecFns;

verus! {

/// The character of one decimal digit.
pub open spec fn digit_char(d: int) -> char {
    if d == 0 { '0' } else if d == 1 { '1' } else if d == 2 { '2' } else if d == 3 { '3' }
    else if d == 4 { '4' } else if d == 5 { '5' } else if d == 6 { '6' } else if d == 7 { '7' }
    else if d == 8 { '8' } else { '9' }
}

/// The decimal digits of `n`, most significant first, without leading zeros.
pub open spec fn digits(n: nat) -> Seq<char>
    decreases n,
{
    if n < 10 {
        seq![digit_char(n as int)]
    } else {
        digits(n / 10).push(digit_char((n % 10) as int))
    }
}

/// The decimal text of `n`: a minus sign where it is negative, then its digits.
pub open spec fn decimal_text(n: int) -> Seq<char> {
    if n < 0 {
        seq!['-'] + digits((-n) as nat)
    } else {
        digits(n as nat)
    }
}

/// The text of one decimal digit.
fn digit_str(d: u64) -> (r: &'static str)
    requires
        d < 10,
    ensures
        r@ =~= seq![digit_char(d as int)],
{
    if d == 0 {
        proof { reveal_strlit("0"); }
        "0"
    } else if d == 1 {
        proof { reveal_strlit("1"); }
        "1"
    } else if d == 2 {
        proof { reveal_strlit("2"); }
        "2"
    } else if d == 3 {
        proof { reveal_strlit("3"); }
        "3"
    } else if d == 4 {
        proof { reveal_strlit("4"); }
        "4"
    } else if d == 5 {
        proof { reveal_strlit("5"); }
        "5"
    } else if d == 6 {
        proof { reveal_strlit("6"); }
        "6"
    } else if d == 7 {
        proof { reveal_strlit("7"); }
        "7"
    } else if d == 8 {
        proof { reveal_strlit("8"); }
        "8"
    } else {
        proof { reveal_strlit("9"); }
        "9"
    }
}

/// The decimal digits of `n` as a string.
pub fn digits_string(n: u64) -> (r: String)
    ensures
        r@ == digits(n as nat),
    decreases n,
{
    if n < 10 {
        String::from_str(digit_str(n))
    } else {
        let mut s = digits_string(n / 10);
        s.append(digit_str(n % 10));
        assert(s@ =~= digits((n / 10) as nat).push(digit_char((n % 10) as int)));
        s
    }
}

/// The decimal text of `n` as a string.
pub fn decimal_string(n: i64) -> (r: String)
    ensures
        r@ == decimal_text(n as int),
{
    if n < 0 {
        let magnitude: u64 = ((-(n + 1)) as u64) + 1;
        let mut s = String::from_str("-");
        proof { reveal_strlit("-"); }
        let tail = digits_string(magnitude);
        s.append(tail.as_str());
        assert(s@ =~= seq!['-'] + digits((-n) as nat));
        s
    } else {
        digits_string(n as u64)
    }
}

/// Whether `c` is a decimal digit.
pub open spec fn is_digit(c: char) -> bool {
    '0' <= c && c <= '9'
}

/// The digits of a number are decimal digits, and there is at least one.
pub proof fn lemma_digits_are_digits(n: nat)
    ensures
        digits(n).len() >= 1,
        forall|i: int| 0 <= i < digits(n).len() ==> is_digit(#[trigger] digits(n)[i]),
    decreases n,
{
    if n >= 10 {
        lemma_digits_are_digits(n / 10);
    }
}

/// The decimal text of an integer holds digits, after a minus sign where the
/// integer is negative, and nothing else.
pub proof fn lemma_decimal_text_chars(n: int)
    ensures
        decimal_text(n).len() >= 1,
        forall|i: int|
            0 <= i < decimal_text(n).len() ==> is_digit(#[trigger] decimal_text(n)[i]) || (i == 0
                && n < 0 && decimal_text(n)[i] == '-'),
{
    if n < 0 {
        lemma_digits_are_digits((-n) as nat);
    } else {
        lemma_digits_are_digits(n as nat);
    }
}

} // verus!
