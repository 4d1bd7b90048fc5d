//! Numbers written in decimal digits.

use vstd::prelude::*;
use vstd::string::StringExecFns;

verus! {

/// A digit from zero to nine.
pub open spec fn is_digit(c: char) -> bool {
    '0' <= c && c <= '9'
}

/// The number that a digit stands for.
pub open spec fn digit_value(c: char) -> nat {
    (c as int - '0' as int) as nat
}

/// The digit for a number below ten.
pub open spec fn digit_char(n: nat) -> char {
    ('0' as int + n) as char
}

/// Nothing but digits.
pub open spec fn all_digits(text: Seq<char>) -> bool {
    forall|i: int| 0 <= i < text.len() ==> is_digit(#[trigger] text[i])
}

/// The number that a row of digits stands for.
pub open spec fn digits_value(text: Seq<char>) -> nat
    decreases text.len(),
{
    if text.len() == 0 {
        0
    } else {
        10 * digits_value(text.drop_last()) + digit_value(text.last())
    }
}

/// A number in decimal digits, without leading zeros.
pub open spec fn decimal(n: nat) -> Seq<char>
    decreases n,
{
    if n < 10 {
        seq![digit_char(n)]
    } else {
        decimal(n / 10).push(digit_char(n % 10))
    }
}

/// One digit as text.
fn digit_text(digit: u32) -> (text: &'static str)
    requires
        digit < 10,
    ensures
        text@ == seq![digit_char(digit as nat)],
{
    proof {
        reveal_strlit("0");
        reveal_strlit("1");
        reveal_strlit("2");
        reveal_strlit("3");
        reveal_strlit("4");
        reveal_strlit("5");
        reveal_strlit("6");
        reveal_strlit("7");
        reveal_strlit("8");
        reveal_strlit("9");
    }
    match digit {
        0 => "0",
        1 => "1",
        2 => "2",
        3 => "3",
        4 => "4",
        5 => "5",
        6 => "6",
        7 => "7",
        8 => "8",
        _ => "9",
    }
}

/// Writes a number in decimal digits.
pub fn decimal_text(n: u32) -> (text: String)
    ensures
        text@ == decimal(n as nat),
    decreases n,
{
    if n < 10 {
        String::from_str(digit_text(n))
    } else {
        let mut text = decimal_text(n / 10);
        text.append(digit_text(n % 10));
        assert(text@ =~= decimal((n / 10) as nat).push(digit_char((n % 10) as nat)));
        text
    }
}

/// What was written in decimal digits is read back as the same number.
pub proof fn decimal_reads_back(n: nat)
    ensures
        all_digits(decimal(n)),
        digits_value(decimal(n)) == n,
        decimal(n).len() > 0,
    decreases n,
{
    if n >= 10 {
        decimal_reads_back(n / 10);
        assert(decimal(n).drop_last() =~= decimal(n / 10));
    } else {
        assert(decimal(n).drop_last() =~= Seq::empty());
        assert(digits_value(decimal(n).drop_last()) == 0);
    }
}

/// Different numbers are written differently.
pub proof fn decimal_is_injective(a: nat, b: nat)
    requires
        decimal(a) == decimal(b),
    ensures
        a == b,
{
    decimal_reads_back(a);
    decimal_reads_back(b);
}

/// More digits do not make the number smaller.
pub(crate) proof fn lemma_prefix_is_not_larger(text: Seq<char>, n: int)
    requires
        0 <= n <= text.len(),
    ensures
        digits_value(text.take(n)) <= digits_value(text),
    decreases text.len(),
{
    if n < text.len() {
        assert(text.drop_last().take(n) =~= text.take(n));
        lemma_prefix_is_not_larger(text.drop_last(), n);
    } else {
        assert(text.take(n) =~= text);
    }
}

/// A digit more makes the number ten times as large and adds the digit, which
/// counts its distance from zero.
pub proof fn digits_are_worth_their_place(text: Seq<char>, digit: char)
    requires
        '0' <= digit && digit <= '9',
    ensures
        digits_value(Seq::<char>::empty()) == 0,
        digits_value(text.push(digit)) == 10 * digits_value(text) + (digit as int - '0' as int),
        is_digit(digit),
        digit_char(digit_value(digit)) == digit,
{
    assert(text.push(digit).drop_last() =~= text);
}

/// Only the characters from zero to nine are digits.
pub proof fn digits_are_ten(c: char)
    ensures
        is_digit(c) <==> '0' <= c && c <= '9',
        is_digit(c) ==> digit_value(c) < 10,
{
}

/// No number but zero is written with a zero in front, and zero is written as
/// one digit.
pub proof fn decimal_has_no_leading_zeros(n: nat)
    ensures
        decimal(n).len() > 0,
        decimal(n)[0] == '0' <==> n == 0,
        decimal(0) == seq!['0'],
    decreases n,
{
    if n >= 10 {
        decimal_has_no_leading_zeros(n / 10);
        assert(decimal(n)[0] == decimal(n / 10)[0]);
    }
}

} // verus!
