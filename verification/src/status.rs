//! What the interpreter says about the process it waited for.
//!
//! A status of zero is passed over in silence. Any other status is written to
//! the error stream as a bare decimal number followed by one space; where the
//! system gives no number, as for a process that a signal ended, the number
//! is 1.

use vstd::prelude::*;
use vstd::string::*;

verus! {

/// The status reported for a process that ended without a status of its own.
pub const DEFAULT_STATUS: i32 = 1;

/// The character for a single decimal digit.
pub open spec fn digit(d: int) -> char
    recommends
        0 <= d < 10,
{
    if d == 0 {
        '0'
    } else if d == 1 {
        '1'
    } else if d == 2 {
        '2'
    } else if d == 3 {
        '3'
    } else if d == 4 {
        '4'
    } else if d == 5 {
        '5'
    } else if d == 6 {
        '6'
    } else if d == 7 {
        '7'
    } else if d == 8 {
        '8'
    } else {
        '9'
    }
}

/// The decimal digits of a natural number, without leading zeros.
pub open spec fn spec_digits(n: nat) -> Seq<char>
    decreases n,
{
    if n < 10 {
        seq![digit(n as int)]
    } else {
        spec_digits(n / 10).push(digit((n % 10) as int))
    }
}

/// The value of a decimal digit.
pub open spec fn digit_value(c: char) -> int {
    if c == '0' {
        0
    } else if c == '1' {
        1
    } else if c == '2' {
        2
    } else if c == '3' {
        3
    } else if c == '4' {
        4
    } else if c == '5' {
        5
    } else if c == '6' {
        6
    } else if c == '7' {
        7
    } else if c == '8' {
        8
    } else {
        9
    }
}

/// The number that a string of decimal digits stands for.
pub open spec fn spec_number(digits: Seq<char>) -> int
    decreases digits.len(),
{
    if digits.len() == 0 {
        0
    } else {
        10 * spec_number(digits.drop_last()) + digit_value(digits.last())
    }
}

/// The digits of a number stand for that number, and none of them is a
/// leading zero.
pub proof fn lemma_digits_denote(n: nat)
    ensures
        spec_number(spec_digits(n)) == n,
        spec_digits(n).len() >= 1,
        n > 0 ==> spec_digits(n)[0] != '0',
    decreases n,
{
    let digits = spec_digits(n);
    assert(digit_value(digits.last()) == n % 10);
    if n < 10 {
        assert(digits.drop_last() =~= Seq::<char>::empty());
        assert(spec_number(digits.drop_last()) == 0);
    } else {
        lemma_digits_denote(n / 10);
        assert(digits.drop_last() =~= spec_digits(n / 10));
        assert(digits[0] == spec_digits(n / 10)[0]);
    }
}

/// An integer in decimal, with a minus sign if it is negative.
pub open spec fn spec_decimal(n: int) -> Seq<char> {
    if n < 0 {
        seq!['-'] + spec_digits((-n) as nat)
    } else {
        spec_digits(n as nat)
    }
}

/// The text to report for the status of the process that was waited for, if
/// there is anything to report.
pub open spec fn spec_status_report(code: Option<i32>) -> Option<Seq<char>> {
    match code {
        Some(c) => if c == 0 {
            None
        } else {
            Some(spec_decimal(c as int).push(' '))
        },
        None => Some(spec_decimal(DEFAULT_STATUS as int).push(' ')),
    }
}

fn digit_text(d: u32) -> (text: &'static str)
    requires
        d < 10,
    ensures
        text@ == seq![digit(d as int)],
{
    proof {
        reveal_strlit("0");
        reveal_strlit("1");
        reveal_strlit("2");
        reveal_strlit("3");
        reveal_strlit("4");
        reveal_strlit("5");
        reveal_strlit("6");
        reveal_strlit("7");
        reveal_strlit("8");
        reveal_strlit("9");
    }
    if d == 0 {
        "0"
    } else if d == 1 {
        "1"
    } else if d == 2 {
        "2"
    } else if d == 3 {
        "3"
    } else if d == 4 {
        "4"
    } else if d == 5 {
        "5"
    } else if d == 6 {
        "6"
    } else if d == 7 {
        "7"
    } else if d == 8 {
        "8"
    } else {
        "9"
    }
}

fn digits(n: u32) -> (text: String)
    ensures
        text@ == spec_digits(n as nat),
    decreases n,
{
    if n < 10 {
        String::from_str(digit_text(n))
    } else {
        let mut text = digits(n / 10);
        text.append(digit_text(n % 10));
        text
    }
}

/// Writes an integer in decimal.
pub fn decimal(n: i32) -> (text: String)
    ensures
        text@ == spec_decimal(n as int),
{
    if n < 0 {
        let wide: i64 = n as i64;
        let magnitude: u32 = (0 - wide) as u32;
        let mut text = String::from_str("-");
        let tail = digits(magnitude);
        text.append(tail.as_str());
        proof {
            reveal_strlit("-");
        }
        text
    } else {
        digits(n as u32)
    }
}

/// The text to write to the error stream once the last process of a pipeline
/// has ended with `code`, or `None` where it ended with status zero.
pub fn status_report(code: Option<i32>) -> (text: Option<String>)
    ensures
        text.deep_view() == spec_status_report(code),
{
    let number: i32 = match code {
        Some(c) => {
            if c == 0 {
                return None;
            }
            c
        },
        None => DEFAULT_STATUS,
    };
    let mut text = decimal(number);
    text.append(" ");
    proof {
        reveal_strlit(" ");
    }
    Some(text)
}

} // verus!
