//! Durations as the user reads them.

use vstd::prelude::*;

verus! {

/// The character of a decimal digit.
pub open spec fn digit(value: int) -> char {
    if value == 0 {
        '0'
    } else if value == 1 {
        '1'
    } else if value == 2 {
        '2'
    } else if value == 3 {
        '3'
    } else if value == 4 {
        '4'
    } else if value == 5 {
        '5'
    } else if value == 6 {
        '6'
    } else if value == 7 {
        '7'
    } else if value == 8 {
        '8'
    } else {
        '9'
    }
}

/// A number in decimal digits, without leading zeros.
pub open spec fn decimal(number: nat) -> Seq<char>
    decreases number,
{
    if number < 10 {
        seq![digit(number as int)]
    } else {
        decimal(number / 10).push(digit((number % 10) as int))
    }
}

/// A number in at least two decimal digits.
pub open spec fn two_digits(number: nat) -> Seq<char> {
    if number < 10 {
        seq!['0'] + decimal(number)
    } else {
        decimal(number)
    }
}

/// A duration of `seconds` seconds as `HH:MM:SS`, or as `MM:SS` where it is
/// under an hour. Hours take as many digits as they need.
pub open spec fn clock(seconds: nat) -> Seq<char> {
    let hours = seconds / 3600;
    let minutes = (seconds % 3600) / 60;
    let rest = seconds % 60;
    if hours > 0 {
        two_digits(hours) + seq![':'] + two_digits(minutes) + seq![':'] + two_digits(rest)
    } else {
        two_digits(minutes) + seq![':'] + two_digits(rest)
    }
}

/// The text of one decimal digit.
fn digit_text(value: u64) -> (text: &'static str)
    requires
        value < 10,
    ensures
        text@ == seq![digit(value as int)],
{
    proof {
        reveal_strlit("0");
        reveal_strlit("1");
        reveal_strlit("2");
        reveal_strlit("3");
        reveal_strlit("4");
        reveal_strlit("5");
        reveal_strlit("6");
        reveal_strlit("7");
        reveal_strlit("8");
        reveal_strlit("9");
    }
    let text = if value == 0 {
        "0"
    } else if value == 1 {
        "1"
    } else if value == 2 {
        "2"
    } else if value == 3 {
        "3"
    } else if value == 4 {
        "4"
    } else if value == 5 {
        "5"
    } else if value == 6 {
        "6"
    } else if value == 7 {
        "7"
    } else if value == 8 {
        "8"
    } else {
        "9"
    };
    text
}

/// Appends `number` in decimal digits.
fn push_decimal(line: &mut String, number: u64)
    ensures
        final(line)@ == old(line)@ + decimal(number as nat),
    decreases number,
{
    if number >= 10 {
        push_decimal(line, number / 10);
    }
    line.append(digit_text(number % 10));
}

/// Appends `number` in at least two decimal digits.
fn push_two_digits(line: &mut String, number: u64)
    ensures
        final(line)@ == old(line)@ + two_digits(number as nat),
{
    if number < 10 {
        line.append(digit_text(0));
    }
    push_decimal(line, number);
}

/// A duration of `seconds` seconds as `HH:MM:SS`, or as `MM:SS` where it is
/// under an hour.
pub fn format_duration(seconds: u64) -> (line: String)
    ensures
        line@ == clock(seconds as nat),
{
    let hours = seconds / 3600;
    let minutes = (seconds % 3600) / 60;
    let rest = seconds % 60;
    proof {
        reveal_strlit(":");
    }
    let mut line = String::new();
    if hours > 0 {
        push_two_digits(&mut line, hours);
        line.append(":");
    }
    push_two_digits(&mut line, minutes);
    line.append(":");
    push_two_digits(&mut line, rest);
    line
}

} // verus!
