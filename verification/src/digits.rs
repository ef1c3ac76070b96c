//! Decimal digits: what a run of them denotes, and how a number is spelled.
//!
//! The text side of every contract is a `Seq<char>`. The executable readers
//! take ASCII strings and look at their bytes, one byte for each character.

use vstd::prelude::*;
use vstd::string::{is_ascii, StringSliceAdditionalSpecFns};

verus! {

/// Whether `c` is one of the ten ASCII digits.
pub open spec fn is_digit(c: char) -> bool {
    '0' <= c && c <= '9'
}

/// The value of the digit `c`; zero for any other character.
pub open spec fn digit_value(c: char) -> nat {
    if is_digit(c) {
        (c as int - 48) as nat
    } else {
        0
    }
}

/// The digit whose value is `d`, for `d` below ten.
pub open spec fn digit_char(d: nat) -> char {
    ((d + 48) as u8) as char
}

/// Whether every character of `text` is a digit.
pub open spec fn all_digits(text: Seq<char>) -> bool {
    forall|i: int| 0 <= i < text.len() ==> is_digit(#[trigger] text[i])
}

/// Whether `text` is a non-empty run of digits.
pub open spec fn is_number(text: Seq<char>) -> bool {
    text.len() > 0 && all_digits(text)
}

/// The number that the digits of `text` denote in base ten; zero for no digits.
pub open spec fn number(text: Seq<char>) -> nat
    decreases text.len(),
{
    if text.len() == 0 {
        0
    } else {
        number(text.drop_last()) * 10 + digit_value(text.last())
    }
}

/// The shortest run of digits that denotes `n`.
pub open spec fn numeral(n: nat) -> Seq<char>
    decreases n,
{
    if n < 10 {
        seq![digit_char(n)]
    } else {
        numeral(n / 10).push(digit_char(n % 10))
    }
}

/// Appending one digit multiplies by ten and adds the digit.
pub proof fn lemma_number_push(text: Seq<char>, c: char)
    ensures
        number(text.push(c)) == number(text) * 10 + digit_value(c),
{
    assert(text.push(c).drop_last() =~= text);
}

/// A numeral is a non-empty run of digits and denotes the number it was
/// written for.
pub proof fn lemma_numeral(n: nat)
    ensures
        is_number(numeral(n)),
        number(numeral(n)) == n,
    decreases n,
{
    if n < 10 {
        lemma_number_push(Seq::<char>::empty(), digit_char(n));
    } else {
        lemma_numeral(n / 10);
        lemma_number_push(numeral(n / 10), digit_char(n % 10));
    }
}

/// The one-character string that spells the digit `d`.
pub(crate) fn digit_text(d: u8) -> (text: &'static str)
    requires
        d < 10,
    ensures
        text@ == seq![digit_char(d as nat)],
{
    proof {
        reveal_strlit("0");
        reveal_strlit("1");
        reveal_strlit("2");
        reveal_strlit("3");
        reveal_strlit("4");
        reveal_strlit("5");
        reveal_strlit("6");
        reveal_strlit("7");
        reveal_strlit("8");
        reveal_strlit("9");
    }
    match d {
        0 => "0",
        1 => "1",
        2 => "2",
        3 => "3",
        4 => "4",
        5 => "5",
        6 => "6",
        7 => "7",
        8 => "8",
        _ => "9",
    }
}

/// Appends the numeral of `n` to `out`.
pub(crate) fn push_numeral(out: &mut String, n: u64)
    ensures
        final(out)@ == old(out)@ + numeral(n as nat),
    decreases n,
{
    if n >= 10 {
        push_numeral(out, n / 10);
    }
    let last: u8 = (n % 10) as u8;
    out.append(digit_text(last));
}

/// Reads the run of digits of `text` that starts at `from`.
///
/// Returns where the run ends, and the number it denotes unless that number
/// is above `limit`.
pub(crate) fn scan_number(text: &str, from: usize, limit: u64) -> (scan: (usize, Option<u64>))
    requires
        is_ascii(text),
        from <= text@.len(),
    ensures
        from <= scan.0 <= text@.len(),
        all_digits(text@.subrange(from as int, scan.0 as int)),
        scan.0 < text@.len() ==> !is_digit(text@[scan.0 as int]),
        number(text@.subrange(from as int, scan.0 as int)) <= limit ==> scan.1 == Some(
            number(text@.subrange(from as int, scan.0 as int)) as u64,
        ),
        number(text@.subrange(from as int, scan.0 as int)) > limit ==> scan.1 is None,
{
    broadcast use vstd::string::is_ascii_spec_bytes;

    let bytes = text.as_bytes();
    let mut at: usize = from;
    let mut value: u64 = 0;
    let mut above: bool = false;
    while at < bytes.len() && 48 <= bytes[at] && bytes[at] <= 57
        invariant
            is_ascii(text),
            bytes@ == text.spec_bytes(),
            from <= at <= text@.len(),
            all_digits(text@.subrange(from as int, at as int)),
            above ==> number(text@.subrange(from as int, at as int)) > limit,
            !above ==> value == number(text@.subrange(from as int, at as int)) && value <= limit,
        decreases bytes.len() - at,
    {
        let digit: u64 = (bytes[at] - 48) as u64;
        proof {
            let before = text@.subrange(from as int, at as int);
            let c = text@[at as int];
            assert(text@.subrange(from as int, at + 1) =~= before.push(c));
            lemma_number_push(before, c);
        }
        if !above {
            if digit > limit || value > (limit - digit) / 10 {
                above = true;
            } else {
                value = value * 10 + digit;
            }
        }
        at = at + 1;
    }
    if above {
        (at, None)
    } else {
        (at, Some(value))
    }
}

} // verus!
