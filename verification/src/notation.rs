//! The decimal notation of amounts: `[-]digits[.digits]`, with at most four
//! digits behind the point.
//!
//! [`read`] says what a text denotes and [`write`] how an amount is spelled;
//! [`Amount::from_str`] and [`Amount::to_string`] compute them, and
//! [`lemma_read_write`] shows that reading undoes writing.

use crate::amount::{representable, Amount, Error};
use crate::digits::{
    digit_char, digit_text, is_digit, is_number, lemma_number_push, lemma_numeral,
    number, numeral, push_numeral, scan_number,
};
use vstd::prelude::*;

verus! {

/// The largest whole part whose scaled value can still be representable.
const WHOLE_LIMIT: u64 = 922337203685477;

/// What a text denotes.
pub enum Reading {
    /// The amount, in ten-thousandths.
    Value(int),
    /// The text is empty.
    NoInput,
    /// The text is not of the form `[-]digits[.digits]`, or denotes an amount
    /// that cannot be held.
    Malformed,
    /// The text has more than four digits behind the point.
    PrecisionTooHigh,
}

/// The index of the first `'.'` of `text`, or its length where it has none.
pub open spec fn first_dot(text: Seq<char>) -> int
    decreases text.len(),
{
    if text.len() == 0 || text[0] == '.' {
        0
    } else {
        1 + first_dot(text.drop_first())
    }
}

/// Whether `text` starts with a minus sign.
pub open spec fn is_negative(text: Seq<char>) -> bool {
    text.len() > 0 && text[0] == '-'
}

/// `text` without its sign.
pub open spec fn unsigned_part(text: Seq<char>) -> Seq<char> {
    if is_negative(text) {
        text.skip(1)
    } else {
        text
    }
}

/// Whether `text` has a point.
pub open spec fn has_fraction(text: Seq<char>) -> bool {
    first_dot(unsigned_part(text)) < unsigned_part(text).len()
}

/// What stands between the sign and the first point of `text`.
pub open spec fn whole_part(text: Seq<char>) -> Seq<char> {
    unsigned_part(text).take(first_dot(unsigned_part(text)))
}

/// What stands behind the first point of `text`; empty where it has none.
pub open spec fn fraction_part(text: Seq<char>) -> Seq<char> {
    if has_fraction(text) {
        unsigned_part(text).skip(first_dot(unsigned_part(text)) + 1)
    } else {
        Seq::empty()
    }
}

/// How many ten-thousandths one unit of the last of `places` fraction digits
/// is worth, for at most four places.
pub open spec fn place_value(places: nat) -> nat {
    if places == 1 {
        1000
    } else if places == 2 {
        100
    } else if places == 3 {
        10
    } else {
        1
    }
}

/// The amount that `text` denotes, or why it denotes none.
pub open spec fn read(text: Seq<char>) -> Reading {
    let whole = whole_part(text);
    let fraction = fraction_part(text);
    if text.len() == 0 {
        Reading::NoInput
    } else if !is_number(whole) || (has_fraction(text) && !is_number(fraction)) {
        Reading::Malformed
    } else if fraction.len() > 4 {
        Reading::PrecisionTooHigh
    } else {
        let size = (number(whole) * 10000 + number(fraction) * place_value(fraction.len())) as int;
        let value = if is_negative(text) {
            -size
        } else {
            size
        };
        if representable(value) {
            Reading::Value(value)
        } else {
            Reading::Malformed
        }
    }
}

/// The distance of `v` from zero.
pub open spec fn magnitude(v: int) -> nat {
    if v < 0 {
        (-v) as nat
    } else {
        v as nat
    }
}

/// The digits of `f` ten-thousandths behind the point, without trailing
/// zeros, for `f` from 1 to 9999.
pub open spec fn fraction_digits(f: nat) -> Seq<char> {
    if f % 1000 == 0 {
        seq![digit_char(f / 1000)]
    } else if f % 100 == 0 {
        seq![digit_char(f / 1000), digit_char(f / 100 % 10)]
    } else if f % 10 == 0 {
        seq![digit_char(f / 1000), digit_char(f / 100 % 10), digit_char(f / 10 % 10)]
    } else {
        seq![
            digit_char(f / 1000),
            digit_char(f / 100 % 10),
            digit_char(f / 10 % 10),
            digit_char(f % 10),
        ]
    }
}

/// The shortest text that denotes `v` ten-thousandths: a minus sign where `v`
/// is negative, the whole part, and the fraction where it is not zero.
pub open spec fn write(v: int) -> Seq<char> {
    let sign = if v < 0 {
        seq!['-']
    } else {
        Seq::empty()
    };
    let whole = numeral(magnitude(v) / 10000);
    let fraction = magnitude(v) % 10000;
    if fraction == 0 {
        sign + whole
    } else {
        sign + whole + seq!['.'] + fraction_digits(fraction)
    }
}

/// `first_dot` is the least index that holds a point.
pub proof fn lemma_first_dot(text: Seq<char>, at: int)
    requires
        0 <= at <= text.len(),
        forall|i: int| 0 <= i < at ==> text[i] != '.',
        at < text.len() ==> text[at] == '.',
    ensures
        first_dot(text) == at,
    decreases at,
{
    if at > 0 {
        lemma_first_dot(text.drop_first(), at - 1);
    }
}

/// `first_dot` lies within the text, on a point unless it is the end, and
/// behind no other point.
pub proof fn lemma_first_dot_is_first(text: Seq<char>)
    ensures
        0 <= first_dot(text) <= text.len(),
        first_dot(text) < text.len() ==> text[first_dot(text)] == '.',
        forall|i: int| 0 <= i < first_dot(text) ==> text[i] != '.',
    decreases text.len(),
{
    if text.len() > 0 && text[0] != '.' {
        let rest = text.drop_first();
        lemma_first_dot_is_first(rest);
        assert forall|i: int| 0 <= i < first_dot(text) implies text[i] != '.' by {
            if i > 0 {
                assert(text[i] == rest[i - 1]);
            }
        }
    }
}

/// Where the sign ends at `start` and the first point behind it stands at
/// `dot` (or the text ends there), the parts of `text` are its pieces before
/// and behind `dot`.
pub proof fn lemma_parts(text: Seq<char>, start: int, dot: int)
    requires
        text.len() > 0,
        start == if text[0] == '-' { 1int } else { 0int },
        start <= dot <= text.len(),
        forall|i: int| start <= i < dot ==> text[i] != '.',
        dot < text.len() ==> text[dot] == '.',
    ensures
        whole_part(text) == text.subrange(start, dot),
        has_fraction(text) == (dot < text.len()),
        dot < text.len() ==> fraction_part(text) == text.subrange(dot + 1, text.len() as int),
        dot == text.len() ==> fraction_part(text) == Seq::<char>::empty(),
{
    lemma_first_dot(unsigned_part(text), dot - start);
}

/// A text with a character that is neither a digit nor a point, and is not
/// its sign, is malformed.
pub proof fn lemma_stray_character(text: Seq<char>, at: int)
    requires
        0 <= at < text.len(),
        !is_digit(text[at]),
        text[at] != '.',
        at == 0 ==> text[at] != '-',
    ensures
        read(text) == Reading::Malformed,
{
    let body = unsigned_part(text);
    let start: int = if is_negative(text) { 1 } else { 0 };
    let dot = first_dot(body);
    lemma_first_dot_is_first(body);
    let j = at - start;
    assert(body[j] == text[at]);
    if j < dot {
        assert(whole_part(text)[j] == text[at]);
    } else {
        assert(j > dot);
        assert(fraction_part(text)[j - dot - 1] == text[at]);
    }
}

/// Up to four digits denote less than ten to the power of their count.
pub proof fn lemma_short_number(text: Seq<char>)
    requires
        text.len() <= 4,
    ensures
        text.len() == 0 ==> number(text) == 0,
        text.len() == 1 ==> number(text) <= 9,
        text.len() == 2 ==> number(text) <= 99,
        text.len() == 3 ==> number(text) <= 999,
        text.len() == 4 ==> number(text) <= 9999,
    decreases text.len(),
{
    if text.len() > 0 {
        lemma_short_number(text.drop_last());
    }
}

impl Amount {
    /// Reads an amount from its decimal notation.
    pub fn from_str(s: &str) -> (result: Result<Amount, Error>)
        ensures
            match read(s@) {
                Reading::Value(v) => result matches Ok(amount) && amount@ == v,
                Reading::NoInput => result matches Err(Error::NoInput),
                Reading::Malformed => result matches Err(Error::Malformed(text)) && text@ == s@,
                Reading::PrecisionTooHigh => result matches Err(Error::PrecisionTooHigh(text))
                    && text@ == s@,
            },
    {
        broadcast use vstd::string::is_ascii_spec_bytes;

        if s.is_empty() {
            return Err(Error::NoInput);
        }
        if !s.is_ascii() {
            proof {
                let at = choose|i: int|
                    0 <= i < s@.len() && !('\0' <= #[trigger] s@[i] <= '\u{7f}');
                lemma_stray_character(s@, at);
            }
            return Err(Error::Malformed(s.to_owned()));
        }
        let bytes = s.as_bytes();
        let end: usize = bytes.len();
        let negative: bool = bytes[0] == 45;
        let start: usize = if negative { 1 } else { 0 };
        let (dot, whole) = scan_number(s, start, WHOLE_LIMIT);
        if dot < end && bytes[dot] != 46 {
            proof {
                lemma_stray_character(s@, dot as int);
            }
            return Err(Error::Malformed(s.to_owned()));
        }
        proof {
            assert forall|i: int| start <= i < dot implies s@[i] != '.' by {
                assert(s@.subrange(start as int, dot as int)[i - start] == s@[i]);
            }
            lemma_parts(s@, start as int, dot as int);
        }
        if dot == start {
            return Err(Error::Malformed(s.to_owned()));
        }
        let mut scaled: u64 = 0;
        if dot < end {
            let (stop, fraction) = scan_number(s, dot + 1, 9999);
            if stop < end {
                proof {
                    let behind = s@.subrange(dot + 1, end as int);
                    assert(behind[stop - dot - 1] == s@[stop as int]);
                }
                return Err(Error::Malformed(s.to_owned()));
            }
            let places: usize = end - (dot + 1);
            if places == 0 {
                return Err(Error::Malformed(s.to_owned()));
            }
            if places > 4 {
                return Err(Error::PrecisionTooHigh(s.to_owned()));
            }
            proof {
                lemma_short_number(s@.subrange(dot + 1, end as int));
            }
            let unit: u64 = if places == 1 {
                1000
            } else if places == 2 {
                100
            } else if places == 3 {
                10
            } else {
                1
            };
            scaled = fraction.unwrap() * unit;
        }
        match whole {
            None => Err(Error::Malformed(s.to_owned())),
            Some(units) => {
                let size: u64 = units * 10000 + scaled;
                if negative {
                    if size > 9223372036854775808 {
                        Err(Error::Malformed(s.to_owned()))
                    } else {
                        Ok(Amount { amount_fx4: (-(size as i128)) as i64 })
                    }
                } else {
                    if size > 9223372036854775807 {
                        Err(Error::Malformed(s.to_owned()))
                    } else {
                        Ok(Amount { amount_fx4: size as i64 })
                    }
                }
            },
        }
    }

    /// Writes the amount in its shortest decimal notation, which reads as
    /// this amount again.
    pub fn to_string(&self) -> (text: String)
        ensures
            text@ == write(self@),
            read(text@) == Reading::Value(self@),
    {
        proof {
            lemma_read_write(*self);
        }
        let value: i64 = self.amount_fx4;
        let size: u64 = if value < 0 {
            (-(value as i128)) as u64
        } else {
            value as u64
        };
        let mut out = String::new();
        if value < 0 {
            out.append("-");
        }
        proof {
            reveal_strlit("-");
            reveal_strlit(".");
        }
        push_numeral(&mut out, size / 10000);
        let fraction: u64 = size % 10000;
        if fraction != 0 {
            out.append(".");
            out.append(digit_text((fraction / 1000) as u8));
            if fraction % 1000 != 0 {
                out.append(digit_text((fraction / 100 % 10) as u8));
                if fraction % 100 != 0 {
                    out.append(digit_text((fraction / 10 % 10) as u8));
                    if fraction % 10 != 0 {
                        out.append(digit_text((fraction % 10) as u8));
                    }
                }
            }
        }
        out
    }
}

impl core::str::FromStr for Amount {
    type Err = Error;

    fn from_str(s: &str) -> (result: Result<Amount, Error>)
        ensures
            match read(s@) {
                Reading::Value(v) => result matches Ok(amount) && amount@ == v,
                Reading::NoInput => result matches Err(Error::NoInput),
                Reading::Malformed => result matches Err(Error::Malformed(text)) && text@ == s@,
                Reading::PrecisionTooHigh => result matches Err(Error::PrecisionTooHigh(text))
                    && text@ == s@,
            },
    {
        Amount::from_str(s)
    }
}

/// The digits behind the point are at most four, all digits, and denote the
/// fraction they were written for.
pub proof fn lemma_fraction_digits(f: nat)
    requires
        0 < f < 10000,
    ensures
        is_number(fraction_digits(f)),
        fraction_digits(f).len() <= 4,
        number(fraction_digits(f)) * place_value(fraction_digits(f).len()) == f,
{
    let a = digit_char(f / 1000);
    let b = digit_char(f / 100 % 10);
    let c = digit_char(f / 10 % 10);
    let d = digit_char(f % 10);
    let none = Seq::<char>::empty();
    lemma_number_push(none, a);
    lemma_number_push(none.push(a), b);
    lemma_number_push(none.push(a).push(b), c);
    lemma_number_push(none.push(a).push(b).push(c), d);
    assert(seq![a, b] =~= none.push(a).push(b));
    assert(seq![a, b, c] =~= none.push(a).push(b).push(c));
    assert(seq![a, b, c, d] =~= none.push(a).push(b).push(c).push(d));
}

/// Reading what was written gives the amount back: every amount has a
/// notation, and the notation denotes that amount and no other.
pub proof fn lemma_read_write(amount: Amount)
    ensures
        read(write(amount@)) == Reading::Value(amount@),
{
    let v = amount@;
    let text = write(v);
    let size = magnitude(v);
    let whole = numeral(size / 10000);
    let f = size % 10000;
    let start: int = if v < 0 { 1 } else { 0 };
    let dot = start + whole.len();
    lemma_numeral(size / 10000);
    if f != 0 {
        lemma_fraction_digits(f);
    }
    assert(is_digit(whole[0]));
    if v < 0 {
        assert(text[0] == '-');
    } else {
        assert(text[0] == whole[0]);
    }
    assert forall|i: int| start <= i < dot implies text[i] != '.' by {
        assert(text[i] == whole[i - start]);
    }
    if f != 0 {
        assert(text[dot] == '.');
        assert(text.subrange(dot + 1, text.len() as int) =~= fraction_digits(f));
    }
    lemma_parts(text, start, dot);
    assert(text.subrange(start, dot) =~= whole);
}

} // verus!
