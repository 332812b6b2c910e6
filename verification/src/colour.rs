//! The one accepted colour notation, `#rgb`, `#rrggbb` or `#rrggbbaa`, read into its digits.
//!
//! The renderer turns the digits into the fractional channels it paints with; which texts are
//! colours at all, and what digits they carry, is decided here.

use vstd::prelude::*;

use crate::text::chars_of;

verus! {

/// What a colour that could not be read looks like to the caller. One variant, because there is
/// one accepted notation and everything else is equally wrong.
#[derive(Debug, Clone, Copy, PartialEq, Eq, Structural)]
pub struct ColourError;

impl ColourError {
    /// The "what was wrong with it" half of the message reporting a bad colour.
    pub fn to_string(&self) -> (s: String)
        ensures
            s@ == "expected #rgb, #rrggbb or #rrggbbaa"@,
    {
        let mut s = String::new();
        crate::text::push_str(&mut s, "expected #rgb, #rrggbb or #rrggbbaa");
        s
    }
}

/// A colour's digits as written.
#[derive(Debug, Clone, Copy, PartialEq, Eq, Structural)]
pub enum HexColour {
    /// `#rgb`: one hex digit per channel, each `0..=15`; opaque.
    Short { red: u8, green: u8, blue: u8 },
    /// `#rrggbb` or `#rrggbbaa`: two hex digits per channel; opaque when alpha is omitted.
    Full { red: u8, green: u8, blue: u8, alpha: Option<u8> },
}

/// Whether `c` is an ASCII hex digit.
pub open spec fn is_hex_digit(c: char) -> bool {
    ('0' <= c <= '9') || ('a' <= c <= 'f') || ('A' <= c <= 'F')
}

/// The value of a hex digit.
pub open spec fn hex_value(c: char) -> int {
    if '0' <= c <= '9' {
        c as int - '0' as int
    } else if 'a' <= c <= 'f' {
        c as int - 'a' as int + 10
    } else {
        c as int - 'A' as int + 10
    }
}

/// The value of the two digits at `at`.
pub open spec fn byte_at(digits: Seq<char>, at: int) -> int {
    16 * hex_value(digits[at]) + hex_value(digits[at + 1])
}

/// What a text says as a colour: a `#`, then three, six or eight hex digits and nothing else.
pub open spec fn hex_colour(text: Seq<char>) -> Option<HexColour> {
    if text.len() == 0 || text[0] != '#' {
        None
    } else {
        let d = text.drop_first();
        if !(forall|i: int| 0 <= i < d.len() ==> is_hex_digit(#[trigger] d[i])) {
            None
        } else if d.len() == 3 {
            Some(
                HexColour::Short {
                    red: hex_value(d[0]) as u8,
                    green: hex_value(d[1]) as u8,
                    blue: hex_value(d[2]) as u8,
                },
            )
        } else if d.len() == 6 {
            Some(
                HexColour::Full {
                    red: byte_at(d, 0) as u8,
                    green: byte_at(d, 2) as u8,
                    blue: byte_at(d, 4) as u8,
                    alpha: None,
                },
            )
        } else if d.len() == 8 {
            Some(
                HexColour::Full {
                    red: byte_at(d, 0) as u8,
                    green: byte_at(d, 2) as u8,
                    blue: byte_at(d, 4) as u8,
                    alpha: Some(byte_at(d, 6) as u8),
                },
            )
        } else {
            None
        }
    }
}

fn digit_value(c: char) -> (v: u8)
    requires
        is_hex_digit(c),
    ensures
        v == hex_value(c),
        v < 16,
{
    if '0' <= c && c <= '9' {
        (c as u32 - '0' as u32) as u8
    } else if 'a' <= c && c <= 'f' {
        (c as u32 - 'a' as u32 + 10) as u8
    } else {
        (c as u32 - 'A' as u32 + 10) as u8
    }
}

fn byte_value(digits: &Vec<char>, at: usize) -> (v: u8)
    requires
        at + 1 < digits.len(),
        is_hex_digit(digits@[at as int]),
        is_hex_digit(digits@[at + 1]),
    ensures
        v == byte_at(digits@, at as int),
{
    let high = digit_value(digits[at]);
    let low = digit_value(digits[at + 1]);
    high * 16 + low
}

/// Read the one accepted notation. Total: every other input — no `#`, a wrong length, a non-hex
/// digit, the empty string — is an error rather than a partial reading.
pub fn read_hex_colour(text: &str) -> (r: Result<HexColour, ColourError>)
    ensures
        match r {
            Ok(c) => hex_colour(text@) == Some(c),
            Err(_) => hex_colour(text@) is None,
        },
{
    let chars = chars_of(text);
    if chars.len() == 0 || chars[0] != '#' {
        return Err(ColourError);
    }
    let digits = crate::text::slice_of(&chars, 1, chars.len());
    assert(digits@ == chars@.drop_first());
    for i in 0..digits.len()
        invariant
            chars@ == text@,
            chars@.len() > 0 && chars@[0] == '#',
            digits@ == chars@.drop_first(),
            forall|j: int| 0 <= j < i ==> is_hex_digit(#[trigger] digits@[j]),
    {
        let c = digits[i];
        if !(('0' <= c && c <= '9') || ('a' <= c && c <= 'f') || ('A' <= c && c <= 'F')) {
            assert(!is_hex_digit(digits@[i as int]));
            return Err(ColourError);
        }
    }
    if digits.len() == 3 {
        Ok(HexColour::Short { red: digit_value(digits[0]), green: digit_value(digits[1]), blue: digit_value(digits[2]) })
    } else if digits.len() == 6 {
        Ok(HexColour::Full { red: byte_value(&digits, 0), green: byte_value(&digits, 2), blue: byte_value(&digits, 4), alpha: None })
    } else if digits.len() == 8 {
        Ok(
            HexColour::Full {
                red: byte_value(&digits, 0),
                green: byte_value(&digits, 2),
                blue: byte_value(&digits, 4),
                alpha: Some(byte_value(&digits, 6)),
            },
        )
    } else {
        Err(ColourError)
    }
}

} // verus!
