//! Colours as the project file writes them: `#RRGGBB`.

use vstd::prelude::*;

verus! {

/// A colour with eight bits per channel.
#[derive(Clone, Copy, Debug, PartialEq, Eq, Structural)]
pub struct Rgb {
    pub red: u8,
    pub green: u8,
    pub blue: u8,
}

/// The value of a hexadecimal digit, in either case.
pub open spec fn hex_digit(c: char) -> Option<int> {
    let v = c as int;
    if 48 <= v <= 57 {
        Some(v - 48)
    } else if 65 <= v <= 70 {
        Some(v - 55)
    } else if 97 <= v <= 102 {
        Some(v - 87)
    } else {
        None
    }
}

/// The value of two hexadecimal digits, the high one first.
pub open spec fn hex_byte(high: char, low: char) -> Option<int> {
    match (hex_digit(high), hex_digit(low)) {
        (Some(h), Some(l)) => Some(16 * h + l),
        _ => None,
    }
}

/// The colour that `text` writes: a `#` and six hexadecimal digits, two each
/// for red, green and blue.  Anything else is no colour.
pub open spec fn hex_color(text: Seq<char>) -> Option<Rgb> {
    if text.len() == 7 && text[0] == '#' {
        match (
            hex_byte(text[1], text[2]),
            hex_byte(text[3], text[4]),
            hex_byte(text[5], text[6]),
        ) {
            (Some(r), Some(g), Some(b)) => Some(
                Rgb { red: r as u8, green: g as u8, blue: b as u8 },
            ),
            _ => None,
        }
    } else {
        None
    }
}

fn parse_hex_digit(c: char) -> (d: Option<u8>)
    ensures
        match d {
            Some(v) => hex_digit(c) == Some(v as int) && v < 16,
            None => hex_digit(c) is None,
        },
{
    let v = c as u32;
    if 48 <= v && v <= 57 {
        Some((v - 48) as u8)
    } else if 65 <= v && v <= 70 {
        Some((v - 55) as u8)
    } else if 97 <= v && v <= 102 {
        Some((v - 87) as u8)
    } else {
        None
    }
}

fn parse_hex_byte(high: char, low: char) -> (b: Option<u8>)
    ensures
        match b {
            Some(v) => hex_byte(high, low) == Some(v as int),
            None => hex_byte(high, low) is None,
        },
{
    match (parse_hex_digit(high), parse_hex_digit(low)) {
        (Some(h), Some(l)) => Some(16 * h + l),
        _ => None,
    }
}

/// Reads a colour written as `#RRGGBB`.
pub fn parse_hex_color(text: &str) -> (color: Option<Rgb>)
    ensures
        color == hex_color(text@),
{
    if text.unicode_len() != 7 {
        return None;
    }
    if text.get_char(0) != '#' {
        return None;
    }
    let red = parse_hex_byte(text.get_char(1), text.get_char(2));
    let green = parse_hex_byte(text.get_char(3), text.get_char(4));
    let blue = parse_hex_byte(text.get_char(5), text.get_char(6));
    match (red, green, blue) {
        (Some(r), Some(g), Some(b)) => Some(Rgb { red: r, green: g, blue: b }),
        _ => None,
    }
}

} // verus!
