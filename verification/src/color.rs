//! RGBA colors as they appear in the query string and in rendered output.
//!
//! A color arrives as exactly eight uppercase hexadecimal digits (RRGGBBAA)
//! and is handed to the raster renderer as four raw bytes, and to the vector
//! renderer as the textual token `#RRGGBBAA` derived from the same bytes.

use vstd::prelude::*;
use vstd::string::StringExecFns;

verus! {

/// Whether a byte is an uppercase hexadecimal digit (`0`-`9` or `A`-`F`),
/// the one case convention the color fields accept.
pub open spec fn is_hex_upper(b: u8) -> bool {
    (48 <= b <= 57) || (65 <= b <= 70)
}

/// Numeric value of an uppercase hexadecimal digit.
pub open spec fn hex_val_upper(b: u8) -> int {
    if 48 <= b <= 57 {
        b - 48
    } else {
        b - 55
    }
}

/// The byte encoded by the two hexadecimal digits at positions `i`, `i + 1`.
pub open spec fn spec_hex_byte_at(s: Seq<u8>, i: int) -> u8 {
    (hex_val_upper(s[i]) * 16 + hex_val_upper(s[i + 1])) as u8
}

/// The four RGBA bytes a color field's text denotes: defined exactly when
/// the text is eight uppercase hexadecimal digits.
pub open spec fn spec_parse_color(s: Seq<u8>) -> Option<Seq<u8>> {
    if s.len() == 8 && (forall|i: int| 0 <= i < 8 ==> is_hex_upper(#[trigger] s[i])) {
        Some(
            seq![
                spec_hex_byte_at(s, 0),
                spec_hex_byte_at(s, 2),
                spec_hex_byte_at(s, 4),
                spec_hex_byte_at(s, 6),
            ],
        )
    } else {
        None
    }
}

/// The uppercase hexadecimal digit character for a value below sixteen.
pub open spec fn spec_hex_char(v: int) -> char {
    if v == 0 {
        '0'
    } else if v == 1 {
        '1'
    } else if v == 2 {
        '2'
    } else if v == 3 {
        '3'
    } else if v == 4 {
        '4'
    } else if v == 5 {
        '5'
    } else if v == 6 {
        '6'
    } else if v == 7 {
        '7'
    } else if v == 8 {
        '8'
    } else if v == 9 {
        '9'
    } else if v == 10 {
        'A'
    } else if v == 11 {
        'B'
    } else if v == 12 {
        'C'
    } else if v == 13 {
        'D'
    } else if v == 14 {
        'E'
    } else {
        'F'
    }
}

/// The two uppercase hexadecimal digit characters of one byte.
pub open spec fn spec_hex_pair(b: u8) -> Seq<char> {
    seq![spec_hex_char(b as int / 16), spec_hex_char(b as int % 16)]
}

/// The textual color token `#RRGGBBAA` (uppercase, no separators) for four
/// RGBA bytes: the form the vector renderer receives.
pub open spec fn spec_color_token(c: Seq<u8>) -> Seq<char> {
    seq!['#'] + spec_hex_pair(c[0]) + spec_hex_pair(c[1]) + spec_hex_pair(c[2]) + spec_hex_pair(
        c[3],
    )
}

/// Whether a byte is an uppercase hexadecimal digit.
pub fn is_hex_digit_upper(b: u8) -> (r: bool)
    ensures
        r == is_hex_upper(b),
{
    (48 <= b && b <= 57) || (65 <= b && b <= 70)
}

/// Numeric value of an uppercase hexadecimal digit byte.
pub fn hex_digit_val(b: u8) -> (r: u8)
    requires
        is_hex_upper(b),
    ensures
        r == hex_val_upper(b),
{
    if b <= 57 {
        b - 48
    } else {
        b - 55
    }
}

/// Parses a color field's text: exactly eight uppercase hexadecimal digits
/// (RRGGBBAA) yield the four RGBA bytes; any other text yields nothing.
pub fn parse_color(s: &[u8]) -> (r: Option<[u8; 4]>)
    ensures
        r is Some <==> spec_parse_color(s@) is Some,
        r matches Some(c) ==> spec_parse_color(s@) == Some(c@),
{
    if s.len() != 8 {
        return None;
    }
    let mut i: usize = 0;
    while i < 8
        invariant
            0 <= i <= 8,
            s@.len() == 8,
            forall|j: int| 0 <= j < i ==> is_hex_upper(#[trigger] s@[j]),
        decreases 8 - i,
    {
        if !is_hex_digit_upper(s[i]) {
            assert(!is_hex_upper(s@[i as int]));
            return None;
        }
        i += 1;
    }
    let c: [u8; 4] = [
        hex_digit_val(s[0]) * 16 + hex_digit_val(s[1]),
        hex_digit_val(s[2]) * 16 + hex_digit_val(s[3]),
        hex_digit_val(s[4]) * 16 + hex_digit_val(s[5]),
        hex_digit_val(s[6]) * 16 + hex_digit_val(s[7]),
    ];
    proof {
        assert(c@ =~= spec_parse_color(s@).unwrap());
    }
    Some(c)
}

/// The uppercase hexadecimal digit for a value below sixteen, as a string.
fn hex_char_str(v: u8) -> (r: &'static str)
    requires
        v < 16,
    ensures
        r@ =~= seq![spec_hex_char(v as int)],
{
    proof {
        reveal_strlit("0");
        reveal_strlit("1");
        reveal_strlit("2");
        reveal_strlit("3");
        reveal_strlit("4");
        reveal_strlit("5");
        reveal_strlit("6");
        reveal_strlit("7");
        reveal_strlit("8");
        reveal_strlit("9");
        reveal_strlit("A");
        reveal_strlit("B");
        reveal_strlit("C");
        reveal_strlit("D");
        reveal_strlit("E");
        reveal_strlit("F");
    }
    match v {
        0 => "0",
        1 => "1",
        2 => "2",
        3 => "3",
        4 => "4",
        5 => "5",
        6 => "6",
        7 => "7",
        8 => "8",
        9 => "9",
        10 => "A",
        11 => "B",
        12 => "C",
        13 => "D",
        14 => "E",
        _ => "F",
    }
}

/// Builds the textual color token `#RRGGBBAA` for four RGBA bytes. The same
/// four input bytes always produce the same token.
pub fn color_token(c: &[u8; 4]) -> (r: String)
    ensures
        r@ == spec_color_token(c@),
{
    proof {
        reveal_strlit("#");
    }
    let mut s: String = "#".to_owned();
    s.append(hex_char_str(c[0] / 16));
    s.append(hex_char_str(c[0] % 16));
    s.append(hex_char_str(c[1] / 16));
    s.append(hex_char_str(c[1] % 16));
    s.append(hex_char_str(c[2] / 16));
    s.append(hex_char_str(c[2] % 16));
    s.append(hex_char_str(c[3] / 16));
    s.append(hex_char_str(c[3] % 16));
    proof {
        assert(s@ =~= spec_color_token(c@));
    }
    s
}

} // verus!
