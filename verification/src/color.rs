//! Hex colors of mixer skins ("#RRGGBB" or "#RRGGBBAA").

use vstd::prelude::*;
use vstd::string::StringSliceAdditionalSpecFns;
use vstd::utf8::{encode_utf8, is_char_boundary};

verus! {

/// A color as four unmultiplied 8-bit channels.
#[derive(Debug, Clone, Copy, PartialEq, Eq, Structural)]
pub struct Rgba8 {
    pub r: u8,
    pub g: u8,
    pub b: u8,
    pub a: u8,
}

/// Unicode White_Space characters (the whitespace of `str::trim`).
pub open spec fn is_white_space(c: char) -> bool {
    let v = c as u32;
    ||| 0x09 <= v <= 0x0D
    ||| v == 0x20
    ||| v == 0x85
    ||| v == 0xA0
    ||| v == 0x1680
    ||| 0x2000 <= v <= 0x200A
    ||| v == 0x2028
    ||| v == 0x2029
    ||| v == 0x202F
    ||| v == 0x205F
    ||| v == 0x3000
}

/// Number of whitespace characters at the start of `s`.
pub open spec fn leading_white_space(s: Seq<char>) -> nat
    decreases s.len(),
{
    if s.len() > 0 && is_white_space(s[0]) {
        1 + leading_white_space(s.drop_first())
    } else {
        0
    }
}

/// Number of whitespace characters at the end of `s`.
pub open spec fn trailing_white_space(s: Seq<char>) -> nat
    decreases s.len(),
{
    if s.len() > 0 && is_white_space(s.last()) {
        1 + trailing_white_space(s.drop_last())
    } else {
        0
    }
}

/// `s` without its leading and trailing whitespace.
pub open spec fn trim_white_space(s: Seq<char>) -> Seq<char> {
    let t = s.skip(leading_white_space(s) as int);
    t.take(t.len() - trailing_white_space(t))
}

/// Calls `str::trim`, which removes leading and trailing characters with the
/// Unicode White_Space property, as its documentation states.
#[verifier::external_body]
fn trim(s: &str) -> (r: &str)
    ensures
        r@ == trim_white_space(s@),
{
    s.trim()
}

/// The text of a color after trimming whitespace and dropping one leading '#'.
pub open spec fn color_digits(input: Seq<char>) -> Seq<char> {
    let t = trim_white_space(input);
    if t.len() > 0 && t[0] == '#' {
        t.drop_first()
    } else {
        t
    }
}

/// The value of an ASCII hexadecimal digit byte.
pub open spec fn hex_digit(b: u8) -> Option<u8> {
    if 48 <= b <= 57 {
        Some((b - 48) as u8)
    } else if 97 <= b <= 102 {
        Some((b - 87) as u8)
    } else if 65 <= b <= 70 {
        Some((b - 55) as u8)
    } else {
        None
    }
}

/// What `u8::from_str_radix(_, 16)` gives for a two-byte text: two hex digits, or
/// '+' and one hex digit.
pub open spec fn hex_pair(b0: u8, b1: u8) -> Option<u8> {
    if b0 == 43 {
        hex_digit(b1)
    } else {
        match (hex_digit(b0), hex_digit(b1)) {
            (Some(h), Some(l)) => Some((h * 16 + l) as u8),
            _ => None,
        }
    }
}

/// The message of a hex-color error about `what` in `input`.
pub open spec fn component_error(what: Seq<char>, input: Seq<char>) -> Seq<char> {
    "invalid "@ + what + " component in color '"@ + input + "'"@
}

/// The red, green and blue bytes (the first six of `b`) with alpha `a`.
pub open spec fn rgb_of(b: Seq<u8>, a: u8, input: Seq<char>) -> Result<Rgba8, Seq<char>> {
    match hex_pair(b[0], b[1]) {
        None => Err(component_error("red"@, input)),
        Some(r) => match hex_pair(b[2], b[3]) {
            None => Err(component_error("green"@, input)),
            Some(g) => match hex_pair(b[4], b[5]) {
                None => Err(component_error("blue"@, input)),
                Some(bl) => Ok(Rgba8 { r, g, b: bl, a }),
            },
        },
    }
}

/// Every byte value reads back from its two-digit hexadecimal text, in lower or
/// upper case: the high digit is `n / 16`, the low one `n % 16`, digits below ten
/// written '0'..'9' and the others 'a'..'f' or 'A'..'F'.
pub proof fn law_hex_pair_reads_byte(n: u8)
    ensures
        ({
            let lower = |d: int| if d < 10 { (48 + d) as u8 } else { (87 + d) as u8 };
            let upper = |d: int| if d < 10 { (48 + d) as u8 } else { (55 + d) as u8 };
            &&& hex_pair(lower(n as int / 16), lower(n as int % 16)) == Some(n)
            &&& hex_pair(upper(n as int / 16), upper(n as int % 16)) == Some(n)
        }),
{
}

/// Six hexadecimal digits read as the red, green and blue bytes they spell, in
/// that order, with the given alpha.
pub proof fn law_rgb_reads_bytes(r: u8, g: u8, bl: u8, a: u8, input: Seq<char>)
    ensures
        ({
            let hex = |d: int| if d < 10 { (48 + d) as u8 } else { (87 + d) as u8 };
            rgb_of(
                seq![hex(r as int / 16), hex(r as int % 16), hex(g as int / 16), hex(g as int % 16), hex(bl as int / 16), hex(bl as int % 16)],
                a,
                input,
            ) == Ok::<Rgba8, Seq<char>>(Rgba8 { r, g, b: bl, a })
        }),
{
    law_hex_pair_reads_byte(r);
    law_hex_pair_reads_byte(g);
    law_hex_pair_reads_byte(bl);
}

/// The outcome of parsing a hex color: "RRGGBB" (opaque) or "RRGGBBAA", after
/// trimming and an optional '#'; lengths count UTF-8 bytes.
pub open spec fn hex_color_of(input: Seq<char>) -> Result<Rgba8, Seq<char>> {
    let b = encode_utf8(color_digits(input));
    if b.len() == 6 {
        rgb_of(b, 255, input)
    } else if b.len() == 8 {
        match hex_pair(b[6], b[7]) {
            None => Err(component_error("alpha"@, input)),
            Some(a) => rgb_of(b, a, input),
        }
    } else {
        Err("expected hex color in RRGGBB or RRGGBBAA format, got '"@ + input + "'"@)
    }
}

/// Cutting the red, green and blue texts out of the first six bytes would split
/// a character.
pub open spec fn rgb_splits_char(b: Seq<u8>) -> bool {
    ||| !is_char_boundary(b, 2)
    ||| (hex_pair(b[0], b[1]) is Some && !is_char_boundary(b, 4))
}

/// Reading the components of `input` would cut a multi-byte character apart.
pub open spec fn hex_color_splits_char(input: Seq<char>) -> bool {
    let b = encode_utf8(color_digits(input));
    ||| (b.len() == 6 && rgb_splits_char(b))
    ||| (b.len() == 8 && (!is_char_boundary(b, 6) || (hex_pair(b[6], b[7]) is Some && rgb_splits_char(b))))
}

fn hex_digit_value(b: u8) -> (r: Option<u8>)
    ensures
        r == hex_digit(b),
{
    if 48 <= b && b <= 57 {
        Some(b - 48)
    } else if 97 <= b && b <= 102 {
        Some(b - 87)
    } else if 65 <= b && b <= 70 {
        Some(b - 55)
    } else {
        None
    }
}

fn parse_hex_pair(b0: u8, b1: u8) -> (r: Option<u8>)
    ensures
        r == hex_pair(b0, b1),
{
    if b0 == 43 {
        hex_digit_value(b1)
    } else {
        match (hex_digit_value(b0), hex_digit_value(b1)) {
            (Some(h), Some(l)) => Some(h * 16 + l),
            _ => None,
        }
    }
}

fn component_message(what: &str, input: &str) -> (m: String)
    ensures
        m@ == component_error(what@, input@),
{
    let mut m = String::from_str("invalid ");
    m.append(what);
    m.append(" component in color '");
    m.append(input);
    m.append("'");
    m
}

fn parse_rgb(b: &[u8], a: u8, input: &str) -> (r: Result<Rgba8, String>)
    requires
        b@.len() >= 6,
    ensures
        match rgb_of(b@, a, input@) {
            Ok(c) => r == Ok::<Rgba8, String>(c),
            Err(m) => r matches Err(e) && e@ == m,
        },
{
    let r = match parse_hex_pair(b[0], b[1]) {
        Some(v) => v,
        None => {
            return Err(component_message("red", input));
        },
    };
    let g = match parse_hex_pair(b[2], b[3]) {
        Some(v) => v,
        None => {
            return Err(component_message("green", input));
        },
    };
    let bl = match parse_hex_pair(b[4], b[5]) {
        Some(v) => v,
        None => {
            return Err(component_message("blue", input));
        },
    };
    Ok(Rgba8 { r, g, b: bl, a })
}

/// Whether reading the components of `input` would cut a multi-byte character
/// apart: the inputs `parse_hex_color` does not take.
pub fn hex_color_would_split_char(input: &str) -> (r: bool)
    ensures
        r == hex_color_splits_char(input@),
{
    let trimmed = trim(input);
    let n = trimmed.unicode_len();
    let digits = if n > 0 && trimmed.get_char(0) == '#' {
        trimmed.substring_char(1, n)
    } else {
        trimmed
    };
    proof {
        if n > 0 && trimmed@[0] == '#' {
            assert(digits@ =~= trimmed@.drop_first());
        }
        assert(digits@ == color_digits(input@));
    }
    let b = digits.as_bytes();
    let len = b.len();
    if len == 6 {
        !digits.is_char_boundary(2) || (parse_hex_pair(b[0], b[1]).is_some() && !digits.is_char_boundary(4))
    } else if len == 8 {
        !digits.is_char_boundary(6) || (parse_hex_pair(b[6], b[7]).is_some() && (!digits.is_char_boundary(2)
            || (parse_hex_pair(b[0], b[1]).is_some() && !digits.is_char_boundary(4))))
    } else {
        false
    }
}

/// Parses a mixer-skin color: after trimming whitespace and one optional leading
/// '#', six hex digits (opaque) or eight (with alpha last), each pair read as by
/// `u8::from_str_radix(_, 16)`. Errors name the first component that does not
/// parse (alpha is read first), or the expected format when the length (in UTF-8
/// bytes) is neither six nor eight. Inputs whose components would cut a multi-byte
/// character apart are not accepted; `hex_color_would_split_char` tells them.
pub fn parse_hex_color(input: &str) -> (r: Result<Rgba8, String>)
    requires
        !hex_color_splits_char(input@),
    ensures
        match hex_color_of(input@) {
            Ok(c) => r == Ok::<Rgba8, String>(c),
            Err(m) => r matches Err(e) && e@ == m,
        },
{
    let trimmed = trim(input);
    let n = trimmed.unicode_len();
    let digits = if n > 0 && trimmed.get_char(0) == '#' {
        trimmed.substring_char(1, n)
    } else {
        trimmed
    };
    proof {
        if n > 0 && trimmed@[0] == '#' {
            assert(digits@ =~= trimmed@.drop_first());
        }
        assert(digits@ == color_digits(input@));
    }
    let b = digits.as_bytes();
    let len = b.len();
    if len == 6 {
        parse_rgb(b, 255, input)
    } else if len == 8 {
        let a = match parse_hex_pair(b[6], b[7]) {
            Some(v) => v,
            None => {
                return Err(component_message("alpha", input));
            },
        };
        parse_rgb(b, a, input)
    } else {
        let mut m = String::from_str("expected hex color in RRGGBB or RRGGBBAA format, got '");
        m.append(input);
        m.append("'");
        Err(m)
    }
}

} // verus!
