//! Decoding of `#RRGGBB` color strings into RGB triples.
//!
//! Decoding degrades gracefully: a string that is too short or does not
//! start with `#` yields the neutral gray triple, and a channel whose two
//! digits are not hexadecimal falls back to the gray intensity while the
//! other channels decode normally.

use vstd::prelude::*;

verus! {

/// Intensity used for a channel that cannot be decoded; three of these make
/// the neutral gray returned for strings that are not `#RRGGBB` at all.
pub const DEFAULT_CHANNEL: u8 = 200;

/// Whether `c` is an ASCII hexadecimal digit (`0-9`, `a-f`, `A-F`).
pub open spec fn is_hex_digit(c: char) -> bool {
    ('0' <= c && c <= '9') || ('a' <= c && c <= 'f') || ('A' <= c && c <= 'F')
}

/// Numeric value of the hexadecimal digit `c`; meaningful only when
/// `is_hex_digit(c)` holds.
pub open spec fn hex_digit_value(c: char) -> int {
    if '0' <= c && c <= '9' {
        c as int - '0' as int
    } else if 'a' <= c && c <= 'f' {
        c as int - 'a' as int + 10
    } else {
        c as int - 'A' as int + 10
    }
}

/// Value of the channel written with digits `hi` and `lo`, with the
/// per-channel fallback: a pair that is not two hexadecimal digits leaves
/// the channel at the gray intensity.
pub open spec fn channel_value(hi: char, lo: char) -> u8 {
    if is_hex_digit(hi) && is_hex_digit(lo) {
        (hex_digit_value(hi) * 16 + hex_digit_value(lo)) as u8
    } else {
        DEFAULT_CHANNEL
    }
}

/// The RGB triple a color string decodes to: gray unless the string has at
/// least 7 characters and starts with `#`, and otherwise the three
/// channels taken from character positions 1-2, 3-4 and 5-6.
pub open spec fn rgb_of(s: Seq<char>) -> (u8, u8, u8) {
    if s.len() < 7 || s[0] != '#' {
        (DEFAULT_CHANNEL, DEFAULT_CHANNEL, DEFAULT_CHANNEL)
    } else {
        (channel_value(s[1], s[2]), channel_value(s[3], s[4]), channel_value(s[5], s[6]))
    }
}

/// Parses one hexadecimal digit.
fn hex_digit(c: char) -> (r: Option<u8>)
    ensures
        r is Some <==> is_hex_digit(c),
        r matches Some(v) ==> v == hex_digit_value(c) && v <= 15,
{
    let u = c as u32;
    if 48 <= u && u <= 57 {
        Some((u - 48) as u8)
    } else if 97 <= u && u <= 102 {
        Some((u - 97 + 10) as u8)
    } else if 65 <= u && u <= 70 {
        Some((u - 65 + 10) as u8)
    } else {
        None
    }
}

/// Decodes one channel from its two digits, falling back to the gray
/// intensity when a digit is not hexadecimal.
fn channel(hi: char, lo: char) -> (v: u8)
    ensures
        v == channel_value(hi, lo),
{
    match (hex_digit(hi), hex_digit(lo)) {
        (Some(h), Some(l)) => 16 * h + l,
        _ => DEFAULT_CHANNEL,
    }
}

/// Converts a stored color string of the canonical form `#RRGGBB` into an
/// RGB triple. Total: malformed input degrades to gray, and a single
/// malformed channel degrades only that channel.
pub fn hex_to_rgb(input: &str) -> (rgb: (u8, u8, u8))
    ensures
        rgb == rgb_of(input@),
{
    let n = input.unicode_len();
    if n < 7 {
        return (DEFAULT_CHANNEL, DEFAULT_CHANNEL, DEFAULT_CHANNEL);
    }
    if input.get_char(0) != '#' {
        return (DEFAULT_CHANNEL, DEFAULT_CHANNEL, DEFAULT_CHANNEL);
    }
    let r = channel(input.get_char(1), input.get_char(2));
    let g = channel(input.get_char(3), input.get_char(4));
    let b = channel(input.get_char(5), input.get_char(6));
    (r, g, b)
}

} // verus!
