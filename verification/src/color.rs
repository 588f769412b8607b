use vstd::prelude::*;
use crate::bytestr::bytes_eq;

verus! {

/// An RGB color.  Each channel holds thousandths of full intensity, so the
/// unit interval 0.0..=1.0 of the output container maps to 0..=1000 here.
#[derive(Clone, Copy, PartialEq, Eq, Structural, Debug)]
pub struct Color {
    pub r: u16,
    pub g: u16,
    pub b: u16,
}

impl Color {
    /// Every channel is at most one thousand thousandths, i.e. full intensity.
    pub open spec fn wf(&self) -> bool {
        self.r <= 1000 && self.g <= 1000 && self.b <= 1000
    }

    pub open spec fn spec_new(r: int, g: int, b: int) -> Color {
        Color { r: r as u16, g: g as u16, b: b as u16 }
    }

    pub fn new(r: u16, g: u16, b: u16) -> (c: Color)
        requires
            r <= 1000,
            g <= 1000,
            b <= 1000,
        ensures
            c == (Color { r, g, b }),
            c.wf(),
    {
        Color { r, g, b }
    }
}

/// An eight-bit channel scaled into thousandths, rounded to nearest: the
/// integer counterpart of `byte / 255` in unit intensity.
pub open spec fn channel_of_byte(b: int) -> int {
    (2000 * b + 255) / 510
}

pub open spec fn is_hex_digit(c: u8) -> bool {
    (48u8 <= c <= 57u8) || (97u8 <= c <= 102u8) || (65u8 <= c <= 70u8)
}

pub open spec fn hex_value(c: u8) -> int {
    if 48u8 <= c <= 57u8 {
        c - 48u8
    } else if 97u8 <= c <= 102u8 {
        c - 97u8 + 10
    } else {
        c - 65u8 + 10
    }
}

/// The byte encoded by two hex digits.
pub open spec fn hex_pair(hi: u8, lo: u8) -> int {
    hex_value(hi) * 16 + hex_value(lo)
}

/// A six-digit `#RRGGBB` value parses to its three channels; a three-digit
/// `#RGB` value duplicates each nibble first.
pub open spec fn spec_parse_hex_color(h: Seq<u8>) -> Option<Color> {
    if h.len() == 6 {
        if forall|i: int| 0 <= i < 6 ==> is_hex_digit(#[trigger] h[i]) {
            Some(
                Color::spec_new(
                    channel_of_byte(hex_pair(h[0], h[1])),
                    channel_of_byte(hex_pair(h[2], h[3])),
                    channel_of_byte(hex_pair(h[4], h[5])),
                ),
            )
        } else {
            None
        }
    } else if h.len() == 3 {
        if forall|i: int| 0 <= i < 3 ==> is_hex_digit(#[trigger] h[i]) {
            Some(
                Color::spec_new(
                    channel_of_byte(hex_pair(h[0], h[0])),
                    channel_of_byte(hex_pair(h[1], h[1])),
                    channel_of_byte(hex_pair(h[2], h[2])),
                ),
            )
        } else {
            None
        }
    } else {
        None
    }
}

pub open spec fn named_color(s: Seq<u8>) -> Option<Color> {
    if s == seq![98u8, 108u8, 97u8, 99u8, 107u8] {
        Some(Color::spec_new(0, 0, 0))
    } else if s == seq![114u8, 101u8, 100u8] {
        Some(Color::spec_new(1000, 0, 0))
    } else if s == seq![103u8, 114u8, 101u8, 101u8, 110u8] {
        Some(Color::spec_new(0, 1000, 0))
    } else if s == seq![98u8, 108u8, 117u8, 101u8] {
        Some(Color::spec_new(0, 0, 1000))
    } else if s == seq![119u8, 104u8, 105u8, 116u8, 101u8] {
        Some(Color::spec_new(1000, 1000, 1000))
    } else if s == seq![103u8, 114u8, 97u8, 121u8] || s == seq![103u8, 114u8, 101u8, 121u8] {
        Some(Color::spec_new(500, 500, 500))
    } else if s == seq![103u8, 97u8, 105u8, 110u8, 115u8, 98u8, 111u8, 114u8, 111u8] {
        Some(Color::spec_new(863, 863, 863))
    } else if s == seq![119u8, 104u8, 105u8, 116u8, 101u8, 115u8, 109u8, 111u8, 107u8, 101u8] {
        Some(Color::spec_new(961, 961, 961))
    } else {
        None
    }
}

/// The color denoted by a style value: a `#`-prefixed hex color, or one of
/// the recognized color names; anything else denotes no color.
pub open spec fn spec_parse_color(s: Seq<u8>) -> Option<Color> {
    if s.len() > 0 && s[0] == 35u8 {
        spec_parse_hex_color(s.skip(1))
    } else {
        named_color(s)
    }
}

fn is_hex_digit_byte(c: u8) -> (r: bool)
    ensures
        r == is_hex_digit(c),
{
    (48u8 <= c && c <= 57u8) || (97u8 <= c && c <= 102u8) || (65u8 <= c && c <= 70u8)
}

fn hex_value_byte(c: u8) -> (r: u8)
    requires
        is_hex_digit(c),
    ensures
        r == hex_value(c),
        r < 16,
{
    if 48u8 <= c && c <= 57u8 {
        c - 48u8
    } else if 97u8 <= c && c <= 102u8 {
        c - 97u8 + 10
    } else {
        c - 65u8 + 10
    }
}

fn channel_of_byte_exec(v: u8) -> (r: u16)
    ensures
        r == channel_of_byte(v as int),
        r <= 1000,
{
    let w: u32 = (2000 * (v as u32) + 255) / 510;
    w as u16
}

fn hex_pair_channel(hi: u8, lo: u8) -> (r: u16)
    requires
        is_hex_digit(hi),
        is_hex_digit(lo),
    ensures
        r == channel_of_byte(hex_pair(hi, lo)),
        r <= 1000,
{
    let v: u8 = hex_value_byte(hi) * 16 + hex_value_byte(lo);
    channel_of_byte_exec(v)
}

fn match_named_color(s: &Vec<u8>) -> (r: Option<Color>)
    ensures
        r == named_color(s@),
{
    let black: Vec<u8> = vec![98u8, 108u8, 97u8, 99u8, 107u8];
    let red: Vec<u8> = vec![114u8, 101u8, 100u8];
    let green: Vec<u8> = vec![103u8, 114u8, 101u8, 101u8, 110u8];
    let blue: Vec<u8> = vec![98u8, 108u8, 117u8, 101u8];
    let white: Vec<u8> = vec![119u8, 104u8, 105u8, 116u8, 101u8];
    let gray: Vec<u8> = vec![103u8, 114u8, 97u8, 121u8];
    let grey: Vec<u8> = vec![103u8, 114u8, 101u8, 121u8];
    let gainsboro: Vec<u8> = vec![103u8, 97u8, 105u8, 110u8, 115u8, 98u8, 111u8, 114u8, 111u8];
    let whitesmoke: Vec<u8> = vec![119u8, 104u8, 105u8, 116u8, 101u8, 115u8, 109u8, 111u8, 107u8, 101u8];
    if bytes_eq(s, &black) {
        Some(Color::new(0, 0, 0))
    } else if bytes_eq(s, &red) {
        Some(Color::new(1000, 0, 0))
    } else if bytes_eq(s, &green) {
        Some(Color::new(0, 1000, 0))
    } else if bytes_eq(s, &blue) {
        Some(Color::new(0, 0, 1000))
    } else if bytes_eq(s, &white) {
        Some(Color::new(1000, 1000, 1000))
    } else if bytes_eq(s, &gray) || bytes_eq(s, &grey) {
        Some(Color::new(500, 500, 500))
    } else if bytes_eq(s, &gainsboro) {
        Some(Color::new(863, 863, 863))
    } else if bytes_eq(s, &whitesmoke) {
        Some(Color::new(961, 961, 961))
    } else {
        None
    }
}

/// Parses one style color value, exactly as `spec_parse_color` describes:
/// `#RRGGBB` and `#RGB` hex forms, or a recognized color name; every other
/// value yields `None`, never an error.
pub fn parse_color(s: &Vec<u8>) -> (r: Option<Color>)
    ensures
        r == spec_parse_color(s@),
        (r matches Some(c) ==> c.wf()),
{
    if s.len() > 0 && s[0] == 35u8 {
        if s.len() == 7 {
            if is_hex_digit_byte(s[1]) && is_hex_digit_byte(s[2]) && is_hex_digit_byte(s[3])
                && is_hex_digit_byte(s[4]) && is_hex_digit_byte(s[5]) && is_hex_digit_byte(s[6]) {
                let c = Color {
                    r: hex_pair_channel(s[1], s[2]),
                    g: hex_pair_channel(s[3], s[4]),
                    b: hex_pair_channel(s[5], s[6]),
                };
                proof {
                    let h = s@.skip(1);
                    assert forall|i: int| 0 <= i < 6 implies is_hex_digit(#[trigger] h[i]) by {
                        assert(h[i] == s@[i + 1]);
                    }
                    assert(h.len() == 6);
                }
                Some(c)
            } else {
                proof {
                    let h = s@.skip(1);
                    assert(h.len() == 6);
                    assert(h[0] == s@[1] && h[1] == s@[2] && h[2] == s@[3] && h[3] == s@[4] && h[4]
                        == s@[5] && h[5] == s@[6]);
                }
                None
            }
        } else if s.len() == 4 {
            if is_hex_digit_byte(s[1]) && is_hex_digit_byte(s[2]) && is_hex_digit_byte(s[3]) {
                let c = Color {
                    r: hex_pair_channel(s[1], s[1]),
                    g: hex_pair_channel(s[2], s[2]),
                    b: hex_pair_channel(s[3], s[3]),
                };
                proof {
                    let h = s@.skip(1);
                    assert forall|i: int| 0 <= i < 3 implies is_hex_digit(#[trigger] h[i]) by {
                        assert(h[i] == s@[i + 1]);
                    }
                    assert(h.len() == 3);
                }
                Some(c)
            } else {
                proof {
                    let h = s@.skip(1);
                    assert(h.len() == 3);
                    assert(h[0] == s@[1] && h[1] == s@[2] && h[2] == s@[3]);
                }
                None
            }
        } else {
            None
        }
    } else {
        match_named_color(s)
    }
}

} // verus!
