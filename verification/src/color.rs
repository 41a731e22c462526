//! Terminal color representations and default 256-color palette.

pub mod laws;
pub mod palette;

use crate::text;
use vstd::prelude::*;

pub use palette::default_256_palette;

verus! {

/// An RGB color with 8-bit channels.
#[derive(Debug, Clone, Copy, PartialEq, Eq, Structural)]
pub struct Rgb {
    pub r: u8,
    pub g: u8,
    pub b: u8,
}

/// What remains of a color's text once whitespace, one `#` and one `0x` are taken off its front.
pub open spec fn color_digits(s: Seq<char>) -> Seq<char> {
    let t = text::trimmed(s);
    let t = if t.len() > 0 && t[0] == '#' {
        t.drop_first()
    } else {
        t
    };
    if t.len() > 1 && t[0] == '0' && t[1] == 'x' {
        t.skip(2)
    } else {
        t
    }
}

/// The channel written by two hexadecimal digits.
pub open spec fn channel_of_two(a: char, b: char) -> Option<u8> {
    match (text::hex_value(a), text::hex_value(b)) {
        (Some(x), Some(y)) => Some((16 * x + y) as u8),
        _ => None,
    }
}

/// The channel written by one hexadecimal digit, which stands for the digit twice.
pub open spec fn channel_of_one(a: char) -> Option<u8> {
    match text::hex_value(a) {
        Some(x) => Some((17 * x) as u8),
        None => None,
    }
}

/// A color out of three channels, if all three could be read.
pub open spec fn color_of_channels(r: Option<u8>, g: Option<u8>, b: Option<u8>) -> Option<Rgb> {
    match (r, g, b) {
        (Some(r), Some(g), Some(b)) => Some(Rgb { r, g, b }),
        _ => None,
    }
}

/// The color that a text names: six or three hexadecimal digits behind an optional prefix.
pub open spec fn color_of_text(s: Seq<char>) -> Option<Rgb> {
    let d = color_digits(s);
    if d.len() == 6 {
        color_of_channels(
            channel_of_two(d[0], d[1]),
            channel_of_two(d[2], d[3]),
            channel_of_two(d[4], d[5]),
        )
    } else if d.len() == 3 {
        color_of_channels(channel_of_one(d[0]), channel_of_one(d[1]), channel_of_one(d[2]))
    } else {
        None
    }
}

/// Whether every character of a text is ASCII.
pub open spec fn all_ascii(s: Seq<char>) -> bool {
    forall|i: int| 0 <= i < s.len() ==> (#[trigger] s[i]) as u32 <= 127
}

/// The message for a text that names no color.
pub open spec fn color_error(s: Seq<char>) -> Seq<char> {
    let d = color_digits(s);
    if !all_ascii(d) {
        "invalid hex color containing non-ASCII characters: '"@ + d + "'"@
    } else if d.len() != 6 && d.len() != 3 {
        "invalid hex color: '"@ + d + "', expected 3 or 6 hex digits"@
    } else {
        "invalid digit found in string"@
    }
}

fn channel_from_two(a: char, b: char) -> (r: Option<u8>)
    ensures
        r == channel_of_two(a, b),
{
    match (text::hex_digit_value(a), text::hex_digit_value(b)) {
        (Some(x), Some(y)) => Some(16 * x + y),
        _ => None,
    }
}

fn channel_from_one(a: char) -> (r: Option<u8>)
    ensures
        r == channel_of_one(a),
{
    match text::hex_digit_value(a) {
        Some(x) => Some(17 * x),
        None => None,
    }
}

fn strip_prefixes(t: Vec<char>) -> (r: Vec<char>)
    ensures
        r@ == ({
            let t = if t@.len() > 0 && t@[0] == '#' {
                t@.drop_first()
            } else {
                t@
            };
            if t.len() > 1 && t[0] == '0' && t[1] == 'x' {
                t.skip(2)
            } else {
                t
            }
        }),
{
    let mut t = t;
    if t.len() > 0 && t[0] == '#' {
        let ghost before = t@;
        t.remove(0);
        assert(t@ =~= before.drop_first());
    }
    if t.len() > 1 && t[0] == '0' && t[1] == 'x' {
        let ghost before = t@;
        t.remove(0);
        t.remove(0);
        assert(t@ =~= before.skip(2));
    }
    t
}

fn is_all_ascii(d: &Vec<char>) -> (r: bool)
    ensures
        r == all_ascii(d@),
{
    for i in 0..d.len()
        invariant
            forall|j: int| 0 <= j < i ==> (#[trigger] d@[j]) as u32 <= 127,
    {
        if d[i] as u32 > 127 {
            return false;
        }
    }
    true
}

fn quoted(before: &str, d: &Vec<char>, after: &str) -> (r: String)
    ensures
        r@ == before@ + d@ + after@,
{
    let middle = text::string_of(d.as_slice());
    let mut out = text::joined(before, middle.as_str());
    out.append(after);
    out
}

impl Rgb {
    /// Makes a color out of its channels.
    pub fn new(r: u8, g: u8, b: u8) -> (c: Self)
        ensures
            c == (Rgb { r, g, b }),
    {
        Self { r, g, b }
    }

    /// Reads a color such as `#181818`, `0x181818`, `181818` or `#fff`.
    pub fn parse(s: &str) -> (res: Result<Self, String>)
        ensures
            match res {
                Ok(c) => color_of_text(s@) == Some(c),
                Err(message) => color_of_text(s@) is None && message@ == color_error(s@),
            },
    {
        let d: Vec<char> = strip_prefixes(text::trim(text::chars_of(s).as_slice()));
        assert(d@ == color_digits(s@));
        if !is_all_ascii(&d) {
            proof {
                lemma_colors_are_ascii(s@);
            }
            return Err(quoted("invalid hex color containing non-ASCII characters: '", &d, "'"));
        }
        if d.len() == 6 {
            match (
                channel_from_two(d[0], d[1]),
                channel_from_two(d[2], d[3]),
                channel_from_two(d[4], d[5]),
            ) {
                (Some(r), Some(g), Some(b)) => Ok(Self::new(r, g, b)),
                _ => Err("invalid digit found in string".to_owned()),
            }
        } else if d.len() == 3 {
            match (channel_from_one(d[0]), channel_from_one(d[1]), channel_from_one(d[2])) {
                (Some(r), Some(g), Some(b)) => Ok(Self::new(r, g, b)),
                _ => Err("invalid digit found in string".to_owned()),
            }
        } else {
            Err(quoted("invalid hex color: '", &d, "', expected 3 or 6 hex digits"))
        }
    }

    /// The text of a color: `#` and two lower-case hexadecimal digits per channel.
    pub open spec fn text(self) -> Seq<char> {
        seq![
            '#',
            text::hex_char(self.r as int / 16),
            text::hex_char(self.r as int % 16),
            text::hex_char(self.g as int / 16),
            text::hex_char(self.g as int % 16),
            text::hex_char(self.b as int / 16),
            text::hex_char(self.b as int % 16),
        ]
    }

    /// Writes a color as `#` and six lower-case hexadecimal digits.
    pub fn to_string(&self) -> (s: String)
        ensures
            s@ == self.text(),
    {
        let mut out: String = String::new();
        out.push('#');
        out.push(text::hex_digit(self.r / 16));
        out.push(text::hex_digit(self.r % 16));
        out.push(text::hex_digit(self.g / 16));
        out.push(text::hex_digit(self.g % 16));
        out.push(text::hex_digit(self.b / 16));
        out.push(text::hex_digit(self.b % 16));
        assert(out@ =~= self.text());
        out
    }
}

impl std::str::FromStr for Rgb {
    type Err = String;

    /// Reads a color out of its text, as `Rgb::parse` does.
    fn from_str(s: &str) -> (res: Result<Self, String>)
        ensures
            match res {
                Ok(c) => color_of_text(s@) == Some(c),
                Err(m) => color_of_text(s@) is None && m@ == color_error(s@),
            },
    {
        Rgb::parse(s)
    }
}

proof fn lemma_colors_are_ascii(s: Seq<char>)
    ensures
        color_of_text(s) is Some ==> all_ascii(color_digits(s)),
{
    let d = color_digits(s);
    if color_of_text(s) is Some {
        assert forall|i: int| 0 <= i < d.len() implies (#[trigger] d[i]) as u32 <= 127 by {
            assert(i == 0 || i == 1 || i == 2 || i == 3 || i == 4 || i == 5);
        }
    }
}

/// Reading back the text of a color gives the color.
pub proof fn law_color_text_round_trip(c: Rgb)
    ensures
        color_of_text(c.text()) == Some(c),
{
    let s = c.text();
    assert(text::trim_start(s) == s);
    assert(s.last() == s[6]);
    assert(text::trim_end(s) == s);
    let d = s.drop_first();
    assert(d.len() == 6);
    assert(d[0] == s[1] && d[1] == s[2] && d[2] == s[3] && d[3] == s[4] && d[4] == s[5] && d[5]
        == s[6]);
    assert(color_digits(s) == d);
    lemma_hex_digits(c.r);
    lemma_hex_digits(c.g);
    lemma_hex_digits(c.b);
}

proof fn lemma_hex_digits(v: u8)
    ensures
        channel_of_two(text::hex_char(v as int / 16), text::hex_char(v as int % 16)) == Some(v),
{
    let hi = v as int / 16;
    let lo = v as int % 16;
    assert(text::hex_value(text::hex_char(hi)) == Some(hi as u8));
    assert(text::hex_value(text::hex_char(lo)) == Some(lo as u8));
}

/// Color specification for terminal text and backgrounds.
#[derive(Debug, Clone, Copy, PartialEq, Eq, Structural)]
pub enum Color {
    DefaultForeground,
    DefaultBackground,
    Indexed(u8),
    Rgb(u8, u8, u8),
}

impl Default for Color {
    fn default() -> (c: Self)
        ensures
            c == Color::DefaultForeground,
    {
        Color::DefaultForeground
    }
}

impl Color {
    /// Resolves this color to an RGB value using the provided palette and defaults.
    pub fn to_rgb(self, palette: &[Rgb; 256], default_fg: Rgb, default_bg: Rgb) -> (c: Rgb)
        ensures
            c == (match self {
                Color::DefaultForeground => default_fg,
                Color::DefaultBackground => default_bg,
                Color::Indexed(idx) => palette@[idx as int],
                Color::Rgb(r, g, b) => (Rgb { r, g, b }),
            }),
    {
        match self {
            Color::DefaultForeground => default_fg,
            Color::DefaultBackground => default_bg,
            Color::Indexed(idx) => palette[idx as usize],
            Color::Rgb(r, g, b) => Rgb::new(r, g, b),
        }
    }
}

} // verus!
