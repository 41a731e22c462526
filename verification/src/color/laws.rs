//! What holds of the standard colors and of colors that are written as text.

use crate::color::palette::xterm_color;
use crate::color::{color_of_text, Rgb};
use crate::text;
use crate::text::laws::law_trimming_keeps_plain_text;
use vstd::prelude::*;

verus! {

/// The sixteen colors that programs name: black, red, green, yellow, blue, magenta, cyan and white,
/// and the same again brighter.
pub proof fn law_named_colors()
    ensures
        xterm_color(0) == (Rgb { r: 0, g: 0, b: 0 }),
        xterm_color(1) == (Rgb { r: 205, g: 0, b: 0 }),
        xterm_color(2) == (Rgb { r: 0, g: 205, b: 0 }),
        xterm_color(3) == (Rgb { r: 205, g: 205, b: 0 }),
        xterm_color(4) == (Rgb { r: 0, g: 0, b: 238 }),
        xterm_color(5) == (Rgb { r: 205, g: 0, b: 205 }),
        xterm_color(6) == (Rgb { r: 0, g: 205, b: 205 }),
        xterm_color(7) == (Rgb { r: 229, g: 229, b: 229 }),
        xterm_color(8) == (Rgb { r: 127, g: 127, b: 127 }),
        xterm_color(9) == (Rgb { r: 255, g: 0, b: 0 }),
        xterm_color(10) == (Rgb { r: 0, g: 255, b: 0 }),
        xterm_color(11) == (Rgb { r: 255, g: 255, b: 0 }),
        xterm_color(12) == (Rgb { r: 92, g: 92, b: 255 }),
        xterm_color(13) == (Rgb { r: 255, g: 0, b: 255 }),
        xterm_color(14) == (Rgb { r: 0, g: 255, b: 255 }),
        xterm_color(15) == (Rgb { r: 255, g: 255, b: 255 }),
{
}

/// The six levels that a channel has in the color cube.
pub open spec fn levels() -> Seq<u8> {
    seq![0, 95, 135, 175, 215, 255]
}

/// Behind the named colors lies a cube of six levels a channel: blue changes fastest, and red
/// slowest.
pub proof fn law_the_color_cube(r: int, g: int, b: int)
    requires
        0 <= r < 6,
        0 <= g < 6,
        0 <= b < 6,
    ensures
        xterm_color(16 + 36 * r + 6 * g + b) == (Rgb {
            r: levels()[r],
            g: levels()[g],
            b: levels()[b],
        }),
{
    let k = 36 * r + 6 * g + b;
    assert(k / 36 == r && (k / 6) % 6 == g && k % 6 == b);
}

/// The last twenty-four colors are grays, ten apart, from almost black to almost white.
pub proof fn law_the_gray_ramp(k: int)
    requires
        0 <= k < 24,
    ensures
        xterm_color(232 + k) == (Rgb {
            r: (8 + 10 * k) as u8,
            g: (8 + 10 * k) as u8,
            b: (8 + 10 * k) as u8,
        }),
{
}

/// The text of a color is a hash sign and two hexadecimal digits a channel, red first.
pub proof fn law_color_text(c: Rgb)
    ensures
        c.text().len() == 7,
        c.text()[0] == '#',
        text::hex_value(c.text()[1]) == Some((c.r / 16) as u8),
        text::hex_value(c.text()[2]) == Some((c.r % 16) as u8),
        text::hex_value(c.text()[3]) == Some((c.g / 16) as u8),
        text::hex_value(c.text()[4]) == Some((c.g % 16) as u8),
        text::hex_value(c.text()[5]) == Some((c.b / 16) as u8),
        text::hex_value(c.text()[6]) == Some((c.b % 16) as u8),
{
}

/// Six hexadecimal digits are a color, two a channel and red first, and so are three digits, each
/// standing for two of its kind; a hash sign, or a zero and an `x`, may come first.
pub proof fn law_colors_are_read(d: Seq<char>, n: int)
    requires
        d.len() == 6 || d.len() == 3,
        forall|i: int| 0 <= i < d.len() ==> text::hex_value(#[trigger] d[i]) is Some,
        n == 0 || n == 1 || n == 2,
    ensures
        ({
            let s = if n == 0 {
                d
            } else if n == 1 {
                seq!['#'] + d
            } else {
                seq!['0', 'x'] + d
            };
            let v = |i: int| text::hex_value(d[i])->0 as int;
            color_of_text(s) == Some(
                if d.len() == 6 {
                    Rgb {
                        r: (16 * v(0) + v(1)) as u8,
                        g: (16 * v(2) + v(3)) as u8,
                        b: (16 * v(4) + v(5)) as u8,
                    }
                } else {
                    Rgb {
                        r: (16 * v(0) + v(0)) as u8,
                        g: (16 * v(1) + v(1)) as u8,
                        b: (16 * v(2) + v(2)) as u8,
                    }
                },
            )
        }),
{
    let s = if n == 0 {
        d
    } else if n == 1 {
        seq!['#'] + d
    } else {
        seq!['0', 'x'] + d
    };
    let last = d[d.len() - 1];
    assert(text::hex_value(last) is Some);
    assert(text::hex_value(d[0]) is Some);
    assert(text::hex_value(d[1]) is Some);
    assert(text::hex_value(d[2]) is Some);
    assert(s.last() == last);
    law_trimming_keeps_plain_text(s);
    assert((seq!['#'] + d).drop_first() =~= d);
    assert((seq!['0', 'x'] + d).skip(2) =~= d);
    if d.len() == 6 {
        assert(text::hex_value(d[3]) is Some && text::hex_value(d[4]) is Some);
    }
}

/// Text with any other number of digits, or with anything that is no digit, is no color.
pub proof fn law_other_text_is_no_color(d: Seq<char>, i: int)
    requires
        d.len() > 0 ==> !text::white_space(d[0]) && !text::white_space(d.last()) && d[0] != '#',
        d.len() > 1 ==> d[1] != 'x',
        (d.len() != 3 && d.len() != 6) || (0 <= i < d.len() && text::hex_value(d[i]) is None),
    ensures
        color_of_text(d) is None,
{
    law_trimming_keeps_plain_text(d);
}

} // verus!
