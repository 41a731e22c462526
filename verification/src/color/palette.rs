//! Standard xterm-compatible 256-color palette definition.

use crate::color::Rgb;
use vstd::prelude::*;

verus! {

/// The sixteen standard colors.
pub open spec fn ansi_color(i: int) -> (u8, u8, u8) {
    if i == 0 {
        (0, 0, 0)
    } else if i == 1 {
        (205, 0, 0)
    } else if i == 2 {
        (0, 205, 0)
    } else if i == 3 {
        (205, 205, 0)
    } else if i == 4 {
        (0, 0, 238)
    } else if i == 5 {
        (205, 0, 205)
    } else if i == 6 {
        (0, 205, 205)
    } else if i == 7 {
        (229, 229, 229)
    } else if i == 8 {
        (127, 127, 127)
    } else if i == 9 {
        (255, 0, 0)
    } else if i == 10 {
        (0, 255, 0)
    } else if i == 11 {
        (255, 255, 0)
    } else if i == 12 {
        (92, 92, 255)
    } else if i == 13 {
        (255, 0, 255)
    } else if i == 14 {
        (0, 255, 255)
    } else {
        (255, 255, 255)
    }
}

/// One of the six intensities of the color cube.
pub open spec fn cube_level(k: int) -> u8 {
    if k == 0 {
        0
    } else {
        (55 + 40 * k) as u8
    }
}

/// The color at an index of the palette: sixteen standard colors, a cube of side six, and
/// twenty-four grays.
pub open spec fn xterm_color(i: int) -> Rgb {
    if i < 16 {
        let (r, g, b) = ansi_color(i);
        Rgb { r, g, b }
    } else if i < 232 {
        let k = i - 16;
        Rgb { r: cube_level(k / 36), g: cube_level((k / 6) % 6), b: cube_level(k % 6) }
    } else {
        let v = (8 + 10 * (i - 232)) as u8;
        Rgb { r: v, g: v, b: v }
    }
}

fn cube_step(k: usize) -> (v: u8)
    requires
        k < 6,
    ensures
        v == cube_level(k as int),
{
    if k == 0 {
        0
    } else {
        55 + 40 * (k as u8)
    }
}

/// Constructs the standard xterm-compatible 256-color palette.
pub fn default_256_palette() -> (palette: [Rgb; 256])
    ensures
        forall|i: int| 0 <= i < 256 ==> #[trigger] palette@[i] == xterm_color(i),
{
    let mut palette: [Rgb; 256] = [Rgb::new(0, 0, 0); 256];
    palette[1] = Rgb::new(205, 0, 0);
    palette[2] = Rgb::new(0, 205, 0);
    palette[3] = Rgb::new(205, 205, 0);
    palette[4] = Rgb::new(0, 0, 238);
    palette[5] = Rgb::new(205, 0, 205);
    palette[6] = Rgb::new(0, 205, 205);
    palette[7] = Rgb::new(229, 229, 229);
    palette[8] = Rgb::new(127, 127, 127);
    palette[9] = Rgb::new(255, 0, 0);
    palette[10] = Rgb::new(0, 255, 0);
    palette[11] = Rgb::new(255, 255, 0);
    palette[12] = Rgb::new(92, 92, 255);
    palette[13] = Rgb::new(255, 0, 255);
    palette[14] = Rgb::new(0, 255, 255);
    palette[15] = Rgb::new(255, 255, 255);
    assert forall|i: int| 0 <= i < 16 implies #[trigger] palette@[i] == xterm_color(i) by {}
    let mut idx: usize = 16;
    while idx < 232
        invariant
            16 <= idx <= 232,
            forall|i: int| 0 <= i < idx ==> #[trigger] palette@[i] == xterm_color(i),
        decreases 232 - idx,
    {
        let k: usize = idx - 16;
        palette[idx] = Rgb::new(cube_step(k / 36), cube_step((k / 6) % 6), cube_step(k % 6));
        idx += 1;
    }
    while idx < 256
        invariant
            232 <= idx <= 256,
            forall|i: int| 0 <= i < idx ==> #[trigger] palette@[i] == xterm_color(i),
        decreases 256 - idx,
    {
        let v: u8 = 8 + 10 * ((idx - 232) as u8);
        palette[idx] = Rgb::new(v, v, v);
        idx += 1;
    }
    palette
}

} // verus!
