//! From the bitmaps of the font renderer to four-byte pixels.

use crate::config::{FreeTypeLoadFlags, FreeTypeLoadTarget, FreeTypeRenderTarget};
use vstd::prelude::*;

verus! {

/// Unified FreeType rasterization configuration.
#[derive(Debug, Clone, Copy, PartialEq, Eq, Structural)]
pub struct FreeTypeConfig {
    pub load_target: FreeTypeLoadTarget,
    pub render_target: FreeTypeRenderTarget,
    pub load_flags: FreeTypeLoadFlags,
}

impl Default for FreeTypeConfig {
    fn default() -> (r: Self)
        ensures
            r == (FreeTypeConfig {
                load_target: FreeTypeLoadTarget::Light,
                render_target: FreeTypeRenderTarget::HorizontalLcd,
                load_flags: FreeTypeLoadFlags::Default,
            }),
    {
        FreeTypeConfig {
            load_target: FreeTypeLoadTarget::Light,
            render_target: FreeTypeRenderTarget::HorizontalLcd,
            load_flags: FreeTypeLoadFlags::Default,
        }
    }
}

/// How an outline is turned into a bitmap.
#[derive(Debug, Clone, Copy, PartialEq, Eq, Structural)]
pub enum RenderMode {
    Normal,
    Light,
    Mono,
    Lcd,
}

impl FreeTypeConfig {
    /// The bits that tell the renderer how to load a glyph: two without hinting; with it, the
    /// number of the target in the bits from the sixteenth on.
    pub open spec fn load_bits(self) -> i32 {
        match self.load_flags {
            FreeTypeLoadFlags::NoHinting => 0x2,
            FreeTypeLoadFlags::Default => match self.load_target {
                FreeTypeLoadTarget::Light => 0x1_0000,
                FreeTypeLoadTarget::Normal => 0,
                FreeTypeLoadTarget::Mono => 0x2_0000,
                FreeTypeLoadTarget::HorizontalLcd => 0x3_0000,
            },
        }
    }

    pub fn compute_load_flags(self) -> (r: i32)
        ensures
            r == self.load_bits(),
    {
        match self.load_flags {
            FreeTypeLoadFlags::NoHinting => 0x2,
            FreeTypeLoadFlags::Default => match self.load_target {
                FreeTypeLoadTarget::Light => 0x1_0000,
                FreeTypeLoadTarget::Normal => 0,
                FreeTypeLoadTarget::Mono => 0x2_0000,
                FreeTypeLoadTarget::HorizontalLcd => 0x3_0000,
            },
        }
    }

    /// How an outline is drawn: with subpixels only where they are preferred.
    pub open spec fn mode_for(self, is_subpixel_preferred: bool) -> RenderMode {
        match self.render_target {
            FreeTypeRenderTarget::HorizontalLcd => if is_subpixel_preferred {
                RenderMode::Lcd
            } else {
                RenderMode::Normal
            },
            FreeTypeRenderTarget::Normal => RenderMode::Normal,
            FreeTypeRenderTarget::Light => RenderMode::Light,
            FreeTypeRenderTarget::Mono => RenderMode::Mono,
        }
    }

    pub fn compute_render_mode(self, is_subpixel_preferred: bool) -> (r: RenderMode)
        ensures
            r == self.mode_for(is_subpixel_preferred),
    {
        match self.render_target {
            FreeTypeRenderTarget::HorizontalLcd => if is_subpixel_preferred {
                RenderMode::Lcd
            } else {
                RenderMode::Normal
            },
            FreeTypeRenderTarget::Normal => RenderMode::Normal,
            FreeTypeRenderTarget::Light => RenderMode::Light,
            FreeTypeRenderTarget::Mono => RenderMode::Mono,
        }
    }
}

/// Precomputed sRGB transfer curve converting FreeType linear geometric coverage (0..=255)
/// into sRGB non-linear alpha values.
///
/// Blending linear alpha directly onto an sRGB surface causes anti-aliased edge pixels to lose
/// substantial perceived luminance (~alpha^2.2). This transfer curve ensures proper edge optical
/// density and stroke body.
pub const LINEAR_TO_SRGB: [u8; 256] = [
    0, 13, 22, 28, 34, 38, 42, 46, 50, 53, 56, 59, 61, 64, 66, 69, 71, 73, 75, 77, 79, 81, 83, 85,
    86, 88, 90, 92, 93, 95, 96, 98, 99, 101, 102, 104, 105, 106, 108, 109, 110, 112, 113, 114, 115,
    117, 118, 119, 120, 121, 122, 124, 125, 126, 127, 128, 129, 130, 131, 132, 133, 134, 135, 136,
    137, 138, 139, 140, 141, 142, 143, 144, 145, 146, 147, 148, 148, 149, 150, 151, 152, 153, 154,
    155, 155, 156, 157, 158, 159, 159, 160, 161, 162, 163, 163, 164, 165, 166, 167, 167, 168, 169,
    170, 170, 171, 172, 173, 173, 174, 175, 175, 176, 177, 178, 178, 179, 180, 180, 181, 182, 182,
    183, 184, 185, 185, 186, 187, 187, 188, 189, 189, 190, 190, 191, 192, 192, 193, 194, 194, 195,
    196, 196, 197, 197, 198, 199, 199, 200, 200, 201, 202, 202, 203, 203, 204, 205, 205, 206, 206,
    207, 208, 208, 209, 209, 210, 210, 211, 212, 212, 213, 213, 214, 214, 215, 215, 216, 216, 217,
    218, 218, 219, 219, 220, 220, 221, 221, 222, 222, 223, 223, 224, 224, 225, 226, 226, 227, 227,
    228, 228, 229, 229, 230, 230, 231, 231, 232, 232, 233, 233, 234, 234, 235, 235, 236, 236, 237,
    237, 238, 238, 238, 239, 239, 240, 240, 241, 241, 242, 242, 243, 243, 244, 244, 245, 245, 246,
    246, 246, 247, 247, 248, 248, 249, 249, 250, 250, 251, 251, 251, 252, 252, 253, 253, 254, 254,
    255, 255,
];

/// The transfer curve never falls, and keeps no coverage and full coverage as they are.
#[verifier::rlimit(40)]
pub proof fn law_transfer_curve_rises(i: int)
    requires
        0 <= i < 255,
    ensures
        LINEAR_TO_SRGB@[i] <= LINEAR_TO_SRGB@[i + 1],
        LINEAR_TO_SRGB@[0] == 0,
        LINEAR_TO_SRGB@[255] == 255,
{
}

/// How a bitmap says that it stores its pixels. Three coverages side by side and single bits are
/// told apart; whatever else it says, its bytes are read as one coverage each.
#[derive(Debug, Clone, Copy, PartialEq, Eq, Structural)]
pub enum PixelMode {
    /// The reserved mode.
    Unset,
    Mono,
    Gray,
    Gray2,
    Gray4,
    Lcd,
    LcdV,
    Bgra,
    /// A mode that the renderer's interface does not know.
    Unexpected,
}

/// A bitmap from the font renderer. A negative pitch means that its rows run from bottom to top.
#[derive(Debug)]
pub struct GlyphBitmap {
    pub mode: PixelMode,
    pub width: u32,
    pub rows: u32,
    pub pitch: i32,
    pub left: i32,
    pub top: i32,
    pub buffer: Vec<u8>,
}

/// Output of a lazily rasterized glyph bitmap with normalized top-to-bottom scanlines.
#[derive(Debug)]
pub struct RasterizedGlyph {
    pub width: u32,
    pub height: u32,
    pub offset_x: i32,
    pub offset_y: i32,
    pub pitch: usize,
    pub pixels: Vec<u8>,
}

impl RasterizedGlyph {
    /// A glyph without pixels.
    pub open spec fn is_empty_glyph(&self) -> bool {
        &&& self.width == 0
        &&& self.height == 0
        &&& self.offset_x == 0
        &&& self.offset_y == 0
        &&& self.pitch == 0
        &&& self.pixels@.len() == 0
    }

    pub fn empty() -> (r: Self)
        ensures
            r.is_empty_glyph(),
    {
        RasterizedGlyph {
            width: 0,
            height: 0,
            offset_x: 0,
            offset_y: 0,
            pitch: 0,
            pixels: Vec::new(),
        }
    }
}

/// A pixel: red, green, blue and opacity.
#[derive(Debug, Clone, Copy, PartialEq, Eq, Structural)]
pub struct Pixel {
    pub r: u8,
    pub g: u8,
    pub b: u8,
    pub a: u8,
}

impl Pixel {
    /// One of the four bytes of a pixel.
    pub open spec fn byte(self, k: int) -> u8 {
        if k == 0 {
            self.r
        } else if k == 1 {
            self.g
        } else if k == 2 {
            self.b
        } else {
            self.a
        }
    }
}

/// The greatest of three bytes.
pub open spec fn greatest(a: u8, b: u8, c: u8) -> u8 {
    if a >= b && a >= c {
        a
    } else if b >= c {
        b
    } else {
        c
    }
}

impl GlyphBitmap {
    /// Where a row of the picture, counted from the top, begins in the buffer.
    pub open spec fn row_start(&self, y: int) -> int {
        if self.pitch < 0 {
            (self.rows - 1 - y) * -self.pitch
        } else {
            y * self.pitch
        }
    }

    /// How many pixels a row has.
    pub open spec fn columns(&self) -> int {
        if self.mode == PixelMode::Lcd {
            if self.width < 3 {
                1
            } else {
                self.width as int / 3
            }
        } else {
            self.width as int
        }
    }

    /// A pixel of the picture. Colors follow the transfer curve and opacity is the coverage; what
    /// lies beyond the buffer is transparent.
    pub open spec fn pixel(&self, bgr: bool, y: int, x: int) -> Pixel {
        let clear = Pixel { r: 0, g: 0, b: 0, a: 0 };
        match self.mode {
            PixelMode::Lcd => {
                let i = self.row_start(y) + 3 * x;
                if i + 2 < self.buffer@.len() {
                    let r = self.buffer@[i];
                    let g = self.buffer@[i + 1];
                    let b = self.buffer@[i + 2];
                    let first = LINEAR_TO_SRGB@[r as int];
                    let last = LINEAR_TO_SRGB@[b as int];
                    Pixel {
                        r: if bgr {
                            last
                        } else {
                            first
                        },
                        g: LINEAR_TO_SRGB@[g as int],
                        b: if bgr {
                            first
                        } else {
                            last
                        },
                        a: greatest(r, g, b),
                    }
                } else {
                    clear
                }
            },
            PixelMode::Mono => {
                let i = self.row_start(y) + x / 8;
                if i < self.buffer@.len() && bit_set(self.buffer@[i], x % 8) {
                    Pixel { r: 255, g: 255, b: 255, a: 255 }
                } else {
                    clear
                }
            },
            _ => {
                let i = self.row_start(y) + x;
                if i < self.buffer@.len() {
                    let v = self.buffer@[i];
                    let s = LINEAR_TO_SRGB@[v as int];
                    Pixel { r: s, g: s, b: s, a: v }
                } else {
                    clear
                }
            },
        }
    }
}

/// The value of a bit, counted from the most significant one.
pub open spec fn place_value(k: int) -> int {
    if k == 0 {
        128
    } else if k == 1 {
        64
    } else if k == 2 {
        32
    } else if k == 3 {
        16
    } else if k == 4 {
        8
    } else if k == 5 {
        4
    } else if k == 6 {
        2
    } else {
        1
    }
}

/// Whether a bit of a byte is set, counted from the most significant one.
pub open spec fn bit_set(b: u8, k: int) -> bool {
    (b as int / place_value(k)) % 2 == 1
}

fn is_bit_set(b: u8, k: u32) -> (r: bool)
    requires
        k < 8,
    ensures
        r == bit_set(b, k as int),
{
    let place: u8 = match k {
        0 => 128,
        1 => 64,
        2 => 32,
        3 => 16,
        4 => 8,
        5 => 4,
        6 => 2,
        _ => 1,
    };
    (b / place) % 2 == 1
}

/// Where a row of a picture begins fits into a machine word.
proof fn lemma_row_start(bitmap: &GlyphBitmap, y: int)
    requires
        0 <= y < bitmap.rows,
    ensures
        0 <= bitmap.row_start(y) <= 0xffff_ffff * 0x8000_0000,
{
    let k = if bitmap.pitch < 0 {
        bitmap.rows - 1 - y
    } else {
        y
    };
    let p = if bitmap.pitch < 0 {
        -bitmap.pitch
    } else {
        bitmap.pitch as int
    };
    assert(0 <= k * p <= 0xffff_ffff * 0x8000_0000) by (nonlinear_arith)
        requires
            0 <= k <= 0xffff_ffff,
            0 <= p <= 0x8000_0000,
    ;
}

fn start_of_row(bitmap: &GlyphBitmap, y: u32) -> (r: u64)
    requires
        y < bitmap.rows,
    ensures
        r == bitmap.row_start(y as int),
{
    proof {
        lemma_row_start(bitmap, y as int);
    }
    if bitmap.pitch < 0 {
        (bitmap.rows - 1 - y) as u64 * (-(bitmap.pitch as i64)) as u64
    } else {
        y as u64 * bitmap.pitch as u64
    }
}

/// Computes one pixel of the picture.
fn pixel_at(bitmap: &GlyphBitmap, bgr: bool, y: u32, x: u32) -> (r: Pixel)
    requires
        y < bitmap.rows,
    ensures
        r == bitmap.pixel(bgr, y as int, x as int),
{
    proof {
        lemma_row_start(bitmap, y as int);
    }
    let start: u64 = start_of_row(bitmap, y);
    let len: u64 = bitmap.buffer.len() as u64;
    let clear: Pixel = Pixel { r: 0, g: 0, b: 0, a: 0 };
    match bitmap.mode {
        PixelMode::Lcd => {
            let i: u64 = start + 3 * x as u64;
            if i + 2 < len {
                let at: usize = i as usize;
                let r: u8 = bitmap.buffer[at];
                let g: u8 = bitmap.buffer[at + 1];
                let b: u8 = bitmap.buffer[at + 2];
                let a: u8 = if r >= g && r >= b {
                    r
                } else if g >= b {
                    g
                } else {
                    b
                };
                let first: u8 = LINEAR_TO_SRGB[r as usize];
                let last: u8 = LINEAR_TO_SRGB[b as usize];
                let middle: u8 = LINEAR_TO_SRGB[g as usize];
                if bgr {
                    Pixel { r: last, g: middle, b: first, a }
                } else {
                    Pixel { r: first, g: middle, b: last, a }
                }
            } else {
                clear
            }
        },
        PixelMode::Mono => {
            let i: u64 = start + (x / 8) as u64;
            if i < len && is_bit_set(bitmap.buffer[i as usize], x % 8) {
                Pixel { r: 255, g: 255, b: 255, a: 255 }
            } else {
                clear
            }
        },
        _ => {
            let i: u64 = start + x as u64;
            if i < len {
                let v: u8 = bitmap.buffer[i as usize];
                let s: u8 = LINEAR_TO_SRGB[v as usize];
                Pixel { r: s, g: s, b: s, a: v }
            } else {
                clear
            }
        },
    }
}

/// The bytes of the pixels of a picture, row by row.
pub open spec fn picture(bitmap: &GlyphBitmap, bgr: bool, cells: int) -> Seq<u8>
    decreases cells,
{
    if cells <= 0 {
        Seq::empty()
    } else {
        let k = cells - 1;
        let p = bitmap.pixel(bgr, k / bitmap.columns(), k % bitmap.columns());
        picture(bitmap, bgr, k) + seq![p.r, p.g, p.b, p.a]
    }
}

/// Turns a bitmap into four-byte pixels, from top to bottom.
///
/// The three coverages of a subpixel bitmap become the colors of one pixel, in the given order;
/// its opacity is their greatest. Modes other than that one and single bits count as gray.
pub fn convert_bitmap(bitmap: &GlyphBitmap, bgr: bool) -> (r: RasterizedGlyph)
    requires
        bitmap.width > 0 ==> bitmap.columns() * bitmap.rows * 4 <= u32::MAX,
        bitmap.top - bitmap.rows >= i32::MIN,
    ensures
        bitmap.width == 0 || bitmap.rows == 0 ==> r.is_empty_glyph(),
        bitmap.width > 0 && bitmap.rows > 0 ==> {
            &&& r.width == bitmap.columns()
            &&& r.height == bitmap.rows
            &&& r.offset_x == bitmap.left
            &&& r.offset_y == bitmap.top - bitmap.rows
            &&& r.pitch == 4 * bitmap.columns()
            &&& r.pixels@ == picture(bitmap, bgr, bitmap.columns() * bitmap.rows)
        },
{
    if bitmap.width == 0 || bitmap.rows == 0 {
        return RasterizedGlyph::empty();
    }
    let columns: u32 = if bitmap.mode == PixelMode::Lcd {
        if bitmap.width < 3 {
            1
        } else {
            bitmap.width / 3
        }
    } else {
        bitmap.width
    };
    assert(4 * bitmap.rows <= u32::MAX) by (nonlinear_arith)
        requires
            columns * bitmap.rows * 4 <= u32::MAX,
            columns >= 1,
    ;
    assert(4 * columns <= u32::MAX) by (nonlinear_arith)
        requires
            columns * bitmap.rows * 4 <= u32::MAX,
            bitmap.rows >= 1,
    ;
    let mut pixels: Vec<u8> = Vec::new();
    let mut y: u32 = 0;
    while y < bitmap.rows
        invariant
            y <= bitmap.rows,
            columns == bitmap.columns(),
            columns >= 1,
            pixels@ == picture(bitmap, bgr, columns * y),
        decreases bitmap.rows - y,
    {
        let mut x: u32 = 0;
        while x < columns
            invariant
                y < bitmap.rows,
                x <= columns,
                columns == bitmap.columns(),
                columns >= 1,
                pixels@ == picture(bitmap, bgr, columns * y + x),
            decreases columns - x,
        {
            let p: Pixel = pixel_at(bitmap, bgr, y, x);
            let ghost before = pixels@;
            pixels.push(p.r);
            pixels.push(p.g);
            pixels.push(p.b);
            pixels.push(p.a);
            proof {
                let k = columns * y + x;
                assert(k >= 0) by (nonlinear_arith)
                    requires
                        k == columns * y + x,
                        columns >= 0,
                        y >= 0,
                        x >= 0,
                ;
                lemma_cell(columns as int, y as int, x as int);
                assert(pixels@ =~= before + seq![p.r, p.g, p.b, p.a]);
            }
            x += 1;
        }
        assert(columns * y + columns == columns * (y + 1)) by (nonlinear_arith);
        y += 1;
    }
    RasterizedGlyph {
        width: columns,
        height: bitmap.rows,
        offset_x: bitmap.left,
        offset_y: (bitmap.top as i64 - bitmap.rows as i64) as i32,
        pitch: 4 * columns as usize,
        pixels,
    }
}

/// Row and column of a cell that is counted row by row.
proof fn lemma_cell(columns: int, y: int, x: int)
    requires
        0 <= x < columns,
        0 <= y,
    ensures
        (columns * y + x) / columns == y,
        (columns * y + x) % columns == x,
{
    assert(columns * y == y * columns) by (nonlinear_arith);
    vstd::arithmetic::div_mod::lemma_fundamental_div_mod_converse(columns * y + x, columns, y, x);
}

/// A picture has four bytes per pixel, and each of them is a byte of its pixel.
pub proof fn law_pictures_hold_their_pixels(
    bitmap: &GlyphBitmap,
    bgr: bool,
    cells: int,
    y: int,
    x: int,
    k: int,
)
    requires
        bitmap.width > 0,
        0 <= y,
        0 <= x < bitmap.columns(),
        0 <= k < 4,
        bitmap.columns() * y + x < cells,
    ensures
        picture(bitmap, bgr, cells).len() == 4 * cells,
        picture(bitmap, bgr, cells)[4 * (bitmap.columns() * y + x) + k] == bitmap.pixel(
            bgr,
            y,
            x,
        ).byte(k),
    decreases cells,
{
    let at = bitmap.columns() * y + x;
    assert(at >= 0) by (nonlinear_arith)
        requires
            at == bitmap.columns() * y + x,
            bitmap.columns() >= 0,
            y >= 0,
            x >= 0,
    ;
    lemma_picture_len(bitmap, bgr, cells);
    lemma_picture_len(bitmap, bgr, cells - 1);
    lemma_cell(bitmap.columns(), y, x);
    if at < cells - 1 {
        law_pictures_hold_their_pixels(bitmap, bgr, cells - 1, y, x, k);
    }
}

/// A picture has four bytes per pixel.
proof fn lemma_picture_len(bitmap: &GlyphBitmap, bgr: bool, cells: int)
    requires
        cells >= 0,
    ensures
        picture(bitmap, bgr, cells).len() == 4 * cells,
    decreases cells,
{
    if cells > 0 {
        lemma_picture_len(bitmap, bgr, cells - 1);
    }
}

} // verus!
