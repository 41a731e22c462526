//! Font faces: opening them, finding and drawing their glyphs, and measuring a cell.
//!
//! What a face draws depends on the FreeType that the system has, so the functions that ask it
//! say what they make of whatever it answers.

use crate::config::FreeTypeLoadFlags;
use crate::error::{ErrorKind, IoError, IoModel};
use crate::font::engine::{
    buffer_is_counted, char_index, drawn_buffer, drawn_mode, drawn_shape, init_library,
    is_buffer_counted, line_of, load_glyph, loaded_advance, memory_face, reason_of, render_glyph,
    set_char_size, set_lcd_filter, told_advance, told_buffer, told_char, told_face, told_filter,
    told_library, told_line, told_load, told_mode, told_render, told_shape, told_size, BitmapShape,
    DrawnFace, FilteredLibrary, GlyphRequest, LcdFilter, LineUnits, LoadedFace, OpenFace,
    ShapedFace, SizedFace,
};
use crate::font::face::{
    convert_bitmap, picture, FreeTypeConfig, GlyphBitmap, PixelMode, RasterizedGlyph, RenderMode,
};
use crate::font::{chain_key, configured_key, CellMetrics, FaceKey};
use crate::text::joined;
use vstd::prelude::*;

verus! {

/// A drawn glyph as the font renderer has it.
pub struct DrawnBitmap {
    pub pixels: PixelMode,
    pub shape: BitmapShape,
    pub buffer: Vec<u8>,
}

/// How many pixels a row of a bitmap has, by the number of its samples.
pub open spec fn columns_in(mode: PixelMode, width: int) -> int {
    if mode == PixelMode::Lcd {
        if width < 3 {
            1
        } else {
            width / 3
        }
    } else {
        width
    }
}

/// Whether a picture of a bitmap can be held: the bitmap has pixels, and four bytes for each of
/// them, and its place, can be counted.
pub open spec fn picture_is_held(mode: PixelMode, width: i32, rows: i32, top: i32) -> bool {
    &&& width > 0 && rows > 0
    &&& columns_in(mode, width as int) * rows * 4 <= u32::MAX
    &&& top - rows >= i32::MIN
}

/// Tells whether a picture of a bitmap can be held.
pub fn is_picture_held(mode: PixelMode, width: i32, rows: i32, top: i32) -> (r: bool)
    ensures
        r == picture_is_held(mode, width, rows, top),
{
    if width <= 0 || rows <= 0 {
        return false;
    }
    let columns: i64 = if mode == PixelMode::Lcd {
        if width < 3 {
            1
        } else {
            width as i64 / 3
        }
    } else {
        width as i64
    };
    assert(0 <= columns * rows <= 0x7fff_ffff * 0x7fff_ffff) by (nonlinear_arith)
        requires
            0 <= columns <= 0x7fff_ffff,
            0 <= rows <= 0x7fff_ffff,
    ;
    columns as i128 * rows as i128 * 4 <= 0xffff_ffff && top as i64 - rows as i64 >= -0x8000_0000
}

/// Whether a picture is that of a bitmap, in four-byte pixels from top to bottom.
pub open spec fn is_picture_of(r: RasterizedGlyph, bitmap: GlyphBitmap, bgr: bool) -> bool {
    &&& r.width == bitmap.columns()
    &&& r.height == bitmap.rows
    &&& r.offset_x == bitmap.left
    &&& r.offset_y == bitmap.top - bitmap.rows
    &&& r.pitch == 4 * bitmap.columns()
    &&& r.pixels@ == picture(&bitmap, bgr, bitmap.columns() * bitmap.rows)
}

/// The bitmap of a drawn glyph that can be held.
pub open spec fn bitmap_in(drawn: DrawnBitmap) -> GlyphBitmap {
    GlyphBitmap {
        mode: drawn.pixels,
        width: drawn.shape.width as u32,
        rows: drawn.shape.rows as u32,
        pitch: drawn.shape.pitch,
        left: drawn.shape.left,
        top: drawn.shape.top,
        buffer: drawn.buffer,
    }
}

/// Whether a drawn glyph has a picture: it can be held, and its bytes can be counted.
pub open spec fn has_picture(pixels: PixelMode, shape: BitmapShape) -> bool {
    &&& picture_is_held(pixels, shape.width, shape.rows, shape.top)
    &&& buffer_is_counted(shape.rows, shape.pitch)
}

/// Whether a picture shows what the font renderer drew: nothing where it drew nothing, or more than
/// can be held.
pub open spec fn shows(r: RasterizedGlyph, drawn: Option<DrawnBitmap>, bgr: bool) -> bool {
    match drawn {
        Some(d) if has_picture(d.pixels, d.shape) => is_picture_of(r, bitmap_in(d), bgr),
        _ => r.is_empty_glyph(),
    }
}

/// The size that a face is asked to have: at least a pixel.
pub open spec fn active_size(size: u32) -> u32 {
    if size < 64 {
        64
    } else {
        size
    }
}

/// What a face answered on the way to a picture: whether it has the size, loaded the glyph and drew
/// it, how it stores what it drew and in which shape, and the bytes.
pub struct Drawing {
    pub sized: bool,
    pub loaded: bool,
    pub drawn: bool,
    pub shape: Option<(PixelMode, BitmapShape)>,
    pub bitmap: Option<DrawnBitmap>,
}

/// Whether the face of these bytes was asked for a glyph, and answered so: it was asked to draw what
/// it loaded, for the shape of what it drew, and for the bytes of a glyph that has a picture, and for
/// nothing else.
pub open spec fn asked_for_glyph(
    bytes: Seq<u8>,
    index: u32,
    request: GlyphRequest,
    mode: RenderMode,
    answers: Drawing,
) -> bool {
    &&& told_size(bytes, index, request.size, answers.sized)
    &&& told_load(bytes, index, request, answers.loaded)
    &&& if answers.loaded {
        told_render(bytes, index, request, mode, answers.drawn)
    } else {
        !answers.drawn
    }
    &&& match answers.shape {
        Some((pixels, shape)) => {
            &&& answers.drawn
            &&& told_mode(bytes, index, request, mode, pixels)
            &&& told_shape(bytes, index, request, mode, shape)
        },
        None => !answers.drawn,
    }
    &&& match answers.bitmap {
        Some(b) => {
            &&& answers.shape == Some((b.pixels, b.shape)) && has_picture(b.pixels, b.shape)
            &&& told_buffer(bytes, index, request, mode, b.buffer@)
        },
        None => answers.shape matches Some((pixels, shape)) ==> !has_picture(pixels, shape),
    }
}

/// The request for a glyph at a size, in the configured way.
pub open spec fn glyph_request(glyph: u32, size: u32, flags: i32) -> GlyphRequest {
    GlyphRequest { size: active_size(size), glyph, flags }
}

/// Whether the face of these bytes was asked for the advance of a glyph, and answered so: none where
/// it could not load the glyph.
pub open spec fn asked_for_advance(
    bytes: Seq<u8>,
    index: u32,
    request: GlyphRequest,
    sized: bool,
    advance: Option<i64>,
) -> bool {
    &&& told_size(bytes, index, request.size, sized)
    &&& told_load(bytes, index, request, advance is Some)
    &&& advance matches Some(a) ==> told_advance(bytes, index, request, a)
}

/// Whether the face of these bytes was asked for its line at a size, and answered so.
pub open spec fn asked_for_line(
    bytes: Seq<u8>,
    index: u32,
    size: u32,
    sized: bool,
    line: Option<LineUnits>,
) -> bool {
    told_size(bytes, index, size, sized) && told_line(bytes, index, size, line)
}

/// What a face answered on the way to the size of a cell: the glyph of the digit zero, whether it has
/// the size, the advance and the line.
#[derive(Debug, Clone, Copy, PartialEq, Eq)]
pub struct Measurement {
    pub zero: Option<u32>,
    pub sized: (bool, bool),
    pub advance: Option<i64>,
    pub line: Option<LineUnits>,
}

/// Whether the face of these bytes was asked for the advance of the digit zero without hinting, and
/// for its line, at a size, and answered so.
pub open spec fn asked_for_cell(bytes: Seq<u8>, index: u32, size: u32, answers: Measurement) -> bool {
    let glyph = match answers.zero {
        Some(g) => g,
        None => 0,
    };
    let request = glyph_request(glyph, size, 0x2);
    let (first, second) = answers.sized;
    &&& told_char(bytes, index, '0', answers.zero)
    &&& asked_for_advance(bytes, index, request, first, answers.advance)
    &&& asked_for_line(bytes, index, active_size(size), second, answers.line)
}

/// Turns what the font renderer drew into a picture: an empty one where it drew nothing, or more
/// than can be held.
pub fn glyph_picture(drawn: Option<DrawnBitmap>, bgr: bool) -> (r: RasterizedGlyph)
    ensures
        shows(r, drawn, bgr),
{
    let d: DrawnBitmap = match drawn {
        Some(d) => d,
        None => {
            return RasterizedGlyph::empty();
        },
    };
    if !is_shape_shown(d.pixels, d.shape) {
        return RasterizedGlyph::empty();
    }
    let bitmap: GlyphBitmap = GlyphBitmap {
        mode: d.pixels,
        width: d.shape.width as u32,
        rows: d.shape.rows as u32,
        pitch: d.shape.pitch,
        left: d.shape.left,
        top: d.shape.top,
        buffer: d.buffer,
    };
    convert_bitmap(&bitmap, bgr)
}

/// Tells whether a drawn glyph has a picture.
fn is_shape_shown(pixels: PixelMode, shape: BitmapShape) -> (r: bool)
    ensures
        r == has_picture(pixels, shape),
{
    is_picture_held(pixels, shape.width, shape.rows, shape.top) && is_buffer_counted(
        shape.rows,
        shape.pitch,
    )
}

/// The whole pixels that hold a length in sixty-fourths of a pixel.
pub open spec fn pixels_for(n: int) -> int {
    (n + 63) / 64
}

/// A number brought into the range of cell sizes.
pub open spec fn cell_size(n: int) -> u32 {
    if n < 1 {
        1
    } else if n > u32::MAX {
        u32::MAX
    } else {
        n as u32
    }
}

/// A number brought into the range of ascents.
pub open spec fn ascent_size(n: int) -> i32 {
    if n < i32::MIN {
        i32::MIN
    } else if n > i32::MAX {
        i32::MAX
    } else {
        n as i32
    }
}

/// The size of a cell by the advance of a digit and by the line of a face.
pub open spec fn measured(advance: Option<i64>, line: Option<LineUnits>, fallback: CellMetrics)
    -> CellMetrics {
    CellMetrics {
        cell_width: match advance {
            Some(a) if a > 0 => cell_size(pixels_for(a as int)),
            _ => fallback.cell_width,
        },
        cell_height: match line {
            Some(l) => if l.height > 0 {
                cell_size(pixels_for(l.height as int))
            } else {
                cell_size(pixels_for(l.ascender - l.descender))
            },
            None => fallback.cell_height,
        },
        ascent: match line {
            Some(l) => ascent_size(pixels_for(l.ascender as int)),
            None => fallback.ascent,
        },
    }
}

fn whole_pixels(n: i128) -> (r: i128)
    requires
        -0x1_0000_0000_0000_0000 <= n <= 0x1_0000_0000_0000_0000,
    ensures
        r == pixels_for(n as int),
{
    let shifted: i128 = n + 63;
    if shifted >= 0 {
        shifted / 64
    } else {
        let below: i128 = (-shifted + 63) / 64;
        assert(-below == (n + 63) / 64) by {
            assert(below == (-shifted + 63) / 64);
        }
        -below
    }
}

fn clamp_cell(n: i128) -> (r: u32)
    ensures
        r == cell_size(n as int),
{
    if n < 1 {
        1
    } else if n > 0xffff_ffff {
        0xffff_ffff
    } else {
        n as u32
    }
}

/// Measures a cell: as wide as the advance of a digit, as high as a line, in whole pixels. What the
/// face does not say comes from the fallback.
pub fn cell_metrics(advance: Option<i64>, line: Option<LineUnits>, fallback: CellMetrics) -> (r:
    CellMetrics)
    ensures
        r == measured(advance, line, fallback),
{
    let cell_width: u32 = match advance {
        Some(a) => if a > 0 {
            clamp_cell(whole_pixels(a as i128))
        } else {
            fallback.cell_width
        },
        None => fallback.cell_width,
    };
    match line {
        Some(l) => {
            let height: i128 = if l.height > 0 {
                l.height as i128
            } else {
                l.ascender as i128 - l.descender as i128
            };
            let cell_height: u32 = clamp_cell(whole_pixels(height));
            let up: i128 = whole_pixels(l.ascender as i128);
            let ascent: i32 = if up < -0x8000_0000 {
                -0x8000_0000
            } else if up > 0x7fff_ffff {
                0x7fff_ffff
            } else {
                up as i32
            };
            CellMetrics { cell_width, cell_height, ascent }
        },
        None => CellMetrics {
            cell_width,
            cell_height: fallback.cell_height,
            ascent: fallback.ascent,
        },
    }
}

/// The number of a glyph that was found, or zero.
pub open spec fn found_glyph(found: Option<u32>) -> u16 {
    match found {
        Some(g) => (g % 0x1_0000) as u16,
        None => 0,
    }
}

/// The number of a glyph that was found, or zero.
pub fn glyph_id(found: Option<u32>) -> (r: u16)
    ensures
        r == found_glyph(found),
{
    match found {
        Some(g) => (g % 0x1_0000) as u16,
        None => 0,
    }
}

/// The error for a failed call: what was tried and the reason that was given.
pub open spec fn failed_call(kind: ErrorKind, tried: Seq<char>, reason: Seq<char>) -> IoModel {
    IoModel::Message(kind, tried + reason)
}

/// The library that opens faces.
pub struct FontLibrary {
    library: FilteredLibrary,
}

/// Whether FreeType was asked for a library and told this, and the library, where one was opened,
/// was asked for the default filter.
pub open spec fn asked_for_library(reply: Result<FilteredLibrary, String>) -> bool {
    &&& told_library(reason_of(reply))
    &&& reply matches Ok(opened) ==> opened.filter() == LcdFilter::Default && told_filter(
        opened.filter(),
        opened.accepted(),
    )
}

impl FontLibrary {
    /// The handle that faces are opened with.
    pub closed spec fn handle(&self) -> FilteredLibrary {
        self.library
    }

    /// Whether an outcome is what an answer to opening the library comes to: the library itself,
    /// or an error that gives the reason.
    pub open spec fn comes_of(
        r: Result<Self, IoError>,
        reply: Result<FilteredLibrary, String>,
    ) -> bool {
        match reply {
            Ok(opened) => r matches Ok(l) && l.handle() == opened,
            Err(text) => r matches Err(e) && e@ == failed_call(
                ErrorKind::Other,
                "initialize FreeType library: "@,
                text@,
            ),
        }
    }

    /// Takes the library that was opened, or says why there is none.
    pub fn opened(reply: Result<FilteredLibrary, String>) -> (r: Result<Self, IoError>)
        ensures
            Self::comes_of(r, reply),
    {
        match reply {
            Ok(library) => Ok(FontLibrary { library }),
            Err(text) => Err(
                IoError::new(
                    ErrorKind::Other,
                    joined("initialize FreeType library: ", text.as_str()),
                ),
            ),
        }
    }

    /// Opens the library, with the default filter for subpixel bitmaps.
    pub fn new() -> (r: Result<Self, IoError>)
        ensures
            exists|reply: Result<FilteredLibrary, String>|
                #[trigger] asked_for_library(reply) && Self::comes_of(r, reply),
    {
        let reply: Result<FilteredLibrary, String> = match init_library() {
            Ok(library) => Ok(set_lcd_filter(library, LcdFilter::Default)),
            Err(text) => Err(text),
        };
        assert(asked_for_library(reply));
        Self::opened(reply)
    }
}

/// An open face with lazy outline rasterization.
pub struct Font {
    face: OpenFace,
}

/// Whether FreeType was asked for a face of a font file's bytes and told this; a face that it opened
/// is that face.
pub open spec fn asked_for_face(reply: Result<OpenFace, String>, bytes: Seq<u8>, index: u32) -> bool {
    &&& told_face(bytes, index, reason_of(reply))
    &&& reply matches Ok(face) ==> face.source() == bytes && face.number() == index
}

impl Font {
    /// The open face.
    pub closed spec fn handle(&self) -> OpenFace {
        self.face
    }

    /// The bytes of the font file.
    pub open spec fn source(&self) -> Seq<u8> {
        self.handle().source()
    }

    /// The number of the face in the font file.
    pub open spec fn number(&self) -> u32 {
        self.handle().number()
    }

    /// Whether this is a face of the same bytes as another.
    pub open spec fn same_face(&self, other: &Self) -> bool {
        self.source() == other.source() && self.number() == other.number()
    }

    /// Whether an outcome is what an answer to opening a face comes to: the face itself, or an
    /// error that gives the reason.
    pub open spec fn comes_of(r: Result<Self, IoError>, reply: Result<OpenFace, String>) -> bool {
        match reply {
            Ok(face) => r matches Ok(f) && f.handle() == face,
            Err(text) => r matches Err(e) && e@ == failed_call(
                ErrorKind::InvalidData,
                "FreeType new_memory_face failed: "@,
                text@,
            ),
        }
    }

    /// Takes the face that was opened, or says why there is none.
    pub fn opened(reply: Result<OpenFace, String>) -> (r: Result<Self, IoError>)
        ensures
            Self::comes_of(r, reply),
    {
        match reply {
            Ok(face) => Ok(Font { face }),
            Err(text) => Err(
                IoError::new(
                    ErrorKind::InvalidData,
                    joined("FreeType new_memory_face failed: ", text.as_str()),
                ),
            ),
        }
    }

    /// Opens a face of in-memory font bytes without parsing glyph outlines.
    pub fn from_bytes(library: &FontLibrary, bytes: Vec<u8>, collection_index: u32) -> (r: Result<
        Self,
        IoError,
    >)
        ensures
            exists|reply: Result<OpenFace, String>|
                #[trigger] asked_for_face(reply, bytes@, collection_index) && Self::comes_of(
                    r,
                    reply,
                ),
            r matches Ok(font) ==> font.source() == bytes@ && font.number() == collection_index,
    {
        let ghost source = bytes@;
        let reply: Result<OpenFace, String> = memory_face(&library.library, bytes, collection_index);
        assert(asked_for_face(reply, source, collection_index));
        Self::opened(reply)
    }

    /// Looks up the glyph index in the font's character map (`cmap`).
    ///
    /// Returns `0` if the character is not mapped (.notdef).
    pub fn lookup_glyph_index(&self, c: char) -> (r: u16)
        ensures
            exists|glyph: Option<u32>|
                #[trigger] told_char(self.source(), self.number(), c, glyph) && r == found_glyph(
                    glyph,
                ),
    {
        let glyph: Option<u32> = char_index(&self.face, c);
        assert(told_char(self.source(), self.number(), c, glyph));
        glyph_id(glyph)
    }

    /// Sets the active size in sixty-fourths of a pixel, at least one pixel.
    fn set_font_size(&mut self, size: u32) -> (r: SizedFace)
        ensures
            r.source() == old(self).source(),
            r.number() == old(self).number(),
            r.size() == active_size(size),
            r.is_told(),
            final(self).same_face(old(self)),
    {
        set_char_size(
            &mut self.face,
            if size < 64 {
                64
            } else {
                size
            },
        )
    }

    /// Asks for the advance of a glyph at a size.
    fn advance_of(&mut self, glyph: u32, size: u32, flags: i32) -> (r: Option<i64>)
        ensures
            exists|sized: bool|
                #[trigger] asked_for_advance(
                    old(self).source(),
                    old(self).number(),
                    glyph_request(glyph, size, flags),
                    sized,
                    r,
                ),
            final(self).same_face(old(self)),
    {
        let ghost (source, number) = (self.source(), self.number());
        let ghost request = glyph_request(glyph, size, flags);
        let sized: SizedFace = self.set_font_size(size);
        let ghost accepted = sized.accepted();
        let loaded: LoadedFace = load_glyph(sized, glyph, flags);
        if !loaded.is_loaded() {
            assert(asked_for_advance(source, number, request, accepted, None));
            return None;
        }
        let advance: i64 = loaded_advance(loaded);
        assert(asked_for_advance(source, number, request, accepted, Some(advance)));
        Some(advance)
    }

    /// Asks for the line of the face at a size.
    fn line_at(&mut self, size: u32) -> (r: Option<LineUnits>)
        ensures
            exists|sized: bool|
                #[trigger] asked_for_line(
                    old(self).source(),
                    old(self).number(),
                    active_size(size),
                    sized,
                    r,
                ),
            final(self).same_face(old(self)),
    {
        let ghost (source, number) = (self.source(), self.number());
        let sized: SizedFace = self.set_font_size(size);
        let ghost accepted = sized.accepted();
        let line: Option<LineUnits> = line_of(sized);
        assert(asked_for_line(source, number, active_size(size), accepted, line));
        line
    }

    /// Computes cell dimensions at a size in sixty-fourths of a pixel, by the digit zero and the
    /// line of the face.
    pub fn compute_cell_metrics(&mut self, size: u32, fallback: CellMetrics) -> (r: CellMetrics)
        ensures
            exists|answers: Measurement|
                #[trigger] asked_for_cell(old(self).source(), old(self).number(), size, answers)
                    && r == measured(answers.advance, answers.line, fallback),
            final(self).same_face(old(self)),
    {
        let ghost (source, number) = (self.source(), self.number());
        let zero: Option<u32> = char_index(&self.face, '0');
        let glyph: u32 = match zero {
            Some(g) => g,
            None => 0,
        };
        let plain: FreeTypeConfig = FreeTypeConfig {
            load_flags: FreeTypeLoadFlags::NoHinting,
            ..FreeTypeConfig::default()
        };
        let advance: Option<i64> = self.advance_of(glyph, size, plain.compute_load_flags());
        let line: Option<LineUnits> = self.line_at(size);
        proof {
            let request = glyph_request(glyph, size, 0x2);
            let first = choose|sized: bool|
                asked_for_advance(source, number, request, sized, advance);
            let second = choose|sized: bool|
                asked_for_line(source, number, active_size(size), sized, line);
            let answers = Measurement { zero, sized: (first, second), advance, line };
            assert(asked_for_cell(source, number, size, answers));
        }
        cell_metrics(advance, line, fallback)
    }

    /// Rasterizes an indexed glyph on demand into an alpha mask or LCD subpixel bitmap, at a size in
    /// sixty-fourths of a pixel.
    pub fn rasterize_indexed(
        &mut self,
        glyph_index: u16,
        size: u32,
        ft_config: FreeTypeConfig,
        subpixel_preferred: bool,
        bgr: bool,
    ) -> (r: RasterizedGlyph)
        ensures
            exists|answers: Drawing|
                #[trigger] asked_for_glyph(
                    old(self).source(),
                    old(self).number(),
                    glyph_request(glyph_index as u32, size, ft_config.load_bits()),
                    ft_config.mode_for(subpixel_preferred),
                    answers,
                ) && shows(r, answers.bitmap, bgr),
            final(self).same_face(old(self)),
    {
        let ghost (source, number) = (self.source(), self.number());
        let flags: i32 = ft_config.compute_load_flags();
        let mode: RenderMode = ft_config.compute_render_mode(subpixel_preferred);
        let ghost request = glyph_request(glyph_index as u32, size, flags);
        let sized: SizedFace = self.set_font_size(size);
        let ghost mut answers = Drawing {
            sized: sized.accepted(),
            loaded: false,
            drawn: false,
            shape: None,
            bitmap: None,
        };
        let mut bitmap: Option<DrawnBitmap> = None;
        let loaded: LoadedFace = load_glyph(sized, glyph_index as u32, flags);
        if loaded.is_loaded() {
            let drawn: DrawnFace = render_glyph(loaded, mode);
            proof {
                answers = Drawing { loaded: true, drawn: drawn.drawn(), ..answers };
            }
            if drawn.is_drawn() {
                let pixels: PixelMode = drawn_mode(&drawn);
                let shaped: ShapedFace = drawn_shape(drawn);
                let shape: BitmapShape = shaped.shape_of();
                proof {
                    answers = Drawing { shape: Some((pixels, shape)), ..answers };
                }
                if is_shape_shown(pixels, shape) {
                    let buffer: Vec<u8> = drawn_buffer(shaped);
                    bitmap = Some(DrawnBitmap { pixels, shape, buffer });
                    proof {
                        answers = Drawing { bitmap, ..answers };
                    }
                }
            }
        }
        assert(asked_for_glyph(source, number, request, mode, answers));
        assert(bitmap == answers.bitmap);
        glyph_picture(bitmap, bgr)
    }
}

/// The configured faces of a style, the primary first.
pub struct StyleChain {
    pub primary: Font,
    pub fallbacks: Vec<Font>,
}

/// Whether every face of a list was asked for the glyph of a character, and answered so.
pub open spec fn asked_in_turn(faces: Seq<Font>, answers: Seq<Option<u32>>, c: char) -> bool {
    &&& answers.len() == faces.len()
    &&& forall|i: int|
        0 <= i < faces.len() ==> told_char(
            faces[i].source(),
            faces[i].number(),
            c,
            #[trigger] answers[i],
        )
}

/// The glyphs that were found in faces.
pub open spec fn found_glyphs(answers: Seq<Option<u32>>) -> Seq<u16> {
    answers.map_values(|found: Option<u32>| found_glyph(found))
}

impl StyleChain {
    /// Finds the first configured face that has a glyph for a character.
    pub fn face_key(&self, c: char, style: u8) -> (r: Option<FaceKey>)
        requires
            self.fallbacks@.len() < u16::MAX,
        ensures
            exists|first: Option<u32>, rest: Seq<Option<u32>>|
                #[trigger] told_char(self.primary.source(), self.primary.number(), c, first)
                    && #[trigger] asked_in_turn(self.fallbacks@, rest, c) && r == chain_key(
                    style,
                    found_glyph(first),
                    found_glyphs(rest),
                ),
    {
        let first: Option<u32> = char_index(&self.primary.face, c);
        let ghost mut rest: Seq<Option<u32>> = Seq::empty();
        let mut glyphs: Vec<u16> = Vec::new();
        let mut i: usize = 0;
        while i < self.fallbacks.len()
            invariant
                i <= self.fallbacks@.len(),
                rest.len() == i,
                forall|j: int|
                    0 <= j < i ==> told_char(
                        self.fallbacks@[j].source(),
                        self.fallbacks@[j].number(),
                        c,
                        #[trigger] rest[j],
                    ),
                glyphs@ == found_glyphs(rest),
            decreases self.fallbacks@.len() - i,
        {
            let found: Option<u32> = char_index(&self.fallbacks[i].face, c);
            glyphs.push(glyph_id(found));
            proof {
                rest = rest.push(found);
            }
            assert(glyphs@ =~= found_glyphs(rest));
            i += 1;
        }
        assert(told_char(self.primary.source(), self.primary.number(), c, first));
        assert(asked_in_turn(self.fallbacks@, rest, c));
        configured_key(style, glyph_id(first), &glyphs)
    }
}

} // verus!
