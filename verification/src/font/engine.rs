//! FreeType, one call at a time.
//!
//! What FreeType answers depends on the library that the system has. The names that begin with
//! `told_` hold of the answers that it gave: they rule none out, and may hold of several answers to
//! one question.
//!
//! A face changes from call to call, so each stage of it (sized, loaded, drawn, shaped) has a type of
//! its own that holds the only borrow of the face. Stages are made by the calls below and by nothing
//! else, and going on to the next one uses the last one up.

use crate::font::face::{PixelMode, RenderMode};
use std::rc::Rc;
use vstd::prelude::*;

verus! {

/// The handle of the FreeType library, `freetype::Library`.
#[verifier::external_type_specification]
#[verifier::external_body]
pub struct ExLibrary(freetype::Library);

/// An open face, `freetype::Face`.
#[verifier::external_type_specification]
#[verifier::external_body]
#[verifier::reject_recursive_types(B)]
pub struct ExFace<B>(freetype::Face<B>);

/// How subpixel bitmaps are smoothed.
#[derive(Debug, Clone, Copy, PartialEq, Eq, Structural)]
pub enum LcdFilter {
    Unfiltered,
    Default,
    Light,
    Legacy,
}

/// A line of a face in sixty-fourths of a pixel.
#[derive(Debug, Clone, Copy, PartialEq, Eq, Structural)]
pub struct LineUnits {
    pub ascender: i64,
    pub descender: i64,
    pub height: i64,
}

/// A glyph to load: at which size, in sixty-fourths of a pixel, which one, and how.
#[derive(Debug, Clone, Copy, PartialEq, Eq, Structural)]
pub struct GlyphRequest {
    pub size: u32,
    pub glyph: u32,
    pub flags: i32,
}

/// The shape of a bitmap and its place.
#[derive(Debug, Clone, Copy, PartialEq, Eq, Structural)]
pub struct BitmapShape {
    pub width: i32,
    pub rows: i32,
    pub pitch: i32,
    pub left: i32,
    pub top: i32,
}

/// Whether `freetype::Library::init` told that it failed for a reason, or that it opened the
/// library.
pub uninterp spec fn told_library(reason: Option<Seq<char>>) -> bool;

/// Whether `freetype::Library::set_lcd_filter` told that it accepts a filter, or refuses it.
pub uninterp spec fn told_filter(filter: LcdFilter, accepted: bool) -> bool;

/// Whether `freetype::Library::new_memory_face` told that it failed on bytes for a reason, or that
/// it opened a face.
pub uninterp spec fn told_face(bytes: Seq<u8>, index: u32, reason: Option<Seq<char>>) -> bool;

/// Whether `freetype::Face::get_char_index` told this glyph for a character, of the face of these
/// bytes.
pub uninterp spec fn told_char(bytes: Seq<u8>, index: u32, c: char, glyph: Option<u32>) -> bool;

/// Whether `freetype::Face::set_char_size` told that the face of these bytes accepts a size, or
/// refuses it.
pub uninterp spec fn told_size(bytes: Seq<u8>, index: u32, size: u32, accepted: bool) -> bool;

/// Whether `freetype::Face::load_glyph` told that the face of these bytes, after it was asked to have
/// the size, loaded a glyph, or failed.
pub uninterp spec fn told_load(
    bytes: Seq<u8>,
    index: u32,
    request: GlyphRequest,
    loaded: bool,
) -> bool;

/// Whether `freetype::GlyphSlot::render_glyph` told that the glyph that was loaded so was drawn, or
/// not.
pub uninterp spec fn told_render(
    bytes: Seq<u8>,
    index: u32,
    request: GlyphRequest,
    mode: RenderMode,
    drawn: bool,
) -> bool;

/// Whether `freetype::Bitmap::pixel_mode` told how the glyph that was drawn so stores its pixels.
pub uninterp spec fn told_mode(
    bytes: Seq<u8>,
    index: u32,
    request: GlyphRequest,
    mode: RenderMode,
    pixels: PixelMode,
) -> bool;

/// Whether `width`, `rows` and `pitch` of `freetype::Bitmap`, and `bitmap_left` and `bitmap_top` of
/// `freetype::GlyphSlot`, told the shape and the place of the glyph that was drawn so.
pub uninterp spec fn told_shape(
    bytes: Seq<u8>,
    index: u32,
    request: GlyphRequest,
    mode: RenderMode,
    shape: BitmapShape,
) -> bool;

/// Whether `freetype::Bitmap::buffer` told the bytes of the glyph that was drawn so.
pub uninterp spec fn told_buffer(
    bytes: Seq<u8>,
    index: u32,
    request: GlyphRequest,
    mode: RenderMode,
    buffer: Seq<u8>,
) -> bool;

/// Whether `freetype::GlyphSlot::advance` told the advance of the glyph that was loaded so.
pub uninterp spec fn told_advance(
    bytes: Seq<u8>,
    index: u32,
    request: GlyphRequest,
    advance: i64,
) -> bool;

/// Whether `freetype::Face::size_metrics` told the line of the face of these bytes, after it was
/// asked to have the size.
pub uninterp spec fn told_line(
    bytes: Seq<u8>,
    index: u32,
    size: u32,
    line: Option<LineUnits>,
) -> bool;

/// The reason of a failure, if there is one.
pub open spec fn reason_of<T>(r: Result<T, String>) -> Option<Seq<char>> {
    match r {
        Ok(_) => None,
        Err(text) => Some(text@),
    }
}

/// Whether the bytes of a bitmap can be counted: its rows and the bytes of each, as a signed number.
pub open spec fn buffer_is_counted(rows: i32, pitch: i32) -> bool {
    &&& rows >= 0
    &&& pitch > i32::MIN
    &&& rows * (if pitch < 0 {
        -pitch
    } else {
        pitch as int
    }) <= i32::MAX
}

/// Tells whether the bytes of a bitmap can be counted.
pub fn is_buffer_counted(rows: i32, pitch: i32) -> (r: bool)
    ensures
        r == buffer_is_counted(rows, pitch),
{
    if rows < 0 || pitch == i32::MIN {
        return false;
    }
    let row: i64 = if pitch < 0 {
        -(pitch as i64)
    } else {
        pitch as i64
    };
    assert(0 <= rows * row <= 0x7fff_ffff * 0x7fff_ffff) by (nonlinear_arith)
        requires
            0 <= rows <= 0x7fff_ffff,
            0 <= row <= 0x7fff_ffff,
    ;
    rows as i64 * row <= 0x7fff_ffff
}

/// A library that was asked to use a filter for subpixel bitmaps, and whether it does.
pub struct FilteredLibrary {
    library: freetype::Library,
    filter: LcdFilter,
    accepted: bool,
}

impl FilteredLibrary {
    pub closed spec fn filter(&self) -> LcdFilter {
        self.filter
    }

    pub closed spec fn accepted(&self) -> bool {
        self.accepted
    }
}

/// A face that was opened, with the bytes of its font file and its number there.
pub struct OpenFace {
    face: freetype::Face,
    bytes: Rc<Vec<u8>>,
    index: u32,
}

impl OpenFace {
    /// The bytes of the font file.
    pub closed spec fn source(&self) -> Seq<u8> {
        self.bytes@
    }

    /// The number of the face in the file.
    pub closed spec fn number(&self) -> u32 {
        self.index
    }
}

/// A face that was asked to have a size, and whether it has it.
pub struct SizedFace<'a> {
    face: &'a mut OpenFace,
    size: u32,
    accepted: bool,
}

impl SizedFace<'_> {
    pub closed spec fn source(&self) -> Seq<u8> {
        self.face.bytes@
    }

    pub closed spec fn number(&self) -> u32 {
        self.face.index
    }

    pub closed spec fn size(&self) -> u32 {
        self.size
    }

    pub closed spec fn accepted(&self) -> bool {
        self.accepted
    }

    /// Whether the face told of its size.
    pub open spec fn is_told(&self) -> bool {
        told_size(self.source(), self.number(), self.size(), self.accepted())
    }
}

/// A face that was asked to load a glyph, and whether it did.
pub struct LoadedFace<'a> {
    sized: SizedFace<'a>,
    request: GlyphRequest,
    loaded: bool,
}

impl LoadedFace<'_> {
    pub closed spec fn source(&self) -> Seq<u8> {
        self.sized.source()
    }

    pub closed spec fn number(&self) -> u32 {
        self.sized.number()
    }

    pub closed spec fn request(&self) -> GlyphRequest {
        self.request
    }

    pub closed spec fn loaded(&self) -> bool {
        self.loaded
    }

    /// Whether the face told of the glyph.
    pub open spec fn is_told(&self) -> bool {
        told_load(self.source(), self.number(), self.request(), self.loaded())
    }

    /// Tells whether the glyph was loaded.
    pub(crate) fn is_loaded(&self) -> (r: bool)
        ensures
            r == self.loaded(),
    {
        self.loaded
    }
}

/// A face that was asked to draw the glyph that it loaded, and whether it did.
pub struct DrawnFace<'a> {
    loaded: LoadedFace<'a>,
    mode: RenderMode,
    drawn: bool,
}

impl DrawnFace<'_> {
    pub closed spec fn source(&self) -> Seq<u8> {
        self.loaded.source()
    }

    pub closed spec fn number(&self) -> u32 {
        self.loaded.number()
    }

    pub closed spec fn request(&self) -> GlyphRequest {
        self.loaded.request()
    }

    pub closed spec fn mode(&self) -> RenderMode {
        self.mode
    }

    pub closed spec fn drawn(&self) -> bool {
        self.drawn
    }

    /// Whether the face told of the drawing.
    pub open spec fn is_told(&self) -> bool {
        told_render(self.source(), self.number(), self.request(), self.mode(), self.drawn())
    }

    /// Tells whether the glyph was drawn.
    pub(crate) fn is_drawn(&self) -> (r: bool)
        ensures
            r == self.drawn(),
    {
        self.drawn
    }
}

/// A face that drew a glyph, and the shape of the drawing.
pub struct ShapedFace<'a> {
    drawn: DrawnFace<'a>,
    shape: BitmapShape,
}

impl ShapedFace<'_> {
    pub closed spec fn source(&self) -> Seq<u8> {
        self.drawn.source()
    }

    pub closed spec fn number(&self) -> u32 {
        self.drawn.number()
    }

    pub closed spec fn request(&self) -> GlyphRequest {
        self.drawn.request()
    }

    pub closed spec fn mode(&self) -> RenderMode {
        self.drawn.mode()
    }

    pub closed spec fn shape(&self) -> BitmapShape {
        self.shape
    }

    /// Whether the face told of the shape.
    pub open spec fn is_told(&self) -> bool {
        told_shape(self.source(), self.number(), self.request(), self.mode(), self.shape())
    }

    /// The shape of the drawing.
    pub(crate) fn shape_of(&self) -> (r: BitmapShape)
        ensures
            r == self.shape(),
    {
        self.shape
    }
}

/// Opens the FreeType library with `freetype::Library::init`; an error comes as its debug text.
/// Nothing is claimed of the outcome but that it was told.
#[verifier::external_body]
pub(crate) fn init_library() -> (r: Result<freetype::Library, String>)
    ensures
        told_library(reason_of(r)),
{
    freetype::Library::init().map_err(|e| format!("{e:?}"))
}

/// Chooses the filter for subpixel bitmaps with `freetype::Library::set_lcd_filter`; a FreeType
/// without such filters refuses, which does no harm. Nothing is claimed of the answer but that it
/// was told.
#[verifier::external_body]
pub(crate) fn set_lcd_filter(library: freetype::Library, filter: LcdFilter) -> (r: FilteredLibrary)
    ensures
        r.filter() == filter,
        told_filter(filter, r.accepted()),
{
    let outside = match filter {
        LcdFilter::Unfiltered => freetype::LcdFilter::LcdFilterNone,
        LcdFilter::Default => freetype::LcdFilter::LcdFilterDefault,
        LcdFilter::Light => freetype::LcdFilter::LcdFilterLight,
        LcdFilter::Legacy => freetype::LcdFilter::LcdFilterLegacy,
    };
    let accepted = library.set_lcd_filter(outside).is_ok();
    FilteredLibrary { library, filter, accepted }
}

/// Opens a face of a font file's bytes with `freetype::Library::new_memory_face`; an error comes
/// as its debug text. A face is that of the bytes and the number; nothing more is claimed of the
/// outcome but that it was told.
#[verifier::external_body]
pub(crate) fn memory_face(library: &FilteredLibrary, bytes: Vec<u8>, index: u32) -> (r: Result<
    OpenFace,
    String,
>)
    ensures
        told_face(bytes@, index, reason_of(r)),
        r matches Ok(face) ==> face.source() == bytes@ && face.number() == index,
{
    let bytes = Rc::new(bytes);
    match library.library.new_memory_face(bytes.clone(), index as isize) {
        Ok(face) => Ok(OpenFace { face, bytes, index }),
        Err(e) => Err(format!("{e:?}")),
    }
}

/// Looks a character up with `freetype::Face::get_char_index`. Nothing is claimed of the answer but
/// that it was told.
#[verifier::external_body]
pub(crate) fn char_index(face: &OpenFace, c: char) -> (r: Option<u32>)
    ensures
        told_char(face.source(), face.number(), c, r),
{
    face.face.get_char_index(c as usize)
}

/// Sets the size of a face in sixty-fourths of a pixel with `freetype::Face::set_char_size`. A face
/// without that size keeps its own. Nothing is claimed of the answer but that it was told.
#[verifier::external_body]
pub(crate) fn set_char_size<'a>(face: &'a mut OpenFace, size: u32) -> (r: SizedFace<'a>)
    ensures
        r.source() == old(face).source(),
        r.number() == old(face).number(),
        r.size() == size,
        told_size(r.source(), r.number(), size, r.accepted()),
        final(face).source() == old(face).source(),
        final(face).number() == old(face).number(),
{
    let accepted = face.face.set_char_size(0, size as isize, 72, 72).is_ok();
    SizedFace { face, size, accepted }
}

/// Loads a glyph of a face at the size that was set, with `freetype::Face::load_glyph`. Nothing is
/// claimed of the answer but that it was told.
#[verifier::external_body]
pub(crate) fn load_glyph<'a>(sized: SizedFace<'a>, glyph: u32, flags: i32) -> (r: LoadedFace<'a>)
    requires
        sized.is_told(),
    ensures
        r.source() == sized.source(),
        r.number() == sized.number(),
        r.request() == (GlyphRequest { size: sized.size(), glyph, flags }),
        told_load(r.source(), r.number(), r.request(), r.loaded()),
{
    let bits = freetype::face::LoadFlag::from_bits_retain(flags);
    let loaded = sized.face.face.load_glyph(glyph, bits).is_ok();
    let request = GlyphRequest { size: sized.size, glyph, flags };
    LoadedFace { sized, request, loaded }
}

/// Draws the loaded glyph with `freetype::GlyphSlot::render_glyph`. Nothing is claimed of the answer
/// but that it was told.
#[verifier::external_body]
pub(crate) fn render_glyph<'a>(loaded: LoadedFace<'a>, mode: RenderMode) -> (r: DrawnFace<'a>)
    requires
        loaded.is_told(),
        loaded.loaded(),
    ensures
        r.source() == loaded.source(),
        r.number() == loaded.number(),
        r.request() == loaded.request(),
        r.mode() == mode,
        told_render(r.source(), r.number(), r.request(), mode, r.drawn()),
{
    let outside = match mode {
        RenderMode::Normal => freetype::RenderMode::Normal,
        RenderMode::Light => freetype::RenderMode::Light,
        RenderMode::Mono => freetype::RenderMode::Mono,
        RenderMode::Lcd => freetype::RenderMode::Lcd,
    };
    let drawn = loaded.sized.face.face.glyph().render_glyph(outside).is_ok();
    DrawnFace { loaded, mode, drawn }
}

/// How the drawn glyph stores its pixels, by `freetype::Bitmap::pixel_mode`; its error has a mode of
/// its own. Nothing is claimed of the answer but that it was told.
#[verifier::external_body]
pub(crate) fn drawn_mode(drawn: &DrawnFace) -> (r: PixelMode)
    requires
        drawn.is_told(),
        drawn.drawn(),
    ensures
        told_mode(drawn.source(), drawn.number(), drawn.request(), drawn.mode(), r),
{
    match drawn.loaded.sized.face.face.glyph().bitmap().pixel_mode() {
        Ok(freetype::bitmap::PixelMode::None) => PixelMode::Unset,
        Ok(freetype::bitmap::PixelMode::Mono) => PixelMode::Mono,
        Ok(freetype::bitmap::PixelMode::Gray) => PixelMode::Gray,
        Ok(freetype::bitmap::PixelMode::Gray2) => PixelMode::Gray2,
        Ok(freetype::bitmap::PixelMode::Gray4) => PixelMode::Gray4,
        Ok(freetype::bitmap::PixelMode::Lcd) => PixelMode::Lcd,
        Ok(freetype::bitmap::PixelMode::LcdV) => PixelMode::LcdV,
        Ok(freetype::bitmap::PixelMode::Bgra) => PixelMode::Bgra,
        Err(_) => PixelMode::Unexpected,
    }
}

/// The shape and the place of the drawn glyph, by `width`, `rows` and `pitch` of
/// `freetype::Bitmap` and `bitmap_left` and `bitmap_top` of `freetype::GlyphSlot`. Nothing is
/// claimed of the answer but that it was told.
#[verifier::external_body]
pub(crate) fn drawn_shape<'a>(drawn: DrawnFace<'a>) -> (r: ShapedFace<'a>)
    requires
        drawn.is_told(),
        drawn.drawn(),
    ensures
        r.source() == drawn.source(),
        r.number() == drawn.number(),
        r.request() == drawn.request(),
        r.mode() == drawn.mode(),
        told_shape(r.source(), r.number(), r.request(), r.mode(), r.shape()),
{
    let slot = drawn.loaded.sized.face.face.glyph();
    let bmp = slot.bitmap();
    let (width, rows, pitch) = (bmp.width(), bmp.rows(), bmp.pitch());
    let (left, top) = (slot.bitmap_left(), slot.bitmap_top());
    ShapedFace { drawn, shape: BitmapShape { width, rows, pitch, left, top } }
}

/// The bytes of the drawn glyph, by `freetype::Bitmap::buffer`. Shapes whose bytes it would count
/// beyond its range are left out. Nothing is claimed of the answer but that it was told.
#[verifier::external_body]
pub(crate) fn drawn_buffer(shaped: ShapedFace) -> (r: Vec<u8>)
    requires
        shaped.is_told(),
        buffer_is_counted(shaped.shape().rows, shaped.shape().pitch),
    ensures
        told_buffer(shaped.source(), shaped.number(), shaped.request(), shaped.mode(), r@),
{
    shaped.drawn.loaded.sized.face.face.glyph().bitmap().buffer().to_vec()
}

/// The advance of the loaded glyph in sixty-fourths of a pixel, by `freetype::GlyphSlot::advance`.
/// Nothing is claimed of the answer but that it was told.
#[verifier::external_body]
pub(crate) fn loaded_advance(loaded: LoadedFace) -> (r: i64)
    requires
        loaded.is_told(),
        loaded.loaded(),
    ensures
        told_advance(loaded.source(), loaded.number(), loaded.request(), r),
{
    loaded.sized.face.face.glyph().advance().x as i64
}

/// The line of a face at the size that was set, in sixty-fourths of a pixel, by
/// `freetype::Face::size_metrics`. Nothing is claimed of the answer but that it was told.
#[verifier::external_body]
pub(crate) fn line_of(sized: SizedFace) -> (r: Option<LineUnits>)
    requires
        sized.is_told(),
    ensures
        told_line(sized.source(), sized.number(), sized.size(), r),
{
    sized.face.face.size_metrics().map(|m| LineUnits {
        ascender: m.ascender as i64,
        descender: m.descender as i64,
        height: m.height as i64,
    })
}

} // verus!
