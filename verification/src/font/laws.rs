//! What holds of glyphs, of the faces that they come from, and of the atlas and the cache that keep
//! them.

use crate::config::paths::joined_path;
use crate::config::{FreeTypeLoadFlags, FreeTypeLoadTarget, FreeTypeRenderTarget};
use crate::font::atlas::{
    around, atlas_size, byte_at, doubled, doubled_times, glyph_number, glyph_pitch,
    grew, growable, growth_needed, inserted, remembered, CachedGlyph, GlyphAtlas, Shelf,
    MAX_ATLAS_SIZE,
};
use crate::font::cache::{
    cache_bytes, cache_path, file_bytes, files_bytes, le32, le64, magic, text_bytes, texts_bytes,
    unsigned32, unsigned64, CacheModel, FileModel, MAX_ENTRIES, MAX_NAME, MAX_PATH,
};
use crate::font::engine::{
    told_buffer, told_char, told_line, told_load, told_mode, told_render, told_shape, told_size,
    BitmapShape, GlyphRequest, LineUnits,
};
use crate::font::face::{
    bit_set, picture, FreeTypeConfig, GlyphBitmap, PixelMode, RasterizedGlyph, RenderMode,
    LINEAR_TO_SRGB,
};
use crate::font::fallback::{
    covering, face_place, search, FaceModel, SearchStep, MAX_FALLBACK_FACES, MAX_RESOLVED_CACHE,
};
use crate::font::render::{
    active_size, asked_for_cell, asked_for_glyph, columns_in, found_glyph, glyph_request,
    has_picture, measured, pixels_for, shows, DrawnBitmap, Drawing, Measurement,
};
use crate::font::tables::{
    be16, be32, glyph_from, header_is_sound, last_entry, mapped_glyph, part_end, part_is_sound,
    table_in, units_in,
    FontTables, TableEntry, CMAP, FVAR, HEAD, HHEA, HMTX, HVAR, MAXP, MVAR, OS2,
};
use crate::font::{
    chain_key, fallback_key, first_covering, names_for, source_of, style_number, CellMetrics,
    FaceSource,
};
use crate::grid::CellFlags;
use crate::text;
use crate::text::laws::law_trimming_keeps_plain_text;
use vstd::prelude::*;
use vstd::utf8::encode_utf8;

verus! {

/// The style of a cell: one for bold and two for italic, both for both.
pub proof fn law_styles(flags: CellFlags)
    ensures
        style_number(flags) == (if flags.bits & 1 == 1 {
            1int
        } else {
            0
        }) + (if flags.bits & 4 == 4 {
            2int
        } else {
            0
        }),
{
}

/// The families that are looked for: the one that is named and a monospaced one behind it, or the
/// latter alone where nothing else is named.
pub proof fn law_names_to_look_for(name: Seq<char>)
    requires
        name.len() > 0,
        !text::white_space(name[0]) && !text::white_space(name.last()),
        !name.contains('\0'),
    ensures
        text::lowered(name) == "monospace"@ ==> names_for(name) == seq!["monospace"@],
        text::lowered(name) != "monospace"@ ==> names_for(name) == seq![name, "monospace"@],
        names_for(Seq::empty()) == seq!["monospace"@],
{
    law_trimming_keeps_plain_text(name);
    law_trimming_keeps_plain_text(Seq::empty());
}

proof fn lemma_first_covering(glyphs: Seq<u16>)
    ensures
        match first_covering(glyphs) {
            Some(i) => 0 <= i < glyphs.len() && glyphs[i] != 0 && forall|j: int|
                0 <= j < i ==> #[trigger] glyphs[j] == 0,
            None => forall|j: int| 0 <= j < glyphs.len() ==> #[trigger] glyphs[j] == 0,
        },
    decreases glyphs.len(),
{
    if glyphs.len() > 0 && glyphs[0] == 0 {
        let rest = glyphs.drop_first();
        lemma_first_covering(rest);
        match first_covering(rest) {
            Some(i) => {
                assert forall|j: int| 0 <= j < i + 1 implies #[trigger] glyphs[j] == 0 by {
                    if j > 0 {
                        assert(rest[j - 1] == glyphs[j]);
                    }
                }
            },
            None => {
                assert forall|j: int| 0 <= j < glyphs.len() implies #[trigger] glyphs[j] == 0 by {
                    if j > 0 {
                        assert(rest[j - 1] == glyphs[j]);
                    }
                }
            },
        }
    }
}

/// A character is taken from the primary face where that has it, and otherwise from the first
/// fallback that has it; the primary face has the number zero and the fallbacks follow it.
pub proof fn law_the_first_face_that_has_a_character(
    style: u8,
    primary: u16,
    fallbacks: Seq<u16>,
    i: int,
)
    requires
        0 <= i < fallbacks.len() < u16::MAX,
        forall|j: int| 0 <= j < i ==> #[trigger] fallbacks[j] == 0,
        fallbacks[i] != 0,
    ensures
        primary != 0 ==> chain_key(style, primary, fallbacks) is Some && {
            let key = chain_key(style, primary, fallbacks)->0;
            key.face == 0 && key.glyph == primary && key.style == style
        },
        primary == 0 ==> chain_key(style, primary, fallbacks) is Some && {
            let key = chain_key(style, primary, fallbacks)->0;
            key.face == i + 1 && key.glyph == fallbacks[i] && key.style == style
        },
{
    lemma_first_covering(fallbacks);
    match first_covering(fallbacks) {
        Some(k) => {
            if k < i {
                assert(fallbacks[k] == 0);
            }
            if i < k {
                assert(fallbacks[i] == 0);
            }
        },
        None => {
            assert(fallbacks[i] == 0);
        },
    }
}

/// Where no face of the chain has a character there is no key for it; a discovered face is counted
/// behind the configured ones, and without one the character is missing from the primary face.
pub proof fn law_faces_behind_the_chain(
    style: u8,
    fallbacks: Seq<u16>,
    configured: int,
    face: u16,
    glyph: u16,
)
    requires
        forall|j: int| 0 <= j < fallbacks.len() ==> #[trigger] fallbacks[j] == 0,
        0 <= configured,
        1 + configured + face <= u16::MAX,
    ensures
        chain_key(style, 0, fallbacks) is None,
        ({
            let key = fallback_key(style, configured, Some((face, glyph)));
            key.face == 1 + configured + face && key.glyph == glyph && key.style == style
        }),
        ({
            let key = fallback_key(style, configured, None);
            key.face == 0 && key.glyph == 0 && key.style == style
        }),
        source_of(0, configured) == FaceSource::Primary,
        0 < face <= configured ==> source_of(face, configured) == FaceSource::Configured(
            (face - 1) as u16,
        ),
        source_of((1 + configured + face) as u16, configured) == FaceSource::Discovered(face),
{
    lemma_first_covering(fallbacks);
    if let Some(k) = first_covering(fallbacks) {
        assert(fallbacks[k] == 0);
    }
}

/// Every character in every style has a number of its own.
pub proof fn law_glyphs_have_numbers(c: char, style: u8, d: char, other: u8)
    requires
        style < 4,
        other < 4,
    ensures
        glyph_number(c, style) == 4 * (c as u32) + style,
        glyph_number(c, style) == glyph_number(d, other) <==> c == d && style == other,
{
}

/// A picture goes to the right of the last one on its shelf where the row has room for it and a
/// pixel on either side, and otherwise to the left end of a new shelf below; there is room where
/// that lies within the atlas.
pub proof fn law_shelves(s: Shelf, w: u32, h: u32, b: (u32, u32))
    ensures
        s.x + w + 2 <= b.0 ==> s.corner(w, b) == (s.x as int, s.y as int),
        s.x + w + 2 > b.0 ==> s.corner(w, b) == (0int, s.y + s.height),
        s.has_room(w, h, b) <==> w + 2 <= b.0 && h + 2 <= b.1 && (if s.x + w + 2 <= b.0 {
            s.y + h + 2 <= b.1
        } else {
            s.y + s.height + h + 2 <= b.1
        }),
        s.has_room(w, h, b) && s.x + w + 2 <= b.0 ==> {
            let t = s.after(w, h, b);
            t.x == s.x + w + 2 && t.y == s.y && t.height == (if s.height >= h + 2 {
                s.height as int
            } else {
                h + 2
            })
        },
        s.has_room(w, h, b) && s.x + w + 2 > b.0 ==> {
            let t = s.after(w, h, b);
            t.x == w + 2 && t.y == s.y + s.height && t.height == h + 2
        },
{
}

/// An atlas has at least four and at most 2048 pixels a side, and grows by doubling its sides.
pub proof fn law_sizes_of_the_atlas(n: u32)
    ensures
        4 <= n <= 2048 ==> atlas_size(n) == n,
        n < 4 ==> atlas_size(n) == 4,
        n > 2048 ==> atlas_size(n) == 2048,
        n <= 1024 ==> doubled(n) == 2 * n,
        n > 1024 ==> doubled(n) == 2048,
        MAX_ATLAS_SIZE == 2048,
{
}

/// An atlas grows as often as it must for a picture and no more, and not at all where no size would
/// do.
pub proof fn law_atlases_grow_as_needed(s: Shelf, w: u32, h: u32, size: (u32, u32), k: nat)
    requires
        4 <= size.0 <= 2048,
        4 <= size.1 <= 2048,
    ensures
        match growth_needed(s, w, h, size) {
            Some(n) => {
                &&& s.has_room(w, h, doubled_times(size, n))
                &&& k < n ==> !s.has_room(w, h, doubled_times(size, k))
            },
            None => !s.has_room(w, h, doubled_times(size, k)),
        },
    decreases 2 * MAX_ATLAS_SIZE - size.0 - size.1,
{
    if !s.has_room(w, h, size) {
        if growable(size) {
            let next = (doubled(size.0), doubled(size.1));
            if k > 0 {
                law_atlases_grow_as_needed(s, w, h, next, (k - 1) as nat);
            } else {
                law_atlases_grow_as_needed(s, w, h, next, 0);
            }
        } else {
            lemma_full_size(size, k);
        }
    }
}

proof fn lemma_full_size(size: (u32, u32), k: nat)
    requires
        size == (2048u32, 2048u32),
    ensures
        doubled_times(size, k) == size,
    decreases k,
{
    if k > 0 {
        lemma_full_size((doubled(size.0), doubled(size.1)), (k - 1) as nat);
    }
}

/// A glyph that finds room is drawn at its place, pixel by pixel, four bytes each, and every other
/// byte of the atlas stays.
pub proof fn law_glyphs_are_drawn(
    before: &GlyphAtlas,
    after: &GlyphAtlas,
    glyph: &RasterizedGlyph,
    g: CachedGlyph,
    y: int,
    x: int,
    k: int,
)
    requires
        before.wf(),
        inserted(before, after, glyph, Some(g)),
        glyph.width > 0,
        glyph.height > 0,
        glyph.pitch == 4 * glyph.width,
        glyph.pixels@.len() == glyph.pitch * glyph.height,
        0 <= y < after.height,
        0 <= x < after.width,
        0 <= k < 4,
    ensures
        ({
            let (left, top) = (g.position@[0] as int, g.position@[1] as int);
            let inside = left <= x < left + glyph.width && top <= y < top + glyph.height;
            let byte = after.pixels@[y * (4 * after.width) + (4 * x + k)];
            &&& inside ==> byte == glyph.pixels@[(y - top) * (4 * glyph.width) + (4 * (x - left)
                + k)]
            &&& !inside && y < before.height && x < before.width ==> byte == before.pixels@[y * (4
                * before.width) + (4 * x + k)]
            &&& !inside && !(y < before.height && x < before.width) ==> byte == 0
            &&& g.width == glyph.width && g.height == glyph.height
            &&& g.offset_x == glyph.offset_x && g.offset_y == glyph.offset_y
        }),
{
    let col = 4 * x + k;
    assert(0 <= col < after.stride());
    let b = byte_at(after.pixels@, after.stride(), y, col);
    let (left, top) = (g.position@[0] as int, g.position@[1] as int);
    let n = growth_needed(
        before.shelf,
        glyph.width,
        glyph.height,
        (before.width, before.height),
    )->0;
    let new_size = doubled_times((before.width, before.height), n);
    law_atlases_grow_as_needed(
        before.shelf,
        glyph.width,
        glyph.height,
        (before.width, before.height),
        0,
    );
    let (cx, cy) = before.shelf.corner(glyph.width, new_size);
    assert(left == cx + 1 && top == cy + 1);
    let line = y - top;
    let inside = left <= x < left + glyph.width && top <= y < top + glyph.height;
    if inside {
        assert(line * glyph_pitch(glyph) + 4 * glyph.width <= glyph.pixels@.len())
            by (nonlinear_arith)
            requires
                0 <= line < glyph.height,
                glyph_pitch(glyph) == 4 * glyph.width,
                glyph.pixels@.len() == (4 * glyph.width) * glyph.height,
        ;
    }
}

/// An atlas that grows has twice the sides, up to the limit; every pixel stays where it is, the new
/// ones are clear, all of it is drawn anew, and the places of glyphs and of the shelf stay.
pub proof fn law_growing_keeps_every_pixel(
    before: &GlyphAtlas,
    after: &GlyphAtlas,
    y: int,
    x: int,
    k: int,
)
    requires
        before.wf(),
        after.wf(),
        grew(before, after),
        0 <= y < after.height,
        0 <= x < after.width,
        0 <= k < 4,
    ensures
        after.width == (if before.width <= 1024 {
            2 * before.width
        } else {
            2048
        }),
        after.height == (if before.height <= 1024 {
            2 * before.height
        } else {
            2048
        }),
        ({
            let byte = after.pixels@[y * (4 * after.width) + (4 * x + k)];
            &&& y < before.height && x < before.width ==> byte == before.pixels@[y * (4
                * before.width) + (4 * x + k)]
            &&& !(y < before.height && x < before.width) ==> byte == 0
        }),
        after.dirty && after.full_upload && after.dirty_rect is None,
        after.shelf == before.shelf,
        after.ascii_cache@ == before.ascii_cache@ && after.cache@ == before.cache@,
        before.can_grow() <==> before.width < 2048 || before.height < 2048,
{
    let col = 4 * x + k;
    assert(0 <= col < after.stride());
    let b = byte_at(after.pixels@, after.stride(), y, col);
}

/// An atlas that keeps nothing has no glyph of any character in any style.
pub proof fn law_empty_atlases(a: &GlyphAtlas, c: char, style: u8)
    requires
        a.wf(),
        a.keeps_nothing(),
        style < 4,
    ensures
        a.kept(c, style) is None,
{
}

/// Remembering a glyph leaves those of other characters, and of other styles, as they were.
pub proof fn law_other_glyphs_are_remembered(
    mid: &GlyphAtlas,
    after: &GlyphAtlas,
    c: char,
    style: u8,
    found: Option<CachedGlyph>,
    r: Option<CachedGlyph>,
    d: char,
    other: u8,
)
    requires
        mid.wf(),
        style < 4,
        other < 4,
        c != d || style != other,
        remembered(mid, after, c, style, found, r),
    ensures
        after.kept(d, other) == mid.kept(d, other),
        after.pixels@ == mid.pixels@,
        after.width == mid.width && after.height == mid.height,
        found is None ==> r is None,
        found matches Some(g) ==> g.width > 0 && g.height > 0 ==> r == found,
{
    law_glyphs_have_numbers(c, style, d, other);
}

/// The part that has changed covers what had changed before and what has changed now, and nothing
/// that lies beyond both on any side.
pub proof fn law_changed_parts(a: [u32; 4], b: Seq<u32>)
    requires
        b.len() == 4,
    ensures
        around(None, b) == b,
        ({
            let r = around(Some(a), b);
            &&& r[0] <= a@[0] && r[0] <= b[0] && (r[0] == a@[0] || r[0] == b[0])
            &&& r[1] <= a@[1] && r[1] <= b[1] && (r[1] == a@[1] || r[1] == b[1])
            &&& r[2] >= a@[2] && r[2] >= b[2] && (r[2] == a@[2] || r[2] == b[2])
            &&& r[3] >= a@[3] && r[3] >= b[3] && (r[3] == a@[3] || r[3] == b[3])
        }),
{
}

/// A face is found in the first place that holds it, or behind the last one where none does.
pub proof fn law_faces_are_found(faces: Seq<FaceModel>, face: FaceModel)
    ensures
        0 <= face_place(faces, face) <= faces.len(),
        face_place(faces, face) < faces.len() ==> faces[face_place(faces, face)] == face,
        forall|i: int| 0 <= i < face_place(faces, face) ==> #[trigger] faces[i] != face,
        MAX_FALLBACK_FACES == 64,
        MAX_RESOLVED_CACHE == 4096,
    decreases faces.len(),
{
    if faces.len() > 0 && faces[0] != face {
        law_faces_are_found(faces.drop_first(), face);
        assert forall|i: int| 0 <= i < face_place(faces, face) implies #[trigger] faces[i]
            != face by {
            if i > 0 {
                assert(faces.drop_first()[i - 1] == faces[i]);
            }
        }
    }
}

/// Whether a face that is kept has a character, in the style that is asked for.
pub open spec fn serves(face: FaceModel, glyph: u16, style: Option<u8>) -> bool {
    glyph != 0 && (style is Some ==> face.style == style->0)
}

/// Of the faces that are kept, the first one that has the character in the style that is asked for
/// gives the glyph.
pub proof fn law_kept_faces_serve(faces: Seq<FaceModel>, style: Option<u8>, glyphs: Seq<u16>)
    requires
        faces.len() == glyphs.len(),
    ensures
        match covering(faces, style, glyphs) {
            Some((i, glyph)) => {
                &&& 0 <= i < faces.len()
                &&& glyph == glyphs[i]
                &&& serves(faces[i], glyphs[i], style)
                &&& forall|j: int|
                    0 <= j < i ==> !serves(#[trigger] faces[j], glyphs[j], style)
            },
            None => forall|j: int|
                0 <= j < faces.len() ==> !serves(#[trigger] faces[j], glyphs[j], style),
        },
    decreases faces.len(),
{
    if faces.len() > 0 && !serves(faces[0], glyphs[0], style) {
        let (f, g) = (faces.drop_first(), glyphs.drop_first());
        law_kept_faces_serve(f, style, g);
        match covering(f, style, g) {
            Some((i, glyph)) => {
                assert forall|j: int| 0 <= j < i + 1 implies !serves(
                    #[trigger] faces[j],
                    glyphs[j],
                    style,
                ) by {
                    if j > 0 {
                        assert(f[j - 1] == faces[j] && g[j - 1] == glyphs[j]);
                    }
                }
            },
            None => {
                assert forall|j: int| 0 <= j < faces.len() implies !serves(
                    #[trigger] faces[j],
                    glyphs[j],
                    style,
                ) by {
                    if j > 0 {
                        assert(f[j - 1] == faces[j] && g[j - 1] == glyphs[j]);
                    }
                }
            },
        }
    }
}

/// A search takes the candidates in turn: one that is not kept has to be loaded, one that has the
/// character ends the search, and any other is passed over; behind the last candidate any face that
/// is kept will do.
pub proof fn law_searches_take_candidates_in_turn(
    faces: Seq<FaceModel>,
    candidates: Seq<FaceModel>,
    from: usize,
    glyphs: Seq<u16>,
)
    requires
        faces.len() == glyphs.len() <= u16::MAX,
    ensures
        from < candidates.len() ==> {
            let at = face_place(faces, candidates[from as int]);
            let step = search(faces, candidates, from as int, glyphs);
            &&& at == faces.len() ==> step == SearchStep::Load(from)
            &&& at < faces.len() && glyphs[at] != 0 ==> step == SearchStep::Found(
                at as u16,
                glyphs[at],
            )
            &&& at < faces.len() && glyphs[at] == 0 ==> step == search(
                faces,
                candidates,
                from + 1,
                glyphs,
            )
        },
        from >= candidates.len() ==> match covering(faces, None, glyphs) {
            Some((i, glyph)) => search(faces, candidates, from as int, glyphs) == SearchStep::Found(
                i as u16,
                glyph,
            ),
            None => search(faces, candidates, from as int, glyphs) == SearchStep::Nothing,
        },
{
    if from < candidates.len() {
        law_faces_are_found(faces, candidates[from as int]);
    }
}

/// How glyphs are loaded: without hints, or with those for the target.
pub proof fn law_ways_to_load(c: FreeTypeConfig)
    ensures
        c.load_flags == FreeTypeLoadFlags::NoHinting ==> c.load_bits() == 2,
        c.load_flags == FreeTypeLoadFlags::Default ==> {
            &&& c.load_target == FreeTypeLoadTarget::Normal ==> c.load_bits() == 0
            &&& c.load_target == FreeTypeLoadTarget::Light ==> c.load_bits() == 1 * 65536
            &&& c.load_target == FreeTypeLoadTarget::Mono ==> c.load_bits() == 2 * 65536
            &&& c.load_target == FreeTypeLoadTarget::HorizontalLcd ==> c.load_bits() == 3 * 65536
        },
{
}

/// How glyphs are drawn: for the target, but for stripes of color only where those are preferred.
pub proof fn law_ways_to_draw(c: FreeTypeConfig, stripes: bool)
    ensures
        c.render_target == FreeTypeRenderTarget::Normal ==> c.mode_for(stripes)
            == RenderMode::Normal,
        c.render_target == FreeTypeRenderTarget::Light ==> c.mode_for(stripes) == RenderMode::Light,
        c.render_target == FreeTypeRenderTarget::Mono ==> c.mode_for(stripes) == RenderMode::Mono,
        c.render_target == FreeTypeRenderTarget::HorizontalLcd ==> c.mode_for(true)
            == RenderMode::Lcd && c.mode_for(false) == RenderMode::Normal,
{
}

/// A bitmap of stripes has a pixel for every three bytes of a row, and at least one; any other has
/// one for each.
pub proof fn law_columns_of_bitmaps(b: GlyphBitmap)
    ensures
        b.mode != PixelMode::Lcd ==> b.columns() == b.width,
        b.mode == PixelMode::Lcd && b.width >= 3 ==> 3 * b.columns() <= b.width < 3 * b.columns()
            + 3,
        b.mode == PixelMode::Lcd && b.width < 3 ==> b.columns() == 1,
        columns_in(b.mode, b.width as int) == b.columns(),
{
}

/// A gray pixel shows its coverage on all channels by the transfer curve and keeps it as opacity; a
/// pixel of stripes has a coverage for each channel, in either order, and is as opaque as the most
/// covered of them. Rows follow each other by the pitch, from the bottom where that is negative.
pub proof fn law_pixels_of_bitmaps(b: GlyphBitmap, bgr: bool, y: int, x: int)
    requires
        0 <= y < b.rows,
        0 <= x,
    ensures
        ({
            let row = if b.pitch >= 0 {
                y * b.pitch
            } else {
                (b.rows - 1 - y) * (0 - b.pitch)
            };
            let curve = |v: u8| LINEAR_TO_SRGB@[v as int];
            let p = b.pixel(bgr, y, x);
            &&& b.mode == PixelMode::Gray && row + x < b.buffer@.len() ==> {
                let v = b.buffer@[row + x];
                p.r == curve(v) && p.g == curve(v) && p.b == curve(v) && p.a == v
            }
            &&& b.mode == PixelMode::Lcd && row + 3 * x + 2 < b.buffer@.len() ==> {
                let i = row + 3 * x;
                let (u, v, w) = (b.buffer@[i], b.buffer@[i + 1], b.buffer@[i + 2]);
                &&& !bgr ==> p.r == curve(u) && p.b == curve(w)
                &&& bgr ==> p.r == curve(w) && p.b == curve(u)
                &&& p.g == curve(v)
                &&& p.a >= u && p.a >= v && p.a >= w && (p.a == u || p.a == v || p.a == w)
            }
            &&& b.mode == PixelMode::Mono && row + x / 8 < b.buffer@.len() ==> {
                let on = bit_set(b.buffer@[row + x / 8], x % 8);
                &&& on ==> p.r == 255 && p.g == 255 && p.b == 255 && p.a == 255
                &&& !on ==> p.r == 0 && p.g == 0 && p.b == 0 && p.a == 0
            }
            &&& b.mode != PixelMode::Lcd && b.mode != PixelMode::Mono && row + x >= b.buffer@.len()
                ==> p.r == 0 && p.g == 0 && p.b == 0 && p.a == 0
        }),
{
    assert(b.row_start(y) == (if b.pitch >= 0 {
        y * b.pitch
    } else {
        (b.rows - 1 - y) * (0 - b.pitch)
    }));
}

/// The first pixel of a byte of single bits is its highest bit, and the last its lowest.
pub proof fn law_bits_of_bitmaps(b: u8)
    ensures
        bit_set(b, 0) <==> b >= 128,
        bit_set(b, 7) <==> b % 2 == 1,
        bit_set(0x40, 1) && bit_set(0x20, 2) && bit_set(0x10, 3),
        bit_set(0x08, 4) && bit_set(0x04, 5) && bit_set(0x02, 6),
        !bit_set(0xbf, 1) && !bit_set(0xdf, 2) && !bit_set(0xef, 3),
        !bit_set(0xf7, 4) && !bit_set(0xfb, 5) && !bit_set(0xfd, 6),
{
}

/// Sixty-four parts make a pixel, and a pixel that is begun counts.
pub proof fn law_whole_pixels(n: int)
    ensures
        64 * pixels_for(n) - 64 < n <= 64 * pixels_for(n),
{
}

/// The size of a cell in pixels: the width is the advance of the digit zero, the height is that of
/// a line, or from its top to its bottom where no height is given, and the ascent is that of the
/// line. What the face does not tell is taken from elsewhere.
pub proof fn law_cells_are_measured(a: i64, l: LineUnits, f: CellMetrics)
    requires
        l.ascender - l.descender >= 1,
        -0x4000_0000 < l.ascender < 0x4000_0000,
        l.descender > -0x4000_0000,
        a < 0x4000_0000,
        l.height < 0x4000_0000,
    ensures
        ({
            let m = measured(Some(a), Some(l), f);
            &&& a > 0 ==> 64 * m.cell_width - 64 < a <= 64 * m.cell_width
            &&& a <= 0 ==> m.cell_width == f.cell_width
            &&& l.height > 0 ==> 64 * m.cell_height - 64 < l.height <= 64 * m.cell_height
            &&& l.height <= 0 ==> 64 * m.cell_height - 64 < l.ascender - l.descender <= 64
                * m.cell_height
            &&& 64 * m.ascent - 64 < l.ascender <= 64 * m.ascent
        }),
        measured(None, None, f) == f,
        measured(None, Some(l), f).cell_width == f.cell_width,
        measured(Some(a), None, f).cell_height == f.cell_height,
        measured(Some(a), None, f).ascent == f.ascent,
{
}

/// A size is at least one pixel, and the number of a glyph is its lower two bytes.
pub proof fn law_sizes_and_numbers_of_glyphs(size: u32, g: u32)
    ensures
        size >= 64 ==> active_size(size) == size,
        size < 64 ==> active_size(size) == 64,
        g <= 65535 ==> found_glyph(Some(g)) == g,
        found_glyph(None) == 0,
{
}

/// A picture is shown where it has pixels, and no more of them than can be counted.
pub proof fn law_pictures_that_are_shown(mode: PixelMode, shape: BitmapShape)
    ensures
        has_picture(mode, shape) <==> {
            &&& shape.width > 0 && shape.rows > 0
            &&& columns_in(mode, shape.width as int) * shape.rows * 4 <= u32::MAX
            &&& shape.top - shape.rows >= i32::MIN
            &&& shape.pitch > i32::MIN
            &&& shape.pitch >= 0 ==> shape.rows * shape.pitch <= i32::MAX
            &&& shape.pitch < 0 ==> shape.rows * (0 - shape.pitch) <= i32::MAX
        },
{
}

/// What is drawn is shown as it is: as many pixels wide and high, at its place, with the pixels of
/// the bitmap; where nothing is drawn, or more than is shown, the glyph is empty.
pub proof fn law_drawings_are_shown(r: RasterizedGlyph, d: DrawnBitmap, bgr: bool)
    ensures
        shows(r, None, bgr) ==> r.width == 0 && r.height == 0 && r.pixels@.len() == 0,
        !has_picture(d.pixels, d.shape) && shows(r, Some(d), bgr) ==> r.width == 0 && r.height == 0
            && r.pixels@.len() == 0,
        has_picture(d.pixels, d.shape) && shows(r, Some(d), bgr) ==> {
            let b = GlyphBitmap {
                mode: d.pixels,
                width: d.shape.width as u32,
                rows: d.shape.rows as u32,
                pitch: d.shape.pitch,
                left: d.shape.left,
                top: d.shape.top,
                buffer: d.buffer,
            };
            &&& r.width == columns_in(d.pixels, d.shape.width as int)
            &&& r.height == d.shape.rows
            &&& r.offset_x == d.shape.left
            &&& r.offset_y == d.shape.top - d.shape.rows
            &&& r.pitch == 4 * r.width
            &&& r.pixels@ == picture(&b, bgr, r.width * r.height)
        },
{
}

/// To measure a cell, the face is asked for the digit zero without hints, and for its line, both at
/// the size.
pub proof fn law_cells_are_measured_by_the_digit_zero(
    bytes: Seq<u8>,
    index: u32,
    size: u32,
    m: Measurement,
)
    requires
        size >= 64,
        asked_for_cell(bytes, index, size, m),
    ensures
        told_char(bytes, index, '0', m.zero),
        told_load(
            bytes,
            index,
            GlyphRequest {
                size,
                glyph: if m.zero is Some {
                    m.zero->0
                } else {
                    0
                },
                flags: 2,
            },
            m.advance is Some,
        ),
        told_line(bytes, index, size, m.line),
{
}

/// To draw a glyph, the face is asked for it at the size, loaded and drawn as the settings say, and
/// for its bitmap where it is shown.
pub proof fn law_glyphs_are_asked_for(
    bytes: Seq<u8>,
    index: u32,
    glyph: u32,
    size: u32,
    flags: i32,
    mode: RenderMode,
    d: Drawing,
)
    requires
        size >= 64,
        asked_for_glyph(bytes, index, glyph_request(glyph, size, flags), mode, d),
    ensures
        ({
            let request = GlyphRequest { size, glyph, flags };
            &&& told_size(bytes, index, size, d.sized)
            &&& told_load(bytes, index, request, d.loaded)
            &&& d.loaded ==> told_render(bytes, index, request, mode, d.drawn)
            &&& d.bitmap is Some ==> {
                let b = d.bitmap->0;
                &&& d.loaded && d.drawn
                &&& told_mode(bytes, index, request, mode, b.pixels)
                &&& told_shape(bytes, index, request, mode, b.shape)
                &&& told_buffer(bytes, index, request, mode, b.buffer@)
            }
            &&& d.bitmap is None && d.drawn ==> d.shape is Some && {
                let (pixels, shape) = d.shape->0;
                &&& told_mode(bytes, index, request, mode, pixels)
                &&& told_shape(bytes, index, request, mode, shape)
                &&& !has_picture(pixels, shape)
            }
        }),
{
}

/// A file that is no collection, and a part of a character map without a table of groups, are always
/// read; a collection is read where its list of faces and the directory of the face can be counted.
pub proof fn law_files_that_are_read(bytes: Seq<u8>, index: u32)
    ensures
        bytes.len() < 12 || be32(bytes, 0) != tag('t', 't', 'c', 'f') ==> header_is_sound(
            bytes,
            index,
        ),
        bytes.len() >= 12 && be32(bytes, 0) == tag('t', 't', 'c', 'f') && header_is_sound(
            bytes,
            index,
        ) ==> {
            let n = be32(bytes, 8);
            let at = be32(bytes, 12 + 4 * index);
            &&& 12 + 4 * n <= u32::MAX
            &&& 12 + 4 * n <= bytes.len() && index < n && at <= bytes.len() ==> at + 6 <= u32::MAX
            &&& 12 + 4 * n <= bytes.len() && index < n && at + 6 <= bytes.len() ==> at + 12 + 16
                * be16(bytes, at + 4) <= u32::MAX
        },
{
}

/// The groups of a part of a character map come behind its head, in entries of the length that its
/// format has.
pub proof fn law_parts_that_are_read(part: Seq<u8>)
    requires
        part.len() >= 20,
    ensures
        be16(part, 0) == 10 ==> part_end(part) == 20 + 2 * be32(part, 16),
        be16(part, 0) == 12 || be16(part, 0) == 13 ==> part_end(part) == 16 + 12 * be32(part, 12),
        be16(part, 0) == 14 ==> part_end(part) == 10 + 11 * be32(part, 6),
        be16(part, 0) < 10 || be16(part, 0) == 11 ==> part_end(part) == 0,
{
}

/// The units of a face: a line is the ascent, the descent below the base line and the gap together.
pub proof fn law_units_of_faces(t: FontTables, advance: u16)
    ensures
        t.units_per_em == 0 ==> units_in(Some(t), Some(advance)) is None,
        t.units_per_em > 0 ==> units_in(Some(t), Some(advance)) is Some && {
            let u = units_in(Some(t), Some(advance))->0;
            &&& u.units_per_em == t.units_per_em
            &&& u.line == t.ascender - t.descender + t.line_gap
            &&& u.ascent == t.ascender
            &&& u.advance == advance
        },
        t.units_per_em > 0 ==> units_in(Some(t), None) is Some && units_in(Some(t), None)->0.advance
            == 0,
        units_in(None, Some(advance)) is None,
{
}

/// Numbers in font files have their most significant byte first.
pub proof fn law_numbers_in_font_files(s: Seq<u8>, at: int)
    ensures
        be16(s, at) == s[at] * 256 + s[at + 1],
        be32(s, at) == s[at] * 16777216 + s[at + 1] * 65536 + s[at + 2] * 256 + s[at + 3],
{
}

/// The number of a tag of four characters.
pub open spec fn tag(a: char, b: char, c: char, d: char) -> int {
    a as int * 16777216 + b as int * 65536 + c as int * 256 + d as int
}

/// The tables of a font are named by four characters each.
pub proof fn law_names_of_tables()
    ensures
        HEAD == tag('h', 'e', 'a', 'd'),
        HHEA == tag('h', 'h', 'e', 'a'),
        MAXP == tag('m', 'a', 'x', 'p'),
        HMTX == tag('h', 'm', 't', 'x'),
        OS2 == tag('O', 'S', '/', '2'),
        CMAP == tag('c', 'm', 'a', 'p'),
        FVAR == tag('f', 'v', 'a', 'r'),
        HVAR == tag('H', 'V', 'A', 'R'),
        MVAR == tag('M', 'V', 'A', 'R'),
{
}

/// A table is the stretch of the file that the last entry with its name tells, where that lies
/// within the file.
pub proof fn law_tables_lie_where_told(
    bytes: Seq<u8>,
    entries: Seq<TableEntry>,
    e: TableEntry,
    name: u32,
)
    ensures
        last_entry(Seq::empty(), name) is None,
        e.tag == name ==> last_entry(entries.push(e), name) == Some(e),
        e.tag != name ==> last_entry(entries.push(e), name) == last_entry(entries, name),
        last_entry(entries, name) is None ==> table_in(bytes, entries, name) is None,
        last_entry(entries, name) == Some(e) && e.offset + e.length > bytes.len() ==> table_in(
            bytes,
            entries,
            name,
        ) is None,
        last_entry(entries, name) == Some(e) && e.offset + e.length <= bytes.len() ==> table_in(
            bytes,
            entries,
            name,
        ) == Some(bytes.skip(e.offset as int).take(e.length as int)),
{
    assert(entries.push(e).drop_last() =~= entries);
    if e.offset + e.length <= bytes.len() {
        assert(bytes.skip(e.offset as int).take(e.length as int) =~= bytes.subrange(
            e.offset as int,
            e.offset + e.length,
        ));
    }
}

/// The parts of a character map are asked in turn: the first one for Unicode that has the character
/// gives its glyph, and the search ends with the last part.
pub proof fn law_parts_are_asked_in_turn(cmap: Seq<u8>, part: u16, c: char)
    requires
        part_is_sound(cmap, part),
    ensures
        mapped_glyph(cmap, part, c) is None ==> glyph_from(cmap, part as int, c) is None,
        mapped_glyph(cmap, part, c) matches Some(m) ==> {
            &&& m.unicode && m.glyph is Some ==> glyph_from(cmap, part as int, c) == m.glyph
            &&& !m.unicode || m.glyph is None ==> glyph_from(cmap, part as int, c) == glyph_from(
                cmap,
                part + 1,
                c,
            )
        },
{
}

/// Numbers in the cache have their least significant byte first.
pub proof fn law_numbers_in_the_cache(n: u32, m: u64)
    ensures
        le32(n).len() == 4,
        n == le32(n)[0] + le32(n)[1] * 256 + le32(n)[2] * 65536 + le32(n)[3] * 16777216,
        le64(m).len() == 8,
        m == le64(m)[0] + le64(m)[1] * 256 + le64(m)[2] * 65536 + le64(m)[3] * 16777216 + (
        le64(m)[4] + le64(m)[5] * 256 + le64(m)[6] * 65536 + le64(m)[7] * 16777216)
            * 0x1_0000_0000,
{
    reveal(le32);
    reveal(le64);
    let (lo, hi) = ((m % 0x1_0000_0000) as u32, (m / 0x1_0000_0000) as u32);
    assert(lo == le32(lo)[0] + le32(lo)[1] * 256 + le32(lo)[2] * 65536 + le32(lo)[3] * 16777216);
    assert(hi == le32(hi)[0] + le32(hi)[1] * 256 + le32(hi)[2] * 65536 + le32(hi)[3] * 16777216);
    assert(m == lo + hi * 0x1_0000_0000);
}

/// Numbers below zero are written as their bits: they count from the top.
pub proof fn law_signed_numbers_in_the_cache(n: i32, m: i64)
    ensures
        n >= 0 ==> unsigned32(n) == n,
        n < 0 ==> unsigned32(n) == 0x1_0000_0000 + n,
        m >= 0 ==> unsigned64(m) == m,
        m < 0 ==> unsigned64(m) == 0x1_0000_0000_0000_0000 + m,
{
}

/// A text in the cache is the number of its bytes and the bytes; a file is its path, the number of
/// the face, the time of its last change and its size.
pub proof fn law_records_in_the_cache(f: FileModel, more: Seq<FileModel>, t: Seq<char>)
    requires
        encode_utf8(t).len() <= u32::MAX,
    ensures
        text_bytes(t) == le32(encode_utf8(t).len() as u32) + encode_utf8(t),
        file_bytes(f) == text_bytes(f.path) + le32(f.index) + le64(unsigned64(f.mtime_secs)) + le32(
            f.mtime_nanos,
        ) + le64(f.file_size),
        files_bytes(Seq::empty()).len() == 0,
        files_bytes(seq![f] + more) == file_bytes(f) + files_bytes(more),
{
    reveal(text_bytes);
    reveal(file_bytes);
    assert(file_bytes(f) =~= text_bytes(f.path) + le32(f.index) + le64(unsigned64(f.mtime_secs))
        + le32(f.mtime_nanos) + le64(f.file_size));
    assert((seq![f] + more).drop_first() =~= more);
}

/// The cache is a mark of eight letters and the version one, the families, the size, whether stripes
/// are drawn, the primary face, the size of a cell, and the fallbacks.
pub proof fn law_layout_of_the_cache(c: CacheModel)
    requires
        c.families.len() <= u32::MAX,
        c.fallbacks.len() <= u32::MAX,
    ensures
        cache_bytes(c) == seq![0x46u8, 0x54, 0x54, 0x59, 0x46, 0x4f, 0x4e, 0x54] + seq![
            1u8,
            0,
            0,
            0,
        ] + le32(c.families.len() as u32) + texts_bytes(c.families) + le32(c.font_size) + seq![
            if c.subpixel {
                1u8
            } else {
                0u8
            },
        ] + file_bytes(c.primary) + le32(c.metrics.cell_width) + le32(c.metrics.cell_height) + le32(
            unsigned32(c.metrics.ascent),
        ) + le32(c.fallbacks.len() as u32) + files_bytes(c.fallbacks),
        MAX_ENTRIES == 64,
        MAX_NAME == 1024,
        MAX_PATH == 4096,
{
    assert(le32(1) =~= seq![1u8, 0, 0, 0]) by {
        reveal(le32);
    }
    assert(magic() =~= seq![0x46u8, 0x54, 0x54, 0x59, 0x46, 0x4f, 0x4e, 0x54]);
    let b = le32(c.families.len() as u32);
    let d = texts_bytes(c.families);
    let e = le32(c.font_size);
    let f = seq![
        if c.subpixel {
            1u8
        } else {
            0u8
        },
    ];
    let g = file_bytes(c.primary);
    let h = le32(c.metrics.cell_width);
    let i = le32(c.metrics.cell_height);
    let j = le32(unsigned32(c.metrics.ascent));
    let k = le32(c.fallbacks.len() as u32);
    let l = files_bytes(c.fallbacks);
    let a = magic();
    let v = le32(1);
    assert(cache_bytes(c) == a + (v + (b + (d + (e + (f + (g + (h + (i + (j + (k + l)))))))))));
    lemma_four(a, v, b, d + (e + (f + (g + (h + (i + (j + (k + l))))))));
    lemma_four(a + v + b, d, e, f + (g + (h + (i + (j + (k + l))))));
    lemma_four(a + v + b + d + e, f, g, h + (i + (j + (k + l))));
    lemma_four(a + v + b + d + e + f + g, h, i, j + (k + l));
    lemma_four(a + v + b + d + e + f + g + h + i, j, k, l);
}

proof fn lemma_four(a: Seq<u8>, b: Seq<u8>, c: Seq<u8>, d: Seq<u8>)
    ensures
        a + (b + (c + d)) == a + b + c + d,
{
    assert(a + (b + (c + d)) =~= a + b + c + d);
}

/// The cache lies in a directory of its own below the directory for caches, or below `.cache` in the
/// home directory; an empty directory counts as none.
pub proof fn law_the_cache_file(xdg: Seq<char>, home: Option<Seq<char>>, h: Seq<char>)
    requires
        xdg.len() > 0,
        h.len() > 0,
    ensures
        cache_path(Some(xdg), home) == Some(
            joined_path(joined_path(xdg, "ftty"@), "font_cache.bin"@),
        ),
        cache_path(None, Some(h)) == Some(
            joined_path(joined_path(joined_path(h, ".cache"@), "ftty"@), "font_cache.bin"@),
        ),
        cache_path(Some(Seq::empty()), Some(h)) == cache_path(None, Some(h)),
        cache_path(None, None) is None,
        cache_path(Some(Seq::empty()), Some(Seq::empty())) is None,
{
}

/// The twelfth power of a number.
pub open spec fn twelfth(n: int) -> int {
    let square = n * n;
    let fourth = square * square;
    fourth * fourth * fourth
}

/// The fifth power of a number.
pub open spec fn fifth(n: int) -> int {
    let square = n * n;
    square * square * n
}

/// Whether a brightness is that of the standard curve for a coverage, rounded: the curve raises the
/// coverage to the power of five twelfths, scales it by 1055 to 1000 and takes 55 thousandths off,
/// and a brightness stands for what is nearest to it.
pub open spec fn on_the_curve(coverage: int, brightness: int) -> bool {
    &&& twelfth(40 * brightness + 541) * fifth(255) <= fifth(coverage) * twelfth(10761)
    &&& fifth(coverage) * twelfth(10761) < twelfth(40 * brightness + 581) * fifth(255)
}

/// Brightnesses of the transfer curve, for some coverages.
proof fn lemma_curve_from_1(i: int)
    requires
        1 <= i < 32,
    ensures
        on_the_curve(i, LINEAR_TO_SRGB@[i] as int),
{
    assert(on_the_curve(1, 13) && on_the_curve(2, 22) && on_the_curve(3, 28) && on_the_curve(4, 34)
        && on_the_curve(5, 38) && on_the_curve(6, 42) && on_the_curve(7, 46) && on_the_curve(8, 50)
        && on_the_curve(9, 53) && on_the_curve(10, 56) && on_the_curve(11, 59) && on_the_curve(12, 61)
        && on_the_curve(13, 64) && on_the_curve(14, 66) && on_the_curve(15, 69) && on_the_curve(16, 71)
        && on_the_curve(17, 73) && on_the_curve(18, 75) && on_the_curve(19, 77) && on_the_curve(20, 79)
        && on_the_curve(21, 81) && on_the_curve(22, 83) && on_the_curve(23, 85) && on_the_curve(24, 86)
        && on_the_curve(25, 88) && on_the_curve(26, 90) && on_the_curve(27, 92) && on_the_curve(28, 93)
        && on_the_curve(29, 95) && on_the_curve(30, 96) && on_the_curve(31, 98)) by (nonlinear_arith);
}

/// Brightnesses of the transfer curve, for some coverages.
proof fn lemma_curve_from_32(i: int)
    requires
        32 <= i < 64,
    ensures
        on_the_curve(i, LINEAR_TO_SRGB@[i] as int),
{
    assert(on_the_curve(32, 99) && on_the_curve(33, 101) && on_the_curve(34, 102) && on_the_curve(35, 104)
        && on_the_curve(36, 105) && on_the_curve(37, 106) && on_the_curve(38, 108) && on_the_curve(39, 109)
        && on_the_curve(40, 110) && on_the_curve(41, 112) && on_the_curve(42, 113) && on_the_curve(43, 114)
        && on_the_curve(44, 115) && on_the_curve(45, 117) && on_the_curve(46, 118) && on_the_curve(47, 119)
        && on_the_curve(48, 120) && on_the_curve(49, 121) && on_the_curve(50, 122) && on_the_curve(51, 124)
        && on_the_curve(52, 125) && on_the_curve(53, 126) && on_the_curve(54, 127) && on_the_curve(55, 128)
        && on_the_curve(56, 129) && on_the_curve(57, 130) && on_the_curve(58, 131) && on_the_curve(59, 132)
        && on_the_curve(60, 133) && on_the_curve(61, 134) && on_the_curve(62, 135) && on_the_curve(63, 136)) by (nonlinear_arith);
}

/// Brightnesses of the transfer curve, for some coverages.
proof fn lemma_curve_from_64(i: int)
    requires
        64 <= i < 96,
    ensures
        on_the_curve(i, LINEAR_TO_SRGB@[i] as int),
{
    assert(on_the_curve(64, 137) && on_the_curve(65, 138) && on_the_curve(66, 139) && on_the_curve(67, 140)
        && on_the_curve(68, 141) && on_the_curve(69, 142) && on_the_curve(70, 143) && on_the_curve(71, 144)
        && on_the_curve(72, 145) && on_the_curve(73, 146) && on_the_curve(74, 147) && on_the_curve(75, 148)
        && on_the_curve(76, 148) && on_the_curve(77, 149) && on_the_curve(78, 150) && on_the_curve(79, 151)
        && on_the_curve(80, 152) && on_the_curve(81, 153) && on_the_curve(82, 154) && on_the_curve(83, 155)
        && on_the_curve(84, 155) && on_the_curve(85, 156) && on_the_curve(86, 157) && on_the_curve(87, 158)
        && on_the_curve(88, 159) && on_the_curve(89, 159) && on_the_curve(90, 160) && on_the_curve(91, 161)
        && on_the_curve(92, 162) && on_the_curve(93, 163) && on_the_curve(94, 163) && on_the_curve(95, 164)) by (nonlinear_arith);
}

/// Brightnesses of the transfer curve, for some coverages.
proof fn lemma_curve_from_96(i: int)
    requires
        96 <= i < 128,
    ensures
        on_the_curve(i, LINEAR_TO_SRGB@[i] as int),
{
    assert(on_the_curve(96, 165) && on_the_curve(97, 166) && on_the_curve(98, 167) && on_the_curve(99, 167)
        && on_the_curve(100, 168) && on_the_curve(101, 169) && on_the_curve(102, 170) && on_the_curve(103, 170)
        && on_the_curve(104, 171) && on_the_curve(105, 172) && on_the_curve(106, 173) && on_the_curve(107, 173)
        && on_the_curve(108, 174) && on_the_curve(109, 175) && on_the_curve(110, 175) && on_the_curve(111, 176)
        && on_the_curve(112, 177) && on_the_curve(113, 178) && on_the_curve(114, 178) && on_the_curve(115, 179)
        && on_the_curve(116, 180) && on_the_curve(117, 180) && on_the_curve(118, 181) && on_the_curve(119, 182)
        && on_the_curve(120, 182) && on_the_curve(121, 183) && on_the_curve(122, 184) && on_the_curve(123, 185)
        && on_the_curve(124, 185) && on_the_curve(125, 186) && on_the_curve(126, 187) && on_the_curve(127, 187)) by (nonlinear_arith);
}

/// Brightnesses of the transfer curve, for some coverages.
proof fn lemma_curve_from_128(i: int)
    requires
        128 <= i < 160,
    ensures
        on_the_curve(i, LINEAR_TO_SRGB@[i] as int),
{
    assert(on_the_curve(128, 188) && on_the_curve(129, 189) && on_the_curve(130, 189) && on_the_curve(131, 190)
        && on_the_curve(132, 190) && on_the_curve(133, 191) && on_the_curve(134, 192) && on_the_curve(135, 192)
        && on_the_curve(136, 193) && on_the_curve(137, 194) && on_the_curve(138, 194) && on_the_curve(139, 195)
        && on_the_curve(140, 196) && on_the_curve(141, 196) && on_the_curve(142, 197) && on_the_curve(143, 197)
        && on_the_curve(144, 198) && on_the_curve(145, 199) && on_the_curve(146, 199) && on_the_curve(147, 200)
        && on_the_curve(148, 200) && on_the_curve(149, 201) && on_the_curve(150, 202) && on_the_curve(151, 202)
        && on_the_curve(152, 203) && on_the_curve(153, 203) && on_the_curve(154, 204) && on_the_curve(155, 205)
        && on_the_curve(156, 205) && on_the_curve(157, 206) && on_the_curve(158, 206) && on_the_curve(159, 207)) by (nonlinear_arith);
}

/// Brightnesses of the transfer curve, for some coverages.
proof fn lemma_curve_from_160(i: int)
    requires
        160 <= i < 192,
    ensures
        on_the_curve(i, LINEAR_TO_SRGB@[i] as int),
{
    assert(on_the_curve(160, 208) && on_the_curve(161, 208) && on_the_curve(162, 209) && on_the_curve(163, 209)
        && on_the_curve(164, 210) && on_the_curve(165, 210) && on_the_curve(166, 211) && on_the_curve(167, 212)
        && on_the_curve(168, 212) && on_the_curve(169, 213) && on_the_curve(170, 213) && on_the_curve(171, 214)
        && on_the_curve(172, 214) && on_the_curve(173, 215) && on_the_curve(174, 215) && on_the_curve(175, 216)
        && on_the_curve(176, 216) && on_the_curve(177, 217) && on_the_curve(178, 218) && on_the_curve(179, 218)
        && on_the_curve(180, 219) && on_the_curve(181, 219) && on_the_curve(182, 220) && on_the_curve(183, 220)
        && on_the_curve(184, 221) && on_the_curve(185, 221) && on_the_curve(186, 222) && on_the_curve(187, 222)
        && on_the_curve(188, 223) && on_the_curve(189, 223) && on_the_curve(190, 224) && on_the_curve(191, 224)) by (nonlinear_arith);
}

/// Brightnesses of the transfer curve, for some coverages.
proof fn lemma_curve_from_192(i: int)
    requires
        192 <= i < 224,
    ensures
        on_the_curve(i, LINEAR_TO_SRGB@[i] as int),
{
    assert(on_the_curve(192, 225) && on_the_curve(193, 226) && on_the_curve(194, 226) && on_the_curve(195, 227)
        && on_the_curve(196, 227) && on_the_curve(197, 228) && on_the_curve(198, 228) && on_the_curve(199, 229)
        && on_the_curve(200, 229) && on_the_curve(201, 230) && on_the_curve(202, 230) && on_the_curve(203, 231)
        && on_the_curve(204, 231) && on_the_curve(205, 232) && on_the_curve(206, 232) && on_the_curve(207, 233)
        && on_the_curve(208, 233) && on_the_curve(209, 234) && on_the_curve(210, 234) && on_the_curve(211, 235)
        && on_the_curve(212, 235) && on_the_curve(213, 236) && on_the_curve(214, 236) && on_the_curve(215, 237)
        && on_the_curve(216, 237) && on_the_curve(217, 238) && on_the_curve(218, 238) && on_the_curve(219, 238)
        && on_the_curve(220, 239) && on_the_curve(221, 239) && on_the_curve(222, 240) && on_the_curve(223, 240)) by (nonlinear_arith);
}

/// Brightnesses of the transfer curve, for some coverages.
proof fn lemma_curve_from_224(i: int)
    requires
        224 <= i < 256,
    ensures
        on_the_curve(i, LINEAR_TO_SRGB@[i] as int),
{
    assert(on_the_curve(224, 241) && on_the_curve(225, 241) && on_the_curve(226, 242) && on_the_curve(227, 242)
        && on_the_curve(228, 243) && on_the_curve(229, 243) && on_the_curve(230, 244) && on_the_curve(231, 244)
        && on_the_curve(232, 245) && on_the_curve(233, 245) && on_the_curve(234, 246) && on_the_curve(235, 246)
        && on_the_curve(236, 246) && on_the_curve(237, 247) && on_the_curve(238, 247) && on_the_curve(239, 248)
        && on_the_curve(240, 248) && on_the_curve(241, 249) && on_the_curve(242, 249) && on_the_curve(243, 250)
        && on_the_curve(244, 250) && on_the_curve(245, 251) && on_the_curve(246, 251) && on_the_curve(247, 251)
        && on_the_curve(248, 252) && on_the_curve(249, 252) && on_the_curve(250, 253) && on_the_curve(251, 253)
        && on_the_curve(252, 254) && on_the_curve(253, 254) && on_the_curve(254, 255) && on_the_curve(255, 255)) by (nonlinear_arith);
}

/// Coverage becomes brightness by the standard curve, to the nearest step, and no coverage stays
/// black.
pub proof fn law_brightness_follows_the_standard_curve(i: int)
    requires
        0 <= i < 256,
    ensures
        i > 0 ==> on_the_curve(i, LINEAR_TO_SRGB@[i] as int),
        i == 0 ==> LINEAR_TO_SRGB@[i] == 0,
{
    if i == 0 {
    } else if i < 32 {
        lemma_curve_from_1(i);
    } else if i < 64 {
        lemma_curve_from_32(i);
    } else if i < 96 {
        lemma_curve_from_64(i);
    } else if i < 128 {
        lemma_curve_from_96(i);
    } else if i < 160 {
        lemma_curve_from_128(i);
    } else if i < 192 {
        lemma_curve_from_160(i);
    } else if i < 224 {
        lemma_curve_from_192(i);
    } else {
        lemma_curve_from_224(i);
    }
}

} // verus!
