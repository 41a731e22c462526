//! Glyph selection and storage: which face renders a character, the atlas that keeps rendered
//! glyphs, and the cache of resolved font files.

pub mod atlas;
pub mod cache;
pub mod engine;
pub mod face;
pub mod fallback;
pub mod laws;
pub mod render;
pub mod tables;

use crate::grid::CellFlags;
use crate::text;
use vstd::prelude::*;

pub use atlas::{CachedGlyph, GlyphAtlas, MAX_ATLAS_SIZE};
pub use face::RasterizedGlyph;

verus! {

/// The least font size, six, as the bit pattern of a single-precision number.
pub const MIN_FONT_SIZE: u32 = 0x40c0_0000;

/// The greatest font size, seventy-two, as the bit pattern of a single-precision number.
pub const MAX_FONT_SIZE: u32 = 0x4290_0000;

/// Cell size and baseline alignment metrics for the active font and font size.
#[derive(Debug, Clone, Copy, PartialEq, Eq, Structural)]
pub struct CellMetrics {
    pub cell_width: u32,
    pub cell_height: u32,
    pub ascent: i32,
}

/// Tells whether a font size, given as a bit pattern, is a number between the least and the
/// greatest. The patterns of positive numbers are ordered as the numbers are.
pub fn is_valid_font_size(bits: u32) -> (r: bool)
    ensures
        r == (MIN_FONT_SIZE <= bits <= MAX_FONT_SIZE),
{
    MIN_FONT_SIZE <= bits && bits <= MAX_FONT_SIZE
}

/// Number of a style: one for bold and two for italic, added up.
pub open spec fn style_number(flags: CellFlags) -> u8 {
    let bold: u8 = if flags.has(CellFlags::bold()) {
        1
    } else {
        0
    };
    let italic: u8 = if flags.has(CellFlags::italic()) {
        2
    } else {
        0
    };
    (bold + italic) as u8
}

/// Number of a style: one for bold and two for italic, added up.
pub fn style_index(flags: CellFlags) -> (r: u8)
    ensures
        r == style_number(flags),
        r < 4,
{
    let bold: u8 = if flags.contains(CellFlags::bold()) {
        1
    } else {
        0
    };
    let italic: u8 = if flags.contains(CellFlags::italic()) {
        2
    } else {
        0
    };
    bold + italic
}

/// The style whose primary face stands in for that of a style that has none: bold for bold italic,
/// and the regular one for the others.
pub fn substitute_style(style: u8) -> (r: u8)
    ensures
        r == (if style == 3 {
            1u8
        } else {
            0u8
        }),
{
    if style == 3 {
        1
    } else {
        0
    }
}

/// The names under which a font is looked for: the configured one, unless it says nothing or cannot
/// be passed on, and behind it any monospace font.
pub open spec fn names_for(family: Seq<char>) -> Seq<Seq<char>> {
    let name = text::trimmed(family);
    if name.len() == 0 || text::lowered(name) == "monospace"@ || name.contains('\0') {
        seq!["monospace"@]
    } else {
        seq![name, "monospace"@]
    }
}

/// The names under which a font is looked for, best first.
pub fn family_names(family: &str) -> (r: Vec<String>)
    ensures
        text::texts(r@) == names_for(family@),
{
    let raw: Vec<char> = text::chars_of(family);
    let name: Vec<char> = text::trim(raw.as_slice());
    let low: Vec<char> = text::lower_chars(&name);
    let mut bare: bool = name.len() == 0 || text::spells(&low, "monospace");
    let mut i: usize = 0;
    let ghost plain = !bare;
    while i < name.len()
        invariant
            i <= name@.len(),
            bare == (!plain || name@.take(i as int).contains('\0')),
        decreases name@.len() - i,
    {
        let ghost before = name@.take(i as int);
        if name[i] == '\0' {
            bare = true;
        }
        proof {
            assert(name@.take(i + 1) =~= before.push(name@[i as int]));
            vstd::seq_lib::lemma_seq_contains_after_push(before, name@[i as int], '\0');
        }
        i += 1;
    }
    assert(name@.take(i as int) =~= name@);
    let mut out: Vec<String> = Vec::new();
    if !bare {
        out.push(text::string_of(name.as_slice()));
    }
    out.push("monospace".to_string());
    assert(text::texts(out@) =~= names_for(family@));
    out
}

/// Stable identity of a rasterized glyph: which face supplied it and in which style.
#[derive(Debug, Clone, Copy, PartialEq, Eq, Structural)]
pub struct FaceKey {
    /// Zero is the styled primary face; then come the configured fallbacks, then those discovered.
    pub face: u16,
    pub glyph: u16,
    pub style: u8,
}

/// Where a face is found.
#[derive(Debug, Clone, Copy, PartialEq, Eq, Structural)]
pub enum FaceSource {
    Primary,
    /// A configured fallback.
    Configured(u16),
    /// A discovered fallback.
    Discovered(u16),
}

/// The first face of a chain that has a glyph. Glyph zero is none.
pub open spec fn first_covering(glyphs: Seq<u16>) -> Option<int>
    decreases glyphs.len(),
{
    if glyphs.len() == 0 {
        None
    } else if glyphs[0] != 0 {
        Some(0)
    } else {
        match first_covering(glyphs.drop_first()) {
            Some(i) => Some(i + 1),
            None => None,
        }
    }
}

/// The key of a character whose glyphs in the primary face and the configured fallbacks are given,
/// if one of them has any.
pub open spec fn chain_key(style: u8, primary: u16, fallbacks: Seq<u16>) -> Option<FaceKey> {
    if primary != 0 {
        Some(FaceKey { face: 0, glyph: primary, style })
    } else {
        match first_covering(fallbacks) {
            Some(i) => Some(FaceKey { face: (i + 1) as u16, glyph: fallbacks[i], style }),
            None => None,
        }
    }
}

/// The key of a character that no configured face has, given the face and glyph that were
/// discovered for it.
pub open spec fn fallback_key(style: u8, configured: int, found: Option<(u16, u16)>) -> FaceKey {
    match found {
        Some((face, glyph)) => FaceKey { face: (1 + configured + face) as u16, glyph, style },
        None => FaceKey { face: 0, glyph: 0, style },
    }
}

/// Where the face of a key is found, next to a number of configured fallbacks.
pub open spec fn source_of(face: u16, configured: int) -> FaceSource {
    if face == 0 {
        FaceSource::Primary
    } else if face <= configured {
        FaceSource::Configured((face - 1) as u16)
    } else {
        FaceSource::Discovered((face - 1 - configured) as u16)
    }
}

/// Resolves a character to a configured face that can render it.
pub fn configured_key(style: u8, primary: u16, fallbacks: &Vec<u16>) -> (r: Option<FaceKey>)
    requires
        fallbacks@.len() < u16::MAX,
    ensures
        r == chain_key(style, primary, fallbacks@),
{
    if primary != 0 {
        return Some(FaceKey { face: 0, glyph: primary, style });
    }
    let mut i: usize = 0;
    assert(fallbacks@.skip(0) =~= fallbacks@);
    while i < fallbacks.len()
        invariant
            i <= fallbacks@.len(),
            fallbacks@.len() < u16::MAX,
            primary == 0,
            first_covering(fallbacks@) == (match first_covering(fallbacks@.skip(i as int)) {
                Some(k) => Some(k + i),
                None => None,
            }),
        decreases fallbacks@.len() - i,
    {
        assert(fallbacks@.skip(i as int)[0] == fallbacks@[i as int]);
        if fallbacks[i] != 0 {
            return Some(FaceKey { face: (i + 1) as u16, glyph: fallbacks[i], style });
        }
        assert(fallbacks@.skip(i as int).drop_first() =~= fallbacks@.skip(i + 1));
        i += 1;
    }
    None
}

/// Resolves a character that no configured face has.
pub fn discovered_key(style: u8, configured: u16, found: Option<(u16, u16)>) -> (r: FaceKey)
    requires
        match found {
            Some((face, _)) => 1 + configured + face <= u16::MAX,
            None => true,
        },
    ensures
        r == fallback_key(style, configured as int, found),
{
    match found {
        Some((face, glyph)) => FaceKey { face: 1 + configured + face, glyph, style },
        None => FaceKey { face: 0, glyph: 0, style },
    }
}

/// Finds the face of a key, next to a number of configured fallbacks.
pub fn face_source(face: u16, configured: u16) -> (r: FaceSource)
    ensures
        r == source_of(face, configured as int),
{
    if face == 0 {
        FaceSource::Primary
    } else if face <= configured {
        FaceSource::Configured(face - 1)
    } else {
        FaceSource::Discovered(face - 1 - configured)
    }
}

/// The first covering face is within the chain and has a glyph, and none before it has.
proof fn lemma_first_covering(glyphs: Seq<u16>)
    ensures
        match first_covering(glyphs) {
            Some(i) => 0 <= i < glyphs.len() && glyphs[i] != 0 && (forall|j: int|
                0 <= j < i ==> glyphs[j] == 0),
            None => forall|j: int| 0 <= j < glyphs.len() ==> glyphs[j] == 0,
        },
    decreases glyphs.len(),
{
    if glyphs.len() > 0 && glyphs[0] == 0 {
        let rest = glyphs.drop_first();
        lemma_first_covering(rest);
        assert forall|j: int|
            0 <= j < (match first_covering(glyphs) {
                Some(i) => i,
                None => glyphs.len() as int,
            }) implies glyphs[j] == 0 by {
            if j > 0 {
                assert(rest[j - 1] == glyphs[j]);
            }
        }
    }
}

/// A key leads back to the face whose glyph it holds: the primary face first, then the configured
/// fallbacks in order, then the one that was discovered.
pub proof fn law_keys_find_their_face(
    style: u8,
    primary: u16,
    fallbacks: Seq<u16>,
    found: (u16, u16),
)
    requires
        1 + fallbacks.len() + found.0 <= u16::MAX,
    ensures
        match chain_key(style, primary, fallbacks) {
            Some(key) => match source_of(key.face, fallbacks.len() as int) {
                FaceSource::Primary => key.glyph == primary && primary != 0,
                FaceSource::Configured(i) => primary == 0 && i < fallbacks.len() && key.glyph
                    == fallbacks[i as int] && key.glyph != 0,
                FaceSource::Discovered(_) => false,
            },
            None => source_of(
                fallback_key(style, fallbacks.len() as int, Some(found)).face,
                fallbacks.len() as int,
            ) == FaceSource::Discovered(found.0),
        },
{
    lemma_first_covering(fallbacks);
}

} // verus!
