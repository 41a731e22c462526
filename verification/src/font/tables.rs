//! The size of a cell in font units, straight from the tables of a font file.

use vstd::prelude::*;
use vstd::slice::slice_subrange;

verus! {

/// What the tables of a face say of its lines, in font units.
#[derive(Debug, Clone, Copy, PartialEq, Eq, Structural)]
pub struct FontTables {
    pub units_per_em: u16,
    pub ascender: i16,
    pub descender: i16,
    pub line_gap: i16,
}

/// An entry of the directory of a face: what a table is, where it begins in the file and how long
/// it is.
#[derive(Debug, Clone, Copy, PartialEq, Eq, Structural)]
pub struct TableEntry {
    pub tag: u32,
    pub offset: u32,
    pub length: u32,
}

/// What a part of a character map says of a character: whether the part is for Unicode, and the
/// glyph.
#[derive(Debug, Clone, Copy, PartialEq, Eq, Structural)]
pub struct Mapping {
    pub unicode: bool,
    pub glyph: Option<u16>,
}

pub const HEAD: u32 = 0x6865_6164;

pub const HHEA: u32 = 0x6868_6561;

pub const MAXP: u32 = 0x6d61_7870;

pub const HMTX: u32 = 0x686d_7478;

pub const OS2: u32 = 0x4f53_2f32;

pub const CMAP: u32 = 0x636d_6170;

pub const FVAR: u32 = 0x6676_6172;

pub const HVAR: u32 = 0x4856_4152;

pub const MVAR: u32 = 0x4d56_4152;

/// A name for the directory that `ttf_parser::RawFace::parse` finds for a face in a font file's
/// bytes: none where it is no font.
pub uninterp spec fn font_directory(bytes: Seq<u8>, index: u32) -> Option<Seq<TableEntry>>;

/// A name for what the getters of a face that `ttf_parser::Face::from_raw_tables` makes of tables
/// say of its lines: none where a table is no such table.
pub uninterp spec fn font_lines(
    head: Seq<u8>,
    hhea: Seq<u8>,
    maxp: Seq<u8>,
    os2: Option<Seq<u8>>,
    fvar: Option<Seq<u8>>,
    mvar: Option<Seq<u8>>,
) -> Option<FontTables>;

/// A name for what `ttf_parser::cmap::Subtables::get` and the part that it gives say of a
/// character, for one part of a character map: none where there is no such part.
pub uninterp spec fn mapped_glyph(cmap: Seq<u8>, part: u16, c: char) -> Option<Mapping>;

/// A name for the advance of a glyph that `ttf_parser::Face::glyph_hor_advance` reads of the tables
/// of a face.
pub uninterp spec fn font_advance(
    head: Seq<u8>,
    hhea: Seq<u8>,
    maxp: Seq<u8>,
    hmtx: Option<Seq<u8>>,
    fvar: Option<Seq<u8>>,
    hvar: Option<Seq<u8>>,
    glyph: u16,
) -> Option<u16>;

/// The number that two bytes give, most significant first.
pub open spec fn be16(s: Seq<u8>, at: int) -> int {
    256 * s[at] + s[at + 1]
}

/// The number that four bytes give, most significant first.
pub open spec fn be32(s: Seq<u8>, at: int) -> int {
    65536 * be16(s, at) + be16(s, at + 2)
}

/// The bytes of a table, if there is one.
pub open spec fn bytes_of(table: Option<&[u8]>) -> Option<Seq<u8>> {
    match table {
        Some(t) => Some(t@),
        None => None,
    }
}

/// Whether the directory of the face that begins at a place ends below four gigabytes, where
/// places can be counted.
pub open spec fn directory_ends(bytes: Seq<u8>, at: int) -> bool {
    at <= bytes.len() ==> {
        &&& at + 6 <= u32::MAX
        &&& at + 6 <= bytes.len() ==> at + 12 + 16 * be16(bytes, at + 4) <= u32::MAX
    }
}

/// Whether the header of a font file can be read: the list of faces of a collection, and the
/// directory of the face, end below four gigabytes. A file that is no collection always can.
pub open spec fn header_is_sound(bytes: Seq<u8>, index: u32) -> bool {
    bytes.len() >= 12 && be32(bytes, 0) == 0x7474_6366 ==> {
        let end = 12 + 4 * be32(bytes, 8);
        &&& end <= u32::MAX
        &&& end <= bytes.len() && index < be32(bytes, 8) ==> directory_ends(
            bytes,
            be32(bytes, 12 + 4 * index),
        )
    }
}

/// Where the list of a part of a character map ends, as a distance from the start of the part. Parts
/// without a long list end nowhere in particular.
pub open spec fn part_end(part: Seq<u8>) -> int {
    let format = be16(part, 0);
    if part.len() < 2 {
        0
    } else if format == 10 && part.len() >= 20 {
        20 + 2 * be32(part, 16)
    } else if (format == 12 || format == 13) && part.len() >= 16 {
        16 + 12 * be32(part, 12)
    } else if format == 14 && part.len() >= 10 {
        10 + 11 * be32(part, 6)
    } else {
        0
    }
}

/// Whether a part of a character map can be read: its list ends below four gigabytes.
pub open spec fn part_is_sound(cmap: Seq<u8>, part: u16) -> bool {
    cmap.len() >= 4 && 4 + 8 * be16(cmap, 2) <= cmap.len() && part < be16(cmap, 2) ==> {
        let at = be32(cmap, 8 + 8 * part);
        at <= cmap.len() ==> part_end(cmap.skip(at)) <= u32::MAX
    }
}

/// The least length of a table of Windows metrics of a known version.
pub open spec fn metrics_length(version: int) -> int {
    if version == 0 {
        78
    } else if version == 1 {
        86
    } else if version < 5 {
        96
    } else {
        100
    }
}

/// Whether the descender of a face would have to be taken from a Windows descent whose negation is
/// out of range: its own descender and the typographic one are zero, and the typographic one does
/// not count anyway.
pub open spec fn descent_overflows(hhea: Seq<u8>, os2: Option<Seq<u8>>) -> bool {
    match os2 {
        Some(t) => {
            &&& hhea.len() >= 8 && be16(hhea, 6) == 0
            &&& t.len() >= 78 && be16(t, 0) <= 5 && t.len() >= metrics_length(be16(t, 0))
            &&& be16(t, 70) == 0 && be16(t, 76) == 0x8000
            &&& !(be16(t, 0) >= 4 && (be16(t, 62) / 128) % 2 == 1)
        },
        None => false,
    }
}

/// How many bytes a row of deltas takes, by the number of its wide deltas, whose highest bit doubles
/// the width of all, and by the number of its regions.
pub open spec fn row_length(wide: int, regions: int) -> int {
    if wide >= 0x8000 {
        2 * (wide - 0x8000 + regions)
    } else {
        wide + regions
    }
}

/// Whether the deltas at a place of a store can be read: a row and the places of regions can be
/// counted in two bytes, and the rows end below four gigabytes.
pub open spec fn deltas_are_sound(store: Seq<u8>, at: int, axes: int) -> bool {
    at <= store.len() ==> {
        let regions = be16(store, at + 4);
        let row = row_length(be16(store, at + 2), regions);
        &&& at + 6 <= u32::MAX
        &&& at + 6 <= store.len() ==> {
            &&& row <= u16::MAX
            &&& at + 6 + 2 * regions + be16(store, at) * row <= u32::MAX
            &&& at + 6 + 2 * regions <= store.len() ==> places_are_counted(
                store,
                at + 6,
                regions,
                axes,
            )
        }
    }
}

/// Whether the places of regions that are listed somewhere can be counted in two bytes.
pub open spec fn places_are_counted(store: Seq<u8>, at: int, regions: int, axes: int) -> bool {
    forall|i: int| 0 <= i < regions ==> #[trigger] be16(store, at + 2 * i) * axes <= u16::MAX
}

/// Whether the first `n` lists of deltas of a store can be read.
pub open spec fn lists_are_sound(store: Seq<u8>, n: int, axes: int) -> bool {
    forall|i: int|
        0 <= i < n ==> deltas_are_sound(store, #[trigger] be32(store, 8 + 4 * i), axes)
}

/// Whether the store of variations at a place of a table can be read: its lists end below four
/// gigabytes, and so do the deltas.
pub open spec fn store_is_sound(table: Seq<u8>, at: int) -> bool {
    at <= table.len() ==> {
        let lists = be16(table, at + 6);
        let regions = at + be32(table, at + 2);
        &&& at + 8 <= u32::MAX
        &&& at + 8 <= table.len() && be16(table, at) == 1 ==> {
            &&& at + 8 + 4 * lists <= u32::MAX
            &&& regions + 4 <= u32::MAX
            &&& at + 8 + 4 * lists <= table.len() && regions + 4 <= table.len() ==> {
                let axes = be16(table, regions);
                let total = be16(table, regions + 2) * axes;
                total <= u16::MAX ==> {
                    &&& regions + 4 + 6 * total <= u32::MAX
                    &&& lists_are_sound(table.skip(at), lists, axes)
                }
            }
        }
    }
}

/// Whether a table of variations of advances can be read.
pub open spec fn advance_variations_are_sound(table: Seq<u8>) -> bool {
    table.len() >= 8 && be32(table, 0) == 0x1_0000 ==> store_is_sound(table, be32(table, 4))
}

/// Whether a table of variations of lines can be read.
pub open spec fn line_variations_are_sound(table: Seq<u8>) -> bool {
    table.len() >= 12 && be32(table, 0) == 0x1_0000 ==> store_is_sound(table, be16(table, 10))
}

/// What a list of entries holds, if there is one.
pub open spec fn entries_of(entries: Option<Vec<TableEntry>>) -> Option<Seq<TableEntry>> {
    match entries {
        Some(v) => Some(v@),
        None => None,
    }
}

/// Lists the tables of a face with `ttf_parser::RawFace::parse`. What it finds in given bytes has a
/// name. Headers that it would count beyond its range are left out.
#[verifier::external_body]
fn read_directory(bytes: &[u8], index: u32) -> (r: Option<Vec<TableEntry>>)
    requires
        header_is_sound(bytes@, index),
    ensures
        entries_of(r) == font_directory(bytes@, index),
{
    let records = ttf_parser::RawFace::parse(bytes, index).ok()?.table_records;
    let entry = |r: ttf_parser::TableRecord| TableEntry {
        tag: r.tag.0,
        offset: r.offset,
        length: r.length,
    };
    (0..records.len()).map(|i| records.get(i).map(entry)).collect()
}

/// Reads the lines of a face with `ttf_parser::Face::from_raw_tables`, `units_per_em`, `ascender`,
/// `descender` and `line_gap`. What they read of given tables has a name. Tables whose descent it
/// would negate beyond its range are left out, and so are variations that it would count beyond its
/// range.
#[verifier::external_body]
fn read_lines(
    head: &[u8],
    hhea: &[u8],
    maxp: &[u8],
    os2: Option<&[u8]>,
    fvar: Option<&[u8]>,
    mvar: Option<&[u8]>,
) -> (r: Option<FontTables>)
    requires
        !descent_overflows(hhea@, bytes_of(os2)),
        bytes_of(mvar) matches Some(t) ==> line_variations_are_sound(t),
    ensures
        r == font_lines(head@, hhea@, maxp@, bytes_of(os2), bytes_of(fvar), bytes_of(mvar)),
{
    let tables = ttf_parser::RawFaceTables { head, hhea, maxp, os2, fvar, mvar, ..Default::default() };
    let face = ttf_parser::Face::from_raw_tables(tables).ok()?;
    Some(FontTables {
        units_per_em: face.units_per_em(),
        ascender: face.ascender(),
        descender: face.descender(),
        line_gap: face.line_gap(),
    })
}

/// Asks one part of a character map for a character with `ttf_parser::cmap::Table::parse`,
/// `Subtables::get`, `Subtable::is_unicode` and `Subtable::glyph_index`. What they say of given bytes
/// has a name. Parts whose list it would count beyond its range are left out.
#[verifier::external_body]
fn map_char(cmap: &[u8], part: u16, c: char) -> (r: Option<Mapping>)
    requires
        part_is_sound(cmap@, part),
    ensures
        r == mapped_glyph(cmap@, part, c),
{
    let subtable = ttf_parser::cmap::Table::parse(cmap)?.subtables.get(part)?;
    let glyph = subtable.glyph_index(c as u32).map(|g| g.0);
    Some(Mapping { unicode: subtable.is_unicode(), glyph })
}

/// Reads the advance of a glyph with `ttf_parser::Face::from_raw_tables` and `glyph_hor_advance`.
/// What they read of given tables has a name. Variations that it would count beyond its range are
/// left out. The variations of single outlines are not handed over: a face that has no other varies
/// no advance here.
#[verifier::external_body]
fn read_advance(
    head: &[u8],
    hhea: &[u8],
    maxp: &[u8],
    hmtx: Option<&[u8]>,
    fvar: Option<&[u8]>,
    hvar: Option<&[u8]>,
    glyph: u16,
) -> (r: Option<u16>)
    requires
        bytes_of(hvar) matches Some(t) ==> advance_variations_are_sound(t),
    ensures
        r == font_advance(
            head@,
            hhea@,
            maxp@,
            bytes_of(hmtx),
            bytes_of(fvar),
            bytes_of(hvar),
            glyph,
        ),
{
    let tables = ttf_parser::RawFaceTables { head, hhea, maxp, hmtx, fvar, hvar, ..Default::default() };
    let face = ttf_parser::Face::from_raw_tables(tables).ok()?;
    face.glyph_hor_advance(ttf_parser::GlyphId(glyph))
}

/// The size of a cell in font units.
#[derive(Debug, Clone, Copy, PartialEq, Eq, Structural)]
pub struct CellUnits {
    pub units_per_em: u16,
    /// From one line to the next.
    pub line: i32,
    pub ascent: i32,
    pub advance: u16,
}

/// The size of a cell by the tables of a face and the advance of a digit: none without a scale.
pub open spec fn units_in(tables: Option<FontTables>, advance: Option<u16>) -> Option<CellUnits> {
    match tables {
        Some(t) if t.units_per_em > 0 => Some(
            CellUnits {
                units_per_em: t.units_per_em,
                line: (t.ascender - t.descender + t.line_gap) as i32,
                ascent: t.ascender as i32,
                advance: match advance {
                    Some(a) => a,
                    None => 0,
                },
            },
        ),
        _ => None,
    }
}

/// Computes the size of a cell by the tables of a face and the advance of a digit.
pub fn cell_units(tables: Option<FontTables>, advance: Option<u16>) -> (r: Option<CellUnits>)
    ensures
        r == units_in(tables, advance),
{
    match tables {
        Some(t) => {
            if t.units_per_em == 0 {
                return None;
            }
            let line: i32 = t.ascender as i32 - t.descender as i32 + t.line_gap as i32;
            let advance: u16 = match advance {
                Some(a) => a,
                None => 0,
            };
            Some(
                CellUnits {
                    units_per_em: t.units_per_em,
                    line,
                    ascent: t.ascender as i32,
                    advance,
                },
            )
        },
        None => None,
    }
}

/// The number of a glyph that was found, or that of the glyph for unknown characters.
pub open spec fn glyph_or_none(found: Option<u16>) -> u16 {
    match found {
        Some(g) => g,
        None => 0,
    }
}

/// Reads two bytes, most significant first.
fn word_at(s: &[u8], at: usize) -> (r: u64)
    requires
        at + 2 <= s@.len(),
    ensures
        r == be16(s@, at as int),
        r <= 0xffff,
{
    256 * s[at] as u64 + s[at + 1] as u64
}

/// Reads four bytes, most significant first.
fn long_at(s: &[u8], at: usize) -> (r: u64)
    requires
        at + 4 <= s@.len(),
    ensures
        r == be32(s@, at as int),
        r <= 0xffff_ffff,
{
    assert(s.len() == s@.len());
    65536 * word_at(s, at) + word_at(s, at + 2)
}

/// Tells whether the header of a font file can be read.
pub fn is_header_sound(bytes: &[u8], index: u32) -> (r: bool)
    ensures
        r == header_is_sound(bytes@, index),
{
    if bytes.len() < 12 || long_at(bytes, 0) != 0x7474_6366 {
        return true;
    }
    let faces: u64 = long_at(bytes, 8);
    let end: u64 = 12 + 4 * faces;
    if end > 0xffff_ffff {
        return false;
    }
    if end > bytes.len() as u64 || index as u64 >= faces {
        return true;
    }
    let at: u64 = long_at(bytes, 12 + 4 * index as usize);
    if at > bytes.len() as u64 {
        return true;
    }
    if at + 6 > 0xffff_ffff {
        return false;
    }
    if at + 6 > bytes.len() as u64 {
        return true;
    }
    at + 12 + 16 * word_at(bytes, at as usize + 4) <= 0xffff_ffff
}

/// Tells whether a part of a character map can be read.
pub fn is_part_sound(cmap: &[u8], part: u16) -> (r: bool)
    ensures
        r == part_is_sound(cmap@, part),
{
    if cmap.len() < 4 || 4 + 8 * word_at(cmap, 2) > cmap.len() as u64 || part as u64 >= word_at(
        cmap,
        2,
    ) {
        return true;
    }
    let at: u64 = long_at(cmap, 8 + 8 * part as usize);
    if at > cmap.len() as u64 {
        return true;
    }
    let own: &[u8] = slice_subrange(cmap, at as usize, cmap.len());
    assert(own@ =~= cmap@.skip(at as int));
    if own.len() < 2 {
        return true;
    }
    let format: u64 = word_at(own, 0);
    let end: u64 = if format == 10 && own.len() >= 20 {
        20 + 2 * long_at(own, 16)
    } else if (format == 12 || format == 13) && own.len() >= 16 {
        16 + 12 * long_at(own, 12)
    } else if format == 14 && own.len() >= 10 {
        10 + 11 * long_at(own, 6)
    } else {
        0
    };
    end <= 0xffff_ffff
}

/// Tells whether the descender of a face would be out of range.
pub fn is_descent_out_of_range(hhea: &[u8], os2: Option<&[u8]>) -> (r: bool)
    ensures
        r == descent_overflows(hhea@, bytes_of(os2)),
{
    match os2 {
        Some(t) => {
            if hhea.len() < 8 || word_at(hhea, 6) != 0 || t.len() < 78 {
                return false;
            }
            let version: u64 = word_at(t, 0);
            let least: usize = if version == 0 {
                78
            } else if version == 1 {
                86
            } else if version < 5 {
                96
            } else {
                100
            };
            let typographic: bool = version >= 4 && (word_at(t, 62) / 128) % 2 == 1;
            version <= 5 && t.len() >= least && word_at(t, 70) == 0 && word_at(t, 76) == 0x8000
                && !typographic
        },
        None => false,
    }
}

/// Tells whether the places of regions can be counted.
fn are_places_counted(store: &[u8], at: usize, regions: u64, axes: u64) -> (r: bool)
    requires
        at + 2 * regions <= store@.len(),
        regions <= 0xffff,
        axes <= 0xffff,
    ensures
        r == places_are_counted(store@, at as int, regions as int, axes as int),
{
    let mut i: u64 = 0;
    assert(store.len() == store@.len());
    while i < regions
        invariant
            i <= regions <= 0xffff,
            axes <= 0xffff,
            at + 2 * regions <= store@.len(),
            store@.len() <= usize::MAX,
            places_are_counted(store@, at as int, i as int, axes as int),
        decreases regions - i,
    {
        let place: u64 = word_at(store, at + 2 * i as usize);
        assert(place == be16(store@, at + 2 * i));
        assert(place * axes <= 0xffff * 0xffff) by (nonlinear_arith)
            requires
                place <= 0xffff,
                axes <= 0xffff,
        ;
        if place * axes > 0xffff {
            return false;
        }
        i += 1;
    }
    true
}

/// Tells whether the deltas at a place of a store can be read.
fn are_deltas_sound(store: &[u8], at: u64, axes: u64) -> (r: bool)
    requires
        at <= 0xffff_ffff,
        axes <= 0xffff,
    ensures
        r == deltas_are_sound(store@, at as int, axes as int),
{
    assert(store.len() == store@.len());
    if at > store.len() as u64 {
        return true;
    }
    if at + 6 > 0xffff_ffff {
        return false;
    }
    if at + 6 > store.len() as u64 {
        return true;
    }
    let items: u64 = word_at(store, at as usize);
    let wide: u64 = word_at(store, at as usize + 2);
    let regions: u64 = word_at(store, at as usize + 4);
    let row: u64 = if wide >= 0x8000 {
        2 * (wide - 0x8000 + regions)
    } else {
        wide + regions
    };
    assert(row == row_length(wide as int, regions as int));
    if row > 0xffff {
        return false;
    }
    assert(items * row <= 0xffff * 0xffff) by (nonlinear_arith)
        requires
            items <= 0xffff,
            row <= 0xffff,
    ;
    if at + 6 + 2 * regions + items * row > 0xffff_ffff {
        return false;
    }
    if at + 6 + 2 * regions > store.len() as u64 {
        return true;
    }
    are_places_counted(store, at as usize + 6, regions, axes)
}

/// Tells whether the lists of deltas of a store can be read.
fn are_lists_sound(store: &[u8], n: u64, axes: u64) -> (r: bool)
    requires
        8 + 4 * n <= store@.len(),
        n <= 0xffff,
        axes <= 0xffff,
    ensures
        r == lists_are_sound(store@, n as int, axes as int),
{
    let mut i: u64 = 0;
    assert(store.len() == store@.len());
    while i < n
        invariant
            i <= n <= 0xffff,
            axes <= 0xffff,
            8 + 4 * n <= store@.len() <= usize::MAX,
            lists_are_sound(store@, i as int, axes as int),
        decreases n - i,
    {
        let at: u64 = long_at(store, 8 + 4 * i as usize);
        assert(at == be32(store@, 8 + 4 * i));
        if !are_deltas_sound(store, at, axes) {
            return false;
        }
        i += 1;
    }
    true
}

/// Tells whether the store of variations at a place of a table can be read.
fn is_store_sound(table: &[u8], at: u64) -> (r: bool)
    requires
        at <= 0xffff_ffff,
    ensures
        r == store_is_sound(table@, at as int),
{
    assert(table.len() == table@.len());
    if at > table.len() as u64 {
        return true;
    }
    if at + 8 > 0xffff_ffff {
        return false;
    }
    if at + 8 > table.len() as u64 || word_at(table, at as usize) != 1 {
        return true;
    }
    let lists: u64 = word_at(table, at as usize + 6);
    let regions: u64 = at + long_at(table, at as usize + 2);
    if at + 8 + 4 * lists > 0xffff_ffff || regions + 4 > 0xffff_ffff {
        return false;
    }
    if at + 8 + 4 * lists > table.len() as u64 || regions + 4 > table.len() as u64 {
        return true;
    }
    let axes: u64 = word_at(table, regions as usize);
    let count: u64 = word_at(table, regions as usize + 2);
    assert(count * axes <= 0xffff * 0xffff) by (nonlinear_arith)
        requires
            count <= 0xffff,
            axes <= 0xffff,
    ;
    let total: u64 = count * axes;
    if total > 0xffff {
        return true;
    }
    if regions + 4 + 6 * total > 0xffff_ffff {
        return false;
    }
    let store: &[u8] = slice_subrange(table, at as usize, table.len());
    assert(store@ =~= table@.skip(at as int));
    are_lists_sound(store, lists, axes)
}

/// Tells whether a table of variations of advances can be read.
pub fn are_advance_variations_sound(table: &[u8]) -> (r: bool)
    ensures
        r == advance_variations_are_sound(table@),
{
    table.len() < 8 || long_at(table, 0) != 0x1_0000 || is_store_sound(table, long_at(table, 4))
}

/// Tells whether a table of variations of lines can be read.
pub fn are_line_variations_sound(table: &[u8]) -> (r: bool)
    ensures
        r == line_variations_are_sound(table@),
{
    table.len() < 12 || long_at(table, 0) != 0x1_0000 || is_store_sound(table, word_at(table, 10))
}

/// The glyph of a character in the parts of a character map from one on: that of the first part for
/// Unicode that has one. A part that cannot be read ends the search.
pub open spec fn glyph_from(cmap: Seq<u8>, part: int, c: char) -> Option<u16>
    decreases 0x1_0000 - part,
{
    if part > 0xffff || !part_is_sound(cmap, part as u16) {
        None
    } else {
        match mapped_glyph(cmap, part as u16, c) {
            Some(m) => if m.unicode && m.glyph is Some {
                m.glyph
            } else {
                glyph_from(cmap, part + 1, c)
            },
            None => None,
        }
    }
}

/// Finds the glyph of a character in a character map.
pub fn find_glyph(cmap: &[u8], c: char) -> (r: Option<u16>)
    ensures
        r == glyph_from(cmap@, 0, c),
{
    let mut part: u16 = 0;
    while is_part_sound(cmap, part)
        invariant
            glyph_from(cmap@, 0, c) == glyph_from(cmap@, part as int, c),
        decreases 0x1_0000 - part,
    {
        match map_char(cmap, part, c) {
            Some(m) => {
                if m.unicode && m.glyph.is_some() {
                    return m.glyph;
                }
            },
            None => {
                return None;
            },
        }
        if part == 0xffff {
            assert(glyph_from(cmap@, part + 1, c) is None);
            return None;
        }
        part += 1;
    }
    None
}

/// The last entry for a table.
pub open spec fn last_entry(entries: Seq<TableEntry>, tag: u32) -> Option<TableEntry>
    decreases entries.len(),
{
    if entries.len() == 0 {
        None
    } else if entries.last().tag == tag {
        Some(entries.last())
    } else {
        last_entry(entries.drop_last(), tag)
    }
}

/// The bytes of a table, by the last entry for it: none where they do not all lie in the file.
pub open spec fn table_in(bytes: Seq<u8>, entries: Seq<TableEntry>, tag: u32) -> Option<Seq<u8>> {
    match last_entry(entries, tag) {
        Some(e) if e.offset + e.length <= bytes.len() => Some(
            bytes.subrange(e.offset as int, e.offset + e.length),
        ),
        _ => None,
    }
}

/// Finds the bytes of a table.
pub fn find_table<'a>(bytes: &'a [u8], entries: &Vec<TableEntry>, tag: u32) -> (r: Option<&'a [u8]>)
    ensures
        bytes_of(r) == table_in(bytes@, entries@, tag),
{
    let mut i: usize = entries.len();
    assert(entries@.take(i as int) =~= entries@);
    while i > 0
        invariant
            i <= entries@.len(),
            last_entry(entries@, tag) == last_entry(entries@.take(i as int), tag),
        decreases i,
    {
        let e: TableEntry = entries[i - 1];
        assert(entries@.take(i as int).last() == e);
        if e.tag == tag {
            let end: u64 = e.offset as u64 + e.length as u64;
            if end > bytes.len() as u64 {
                return None;
            }
            return Some(slice_subrange(bytes, e.offset as usize, end as usize));
        }
        assert(entries@.take(i as int).drop_last() =~= entries@.take(i - 1));
        i -= 1;
    }
    None
}

/// The bytes of a table, or none at all.
pub open spec fn or_nothing(table: Option<Seq<u8>>) -> Seq<u8> {
    match table {
        Some(t) => t,
        None => Seq::empty(),
    }
}

/// Finds the bytes of a table that every face has.
fn required_table<'a>(bytes: &'a [u8], entries: &Vec<TableEntry>, tag: u32) -> (r: &'a [u8])
    ensures
        r@ == or_nothing(table_in(bytes@, entries@, tag)),
{
    match find_table(bytes, entries, tag) {
        Some(t) => t,
        None => {
            let none: &[u8] = slice_subrange(bytes, 0, 0);
            assert(none@ =~= Seq::empty());
            none
        },
    }
}

/// The variations of the advances of a face; those that cannot be read count for nothing.
pub open spec fn advance_variations(bytes: Seq<u8>, entries: Seq<TableEntry>) -> Option<Seq<u8>> {
    match table_in(bytes, entries, HVAR) {
        Some(t) if advance_variations_are_sound(t) => Some(t),
        _ => None,
    }
}

/// The variations of the lines of a face; those that cannot be read count for nothing.
pub open spec fn line_variations(bytes: Seq<u8>, entries: Seq<TableEntry>) -> Option<Seq<u8>> {
    match table_in(bytes, entries, MVAR) {
        Some(t) if line_variations_are_sound(t) => Some(t),
        _ => None,
    }
}

/// The size of a cell by the tables of a face whose directory is known.
pub open spec fn face_units(bytes: Seq<u8>, entries: Seq<TableEntry>) -> Option<CellUnits> {
    let head = or_nothing(table_in(bytes, entries, HEAD));
    let hhea = or_nothing(table_in(bytes, entries, HHEA));
    let maxp = or_nothing(table_in(bytes, entries, MAXP));
    let os2 = table_in(bytes, entries, OS2);
    let fvar = table_in(bytes, entries, FVAR);
    let zero = match table_in(bytes, entries, CMAP) {
        Some(cmap) => glyph_from(cmap, 0, '0'),
        None => None,
    };
    if descent_overflows(hhea, os2) {
        None
    } else {
        units_in(
            font_lines(head, hhea, maxp, os2, fvar, line_variations(bytes, entries)),
            font_advance(
                head,
                hhea,
                maxp,
                table_in(bytes, entries, HMTX),
                fvar,
                advance_variations(bytes, entries),
                glyph_or_none(zero),
            ),
        )
    }
}

/// Computes the size of a cell by the tables of a face whose directory is known.
pub fn units_of_face(bytes: &[u8], entries: &Vec<TableEntry>) -> (r: Option<CellUnits>)
    ensures
        r == face_units(bytes@, entries@),
{
    let head: &[u8] = required_table(bytes, entries, HEAD);
    let hhea: &[u8] = required_table(bytes, entries, HHEA);
    let maxp: &[u8] = required_table(bytes, entries, MAXP);
    let os2: Option<&[u8]> = find_table(bytes, entries, OS2);
    let hmtx: Option<&[u8]> = find_table(bytes, entries, HMTX);
    let fvar: Option<&[u8]> = find_table(bytes, entries, FVAR);
    let hvar: Option<&[u8]> = match find_table(bytes, entries, HVAR) {
        Some(t) => if are_advance_variations_sound(t) {
            Some(t)
        } else {
            None
        },
        None => None,
    };
    let mvar: Option<&[u8]> = match find_table(bytes, entries, MVAR) {
        Some(t) => if are_line_variations_sound(t) {
            Some(t)
        } else {
            None
        },
        None => None,
    };
    let zero: Option<u16> = match find_table(bytes, entries, CMAP) {
        Some(cmap) => find_glyph(cmap, '0'),
        None => None,
    };
    if is_descent_out_of_range(hhea, os2) {
        return None;
    }
    let glyph: u16 = match zero {
        Some(g) => g,
        None => 0,
    };
    cell_units(
        read_lines(head, hhea, maxp, os2, fvar, mvar),
        read_advance(head, hhea, maxp, hmtx, fvar, hvar, glyph),
    )
}

/// Extracts the size of a cell from raw TrueType/OpenType font bytes, without parsing glyph
/// outlines.
pub fn parse_cell_units(bytes: &[u8], collection_index: u32) -> (r: Option<CellUnits>)
    ensures
        r == (match font_directory(bytes@, collection_index) {
            Some(entries) if header_is_sound(bytes@, collection_index) => face_units(
                bytes@,
                entries,
            ),
            _ => None,
        }),
{
    if !is_header_sound(bytes, collection_index) {
        return None;
    }
    match read_directory(bytes, collection_index) {
        Some(entries) => units_of_face(bytes, &entries),
        None => None,
    }
}

} // verus!
