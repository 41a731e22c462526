//! Dynamic shelf-packing glyph texture atlas with bounded exponential growth.
//!
//! The atlas keeps four bytes per pixel, in rows from top to bottom.

use crate::font::face::RasterizedGlyph;
use crate::font::{style_index, style_number};
use crate::grid::CellFlags;
use crate::text;
use std::collections::HashMap;
use vstd::prelude::*;

verus! {

broadcast use vstd::std_specs::hash::group_hash_axioms;

/// Greatest width and height of an atlas.
pub const MAX_ATLAS_SIZE: u32 = 2048;

/// How many entries the cache for ASCII characters has, four styles for each character.
pub const ASCII_ENTRIES: usize = 512;

/// Pixel coordinates stay valid when the atlas grows.
#[derive(Debug, Clone, Copy, PartialEq, Eq)]
pub struct CachedGlyph {
    pub position: [u32; 2],
    pub width: u32,
    pub height: u32,
    pub offset_x: i32,
    pub offset_y: i32,
}

/// The row that glyphs are placed on.
#[derive(Debug, Clone, Copy, PartialEq, Eq, Structural)]
pub struct Shelf {
    pub x: u32,
    pub y: u32,
    pub height: u32,
}

impl Default for Shelf {
    fn default() -> (r: Self)
        ensures
            r == (Shelf { x: 0, y: 0, height: 0 }),
    {
        Shelf { x: 0, y: 0, height: 0 }
    }
}

impl Shelf {
    /// Whether the shelf lies within bounds.
    pub open spec fn within(self, width: u32, height: u32) -> bool {
        self.x <= width && self.y + self.height <= height
    }

    /// Whether a point lies in the area that was given out: above the shelf, or on it to the left.
    pub open spec fn taken(self, px: int, py: int) -> bool {
        py < self.y || (py < self.y + self.height && px < self.x)
    }

    /// Where an area of a given size with a border of one pixel goes: its corner, on this shelf or
    /// on a new one below.
    pub open spec fn corner(self, width: u32, bounds: (u32, u32)) -> (int, int) {
        if self.x + width + 2 > bounds.0 {
            (0, self.y + self.height)
        } else {
            (self.x as int, self.y as int)
        }
    }

    /// Whether an area of a given size with a border of one pixel has room.
    pub open spec fn has_room(self, width: u32, height: u32, bounds: (u32, u32)) -> bool {
        &&& width + 2 <= bounds.0
        &&& height + 2 <= bounds.1
        &&& self.corner(width, bounds).1 + height + 2 <= bounds.1
    }

    /// The shelf after an area was given out.
    pub open spec fn after(self, width: u32, height: u32, bounds: (u32, u32)) -> Shelf {
        let (x, y) = self.corner(width, bounds);
        let tall = if self.x + width + 2 > bounds.0 {
            0
        } else {
            self.height as int
        };
        Shelf {
            x: (x + width + 2) as u32,
            y: y as u32,
            height: (if tall >= height + 2 {
                tall
            } else {
                height + 2
            }) as u32,
        }
    }

    /// Gives out an area with a transparent pixel on every side; failed allocations leave the shelf
    /// alone.
    pub fn allocate(&mut self, width: u32, height: u32, bounds: [u32; 2]) -> (r: Option<[u32; 2]>)
        requires
            old(self).x + bounds@[0] <= u32::MAX,
            old(self).y + old(self).height + bounds@[1] <= u32::MAX,
        ensures
            ({
                let b = (bounds@[0], bounds@[1]);
                let (x, y) = old(self).corner(width, b);
                if old(self).has_room(width, height, b) {
                    &&& r is Some
                    &&& r->0@ == seq![(x + 1) as u32, (y + 1) as u32]
                    &&& x + 1 + width + 1 <= b.0
                    &&& y + 1 + height + 1 <= b.1
                    &&& *final(self) == old(self).after(width, height, b)
                } else {
                    r is None && *final(self) == *old(self)
                }
            }),
    {
        let padded_width: u32 = match width.checked_add(2) {
            Some(w) => w,
            None => {
                return None;
            },
        };
        let padded_height: u32 = match height.checked_add(2) {
            Some(h) => h,
            None => {
                return None;
            },
        };
        if padded_width > bounds[0] || padded_height > bounds[1] {
            return None;
        }
        let fresh: bool = self.x + padded_width > bounds[0];
        let x: u32 = if fresh {
            0
        } else {
            self.x
        };
        let y: u32 = if fresh {
            self.y + self.height
        } else {
            self.y
        };
        let shelf_height: u32 = if fresh {
            0
        } else {
            self.height
        };
        if y + padded_height > bounds[1] {
            return None;
        }
        self.x = x + padded_width;
        self.y = y;
        self.height = if shelf_height >= padded_height {
            shelf_height
        } else {
            padded_height
        };
        let position: [u32; 2] = [x + 1, y + 1];
        assert(position@ =~= seq![(x + 1) as u32, (y + 1) as u32]);
        Some(position)
    }
}

/// Areas that are given out never overlap: one lies outside all that was given out before, and
/// belongs, like all of that, to what is given out afterwards.
pub proof fn law_areas_never_overlap(shelf: Shelf, width: u32, height: u32, bounds: (u32, u32))
    requires
        shelf.within(bounds.0, bounds.1),
        shelf.has_room(width, height, bounds),
    ensures
        ({
            let (x, y) = shelf.corner(width, bounds);
            let next = shelf.after(width, height, bounds);
            &&& next.within(bounds.0, bounds.1)
            &&& forall|px: int, py: int| #[trigger]
                shelf.taken(px, py) && px < bounds.0 ==> next.taken(px, py)
            &&& forall|px: int, py: int|
                x <= px < x + width + 2 && y <= py < y + height + 2 ==> !(#[trigger] shelf.taken(
                    px,
                    py,
                )) && next.taken(px, py)
        }),
{
}

/// The shelf after areas of given sizes were asked for in order, and the corner of each, border
/// and all, or none for those that had no room.
pub open spec fn allotted(shelf: Shelf, sizes: Seq<(u32, u32)>, bounds: (u32, u32)) -> (
    Shelf,
    Seq<Option<(int, int)>>,
)
    decreases sizes.len(),
{
    if sizes.len() == 0 {
        (shelf, Seq::empty())
    } else {
        let (now, given) = allotted(shelf, sizes.drop_last(), bounds);
        let (width, height) = sizes.last();
        if now.has_room(width, height, bounds) {
            (now.after(width, height, bounds), given.push(Some(now.corner(width, bounds))))
        } else {
            (now, given.push(None))
        }
    }
}

/// Whether a point lies in an area with its border.
pub open spec fn in_area(corner: Option<(int, int)>, size: (u32, u32), px: int, py: int) -> bool {
    match corner {
        Some((x, y)) => x <= px < x + size.0 + 2 && y <= py < y + size.1 + 2,
        None => false,
    }
}

/// Areas that were given out in a row lie within the bounds, and all of them are taken.
proof fn lemma_allotted(shelf: Shelf, sizes: Seq<(u32, u32)>, bounds: (u32, u32))
    requires
        shelf.within(bounds.0, bounds.1),
    ensures
        ({
            let (now, given) = allotted(shelf, sizes, bounds);
            &&& now.within(bounds.0, bounds.1)
            &&& given.len() == sizes.len()
            &&& forall|i: int, px: int, py: int|
                0 <= i < sizes.len() && #[trigger] in_area(given[i], sizes[i], px, py) ==> 0 <= px
                    < bounds.0 && 0 <= py < bounds.1 && now.taken(px, py)
        }),
    decreases sizes.len(),
{
    if sizes.len() > 0 {
        let front = sizes.drop_last();
        lemma_allotted(shelf, front, bounds);
        let (before, held) = allotted(shelf, front, bounds);
        let (width, height) = sizes.last();
        let (now, given) = allotted(shelf, sizes, bounds);
        if before.has_room(width, height, bounds) {
            law_areas_never_overlap(before, width, height, bounds);
        }
        assert forall|i: int, px: int, py: int|
            0 <= i < sizes.len() && #[trigger] in_area(given[i], sizes[i], px, py) implies 0 <= px
            < bounds.0 && 0 <= py < bounds.1 && now.taken(px, py) by {
            if i < front.len() {
                assert(given[i] == held[i] && sizes[i] == front[i]);
                assert(in_area(held[i], front[i], px, py));
                assert(before.taken(px, py));
            } else {
                assert(!before.taken(px, py) && now.taken(px, py));
            }
        }
    }
}

/// Whatever areas are asked for in a row, those that are given out lie within the bounds with
/// their borders, and no two of them have a point in common.
pub proof fn law_given_areas_are_disjoint(
    sizes: Seq<(u32, u32)>,
    bounds: (u32, u32),
    i: int,
    j: int,
    px: int,
    py: int,
)
    requires
        0 <= i < j < sizes.len(),
    ensures
        ({
            let (_, given) = allotted(Shelf { x: 0, y: 0, height: 0 }, sizes, bounds);
            &&& in_area(given[i], sizes[i], px, py) ==> 0 <= px < bounds.0 && 0 <= py < bounds.1
            &&& in_area(given[j], sizes[j], px, py) ==> 0 <= px < bounds.0 && 0 <= py < bounds.1
            &&& !(in_area(given[i], sizes[i], px, py) && in_area(given[j], sizes[j], px, py))
        }),
    decreases sizes.len(),
{
    let empty = Shelf { x: 0, y: 0, height: 0 };
    let front = sizes.drop_last();
    lemma_allotted(empty, sizes, bounds);
    lemma_allotted(empty, front, bounds);
    let (before, held) = allotted(empty, front, bounds);
    let (now, given) = allotted(empty, sizes, bounds);
    assert(given[i] == held[i] && sizes[i] == front[i]);
    if j < front.len() {
        law_given_areas_are_disjoint(front, bounds, i, j, px, py);
        assert(given[j] == held[j] && sizes[j] == front[j]);
    } else if in_area(given[i], sizes[i], px, py) {
        let (width, height) = sizes.last();
        assert(in_area(held[i], front[i], px, py));
        assert(before.taken(px, py));
        if before.has_room(width, height, bounds) {
            law_areas_never_overlap(before, width, height, bounds);
        }
    }
}

/// A byte of a picture whose rows have a given number of bytes.
pub open spec fn byte_at(pixels: Seq<u8>, stride: int, row: int, col: int) -> u8 {
    pixels[row * stride + col]
}

/// The number of a character in a style.
pub open spec fn glyph_number(c: char, style: u8) -> u32 {
    (c as u32 * 4 + style) as u32
}

/// The number of a character in a style.
pub fn glyph_code(c: char, style: u8) -> (r: u32)
    requires
        style < 4,
    ensures
        r == glyph_number(c, style),
        r == c as u32 * 4 + style,
{
    c as u32 * 4 + style as u32
}

/// A shelf-packed atlas with bounded growth. Clear it between frames to evict old glyphs.
#[derive(Debug)]
pub struct GlyphAtlas {
    pub width: u32,
    pub height: u32,
    pub pixels: Vec<u8>,
    /// Whether there is anything new to hand to the renderer.
    pub dirty: bool,
    /// Whether all of the atlas is to be handed to the renderer.
    pub full_upload: bool,
    /// The part that changed: left, top, and right and bottom just beyond it.
    pub dirty_rect: Option<[u32; 4]>,
    pub shelf: Shelf,
    /// Glyphs of ASCII characters, by their number.
    pub ascii_cache: Vec<Option<CachedGlyph>>,
    /// Glyphs of other characters, by their number.
    pub cache: HashMap<u32, CachedGlyph>,
}

/// A number, moved into the range of sizes of an atlas.
pub open spec fn atlas_size(n: u32) -> u32 {
    if n < 4 {
        4
    } else if n > MAX_ATLAS_SIZE {
        MAX_ATLAS_SIZE
    } else {
        n
    }
}

/// Twice a size, up to the greatest.
pub open spec fn doubled(n: u32) -> u32 {
    if 2 * n > MAX_ATLAS_SIZE {
        MAX_ATLAS_SIZE
    } else {
        (2 * n) as u32
    }
}

/// Whether a glyph lies within an atlas, with a border of one pixel.
pub open spec fn lies_within(g: CachedGlyph, width: u32, height: u32) -> bool {
    ||| g.width == 0
    ||| g.height == 0
    ||| {
        &&& g.position@[0] >= 1
        &&& g.position@[1] >= 1
        &&& g.position@[0] + g.width + 1 <= width
        &&& g.position@[1] + g.height + 1 <= height
    }
}

impl GlyphAtlas {
    /// The size is in range, the picture has it, the shelf and every glyph lie within it, and
    /// characters are kept in the cache that is meant for them.
    pub open spec fn wf(&self) -> bool {
        &&& 4 <= self.width <= MAX_ATLAS_SIZE
        &&& 4 <= self.height <= MAX_ATLAS_SIZE
        &&& self.pixels@.len() == self.height * self.stride()
        &&& self.shelf.within(self.width, self.height)
        &&& self.ascii_cache@.len() == ASCII_ENTRIES
        &&& forall|i: int|
            0 <= i < ASCII_ENTRIES ==> match #[trigger] self.ascii_cache@[i] {
                Some(g) => lies_within(g, self.width, self.height),
                None => true,
            }
        &&& forall|k: u32| #[trigger]
            self.cache@.contains_key(k) ==> k >= ASCII_ENTRIES && lies_within(
                self.cache@[k],
                self.width,
                self.height,
            )
    }

    /// How many bytes a row of the picture has.
    pub open spec fn stride(&self) -> int {
        4 * self.width as int
    }

    /// The glyph of a character in a style, if it is kept.
    pub open spec fn kept(&self, c: char, style: u8) -> Option<CachedGlyph> {
        let n = glyph_number(c, style);
        if c as u32 <= 0x7f {
            self.ascii_cache@[n as int]
        } else if self.cache@.contains_key(n) {
            Some(self.cache@[n])
        } else {
            None
        }
    }

    /// Whether nothing is kept.
    pub open spec fn keeps_nothing(&self) -> bool {
        &&& forall|i: int| 0 <= i < ASCII_ENTRIES ==> #[trigger] self.ascii_cache@[i] is None
        &&& self.cache@ == Map::<u32, CachedGlyph>::empty()
    }

    pub fn new(width: u32, height: u32) -> (r: Self)
        ensures
            r.wf(),
            r.width == atlas_size(width),
            r.height == atlas_size(height),
            forall|i: int| 0 <= i < r.pixels@.len() ==> r.pixels@[i] == 0,
            r.dirty,
            r.full_upload,
            r.dirty_rect is None,
            r.shelf == (Shelf { x: 0, y: 0, height: 0 }),
            r.keeps_nothing(),
    {
        let w: u32 = if width < 4 {
            4
        } else if width > MAX_ATLAS_SIZE {
            MAX_ATLAS_SIZE
        } else {
            width
        };
        let h: u32 = if height < 4 {
            4
        } else if height > MAX_ATLAS_SIZE {
            MAX_ATLAS_SIZE
        } else {
            height
        };
        proof {
            lemma_size(w as int, h as int);
        }
        GlyphAtlas {
            width: w,
            height: h,
            pixels: vec![0u8; (h * (4 * w)) as usize],
            dirty: true,
            full_upload: true,
            dirty_rect: None,
            shelf: Shelf::default(),
            ascii_cache: vec![None; ASCII_ENTRIES],
            cache: HashMap::new(),
        }
    }

    /// Forgets every glyph.
    pub fn clear(&mut self)
        requires
            old(self).wf(),
        ensures
            final(self).wf(),
            final(self).width == old(self).width,
            final(self).height == old(self).height,
            forall|i: int| 0 <= i < final(self).pixels@.len() ==> final(self).pixels@[i] == 0,
            final(self).dirty,
            final(self).full_upload,
            final(self).dirty_rect is None,
            final(self).shelf == (Shelf { x: 0, y: 0, height: 0 }),
            final(self).keeps_nothing(),
    {
        let n: usize = self.pixels.len();
        self.pixels = vec![0u8; n];
        self.cache.clear();
        self.ascii_cache = vec![None; ASCII_ENTRIES];
        self.shelf = Shelf::default();
        self.dirty = true;
        self.full_upload = true;
        self.dirty_rect = None;
    }

    /// Doubles the atlas, up to its greatest size. What it shows stays where it was.
    pub fn grow(&mut self) -> (r: bool)
        requires
            old(self).wf(),
        ensures
            final(self).wf(),
            r == old(self).can_grow(),
            !r ==> *final(self) == *old(self),
            r ==> grew(old(self), final(self)),
    {
        let width: u32 = if 2 * self.width > MAX_ATLAS_SIZE {
            MAX_ATLAS_SIZE
        } else {
            2 * self.width
        };
        let height: u32 = if 2 * self.height > MAX_ATLAS_SIZE {
            MAX_ATLAS_SIZE
        } else {
            2 * self.height
        };
        if width == self.width && height == self.height {
            return false;
        }
        let pixels: Vec<u8> = enlarged(
            &self.pixels,
            4 * self.width as usize,
            self.height as usize,
            4 * width as usize,
            height as usize,
        );
        self.width = width;
        self.height = height;
        self.pixels = pixels;
        self.dirty = true;
        self.full_upload = true;
        self.dirty_rect = None;
        true
    }

    /// Whether the atlas is below its greatest size.
    pub open spec fn can_grow(&self) -> bool {
        self.width < MAX_ATLAS_SIZE || self.height < MAX_ATLAS_SIZE
    }
}

/// What growing does: twice the size, the same picture in the corner and nothing beside it, and
/// every glyph in its place.
pub open spec fn grew(before: &GlyphAtlas, after: &GlyphAtlas) -> bool {
    &&& after.width == doubled(before.width)
    &&& after.height == doubled(before.height)
    &&& forall|row: int, col: int|
        0 <= row < after.height && 0 <= col < after.stride() ==> #[trigger] byte_at(
            after.pixels@,
            after.stride(),
            row,
            col,
        ) == (if row < before.height && col < before.stride() {
            byte_at(before.pixels@, before.stride(), row, col)
        } else {
            0
        })
    &&& after.dirty
    &&& after.full_upload
    &&& after.dirty_rect is None
    &&& after.shelf == before.shelf
    &&& after.ascii_cache@ == before.ascii_cache@
    &&& after.cache@ == before.cache@
}

/// An atlas fits into memory.
proof fn lemma_size(w: int, h: int)
    requires
        0 <= w <= MAX_ATLAS_SIZE,
        0 <= h <= MAX_ATLAS_SIZE,
    ensures
        0 <= h * (4 * w) <= 0x100_0000,
{
    assert(0 <= h * (4 * w) <= 0x100_0000) by (nonlinear_arith)
        requires
            0 <= w <= 2048,
            0 <= h <= 2048,
    ;
}

/// Bytes are numbered row by row.
proof fn lemma_order(stride: int, row: int, col: int, r: int, c: int)
    requires
        0 <= col < stride,
        0 <= c < stride,
        row < r || (row == r && col < c),
    ensures
        row * stride + col < r * stride + c,
{
    assert(row * stride + col < r * stride + c) by (nonlinear_arith)
        requires
            0 <= col < stride,
            0 <= c < stride,
            row < r || (row == r && col < c),
    ;
}

/// The number of a byte lies within the picture.
proof fn lemma_inside(stride: int, height: int, row: int, col: int)
    requires
        0 <= col < stride,
        0 <= row < height,
    ensures
        0 <= row * stride + col < height * stride,
{
    assert(0 <= row * stride + col < height * stride) by (nonlinear_arith)
        requires
            0 <= col < stride,
            0 <= row < height,
    ;
}

/// A larger picture with another one in its corner.
fn enlarged(pixels: &Vec<u8>, stride: usize, height: usize, new_stride: usize, new_height: usize)
    -> (r: Vec<u8>)
    requires
        0 < stride <= 4 * MAX_ATLAS_SIZE,
        height <= MAX_ATLAS_SIZE,
        stride <= new_stride <= 4 * MAX_ATLAS_SIZE,
        height <= new_height <= MAX_ATLAS_SIZE,
        pixels@.len() == height * stride,
    ensures
        r@.len() == new_height * new_stride,
        forall|row: int, col: int|
            0 <= row < new_height && 0 <= col < new_stride ==> #[trigger] byte_at(
                r@,
                new_stride as int,
                row,
                col,
            ) == (if row < height && col < stride {
                byte_at(pixels@, stride as int, row, col)
            } else {
                0
            }),
{
    let mut out: Vec<u8> = Vec::new();
    let mut y: usize = 0;
    while y < new_height
        invariant
            y <= new_height,
            0 < stride <= 4 * MAX_ATLAS_SIZE,
            height <= MAX_ATLAS_SIZE,
            stride <= new_stride <= 4 * MAX_ATLAS_SIZE,
            height <= new_height <= MAX_ATLAS_SIZE,
            pixels@.len() == height * stride,
            out@.len() == y * new_stride,
            forall|row: int, col: int|
                0 <= row < y && 0 <= col < new_stride ==> #[trigger] byte_at(
                    out@,
                    new_stride as int,
                    row,
                    col,
                ) == (if row < height && col < stride {
                    byte_at(pixels@, stride as int, row, col)
                } else {
                    0
                }),
        decreases new_height - y,
    {
        let mut x: usize = 0;
        while x < new_stride
            invariant
                y < new_height,
                x <= new_stride,
                0 < stride <= 4 * MAX_ATLAS_SIZE,
                height <= MAX_ATLAS_SIZE,
                stride <= new_stride <= 4 * MAX_ATLAS_SIZE,
                height <= new_height <= MAX_ATLAS_SIZE,
                pixels@.len() == height * stride,
                out@.len() == y * new_stride + x,
                forall|row: int, col: int|
                    0 <= col < new_stride && (0 <= row < y || (row == y && col < x))
                        ==> #[trigger] byte_at(out@, new_stride as int, row, col) == (if row
                        < height && col < stride {
                        byte_at(pixels@, stride as int, row, col)
                    } else {
                        0
                    }),
            decreases new_stride - x,
        {
            let ghost before = out@;
            let value: u8 = if y < height && x < stride {
                proof {
                    lemma_inside(stride as int, height as int, y as int, x as int);
                    lemma_fits(stride as int, y as int, x as int);
                }
                pixels[y * stride + x]
            } else {
                0
            };
            out.push(value);
            assert forall|row: int, col: int|
                0 <= col < new_stride && (0 <= row < y || (row == y && col < x + 1)) implies #[trigger] byte_at(
                out@,
                new_stride as int,
                row,
                col,
            ) == (if row < height && col < stride {
                byte_at(pixels@, stride as int, row, col)
            } else {
                0
            }) by {
                if row == y && col == x {
                } else {
                    lemma_order(new_stride as int, row, col, y as int, x as int);
                    assert(byte_at(out@, new_stride as int, row, col) == byte_at(
                        before,
                        new_stride as int,
                        row,
                        col,
                    )) by {
                        assert(row * new_stride + col >= 0) by (nonlinear_arith)
                            requires
                                row >= 0,
                                col >= 0,
                                new_stride >= 0,
                        ;
                    }
                }
            }
            x += 1;
        }
        assert(y * new_stride + new_stride == (y + 1) * new_stride) by (nonlinear_arith);
        y += 1;
    }
    out
}

/// The number of a byte fits into a machine word.
proof fn lemma_fits(stride: int, row: int, col: int)
    requires
        0 <= stride <= 4 * MAX_ATLAS_SIZE,
        0 <= row <= MAX_ATLAS_SIZE,
        0 <= col <= 4 * MAX_ATLAS_SIZE,
    ensures
        0 <= row * stride <= 0x100_0000,
        0 <= row * stride + col <= 0x200_0000,
{
    assert(0 <= row * stride <= 2048 * 8192) by (nonlinear_arith)
        requires
            0 <= stride <= 8192,
            0 <= row <= 2048,
    ;
}

/// How many bytes of a glyph's buffer a row takes.
pub open spec fn glyph_pitch(glyph: &RasterizedGlyph) -> int {
    if glyph.pitch >= 4 * glyph.width {
        glyph.pitch as int
    } else {
        4 * glyph.width as int
    }
}

/// The byte that the picture has once a glyph is drawn at a place: a byte of the glyph where it
/// lies, as far as its buffer goes, and what was there otherwise.
pub open spec fn drawn_byte(
    old_byte: u8,
    glyph: &RasterizedGlyph,
    left: int,
    top: int,
    row: int,
    col: int,
) -> u8 {
    let line = row - top;
    let from = line * glyph_pitch(glyph);
    if top <= row < top + glyph.height && 4 * left <= col < 4 * (left + glyph.width) && from + 4
        * glyph.width <= glyph.pixels@.len() {
        glyph.pixels@[from + (col - 4 * left)]
    } else {
        old_byte
    }
}

/// Copies one row of a glyph into a picture.
fn draw_row(
    pixels: &mut Vec<u8>,
    stride: usize,
    height: usize,
    left: usize,
    row: usize,
    source: &Vec<u8>,
    from: usize,
    len: usize,
)
    requires
        0 < stride <= 4 * MAX_ATLAS_SIZE,
        row < height <= MAX_ATLAS_SIZE,
        old(pixels)@.len() == height * stride,
        left + len <= stride,
        from + len <= source@.len(),
    ensures
        final(pixels)@.len() == old(pixels)@.len(),
        forall|r: int, c: int|
            0 <= r < height && 0 <= c < stride ==> #[trigger] byte_at(
                final(pixels)@,
                stride as int,
                r,
                c,
            ) == (if r == row && left <= c < left + len {
                source@[from + (c - left)]
            } else {
                byte_at(old(pixels)@, stride as int, r, c)
            }),
{
    let ghost before = pixels@;
    let total: usize = source.len();
    let mut k: usize = 0;
    while k < len
        invariant
            k <= len,
            0 < stride <= 4 * MAX_ATLAS_SIZE,
            row < height <= MAX_ATLAS_SIZE,
            before.len() == height * stride,
            pixels@.len() == before.len(),
            left + len <= stride,
            total == source@.len(),
            from + len <= total,
            forall|r: int, c: int|
                0 <= r < height && 0 <= c < stride ==> #[trigger] byte_at(
                    pixels@,
                    stride as int,
                    r,
                    c,
                ) == (if r == row && left <= c < left + k {
                    source@[from + (c - left)]
                } else {
                    byte_at(before, stride as int, r, c)
                }),
        decreases len - k,
    {
        proof {
            lemma_inside(stride as int, height as int, row as int, left + k);
            lemma_fits(stride as int, row as int, left + k);
        }
        let ghost mid = pixels@;
        let at: usize = row * stride + (left + k);
        pixels[at] = source[from + k];
        assert forall|r: int, c: int| 0 <= r < height && 0 <= c < stride implies #[trigger] byte_at(
            pixels@,
            stride as int,
            r,
            c,
        ) == (if r == row && left <= c < left + k + 1 {
            source@[from + (c - left)]
        } else {
            byte_at(before, stride as int, r, c)
        }) by {
            assert(byte_at(mid, stride as int, r, c) == (if r == row && left <= c < left + k {
                source@[from + (c - left)]
            } else {
                byte_at(before, stride as int, r, c)
            }));
            lemma_inside(stride as int, height as int, r, c);
            assert(pixels@ == mid.update(at as int, source@[from + k]));
            if r == row && c == left + k {
                assert(r * stride + c == at);
            } else if r < row || (r == row && c < left + k) {
                lemma_order(stride as int, r, c, row as int, left + k);
            } else {
                lemma_order(stride as int, row as int, left + k, r, c);
            }
        }
        k += 1;
    }
}

/// Draws a glyph into a picture.
fn draw_glyph(
    pixels: &mut Vec<u8>,
    width: u32,
    height: u32,
    left: u32,
    top: u32,
    glyph: &RasterizedGlyph,
)
    requires
        4 <= width <= MAX_ATLAS_SIZE,
        4 <= height <= MAX_ATLAS_SIZE,
        old(pixels)@.len() == height * (4 * width),
        left + glyph.width <= width,
        top + glyph.height <= height,
    ensures
        final(pixels)@.len() == old(pixels)@.len(),
        forall|r: int, c: int|
            0 <= r < height && 0 <= c < 4 * width ==> #[trigger] byte_at(
                final(pixels)@,
                4 * width as int,
                r,
                c,
            ) == drawn_byte(
                byte_at(old(pixels)@, 4 * width as int, r, c),
                glyph,
                left as int,
                top as int,
                r,
                c,
            ),
{
    let ghost before = pixels@;
    let ghost s = 4 * width as int;
    let stride: usize = 4 * width as usize;
    let len: usize = 4 * glyph.width as usize;
    let pitch: usize = if glyph.pitch >= len {
        glyph.pitch
    } else {
        len
    };
    let mut line: u32 = 0;
    while line < glyph.height
        invariant
            line <= glyph.height,
            4 <= width <= MAX_ATLAS_SIZE,
            4 <= height <= MAX_ATLAS_SIZE,
            before.len() == height * (4 * width),
            pixels@.len() == before.len(),
            left + glyph.width <= width,
            top + glyph.height <= height,
            s == 4 * width,
            stride == s,
            len == 4 * glyph.width,
            pitch == glyph_pitch(glyph),
            forall|r: int, c: int|
                0 <= r < height && 0 <= c < s ==> #[trigger] byte_at(pixels@, s, r, c) == (if r
                    < top + line {
                    drawn_byte(byte_at(before, s, r, c), glyph, left as int, top as int, r, c)
                } else {
                    byte_at(before, s, r, c)
                }),
        decreases glyph.height - line,
    {
        let ghost mid = pixels@;
        assert(line * pitch <= 0xffff_ffff * 0xffff_ffff_ffff_ffff) by (nonlinear_arith)
            requires
                line <= 0xffff_ffff,
                pitch <= 0xffff_ffff_ffff_ffff,
        ;
        let from: u128 = line as u128 * pitch as u128;
        let row: usize = (top + line) as usize;
        if from + len as u128 <= glyph.pixels.len() as u128 {
            draw_row(
                pixels,
                stride,
                height as usize,
                4 * left as usize,
                row,
                &glyph.pixels,
                from as usize,
                len,
            );
        }
        assert forall|r: int, c: int| 0 <= r < height && 0 <= c < s implies #[trigger] byte_at(
            pixels@,
            s,
            r,
            c,
        ) == (if r < top + line + 1 {
            drawn_byte(byte_at(before, s, r, c), glyph, left as int, top as int, r, c)
        } else {
            byte_at(before, s, r, c)
        }) by {
            assert(byte_at(mid, s, r, c) == (if r < top + line {
                drawn_byte(byte_at(before, s, r, c), glyph, left as int, top as int, r, c)
            } else {
                byte_at(before, s, r, c)
            }));
            if r == row {
                assert(r - top == line);
            }
        }
        line += 1;
    }
    assert forall|r: int, c: int| 0 <= r < height && 0 <= c < 4 * width implies #[trigger] byte_at(
        pixels@,
        4 * width as int,
        r,
        c,
    ) == drawn_byte(
        byte_at(before, 4 * width as int, r, c),
        glyph,
        left as int,
        top as int,
        r,
        c,
    ) by {
        assert(byte_at(pixels@, s, r, c) == byte_at(pixels@, 4 * width as int, r, c));
    }
}

/// A rectangle around two.
pub open spec fn around(a: Option<[u32; 4]>, b: Seq<u32>) -> Seq<u32> {
    match a {
        Some(a) => seq![
            if a@[0] <= b[0] {
                a@[0]
            } else {
                b[0]
            },
            if a@[1] <= b[1] {
                a@[1]
            } else {
                b[1]
            },
            if a@[2] >= b[2] {
                a@[2]
            } else {
                b[2]
            },
            if a@[3] >= b[3] {
                a@[3]
            } else {
                b[3]
            },
        ],
        None => b,
    }
}

fn least(a: u32, b: u32) -> (r: u32)
    ensures
        r == (if a <= b {
            a
        } else {
            b
        }),
{
    if a <= b {
        a
    } else {
        b
    }
}

fn most(a: u32, b: u32) -> (r: u32)
    ensures
        r == (if a >= b {
            a
        } else {
            b
        }),
{
    if a >= b {
        a
    } else {
        b
    }
}

fn extend_rect(rect: Option<[u32; 4]>, more: [u32; 4]) -> (r: [u32; 4])
    ensures
        r@ == around(rect, more@),
{
    match rect {
        Some(a) => {
            let out: [u32; 4] = [
                least(a[0], more[0]),
                least(a[1], more[1]),
                most(a[2], more[2]),
                most(a[3], more[3]),
            ];
            assert(out@ =~= around(rect, more@));
            out
        },
        None => more,
    }
}

/// Whether a size is one of an atlas that can grow.
pub open spec fn growable(size: (u32, u32)) -> bool {
    &&& 4 <= size.0 <= MAX_ATLAS_SIZE
    &&& 4 <= size.1 <= MAX_ATLAS_SIZE
    &&& size.0 < MAX_ATLAS_SIZE || size.1 < MAX_ATLAS_SIZE
}

/// How often an atlas of a given size has to grow until an area has room on its shelf, if growing
/// helps at all.
pub open spec fn growth_needed(shelf: Shelf, width: u32, height: u32, size: (u32, u32)) -> Option<nat>
    decreases 2 * MAX_ATLAS_SIZE - size.0 - size.1,
{
    if shelf.has_room(width, height, size) {
        Some(0)
    } else if !growable(size) {
        None
    } else {
        match growth_needed(shelf, width, height, (doubled(size.0), doubled(size.1))) {
            Some(n) => Some(n + 1),
            None => None,
        }
    }
}

/// A size after doubling several times.
pub open spec fn doubled_times(size: (u32, u32), n: nat) -> (u32, u32)
    decreases n,
{
    if n == 0 {
        size
    } else {
        doubled_times((doubled(size.0), doubled(size.1)), (n - 1) as nat)
    }
}

/// A byte of the picture after growth to a given size.
pub open spec fn grown_byte(before: &GlyphAtlas, row: int, col: int) -> u8 {
    if row < before.height && col < before.stride() {
        byte_at(before.pixels@, before.stride(), row, col)
    } else {
        0
    }
}

/// Whether a glyph has no pixels.
pub open spec fn is_blank(glyph: &RasterizedGlyph) -> bool {
    glyph.width == 0 || glyph.height == 0
}

/// What inserting a bitmap does. One without pixels takes no place. One that is too large, or that
/// no growth makes room for, is refused; the atlas is then as large as it can be. Otherwise the
/// atlas grows as often as needed, and the glyph is drawn on the shelf.
pub open spec fn inserted(
    before: &GlyphAtlas,
    after: &GlyphAtlas,
    glyph: &RasterizedGlyph,
    r: Option<CachedGlyph>,
) -> bool {
    let size = (before.width, before.height);
    let growth = growth_needed(before.shelf, glyph.width, glyph.height, size);
    &&& after.ascii_cache@ == before.ascii_cache@
    &&& after.cache@ == before.cache@
    &&& if is_blank(glyph) {
        &&& *after == *before
        &&& r is Some
        &&& r->0.position@ == seq![0u32, 0]
        &&& fits_glyph(r->0, glyph)
    } else if glyph.width > MAX_ATLAS_SIZE - 2 || glyph.height > MAX_ATLAS_SIZE - 2 {
        *after == *before && r is None
    } else {
        match growth {
            None => {
                &&& r is None
                &&& after.width == MAX_ATLAS_SIZE
                &&& after.height == MAX_ATLAS_SIZE
                &&& after.shelf == before.shelf
                &&& forall|row: int, col: int|
                    0 <= row < after.height && 0 <= col < after.stride() ==> #[trigger] byte_at(
                        after.pixels@,
                        after.stride(),
                        row,
                        col,
                    ) == grown_byte(before, row, col)
            },
            Some(n) => {
                let new_size = doubled_times(size, n);
                let (x, y) = before.shelf.corner(glyph.width, new_size);
                &&& (after.width, after.height) == new_size
                &&& after.shelf == before.shelf.after(glyph.width, glyph.height, new_size)
                &&& after.dirty
                &&& after.full_upload == (before.full_upload || n > 0)
                &&& r is Some
                &&& r->0.position@ == seq![(x + 1) as u32, (y + 1) as u32]
                &&& fits_glyph(r->0, glyph)
                &&& after.dirty_rect is Some
                &&& after.dirty_rect->0@ == around(
                    if n > 0 {
                        None
                    } else {
                        before.dirty_rect
                    },
                    seq![
                        (x + 1) as u32,
                        (y + 1) as u32,
                        (x + 1 + glyph.width) as u32,
                        (y + 1 + glyph.height) as u32,
                    ],
                )
                &&& forall|row: int, col: int|
                    0 <= row < after.height && 0 <= col < after.stride() ==> #[trigger] byte_at(
                        after.pixels@,
                        after.stride(),
                        row,
                        col,
                    ) == drawn_byte(grown_byte(before, row, col), glyph, x + 1, y + 1, row, col)
            },
        }
    }
}

/// Whether a kept glyph has the size and offsets of a bitmap.
pub open spec fn fits_glyph(g: CachedGlyph, glyph: &RasterizedGlyph) -> bool {
    &&& g.width == glyph.width
    &&& g.height == glyph.height
    &&& g.offset_x == glyph.offset_x
    &&& g.offset_y == glyph.offset_y
}

/// Doubling once more at the end is doubling once more at the start.
proof fn lemma_doubled_last(size: (u32, u32), n: nat)
    ensures
        doubled_times(size, n + 1) == ({
            let s = doubled_times(size, n);
            (doubled(s.0), doubled(s.1))
        }),
    decreases n,
{
    reveal_with_fuel(doubled_times, 2);
    if n > 0 {
        lemma_doubled_last((doubled(size.0), doubled(size.1)), (n - 1) as nat);
    }
}

impl GlyphAtlas {
    fn insert_bitmap(&mut self, glyph: &RasterizedGlyph) -> (r: Option<CachedGlyph>)
        requires
            old(self).wf(),
        ensures
            final(self).wf(),
            inserted(old(self), final(self), glyph, r),
            match r {
                Some(g) => lies_within(g, final(self).width, final(self).height),
                None => true,
            },
    {
        let width: u32 = glyph.width;
        let height: u32 = glyph.height;
        let mut cached: CachedGlyph = CachedGlyph {
            position: [0, 0],
            width,
            height,
            offset_x: glyph.offset_x,
            offset_y: glyph.offset_y,
        };
        if width == 0 || height == 0 {
            assert(cached.position@ =~= seq![0u32, 0]);
            return Some(cached);
        }
        if width > MAX_ATLAS_SIZE - 2 || height > MAX_ATLAS_SIZE - 2 {
            return None;
        }
        let ghost start = *self;
        let ghost size = (start.width, start.height);
        let ghost mut n: nat = 0;
        assert forall|row: int, col: int|
            0 <= row < self.height && 0 <= col < self.stride() implies #[trigger] byte_at(
            self.pixels@,
            self.stride(),
            row,
            col,
        ) == grown_byte(&start, row, col) by {}
        while !self.has_room(width, height)
            invariant
                self.wf(),
                start.wf(),
                size == (start.width, start.height),
                (self.width, self.height) == doubled_times(size, n),
                start.width <= self.width,
                start.height <= self.height,
                self.shelf == start.shelf,
                self.ascii_cache@ == start.ascii_cache@,
                self.cache@ == start.cache@,
                self.full_upload == (start.full_upload || n > 0),
                n == 0 ==> self.dirty_rect == start.dirty_rect,
                n > 0 ==> self.dirty_rect is None,
                growth_needed(start.shelf, width, height, size) == (match growth_needed(
                    start.shelf,
                    width,
                    height,
                    (self.width, self.height),
                ) {
                    Some(k) => Some(k + n),
                    None => None,
                }),
                forall|row: int, col: int|
                    0 <= row < self.height && 0 <= col < self.stride() ==> #[trigger] byte_at(
                        self.pixels@,
                        self.stride(),
                        row,
                        col,
                    ) == grown_byte(&start, row, col),
                start == *old(self),
                width == glyph.width,
                height == glyph.height,
                width > 0,
                height > 0,
                width <= MAX_ATLAS_SIZE - 2,
                height <= MAX_ATLAS_SIZE - 2,
            decreases 2 * MAX_ATLAS_SIZE - self.width - self.height,
        {
            let ghost before = *self;
            if !self.grow() {
                return None;
            }
            proof {
                lemma_doubled_last(size, n);
                n = n + 1;
                assert forall|row: int, col: int|
                    0 <= row < self.height && 0 <= col < self.stride() implies #[trigger] byte_at(
                    self.pixels@,
                    self.stride(),
                    row,
                    col,
                ) == grown_byte(&start, row, col) by {
                    if row < before.height && col < before.stride() {
                        assert(byte_at(before.pixels@, before.stride(), row, col) == grown_byte(
                            &start,
                            row,
                            col,
                        ));
                    }
                }
            }
        }
        let ghost grown = *self;
        let ghost b = (self.width, self.height);
        let ghost corner = start.shelf.corner(width, b);
        if let Some(position) = self.shelf.allocate(width, height, [self.width, self.height]) {
            cached.position = position;
            let x: u32 = position[0];
            let y: u32 = position[1];
            draw_glyph(&mut self.pixels, self.width, self.height, x, y, glyph);
            self.dirty = true;
            let rect: [u32; 4] = [x, y, x + width, y + height];
            assert(rect@ =~= seq![
                (corner.0 + 1) as u32,
                (corner.1 + 1) as u32,
                (corner.0 + 1 + width) as u32,
                (corner.1 + 1 + height) as u32,
            ]);
            self.dirty_rect = Some(extend_rect(self.dirty_rect, rect));
            assert forall|row: int, col: int|
                0 <= row < self.height && 0 <= col < self.stride() implies #[trigger] byte_at(
                self.pixels@,
                self.stride(),
                row,
                col,
            ) == drawn_byte(
                grown_byte(&start, row, col),
                glyph,
                corner.0 + 1,
                corner.1 + 1,
                row,
                col,
            ) by {
                assert(byte_at(grown.pixels@, grown.stride(), row, col) == grown_byte(
                    &start,
                    row,
                    col,
                ));
                assert(byte_at(self.pixels@, 4 * self.width as int, row, col) == byte_at(
                    self.pixels@,
                    self.stride(),
                    row,
                    col,
                ));
            }
            return Some(cached);
        }
        None
    }

    /// Tells whether an area of a given size has room on the shelf.
    fn has_room(&self, width: u32, height: u32) -> (r: bool)
        requires
            self.wf(),
            width <= MAX_ATLAS_SIZE,
            height <= MAX_ATLAS_SIZE,
        ensures
            r == self.shelf.has_room(width, height, (self.width, self.height)),
    {
        let mut trial: Shelf = self.shelf;
        trial.allocate(width, height, [self.width, self.height]).is_some()
    }

    /// Looks up a glyph without modifying the atlas, for use after frame preparation.
    pub fn get(&self, c: char, flags: CellFlags) -> (r: Option<CachedGlyph>)
        requires
            self.wf(),
        ensures
            r == self.kept(c, style_number(flags)),
    {
        let code: u32 = glyph_code(c, style_index(flags));
        if c as u32 <= 0x7f {
            self.ascii_cache[code as usize]
        } else {
            match self.cache.get(&code) {
                Some(g) => Some(*g),
                None => None,
            }
        }
    }

    /// Returns the glyph of a character, which is inserted from its bitmap unless it is kept
    /// already. Returns None when the atlas cannot fit it, or when a character other than
    /// whitespace has no pixels.
    pub fn get_or_insert(&mut self, c: char, flags: CellFlags, rasterized: &RasterizedGlyph) -> (r:
        Option<CachedGlyph>)
        requires
            old(self).wf(),
        ensures
            final(self).wf(),
            ({
                let style = style_number(flags);
                let kept = old(self).kept(c, style);
                if kept is Some {
                    r == kept && *final(self) == *old(self)
                } else {
                    exists|mid: GlyphAtlas, g: Option<CachedGlyph>| #[trigger]
                        inserted(old(self), &mid, rasterized, g) && remembered(
                            &mid,
                            final(self),
                            c,
                            style,
                            g,
                            r,
                        )
                }
            }),
    {
        let style: u8 = style_index(flags);
        if let Some(glyph) = self.get(c, flags) {
            return Some(glyph);
        }
        let found: Option<CachedGlyph> = self.insert_bitmap(rasterized);
        let ghost mid = *self;
        let glyph: CachedGlyph = match found {
            Some(glyph) => glyph,
            None => {
                assert(remembered(&mid, self, c, style, found, None));
                return None;
            },
        };
        if glyph.width == 0 && glyph.height == 0 && !text::is_white_space(c) {
            assert(remembered(&mid, self, c, style, found, None));
            return None;
        }
        let code: u32 = glyph_code(c, style);
        if c as u32 <= 0x7f {
            self.ascii_cache[code as usize] = Some(glyph);
        } else {
            self.cache.insert(code, glyph);
        }
        assert(remembered(&mid, self, c, style, found, Some(glyph)));
        Some(glyph)
    }
}

/// Whether the outcome of an insertion was kept, unless there was none or it has no pixels and the
/// character is not whitespace.
pub open spec fn remembered(
    mid: &GlyphAtlas,
    after: &GlyphAtlas,
    c: char,
    style: u8,
    found: Option<CachedGlyph>,
    r: Option<CachedGlyph>,
) -> bool {
    let n = glyph_number(c, style);
    match found {
        Some(g) if g.width > 0 || g.height > 0 || text::white_space(c) => {
            &&& r == Some(g)
            &&& after.width == mid.width
            &&& after.height == mid.height
            &&& after.pixels@ == mid.pixels@
            &&& after.shelf == mid.shelf
            &&& after.dirty == mid.dirty
            &&& after.full_upload == mid.full_upload
            &&& after.dirty_rect == mid.dirty_rect
            &&& if c as u32 <= 0x7f {
                &&& after.ascii_cache@ == mid.ascii_cache@.update(n as int, Some(g))
                &&& after.cache@ == mid.cache@
            } else {
                &&& after.ascii_cache@ == mid.ascii_cache@
                &&& after.cache@ == mid.cache@.insert(n, g)
            }
        },
        _ => r is None && *after == *mid,
    }
}

/// What was drawn in the area that was given out before stays as it is when another glyph is
/// inserted, even if the atlas grows.
pub proof fn law_insertion_keeps_other_glyphs(
    before: &GlyphAtlas,
    after: &GlyphAtlas,
    glyph: &RasterizedGlyph,
    r: Option<CachedGlyph>,
    px: int,
    py: int,
    k: int,
)
    requires
        before.wf(),
        inserted(before, after, glyph, r),
        0 <= px < before.width,
        0 <= py < before.height,
        0 <= k < 4,
        before.shelf.taken(px, py),
    ensures
        byte_at(after.pixels@, after.stride(), py, 4 * px + k) == byte_at(
            before.pixels@,
            before.stride(),
            py,
            4 * px + k,
        ),
{
    let size = (before.width, before.height);
    match growth_needed(before.shelf, glyph.width, glyph.height, size) {
        Some(n) => {
            lemma_growth(before.shelf, glyph.width, glyph.height, size);
            lemma_doubled_grows(size, n);
            if !is_blank(glyph) && glyph.width <= MAX_ATLAS_SIZE - 2 && glyph.height
                <= MAX_ATLAS_SIZE - 2 {
                let new_size = doubled_times(size, n);
                law_areas_never_overlap(before.shelf, glyph.width, glyph.height, new_size);
                assert(byte_at(after.pixels@, after.stride(), py, 4 * px + k) == drawn_byte(
                    grown_byte(before, py, 4 * px + k),
                    glyph,
                    before.shelf.corner(glyph.width, new_size).0 + 1,
                    before.shelf.corner(glyph.width, new_size).1 + 1,
                    py,
                    4 * px + k,
                ));
            }
        },
        None => {
            if !is_blank(glyph) && glyph.width <= MAX_ATLAS_SIZE - 2 && glyph.height
                <= MAX_ATLAS_SIZE - 2 {
                assert(byte_at(after.pixels@, after.stride(), py, 4 * px + k) == grown_byte(
                    before,
                    py,
                    4 * px + k,
                ));
            }
        },
    }
}

/// After the growth that is needed there is room.
proof fn lemma_growth(shelf: Shelf, width: u32, height: u32, size: (u32, u32))
    ensures
        match growth_needed(shelf, width, height, size) {
            Some(n) => shelf.has_room(width, height, doubled_times(size, n)),
            None => true,
        },
    decreases 2 * MAX_ATLAS_SIZE - size.0 - size.1,
{
    if !shelf.has_room(width, height, size) && growable(size) {
        lemma_growth(shelf, width, height, (doubled(size.0), doubled(size.1)));
    }
}

/// Growth never makes an atlas smaller.
proof fn lemma_doubled_grows(size: (u32, u32), n: nat)
    requires
        size.0 <= MAX_ATLAS_SIZE,
        size.1 <= MAX_ATLAS_SIZE,
    ensures
        size.0 <= doubled_times(size, n).0 <= MAX_ATLAS_SIZE,
        size.1 <= doubled_times(size, n).1 <= MAX_ATLAS_SIZE,
    decreases n,
{
    if n > 0 {
        lemma_doubled_grows((doubled(size.0), doubled(size.1)), (n - 1) as nat);
    }
}

/// A glyph that was inserted is kept: it is found again without its bitmap.
pub proof fn law_inserted_glyphs_are_found(
    mid: &GlyphAtlas,
    after: &GlyphAtlas,
    c: char,
    style: u8,
    found: Option<CachedGlyph>,
    r: Option<CachedGlyph>,
)
    requires
        mid.wf(),
        style < 4,
        remembered(mid, after, c, style, found, r),
        r is Some,
    ensures
        after.kept(c, style) == r,
{
}

} // verus!
