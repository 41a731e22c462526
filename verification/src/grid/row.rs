//! Terminal cell and row representation, cell flags, and cursor state.

use crate::collections::keys_of;
use crate::color::Color;
use std::collections::HashMap;
use vstd::prelude::*;

verus! {

broadcast use vstd::std_specs::hash::group_hash_axioms;

/// Visual and semantic attributes attached to a terminal cell, one bit each.
#[derive(Debug, Clone, Copy, PartialEq, Eq, Structural)]
pub struct CellFlags {
    pub bits: u16,
}

impl CellFlags {
    /// No attribute.
    #[verifier::allow_in_spec]
    pub fn empty() -> Self
        returns
            (CellFlags { bits: 0 }),
    {
        CellFlags { bits: 0 }
    }

    /// Bold text.
    #[verifier::allow_in_spec]
    pub fn bold() -> Self
        returns
            (CellFlags { bits: 0x1 }),
    {
        CellFlags { bits: 0x1 }
    }

    /// Dim text.
    #[verifier::allow_in_spec]
    pub fn dim() -> Self
        returns
            (CellFlags { bits: 0x2 }),
    {
        CellFlags { bits: 0x2 }
    }

    /// Italic text.
    #[verifier::allow_in_spec]
    pub fn italic() -> Self
        returns
            (CellFlags { bits: 0x4 }),
    {
        CellFlags { bits: 0x4 }
    }

    /// Single underline.
    #[verifier::allow_in_spec]
    pub fn underline() -> Self
        returns
            (CellFlags { bits: 0x8 }),
    {
        CellFlags { bits: 0x8 }
    }

    /// Swapped foreground and background.
    #[verifier::allow_in_spec]
    pub fn reverse() -> Self
        returns
            (CellFlags { bits: 0x10 }),
    {
        CellFlags { bits: 0x10 }
    }

    /// Invisible text.
    #[verifier::allow_in_spec]
    pub fn hidden() -> Self
        returns
            (CellFlags { bits: 0x20 }),
    {
        CellFlags { bits: 0x20 }
    }

    /// Struck-out text.
    #[verifier::allow_in_spec]
    pub fn strikethrough() -> Self
        returns
            (CellFlags { bits: 0x40 }),
    {
        CellFlags { bits: 0x40 }
    }

    /// The left half of a character that takes two columns.
    #[verifier::allow_in_spec]
    pub fn wide_char() -> Self
        returns
            (CellFlags { bits: 0x80 }),
    {
        CellFlags { bits: 0x80 }
    }

    /// The right half of a character that takes two columns.
    #[verifier::allow_in_spec]
    pub fn wide_char_spacer() -> Self
        returns
            (CellFlags { bits: 0x100 }),
    {
        CellFlags { bits: 0x100 }
    }

    /// Double underline.
    #[verifier::allow_in_spec]
    pub fn underline_double() -> Self
        returns
            (CellFlags { bits: 0x200 }),
    {
        CellFlags { bits: 0x200 }
    }

    /// Curly underline.
    #[verifier::allow_in_spec]
    pub fn underline_curly() -> Self
        returns
            (CellFlags { bits: 0x400 }),
    {
        CellFlags { bits: 0x400 }
    }

    /// Dotted underline.
    #[verifier::allow_in_spec]
    pub fn underline_dotted() -> Self
        returns
            (CellFlags { bits: 0x800 }),
    {
        CellFlags { bits: 0x800 }
    }

    /// Dashed underline.
    #[verifier::allow_in_spec]
    pub fn underline_dashed() -> Self
        returns
            (CellFlags { bits: 0x1000 }),
    {
        CellFlags { bits: 0x1000 }
    }

    /// A filler at the end of a row whose wide character moved to the next row.
    #[verifier::allow_in_spec]
    pub fn wrap_spacer() -> Self
        returns
            (CellFlags { bits: 0x2000 }),
    {
        CellFlags { bits: 0x2000 }
    }

    /// Every kind of underline.
    #[verifier::allow_in_spec]
    pub fn all_underlines() -> Self
        returns
            (CellFlags { bits: 0x1e08 }),
    {
        CellFlags { bits: 0x1e08 }
    }

    /// Whether every attribute of `other` is set.
    pub open spec fn has(self, other: CellFlags) -> bool {
        self.bits & other.bits == other.bits
    }

    /// The attributes of both.
    pub open spec fn with(self, other: CellFlags) -> CellFlags {
        CellFlags { bits: self.bits | other.bits }
    }

    /// Tells whether every attribute of `other` is set.
    pub fn contains(self, other: CellFlags) -> (r: bool)
        ensures
            r == self.has(other),
    {
        self.bits & other.bits == other.bits
    }

    /// The attributes of both.
    pub fn union(self, other: CellFlags) -> (r: CellFlags)
        ensures
            r == self.with(other),
    {
        CellFlags { bits: self.bits | other.bits }
    }
}

impl Default for CellFlags {
    fn default() -> (r: Self)
        ensures
            r == CellFlags::empty(),
    {
        CellFlags::empty()
    }
}

impl std::ops::BitOr for CellFlags {
    type Output = CellFlags;

    fn bitor(self, other: CellFlags) -> (r: CellFlags) {
        self.union(other)
    }
}

impl vstd::std_specs::ops::BitOrSpecImpl for CellFlags {
    open spec fn obeys_bitor_spec() -> bool {
        true
    }

    open spec fn bitor_req(self, rhs: CellFlags) -> bool {
        true
    }

    open spec fn bitor_spec(self, rhs: CellFlags) -> CellFlags {
        self.with(rhs)
    }
}

/// A single character cell within the terminal grid.
#[derive(Debug, Clone, Copy, PartialEq, Eq, Structural)]
pub struct Cell {
    pub c: char,
    pub fg: Color,
    pub bg: Color,
    pub underline_color: Color,
    pub flags: CellFlags,
    /// The hyperlink that the cell belongs to, or zero.
    pub hyperlink: u32,
}

/// A blank cell in the default colors.
pub open spec fn blank_cell() -> Cell {
    Cell {
        c: ' ',
        fg: Color::DefaultForeground,
        bg: Color::DefaultBackground,
        underline_color: Color::DefaultForeground,
        flags: CellFlags { bits: 0 },
        hyperlink: 0,
    }
}

/// The number that stands for an optional hyperlink: zero is no hyperlink.
pub open spec fn link_number(id: Option<u32>) -> u32 {
    match id {
        Some(n) => n,
        None => 0,
    }
}

impl Default for Cell {
    fn default() -> (r: Self)
        ensures
            r == blank_cell(),
    {
        Self {
            c: ' ',
            fg: Color::DefaultForeground,
            bg: Color::DefaultBackground,
            underline_color: Color::DefaultForeground,
            flags: CellFlags::empty(),
            hyperlink: 0,
        }
    }
}

impl Cell {
    /// Blanks the cell.
    pub fn reset(&mut self)
        ensures
            *final(self) == blank_cell(),
    {
        *self = Cell::default();
    }

    /// The hyperlink that the cell belongs to.
    pub fn hyperlink_id(&self) -> (id: Option<u32>)
        ensures
            id == (if self.hyperlink == 0 {
                None::<u32>
            } else {
                Some(self.hyperlink)
            }),
    {
        if self.hyperlink == 0 {
            None
        } else {
            Some(self.hyperlink)
        }
    }

    /// Attaches the cell to a hyperlink. The identifier zero detaches it, as `None` does.
    pub fn set_hyperlink_id(&mut self, id: Option<u32>)
        ensures
            *final(self) == (Cell { hyperlink: link_number(id), ..*old(self) }),
    {
        self.hyperlink = match id {
            Some(n) => n,
            None => 0,
        };
    }
}

/// The visual style of the text cursor.
#[derive(Debug, Clone, Copy, PartialEq, Eq, Structural)]
pub enum CursorShape {
    Block,
    Beam,
    Underline,
}

impl Default for CursorShape {
    fn default() -> (r: Self)
        ensures
            r == CursorShape::Block,
    {
        CursorShape::Block
    }
}

/// Cursor coordinate and visibility state.
#[derive(Debug, Clone, Copy, PartialEq, Eq, Structural)]
pub struct Cursor {
    pub row: usize,
    pub col: usize,
    pub visible: bool,
    pub shape: CursorShape,
}

/// A visible block cursor in the top left corner.
pub open spec fn home_cursor() -> Cursor {
    Cursor { row: 0, col: 0, visible: true, shape: CursorShape::Block }
}

impl Default for Cursor {
    fn default() -> (r: Self)
        ensures
            r == home_cursor(),
    {
        Self { row: 0, col: 0, visible: true, shape: CursorShape::Block }
    }
}

/// Clear direction mode for ED (Erase in Display) and EL (Erase in Line).
#[derive(Debug, Clone, Copy, PartialEq, Eq, Structural)]
pub enum ClearMode {
    Below,
    Above,
    All,
    Saved,
}

/// Whether a row has changed since it was last drawn.
#[derive(Debug, Clone, Copy, PartialEq, Eq, Structural)]
pub struct DirtyFlag {
    pub value: bool,
}

impl DirtyFlag {
    /// Makes a flag.
    pub fn new(value: bool) -> (r: Self)
        ensures
            r.value == value,
    {
        DirtyFlag { value }
    }

    /// Changes the flag.
    pub fn set(&mut self, value: bool)
        ensures
            final(self).value == value,
    {
        self.value = value;
    }

    /// Reads the flag.
    pub fn get(&self) -> (r: bool)
        ensures
            r == self.value,
    {
        self.value
    }
}

/// A horizontal row of cells in the terminal.
#[derive(Clone, Debug)]
pub struct Row {
    pub cells: Vec<Cell>,
    pub wrapped: bool,
    /// Image row, image column and number of diacritics read, by the column of a placeholder.
    pub placeholders: Option<HashMap<usize, (u16, u16, u8)>>,
    pub dirty: DirtyFlag,
}

/// Image coordinates by column.
pub type Coords = Map<usize, (u16, u16, u8)>;

/// What a row holds.
#[verifier::ext_equal]
pub struct RowModel {
    pub cells: Seq<Cell>,
    pub wrapped: bool,
    /// The image coordinates by column; empty where the row has none.
    pub placeholders: Coords,
    pub dirty: bool,
}

/// The coordinates that an optional map holds.
pub open spec fn coords_of(m: Option<HashMap<usize, (u16, u16, u8)>>) -> Coords {
    match m {
        Some(m) => m@,
        None => Map::empty(),
    }
}

impl View for Row {
    type V = RowModel;

    open spec fn view(&self) -> RowModel {
        RowModel {
            cells: self.cells@,
            wrapped: self.wrapped,
            placeholders: coords_of(self.placeholders),
            dirty: self.dirty.value,
        }
    }
}

/// A run of blank cells.
pub open spec fn blanks(n: nat) -> Seq<Cell> {
    Seq::new(n, |i: int| blank_cell())
}

/// The coordinates left of a column.
pub open spec fn coords_below(m: Coords, n: usize) -> Coords {
    m.restrict(Set::new(|k: usize| k < n))
}

/// Cells with the range from `from` up to `to` blanked.
pub open spec fn blanked(cells: Seq<Cell>, from: int, to: int) -> Seq<Cell> {
    Seq::new(
        cells.len(),
        |i: int|
            if from <= i < to {
                blank_cell()
            } else {
                cells[i]
            },
    )
}

impl RowModel {
    /// A fresh row of blank cells.
    pub open spec fn blank(cols: nat) -> RowModel {
        RowModel { cells: blanks(cols), wrapped: false, placeholders: Map::empty(), dirty: true }
    }

    /// The row cut or padded to a width.
    pub open spec fn resized(self, n: usize) -> RowModel {
        if n < self.cells.len() {
            RowModel {
                cells: self.cells.take(n as int),
                placeholders: coords_below(self.placeholders, n),
                dirty: true,
                ..self
            }
        } else if n > self.cells.len() {
            RowModel {
                cells: self.cells + blanks((n - self.cells.len()) as nat),
                dirty: true,
                ..self
            }
        } else {
            self
        }
    }

    /// The row marked for redrawing.
    pub open spec fn touched(self) -> RowModel {
        RowModel { dirty: true, ..self }
    }

    /// The row with a range of cells blanked.
    pub open spec fn wiped(self, from: int, to: int) -> RowModel {
        RowModel { cells: blanked(self.cells, from, to), ..self }
    }

    /// The row with `n` blank cells inserted at a column, which push the last `n` cells out.
    pub open spec fn opened(self, col: int, n: int) -> RowModel {
        RowModel {
            cells: Seq::new(
                self.cells.len(),
                |i: int|
                    if i < col {
                        self.cells[i]
                    } else if i < col + n {
                        blank_cell()
                    } else {
                        self.cells[i - n]
                    },
            ),
            dirty: true,
            ..self
        }
    }

    /// The row with `n` cells removed at a column and `n` blank cells at its end.
    pub open spec fn closed(self, col: int, n: int) -> RowModel {
        RowModel {
            cells: Seq::new(
                self.cells.len(),
                |i: int|
                    if i < col {
                        self.cells[i]
                    } else if i + n < self.cells.len() {
                        self.cells[i + n]
                    } else {
                        blank_cell()
                    },
            ),
            dirty: true,
            ..self
        }
    }

    /// The row without hyperlinks.
    pub open spec fn unlinked(self) -> RowModel {
        RowModel {
            cells: self.cells.map_values(|c: Cell| Cell { hyperlink: 0, ..c }),
            ..self
        }
    }

    /// The row with a character written at a column: its image coordinates there are forgotten.
    pub open spec fn written(self, col: usize, cell: Cell) -> RowModel {
        RowModel {
            cells: self.cells.update(col as int, cell),
            placeholders: self.placeholders.remove(col),
            dirty: true,
            ..self
        }
    }
}

/// Forgets the coordinates at and right of a column.
fn keep_coords_below(m: &mut HashMap<usize, (u16, u16, u8)>, n: usize)
    ensures
        final(m)@ == coords_below(old(m)@, n),
{
    let keys: Vec<usize> = keys_of(m);
    let ghost before = m@;
    let mut i: usize = 0;
    while i < keys.len()
        invariant
            i <= keys@.len(),
            forall|k: usize| #[trigger]
                m@.contains_key(k) <==> before.contains_key(k) && !(k >= n && keys@.take(
                    i as int,
                ).contains(k)),
            forall|k: usize| m@.contains_key(k) ==> m@[k] == before[k],
        decreases keys@.len() - i,
    {
        let ghost earlier = m@;
        if keys[i] >= n {
            m.remove(&keys[i]);
        }
        assert(keys@.take(i + 1) =~= keys@.take(i as int).push(keys@[i as int]));
        assert forall|k: usize| #[trigger]
            m@.contains_key(k) <==> before.contains_key(k) && !(k >= n && keys@.take(
                i + 1,
            ).contains(k)) by {
            vstd::seq_lib::lemma_seq_contains_after_push(keys@.take(i as int), keys@[i as int], k);
            assert(earlier.contains_key(k) <==> before.contains_key(k) && !(k >= n && keys@.take(
                i as int,
            ).contains(k)));
        }
        i += 1;
    }
    assert(keys@.take(keys@.len() as int) =~= keys@);
    assert forall|k: usize| before.contains_key(k) implies keys@.contains(k) by {
        assert(keys@.to_set().contains(k));
    }
    assert(m@ =~= coords_below(before, n));
}

impl Row {
    /// A blank row of the given width, marked for drawing.
    pub fn new(cols: usize) -> (r: Self)
        ensures
            r@ == RowModel::blank(cols as nat),
    {
        let r = Self {
            cells: vec![Cell::default(); cols],
            wrapped: false,
            placeholders: None,
            dirty: DirtyFlag::new(true),
        };
        assert(r.cells@ =~= blanks(cols as nat));
        r
    }

    /// Cuts the row to a width or pads it with blank cells.
    pub fn resize(&mut self, new_cols: usize)
        ensures
            final(self)@ == old(self)@.resized(new_cols),
    {
        if new_cols < self.cells.len() {
            self.cells.truncate(new_cols);
            if let Some(coords) = &mut self.placeholders {
                keep_coords_below(coords, new_cols);
            }
            self.dirty.set(true);
            assert(self@.placeholders =~= coords_below(old(self)@.placeholders, new_cols));
        } else if new_cols > self.cells.len() {
            let ghost before = self.cells@;
            self.cells.resize(new_cols, Cell::default());
            assert(self.cells@ =~= before + blanks((new_cols - before.len()) as nat)) by {
                assert forall|i: int| 0 <= i < before.len() implies self.cells@[i]
                    == before[i] by {
                    assert(self.cells@.subrange(0, before.len() as int)[i] == before[i]);
                }
            }
            self.dirty.set(true);
        }
    }

    /// Erases the content of the row.
    pub fn reset(&mut self)
        ensures
            final(self)@ == RowModel::blank(old(self)@.cells.len()),
    {
        let n: usize = self.cells.len();
        self.wipe(0, n);
        assert(self.cells@ =~= blanks(n as nat));
        self.wrapped = false;
        if let Some(coords) = &mut self.placeholders {
            coords.clear();
        }
        self.dirty.set(true);
    }

    /// Blanks a range of cells.
    pub fn wipe(&mut self, from: usize, to: usize)
        requires
            from <= to <= old(self).cells@.len(),
        ensures
            final(self)@ == old(self)@.wiped(from as int, to as int),
    {
        let ghost before = self@;
        let mut i: usize = from;
        while i < to
            invariant
                from <= i <= to <= self.cells@.len(),
                self@ == before.wiped(from as int, i as int),
            decreases to - i,
        {
            self.cells[i] = Cell::default();
            i += 1;
            assert(self.cells@ =~= blanked(before.cells, from as int, i as int));
        }
        assert(self.cells@ =~= blanked(before.cells, from as int, to as int));
    }

    /// Inserts `n` blank cells at a column, pushing the last `n` cells out.
    pub fn insert_blanks(&mut self, col: usize, n: usize)
        requires
            col + n <= old(self).cells@.len(),
        ensures
            final(self)@ == old(self)@.opened(col as int, n as int),
    {
        let ghost before = self@;
        let len: usize = self.cells.len();
        let mut i: usize = len;
        while i > col + n
            invariant
                col + n <= i <= len,
                len == before.cells.len(),
                self@ == (RowModel { cells: self.cells@, ..before }),
                self.cells@.len() == len,
                forall|j: int|
                    0 <= j < len ==> (#[trigger] self.cells@[j]) == (if j < i {
                        before.cells[j]
                    } else {
                        before.cells[j - n]
                    }),
            decreases i,
        {
            i -= 1;
            let moved: Cell = self.cells[i - n];
            self.cells[i] = moved;
        }
        self.wipe(col, col + n);
        self.dirty.set(true);
        assert(self.cells@ =~= before.opened(col as int, n as int).cells);
    }

    /// Removes `n` cells at a column and lets blank cells in at the end.
    pub fn delete_cells(&mut self, col: usize, n: usize)
        requires
            col + n <= old(self).cells@.len(),
        ensures
            final(self)@ == old(self)@.closed(col as int, n as int),
    {
        let ghost before = self@;
        let len: usize = self.cells.len();
        let mut i: usize = col;
        while i < len - n
            invariant
                col <= i <= len - n,
                col + n <= len,
                len == before.cells.len(),
                self@ == (RowModel { cells: self.cells@, ..before }),
                self.cells@.len() == len,
                forall|j: int|
                    0 <= j < len ==> (#[trigger] self.cells@[j]) == (if col <= j < i {
                        before.cells[j + n]
                    } else {
                        before.cells[j]
                    }),
            decreases len - i,
        {
            let moved: Cell = self.cells[i + n];
            self.cells[i] = moved;
            i += 1;
        }
        self.wipe(len - n, len);
        self.dirty.set(true);
        assert(self.cells@ =~= before.closed(col as int, n as int).cells);
    }

    /// Forgets the image coordinates of a column.
    pub fn forget_placeholder(&mut self, col: usize)
        ensures
            final(self)@ == (RowModel {
                placeholders: old(self)@.placeholders.remove(col),
                ..old(self)@
            }),
    {
        if let Some(coords) = &mut self.placeholders {
            coords.remove(&col);
        }
        assert(self@.placeholders =~= old(self)@.placeholders.remove(col));
    }

    /// Detaches every cell from its hyperlink.
    pub fn unlink(&mut self)
        ensures
            final(self)@ == old(self)@.unlinked(),
    {
        let ghost before = self@;
        let mut i: usize = 0;
        while i < self.cells.len()
            invariant
                i <= self.cells@.len(),
                self.cells@.len() == before.cells.len(),
                self@ == (RowModel { cells: self.cells@, ..before }),
                forall|j: int|
                    0 <= j < self.cells@.len() ==> (#[trigger] self.cells@[j]) == (if j < i {
                        Cell { hyperlink: 0, ..before.cells[j] }
                    } else {
                        before.cells[j]
                    }),
            decreases self.cells@.len() - i,
        {
            self.cells[i].set_hyperlink_id(None);
            i += 1;
        }
        assert(self.cells@ =~= before.unlinked().cells);
    }
}

} // verus!
