//! Terminal cell grid, cursor management, and scrollback ring buffer.

pub mod diacritics;
pub mod edit;
pub mod edit_laws;
pub mod history_laws;
pub mod images;
pub mod laws;
pub mod model;
pub mod reflow;
pub mod reflow_laws;
pub mod resize;
pub mod row;
pub mod scroll;
pub mod size_laws;
pub mod write_laws;

use std::collections::BTreeSet;
use std::collections::HashMap;
use std::collections::VecDeque;

use crate::grid::model::{blank_rows, GridModel};
use crate::kitty::{ImageData, ImagePlacement};
use vstd::prelude::*;

pub use diacritics::{diacritic_to_index, KITTY_PLACEHOLDER};
pub use row::{Cell, CellFlags, ClearMode, Cursor, CursorShape, Row};

verus! {

broadcast use {
    vstd::std_specs::hash::group_hash_axioms,
    vstd::std_specs::btree::group_btree_axioms,
};

/// 2D Screen grid with scrollback history and alternate screen support.
#[derive(Debug, Clone)]
pub struct Grid {
    pub cols: usize,
    pub rows: usize,
    pub max_scrollback: usize,
    pub lines: Vec<Row>,
    pub scrollback: VecDeque<Row>,
    pub viewport_offset: usize,
    pub images: HashMap<u32, ImageData>,
    pub image_versions: HashMap<u32, u64>,
    pub placements: Vec<ImagePlacement>,
    pub virtual_placements: HashMap<u32, (usize, usize)>,
    pub cursor: Cursor,
    pub saved_cursor: Cursor,
    pub scroll_region_top: usize,
    pub scroll_region_bottom: usize,
    /// The hidden primary screen while the alternate screen is active. Each screen owns its saved
    /// cursor and placements so a resize on one cannot shift the other's coordinates.
    pub alt_lines: Option<Vec<Row>>,
    pub alt_cursor: Option<Cursor>,
    pub alt_saved_cursor: Option<Cursor>,
    pub alt_placements: Vec<ImagePlacement>,
    /// The rows on which a shell prompt starts, counted from the first row ever evicted.
    pub prompt_marks: BTreeSet<usize>,
    /// How many rows have left the history so far.
    pub total_evicted_rows: usize,
}

/// What a sequence of rows holds.
pub open spec fn row_models(rows: Seq<Row>) -> Seq<row::RowModel> {
    rows.map_values(|r: Row| r@)
}

impl View for Grid {
    type V = GridModel;

    open spec fn view(&self) -> GridModel {
        GridModel {
            cols: self.cols,
            rows: self.rows,
            max_scrollback: self.max_scrollback,
            lines: row_models(self.lines@),
            scrollback: row_models(self.scrollback@),
            viewport_offset: self.viewport_offset,
            images: self.images@,
            image_versions: self.image_versions@,
            placements: self.placements@,
            virtual_placements: self.virtual_placements@,
            cursor: self.cursor,
            saved_cursor: self.saved_cursor,
            scroll_region_top: self.scroll_region_top,
            scroll_region_bottom: self.scroll_region_bottom,
            alt_lines: match self.alt_lines {
                Some(alt) => Some(row_models(alt@)),
                None => None,
            },
            alt_cursor: self.alt_cursor,
            alt_saved_cursor: self.alt_saved_cursor,
            alt_placements: self.alt_placements@,
            prompt_marks: self.prompt_marks@,
            total_evicted_rows: self.total_evicted_rows,
        }
    }
}

/// Rows of blank cells.
pub fn new_rows(n: usize, cols: usize) -> (r: Vec<Row>)
    ensures
        row_models(r@) == blank_rows(n as nat, cols),
{
    let mut out: Vec<Row> = Vec::new();
    let mut i: usize = 0;
    while i < n
        invariant
            i <= n,
            row_models(out@) == blank_rows(i as nat, cols),
        decreases n - i,
    {
        let ghost before = out@;
        out.push(Row::new(cols));
        assert(row_models(out@) =~= row_models(before).push(row::RowModel::blank(cols as nat)));
        i += 1;
        assert(row_models(out@) =~= blank_rows(i as nat, cols));
    }
    out
}

impl Grid {
    /// A blank grid with an empty history.
    pub fn new(cols: usize, rows: usize, max_scrollback: usize) -> (g: Self)
        ensures
            g@ == GridModel::fresh(cols, rows, max_scrollback),
            g@.wf(),
            g@.cursor_on_screen(),
    {
        let actual_cols: usize = if cols > 1 {
            cols
        } else {
            1
        };
        let actual_rows: usize = if rows > 1 {
            rows
        } else {
            1
        };
        let g = Self {
            cols: actual_cols,
            rows: actual_rows,
            max_scrollback,
            lines: new_rows(actual_rows, actual_cols),
            scrollback: VecDeque::new(),
            viewport_offset: 0,
            images: HashMap::new(),
            image_versions: HashMap::new(),
            placements: Vec::new(),
            virtual_placements: HashMap::new(),
            cursor: Cursor::default(),
            saved_cursor: Cursor::default(),
            scroll_region_top: 0,
            scroll_region_bottom: actual_rows - 1,
            alt_lines: None,
            alt_cursor: None,
            alt_saved_cursor: None,
            alt_placements: Vec::new(),
            prompt_marks: BTreeSet::new(),
            total_evicted_rows: 0,
        };
        assert(g@ =~= GridModel::fresh(cols, rows, max_scrollback));
        g
    }

    /// Tells whether the alternate screen is active.
    pub fn is_alt_screen(&self) -> (r: bool)
        ensures
            r == self@.alt_lines is Some,
    {
        self.alt_lines.is_some()
    }
}

} // verus!
