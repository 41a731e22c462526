//! Images stored with the grid and their placements.

use crate::collections::keys_of;
use crate::color::Color;
use crate::grid::diacritics::KITTY_PLACEHOLDER;
use crate::grid::model::{least, most, GridModel};
use crate::grid::row::{Cell, Row, RowModel};
use crate::grid::{row_models, Grid};
use crate::kitty::{DeleteTarget, ImageData, ImagePlacement};
use std::collections::HashMap;
use std::collections::HashSet;
use vstd::prelude::*;

verus! {

broadcast use vstd::std_specs::hash::group_hash_axioms;

/// The largest number of placements on one screen.
pub const MAX_PLACEMENTS: usize = 1024;

/// The largest number of stored images.
pub const MAX_STORED_IMAGES: usize = 256;

/// The low 24 bits of an image identifier.
pub open spec fn low24(id: u32) -> u32 {
    (id as int % 0x100_0000) as u32
}

/// The image that a placeholder cell names by its foreground color, or zero.
pub open spec fn named_image(cell: Cell) -> u32 {
    if cell.c != KITTY_PLACEHOLDER {
        0
    } else {
        match cell.fg {
            Color::Rgb(r, g, b) => (65536 * r + 256 * g + b) as u32,
            Color::Indexed(idx) => idx as u32,
            _ => 0,
        }
    }
}

/// Whether `id` is the first identifier of a list whose low bits are `n`.
pub open spec fn first_with_low24(order: Seq<u32>, n: u32, id: u32) -> bool {
    exists|i: int|
        #![trigger order[i]]
        0 <= i < order.len() && order[i] == id && low24(id) == n && forall|j: int|
            0 <= j < i ==> low24(#[trigger] order[j]) != n
}

/// Whether a cell refers to an image: it names the image, or names the low bits of the first
/// virtual placement of the list that has them.
pub open spec fn cell_refers(cell: Cell, order: Seq<u32>, id: u32) -> bool {
    let n = named_image(cell);
    n != 0 && (id == n || first_with_low24(order, n, id))
}

/// The images that the cells of a row refer to.
pub open spec fn row_refs(row: RowModel, order: Seq<u32>) -> Set<u32> {
    Set::new(
        |id: u32|
            exists|j: int| 0 <= j < row.cells.len() && cell_refers(#[trigger] row.cells[j], order, id),
    )
}

/// The images that the cells of rows refer to.
pub open spec fn rows_refs(rows: Seq<RowModel>, order: Seq<u32>) -> Set<u32> {
    Set::new(
        |id: u32| exists|i: int| 0 <= i < rows.len() && row_refs(#[trigger] rows[i], order).contains(id),
    )
}

/// The images of placements.
pub open spec fn placed_ids(ps: Seq<ImagePlacement>) -> Set<u32> {
    Set::new(|id: u32| exists|i: int| 0 <= i < ps.len() && (#[trigger] ps[i]).image_id == id)
}

impl GridModel {
    /// An image stored under its identifier, whose version goes up.
    pub open spec fn image_stored(self, image: ImageData) -> GridModel {
        let version: u64 = if self.image_versions.contains_key(image.id) {
            self.image_versions[image.id]
        } else {
            0
        };
        GridModel {
            images: self.images.insert(image.id, image),
            image_versions: self.image_versions.insert(
                image.id,
                if version == u64::MAX {
                    0
                } else {
                    (version + 1) as u64
                },
            ),
            ..self
        }
    }

    /// The images in use on either screen, with the virtual placements walked in the given order.
    pub open spec fn images_in_use(self, order: Seq<u32>) -> Set<u32> {
        placed_ids(self.placements).union(placed_ids(self.alt_placements)).union(
            rows_refs(self.lines, order),
        ).union(
            match self.alt_lines {
                Some(alt) => rows_refs(alt, order),
                None => Set::empty(),
            },
        )
    }

    /// The images that are not in use forgotten, except for `id`.
    pub open spec fn unused_dropped(self, id: u32, order: Seq<u32>) -> GridModel {
        let used = self.images_in_use(order);
        let images = self.images.restrict(used.insert(id));
        GridModel {
            images,
            image_versions: self.image_versions.restrict(images.dom()),
            virtual_placements: self.virtual_placements.restrict(used),
            ..self
        }
    }

    /// An image forgotten with its placements.
    pub open spec fn without_image(self, id: u32) -> GridModel {
        GridModel {
            images: self.images.remove(id),
            image_versions: self.image_versions.remove(id),
            placements: self.placements.filter(|p: ImagePlacement| p.image_id != id),
            alt_placements: self.alt_placements.filter(|p: ImagePlacement| p.image_id != id),
            virtual_placements: self.virtual_placements.remove(id),
            ..self
        }
    }

    /// Images forgotten one after the other.
    pub open spec fn without_images(self, ids: Seq<u32>) -> GridModel
        decreases ids.len(),
    {
        if ids.len() == 0 {
            self
        } else {
            self.without_images(ids.drop_last()).without_image(ids.last())
        }
    }

    /// The first images of the given order forgotten, except for `id`, until the store is within
    /// its capacity.
    pub open spec fn surplus_dropped(self, id: u32, order: Seq<u32>) -> GridModel {
        let n = most(self.images.len() - MAX_STORED_IMAGES, 0);
        let others = others_than(order, id);
        self.without_images(others.take(least(n, others.len() as int)))
    }

    /// An image added. Past the capacity the unused images go, with the virtual placements walked
    /// in the order `virtual_order`, and then those that come first in `image_order`.
    pub open spec fn image_added(
        self,
        image: ImageData,
        virtual_order: Seq<u32>,
        image_order: Seq<u32>,
    ) -> GridModel {
        let stored = self.image_stored(image);
        if stored.images.len() <= MAX_STORED_IMAGES {
            stored
        } else {
            let used = stored.unused_dropped(image.id, virtual_order);
            if used.images.len() <= MAX_STORED_IMAGES {
                used
            } else {
                used.surplus_dropped(image.id, image_order)
            }
        }
    }

    /// A placement added; past the capacity the oldest one goes.
    pub open spec fn placement_added(self, p: ImagePlacement) -> GridModel {
        GridModel {
            placements: if self.placements.len() >= MAX_PLACEMENTS {
                self.placements.drop_first().push(p)
            } else {
                self.placements.push(p)
            },
            ..self
        }
    }

    /// Whether a placement covers the cursor.
    pub open spec fn covers_cursor(self, p: ImagePlacement) -> bool {
        p.line == self.scrollback.len() + self.cursor.row && p.col <= self.cursor.col < p.col
            + p.cols
    }

    /// Images or placements deleted.
    pub open spec fn images_deleted(self, target: DeleteTarget) -> GridModel {
        match target {
            DeleteTarget::All => GridModel {
                images: Map::empty(),
                image_versions: Map::empty(),
                placements: Seq::empty(),
                alt_placements: Seq::empty(),
                virtual_placements: Map::empty(),
                ..self
            },
            DeleteTarget::ById(id) => self.without_image(id),
            DeleteTarget::ByPlacement(id) => GridModel {
                placements: self.placements.filter(|p: ImagePlacement| p.placement_id != id),
                alt_placements: self.alt_placements.filter(
                    |p: ImagePlacement| p.placement_id != id,
                ),
                ..self
            },
            DeleteTarget::AtCursor => GridModel {
                placements: self.placements.filter(|p: ImagePlacement| !self.covers_cursor(p)),
                ..self
            },
        }
    }
}

/// The elements of a list other than one.
pub open spec fn others_than(order: Seq<u32>, id: u32) -> Seq<u32> {
    order.filter(|k: u32| k != id)
}

/// Whether a grid is what adding an image to another leaves, with its virtual placements and its
/// images walked in the given orders. The images are walked only past the capacity.
pub open spec fn adds_image(
    before: GridModel,
    image: ImageData,
    virtual_order: Seq<u32>,
    image_order: Seq<u32>,
    after: GridModel,
) -> bool {
    let used = before.image_stored(image).unused_dropped(image.id, virtual_order);
    &&& lists(virtual_order, before.virtual_placements.dom())
    &&& used.images.len() > MAX_STORED_IMAGES ==> lists(image_order, used.images.dom())
    &&& after == before.image_added(image, virtual_order, image_order)
}

/// Whether a list holds each element of a set once.
pub open spec fn lists(order: Seq<u32>, s: Set<u32>) -> bool {
    order.no_duplicates() && order.to_set() == s
}

/// Which placements are to be kept.
#[derive(Clone, Copy)]
enum Keep {
    OtherImage(u32),
    OtherPlacement(u32),
    OffCursor(usize, usize),
}

spec fn keeps(k: Keep, p: ImagePlacement) -> bool {
    match k {
        Keep::OtherImage(id) => p.image_id != id,
        Keep::OtherPlacement(id) => p.placement_id != id,
        Keep::OffCursor(line, col) => !(p.line == line && p.col <= col < p.col + p.cols),
    }
}

/// Keeps some placements, in their order.
fn keep_placements(ps: &mut Vec<ImagePlacement>, k: Keep)
    ensures
        final(ps)@ == old(ps)@.filter(|p: ImagePlacement| keeps(k, p)),
{
    let ghost f = |p: ImagePlacement| keeps(k, p);
    let ghost before = ps@;
    let mut kept: Vec<ImagePlacement> = Vec::new();
    let mut i: usize = 0;
    proof {
        reveal(Seq::filter);
        assert(before.take(0).filter(f) =~= Seq::<ImagePlacement>::empty());
    }
    while i < ps.len()
        invariant
            i <= ps@.len(),
            ps@ == before,
            f == (|p: ImagePlacement| keeps(k, p)),
            kept@ == before.take(i as int).filter(f),
        decreases ps@.len() - i,
    {
        let p: ImagePlacement = ps[i];
        let keep: bool = match k {
            Keep::OtherImage(id) => p.image_id != id,
            Keep::OtherPlacement(id) => p.placement_id != id,
            Keep::OffCursor(line, col) => !(p.line == line && p.col <= col && col - p.col < p.cols),
        };
        proof {
            reveal(Seq::filter);
            assert(before.take(i + 1).drop_last() =~= before.take(i as int));
            assert(keep == f(p));
        }
        if keep {
            kept.push(p);
        }
        i += 1;
    }
    assert(before.take(before.len() as int) =~= before);
    *ps = kept;
}

/// Adds the images of placements to a set.
fn collect_placed(ids: &mut HashSet<u32>, ps: &Vec<ImagePlacement>)
    ensures
        final(ids)@ == old(ids)@.union(placed_ids(ps@)),
{
    let ghost before = ids@;
    let mut i: usize = 0;
    while i < ps.len()
        invariant
            i <= ps@.len(),
            forall|id: u32| #[trigger]
                ids@.contains(id) <==> before.contains(id) || exists|j: int|
                    0 <= j < i && (#[trigger] ps@[j]).image_id == id,
        decreases ps@.len() - i,
    {
        ids.insert(ps[i].image_id);
        i += 1;
    }
    assert(ids@ =~= before.union(placed_ids(ps@)));
}

/// The low 24 bits of an image identifier.
fn low_bits(id: u32) -> (r: u32)
    ensures
        r == low24(id),
{
    id % 0x100_0000
}

fn name_of(cell: &Cell) -> (r: u32)
    ensures
        r == named_image(*cell),
{
    if cell.c != KITTY_PLACEHOLDER {
        return 0;
    }
    match cell.fg {
        Color::Rgb(r, g, b) => 65536 * (r as u32) + 256 * (g as u32) + (b as u32),
        Color::Indexed(idx) => idx as u32,
        _ => 0,
    }
}

/// The first identifier of a list with the given low bits.
fn find_low24(order: &Vec<u32>, n: u32) -> (r: Option<u32>)
    ensures
        match r {
            Some(id) => forall|x: u32| first_with_low24(order@, n, x) <==> x == id,
            None => forall|x: u32| !first_with_low24(order@, n, x),
        },
{
    let mut i: usize = 0;
    while i < order.len()
        invariant
            i <= order@.len(),
            forall|j: int| 0 <= j < i ==> low24(#[trigger] order@[j]) != n,
        decreases order@.len() - i,
    {
        if low_bits(order[i]) == n {
            proof {
                let id = order@[i as int];
                assert(first_with_low24(order@, n, id));
                assert forall|x: u32| first_with_low24(order@, n, x) implies x == id by {
                    let k = choose|k: int|
                        #![trigger order@[k]]
                        0 <= k < order@.len() && order@[k] == x && low24(x) == n && forall|j: int|
                            0 <= j < k ==> low24(#[trigger] order@[j]) != n;
                    assert(k == i) by {
                        if k < i {
                            assert(low24(order@[k]) != n);
                        }
                        if i < k {
                            assert(low24(order@[i as int]) != n);
                        }
                    }
                }
            }
            return Some(order[i]);
        }
        i += 1;
    }
    None
}

/// Adds the images that the cells of a row refer to.
fn collect_row(ids: &mut HashSet<u32>, row: &Row, order: &Vec<u32>)
    ensures
        final(ids)@ == old(ids)@.union(row_refs(row@, order@)),
{
    let ghost before = ids@;
    let mut j: usize = 0;
    while j < row.cells.len()
        invariant
            j <= row.cells@.len(),
            forall|id: u32| #[trigger]
                ids@.contains(id) <==> before.contains(id) || exists|k: int|
                    0 <= k < j && cell_refers(#[trigger] row.cells@[k], order@, id),
        decreases row.cells@.len() - j,
    {
        let ghost held = ids@;
        let n: u32 = name_of(&row.cells[j]);
        let ghost cell = row.cells@[j as int];
        if n != 0 {
            ids.insert(n);
            let found = find_low24(order, n);
            if let Some(owner) = found {
                ids.insert(owner);
            }
        }
        assert forall|id: u32| #[trigger]
            ids@.contains(id) <==> before.contains(id) || exists|k: int|
                0 <= k < j + 1 && cell_refers(#[trigger] row.cells@[k], order@, id) by {
            assert(ids@.contains(id) <==> held.contains(id) || cell_refers(cell, order@, id));
            if held.contains(id) && !before.contains(id) {
                let k = choose|k: int|
                    0 <= k < j && cell_refers(#[trigger] row.cells@[k], order@, id);
                assert(cell_refers(row.cells@[k], order@, id));
            }
        }
        j += 1;
    }
    assert(ids@ =~= before.union(row_refs(row@, order@)));
}

/// Adds the images that the cells of rows refer to.
fn collect_rows(ids: &mut HashSet<u32>, rows: &Vec<Row>, order: &Vec<u32>)
    ensures
        final(ids)@ == old(ids)@.union(rows_refs(row_models(rows@), order@)),
{
    let ghost before = ids@;
    let ghost models = row_models(rows@);
    let mut i: usize = 0;
    while i < rows.len()
        invariant
            i <= rows@.len(),
            models == row_models(rows@),
            forall|id: u32| #[trigger]
                ids@.contains(id) <==> before.contains(id) || exists|k: int|
                    0 <= k < i && row_refs(#[trigger] models[k], order@).contains(id),
        decreases rows@.len() - i,
    {
        let ghost held = ids@;
        collect_row(ids, &rows[i], order);
        assert(models[i as int] == rows@[i as int]@);
        i += 1;
    }
    assert(ids@ =~= before.union(rows_refs(models, order@)));
}

/// Keeps the entries whose keys are in a set.
fn keep_keys<V>(m: &mut HashMap<u32, V>, keep: &HashSet<u32>)
    ensures
        final(m)@ == old(m)@.restrict(keep@),
{
    let keys: Vec<u32> = keys_of(m);
    let ghost before = m@;
    let mut i: usize = 0;
    while i < keys.len()
        invariant
            i <= keys@.len(),
            forall|k: u32| #[trigger]
                m@.contains_key(k) <==> before.contains_key(k) && (keep@.contains(k)
                    || !keys@.take(i as int).contains(k)),
            forall|k: u32| m@.contains_key(k) ==> m@[k] == before[k],
        decreases keys@.len() - i,
    {
        let ghost held = m@;
        if !keep.contains(&keys[i]) {
            m.remove(&keys[i]);
        }
        assert(keys@.take(i + 1) =~= keys@.take(i as int).push(keys@[i as int]));
        assert forall|k: u32| #[trigger]
            m@.contains_key(k) <==> before.contains_key(k) && (keep@.contains(k) || !keys@.take(
                i + 1,
            ).contains(k)) by {
            vstd::seq_lib::lemma_seq_contains_after_push(keys@.take(i as int), keys@[i as int], k);
            assert(held.contains_key(k) <==> before.contains_key(k) && (keep@.contains(k)
                || !keys@.take(i as int).contains(k)));
        }
        i += 1;
    }
    assert(keys@.take(keys@.len() as int) =~= keys@);
    assert forall|k: u32| before.contains_key(k) implies keys@.contains(k) by {
        assert(keys@.to_set().contains(k));
    }
    assert(m@ =~= before.restrict(keep@));
}

/// The keys of a map as a set.
fn key_set<V>(m: &HashMap<u32, V>) -> (r: HashSet<u32>)
    ensures
        r@ == m@.dom(),
{
    let keys: Vec<u32> = keys_of(m);
    let mut out: HashSet<u32> = HashSet::new();
    let mut i: usize = 0;
    while i < keys.len()
        invariant
            i <= keys@.len(),
            out@ == keys@.take(i as int).to_set(),
        decreases keys@.len() - i,
    {
        out.insert(keys[i]);
        proof {
            assert(keys@.take(i + 1) =~= keys@.take(i as int).push(keys@[i as int]));
            assert forall|k: u32| out@.contains(k) <==> keys@.take(i + 1).to_set().contains(k) by {
                vstd::seq_lib::lemma_seq_contains_after_push(
                    keys@.take(i as int),
                    keys@[i as int],
                    k,
                );
                assert(keys@.take(i as int).to_set().contains(k) <==> keys@.take(
                    i as int,
                ).contains(k));
                assert(keys@.take(i + 1).to_set().contains(k) <==> keys@.take(i + 1).contains(k));
            }
            assert(out@ =~= keys@.take(i + 1).to_set());
        }
        i += 1;
    }
    assert(keys@.take(keys@.len() as int) =~= keys@);
    out
}

impl Grid {
    /// Stores an image under its identifier and raises its version.
    fn store_image(&mut self, image: ImageData)
        ensures
            final(self)@ == old(self)@.image_stored(image),
    {
        let id: u32 = image.id;
        let version: u64 = match self.image_versions.get(&id) {
            Some(v) => *v,
            None => 0,
        };
        self.images.insert(id, image);
        self.image_versions.insert(
            id,
            if version == u64::MAX {
                0
            } else {
                version + 1
            },
        );
        assert(self@ =~= old(self)@.image_stored(image));
    }

    /// Forgets the images that are not in use, except for `id`, with the virtual placements walked
    /// in the given order.
    pub fn drop_unused_images(&mut self, id: u32, order: &Vec<u32>)
        ensures
            final(self)@ == old(self)@.unused_dropped(id, order@),
    {
        let ghost before = self@;
        let mut used: HashSet<u32> = HashSet::new();
        collect_placed(&mut used, &self.placements);
        collect_placed(&mut used, &self.alt_placements);
        collect_rows(&mut used, &self.lines, order);
        if let Some(alt) = &self.alt_lines {
            collect_rows(&mut used, alt, order);
        }
        assert(used@ =~= before.images_in_use(order@));
        keep_keys(&mut self.virtual_placements, &used);
        used.insert(id);
        keep_keys(&mut self.images, &used);
        let left: HashSet<u32> = key_set(&self.images);
        keep_keys(&mut self.image_versions, &left);
        assert(self@ =~= before.unused_dropped(id, order@));
    }

    /// Forgets an image with its placements.
    fn forget_image(&mut self, id: u32)
        ensures
            final(self)@ == old(self)@.without_image(id),
    {
        let ghost before = self@;
        self.images.remove(&id);
        self.image_versions.remove(&id);
        keep_placements(&mut self.placements, Keep::OtherImage(id));
        keep_placements(&mut self.alt_placements, Keep::OtherImage(id));
        self.virtual_placements.remove(&id);
        proof {
            let k = Keep::OtherImage(id);
            let f = |p: ImagePlacement| keeps(k, p);
            let g = |p: ImagePlacement| p.image_id != id;
            assert(f =~= g);
            assert(self@ =~= before.without_image(id));
        }
    }

    /// Forgets the first images of the given order, except for `id`, until the store is within
    /// its capacity.
    pub fn drop_surplus_images(&mut self, id: u32, order: &Vec<u32>)
        ensures
            final(self)@ == old(self)@.surplus_dropped(id, order@),
    {
        let ghost before = self@;
        let ghost others = others_than(order@, id);
        let n: usize = if self.images.len() > MAX_STORED_IMAGES {
            self.images.len() - MAX_STORED_IMAGES
        } else {
            0
        };
        let mut chosen: Vec<u32> = Vec::new();
        let mut i: usize = 0;
        proof {
            reveal(Seq::filter);
            assert(others_than(order@.take(0), id) =~= Seq::<u32>::empty());
        }
        while i < order.len()
            invariant
                i <= order@.len(),
                chosen@ == others_than(order@.take(i as int), id),
            decreases order@.len() - i,
        {
            proof {
                reveal(Seq::filter);
                assert(order@.take(i + 1).drop_last() =~= order@.take(i as int));
            }
            if order[i] != id {
                chosen.push(order[i]);
            }
            i += 1;
        }
        assert(order@.take(order@.len() as int) =~= order@);
        chosen.truncate(n);
        assert(chosen@ =~= others.take(least(n as int, others.len() as int)));
        let mut j: usize = 0;
        assert(before.without_images(chosen@.take(0)) == before);
        while j < chosen.len()
            invariant
                j <= chosen@.len(),
                self@ == before.without_images(chosen@.take(j as int)),
            decreases chosen@.len() - j,
        {
            self.forget_image(chosen[j]);
            assert(chosen@.take(j + 1).drop_last() =~= chosen@.take(j as int));
            j += 1;
        }
        assert(chosen@.take(chosen@.len() as int) =~= chosen@);
    }

    /// Adds an image. Past the capacity the unused images go, then others, but never the new one.
    /// Which of the others go, and which of several virtual placements with the same low bits
    /// counts, depends on the order in which the maps are walked.
    pub fn add_image(&mut self, image: ImageData)
        ensures
            exists|virtual_order: Seq<u32>, image_order: Seq<u32>|
                adds_image(old(self)@, image, virtual_order, image_order, final(self)@),
            final(self)@.images.len() <= MAX_STORED_IMAGES,
            final(self)@.images.contains_key(image.id),
            final(self)@.images[image.id] == image,
    {
        let ghost before = self@;
        let id: u32 = image.id;
        let ghost stored = before.image_stored(image);
        self.store_image(image);
        let virtual_order: Vec<u32> = keys_of(&self.virtual_placements);
        let ghost used = stored.unused_dropped(id, virtual_order@);
        let mut image_order: Vec<u32> = Vec::new();
        if self.images.len() > MAX_STORED_IMAGES {
            self.drop_unused_images(id, &virtual_order);
            if self.images.len() > MAX_STORED_IMAGES {
                image_order = keys_of(&self.images);
                assert(self.images@.dom().finite());
                self.drop_surplus_images(id, &image_order);
                proof {
                    lemma_surplus(used, id, image_order@);
                }
            }
        }
        assert(adds_image(before, image, virtual_order@, image_order@, self@)) by {
            if stored.images.len() <= MAX_STORED_IMAGES {
                assert(used.images.dom().subset_of(stored.images.dom()));
                assert(stored.images.dom().finite());
                vstd::set_lib::lemma_len_subset(used.images.dom(), stored.images.dom());
            }
        }
    }

    /// Adds an image placement instance anchored to grid cells with FIFO eviction.
    pub fn add_placement(&mut self, placement: ImagePlacement)
        ensures
            final(self)@ == old(self)@.placement_added(placement),
    {
        let ghost before = self@;
        if self.placements.len() >= MAX_PLACEMENTS {
            self.placements.remove(0);
            assert(self.placements@ =~= before.placements.drop_first());
        }
        self.placements.push(placement);
        assert(self@ =~= before.placement_added(placement));
    }

    /// Deletes images and/or placements matching the given delete target.
    pub fn delete_images(&mut self, target: DeleteTarget)
        requires
            target == DeleteTarget::AtCursor ==> old(self)@.scrollback.len() + old(
                self,
            )@.cursor.row <= usize::MAX,
        ensures
            final(self)@ == old(self)@.images_deleted(target),
    {
        let ghost before = self@;
        match target {
            DeleteTarget::All => {
                self.images.clear();
                self.image_versions.clear();
                self.placements.clear();
                self.alt_placements.clear();
                self.virtual_placements.clear();
            },
            DeleteTarget::ById(id) => {
                self.forget_image(id);
            },
            DeleteTarget::ByPlacement(id) => {
                keep_placements(&mut self.placements, Keep::OtherPlacement(id));
                keep_placements(&mut self.alt_placements, Keep::OtherPlacement(id));
                proof {
                    let k = Keep::OtherPlacement(id);
                    let f = |p: ImagePlacement| keeps(k, p);
                    let g = |p: ImagePlacement| p.placement_id != id;
                    assert(f =~= g);
                }
            },
            DeleteTarget::AtCursor => {
                let line: usize = self.scrollback.len() + self.cursor.row;
                let col: usize = self.cursor.col;
                keep_placements(&mut self.placements, Keep::OffCursor(line, col));
                proof {
                    let k = Keep::OffCursor(line, col);
                    let f = |p: ImagePlacement| keeps(k, p);
                    let g = |p: ImagePlacement| !before.covers_cursor(p);
                    assert(f =~= g);
                }
            },
        }
        assert(self@ =~= before.images_deleted(target));
    }
}

/// Keeping the elements other than one of a list without duplicates.
proof fn lemma_filter_other(order: Seq<u32>, id: u32)
    requires
        order.no_duplicates(),
    ensures
        ({
            let others = others_than(order, id);
            &&& others.no_duplicates()
            &&& others.len() >= order.len() - 1
            &&& !order.contains(id) ==> others.len() == order.len()
            &&& forall|k: u32| #[trigger] others.contains(k) <==> order.contains(k) && k != id
        }),
    decreases order.len(),
{
    reveal(Seq::filter);
    let others = others_than(order, id);
    if order.len() == 0 {
        assert(others =~= order);
    } else {
        let front = order.drop_last();
        let last = order.last();
        lemma_filter_other(front, id);
        let sub = others_than(front, id);
        assert(order =~= front.push(last));
        assert(!front.contains(last)) by {
            if front.contains(last) {
                let w = choose|w: int| 0 <= w < front.len() && front[w] == last;
                assert(order[w] == order[order.len() - 1]);
            }
        }
        assert forall|k: u32| #[trigger] others.contains(k) <==> order.contains(k) && k != id by {
            vstd::seq_lib::lemma_seq_contains_after_push(front, last, k);
            vstd::seq_lib::lemma_seq_contains_after_push(sub, last, k);
            assert(sub.contains(k) <==> front.contains(k) && k != id);
        }
        vstd::seq_lib::lemma_seq_contains_after_push(front, last, id);
        if last != id {
            assert(others == sub.push(last));
            assert(!sub.contains(last)) by {
                assert(sub.contains(last) <==> front.contains(last) && last != id);
            }
            assert forall|i: int, j: int|
                0 <= i < others.len() && 0 <= j < others.len() && i != j implies others[i]
                != others[j] by {
                if i == others.len() - 1 {
                    assert(sub.contains(sub[j]));
                } else if j == others.len() - 1 {
                    assert(sub.contains(sub[i]));
                }
            }
        }
    }
}

/// Forgetting images takes exactly them out of the store.
proof fn lemma_without_images(g: GridModel, ids: Seq<u32>)
    requires
        ids.no_duplicates(),
        g.images.dom().finite(),
        forall|i: int| 0 <= i < ids.len() ==> g.images.contains_key(#[trigger] ids[i]),
    ensures
        g.without_images(ids).images.dom().finite(),
        g.without_images(ids).images.len() == g.images.len() - ids.len(),
        forall|k: u32| #[trigger]
            g.without_images(ids).images.contains_key(k) <==> g.images.contains_key(k)
                && !ids.contains(k),
        forall|k: u32|
            g.without_images(ids).images.contains_key(k) ==> #[trigger] g.without_images(
                ids,
            ).images[k] == g.images[k],
    decreases ids.len(),
{
    if ids.len() > 0 {
        let front = ids.drop_last();
        let last = ids.last();
        lemma_without_images(g, front);
        assert(ids =~= front.push(last));
        assert(!front.contains(last)) by {
            if front.contains(last) {
                let w = choose|w: int| 0 <= w < front.len() && front[w] == last;
                assert(ids[w] == ids[ids.len() - 1]);
            }
        }
        let mid = g.without_images(front);
        assert(mid.images.contains_key(last));
        assert(g.without_images(ids).images == mid.images.remove(last));
        assert forall|k: u32| #[trigger]
            g.without_images(ids).images.contains_key(k) <==> g.images.contains_key(k)
                && !ids.contains(k) by {
            vstd::seq_lib::lemma_seq_contains_after_push(front, last, k);
            assert(mid.images.contains_key(k) <==> g.images.contains_key(k) && !front.contains(k));
        }
        assert forall|k: u32|
            g.without_images(ids).images.contains_key(k) implies #[trigger] g.without_images(
            ids,
        ).images[k] == g.images[k] by {
            assert(mid.images[k] == g.images[k]);
        }
    }
}

/// Dropping the surplus leaves a full store that still holds `id`.
proof fn lemma_surplus(g: GridModel, id: u32, order: Seq<u32>)
    requires
        lists(order, g.images.dom()),
        g.images.dom().finite(),
        g.images.len() > MAX_STORED_IMAGES,
        g.images.contains_key(id),
    ensures
        g.surplus_dropped(id, order).images.len() == MAX_STORED_IMAGES,
        g.surplus_dropped(id, order).images.contains_key(id),
        g.surplus_dropped(id, order).images[id] == g.images[id],
{
    let others = others_than(order, id);
    lemma_filter_other(order, id);
    order.unique_seq_to_set();
    let n = g.images.len() - MAX_STORED_IMAGES;
    let gone = others.take(n);
    assert(gone.no_duplicates());
    assert forall|i: int| 0 <= i < gone.len() implies g.images.contains_key(#[trigger] gone[i]) by {
        assert(others.contains(others[i]));
        assert(order.to_set().contains(gone[i]));
    }
    lemma_without_images(g, gone);
    assert(!gone.contains(id)) by {
        if gone.contains(id) {
            let w = choose|w: int| 0 <= w < gone.len() && gone[w] == id;
            assert(others.contains(others[w]));
        }
    }
}

} // verus!
