//! Faces that were discovered for characters that no configured font has, and the memory of which
//! face a character was found in.

use crate::font::atlas::{glyph_code, glyph_number};
use crate::text;
use std::collections::{HashMap, VecDeque};
use vstd::prelude::*;

verus! {

broadcast use vstd::std_specs::hash::group_hash_axioms;

/// How many discovered faces are kept.
pub const MAX_FALLBACK_FACES: usize = 64;

/// How many characters are remembered.
pub const MAX_RESOLVED_CACHE: usize = 4096;

/// A discovered face: the file it is in, its number there, and the style it was looked for in.
#[derive(Debug)]
pub struct FallbackFace {
    pub path: String,
    pub index: u32,
    pub style: u8,
}

/// What a discovered face holds.
#[verifier::ext_equal]
pub struct FaceModel {
    pub path: Seq<char>,
    pub index: u32,
    pub style: u8,
}

impl View for FallbackFace {
    type V = FaceModel;

    open spec fn view(&self) -> FaceModel {
        FaceModel { path: self.path@, index: self.index, style: self.style }
    }
}

/// What discovered faces hold.
pub open spec fn face_models(v: Seq<FallbackFace>) -> Seq<FaceModel> {
    v.map_values(|f: FallbackFace| f@)
}

/// Discovered faces and the characters that were looked for.
#[derive(Debug)]
pub struct FallbackCache {
    pub faces: Vec<FallbackFace>,
    /// For a character in a style, the face and glyph that were found, if any.
    pub resolved: HashMap<u32, Option<(u16, u16)>>,
    /// The characters that are remembered, oldest first.
    pub resolved_order: VecDeque<u32>,
}

/// Where a face stands, or the length of the list.
pub open spec fn face_place(faces: Seq<FaceModel>, face: FaceModel) -> int
    decreases faces.len(),
{
    if faces.len() == 0 || faces[0] == face {
        0
    } else {
        1 + face_place(faces.drop_first(), face)
    }
}

/// The first face in a style, or in any where none is asked for, that has a glyph, with that glyph.
pub open spec fn covering(faces: Seq<FaceModel>, style: Option<u8>, glyphs: Seq<u16>) -> Option<
    (int, u16),
>
    decreases faces.len(),
{
    if faces.len() == 0 {
        None
    } else if glyphs[0] != 0 && (style is None || style == Some(faces[0].style)) {
        Some((0, glyphs[0]))
    } else {
        match covering(faces.drop_first(), style, glyphs.drop_first()) {
            Some((i, glyph)) => Some((i + 1, glyph)),
            None => None,
        }
    }
}

/// What a search for a character among candidate faces comes to.
#[derive(Debug, Clone, Copy, PartialEq, Eq, Structural)]
pub enum SearchStep {
    /// A kept face has the character: where the face stands, and the glyph.
    Found(u16, u16),
    /// The candidate with this number is not kept yet and must be loaded to go on.
    Load(usize),
    /// No face has the character.
    Nothing,
}

/// The search for a character among candidates, best first, from one of them on, given the
/// character's glyph in each kept face. Where no candidate has the character, a kept face of any
/// style will do.
pub open spec fn search(
    faces: Seq<FaceModel>,
    candidates: Seq<FaceModel>,
    from: int,
    glyphs: Seq<u16>,
) -> SearchStep
    decreases candidates.len() - from,
{
    if from >= candidates.len() {
        match covering(faces, None, glyphs) {
            Some((i, glyph)) => SearchStep::Found(i as u16, glyph),
            None => SearchStep::Nothing,
        }
    } else {
        let at = face_place(faces, candidates[from]);
        if at >= faces.len() {
            SearchStep::Load(from as usize)
        } else if glyphs[at] != 0 {
            SearchStep::Found(at as u16, glyphs[at])
        } else {
            search(faces, candidates, from + 1, glyphs)
        }
    }
}

impl Default for FallbackCache {
    fn default() -> (r: Self)
        ensures
            r.wf(),
            r.faces@.len() == 0,
            r.resolved@ == Map::<u32, Option<(u16, u16)>>::empty(),
            r.resolved_order@ == Seq::<u32>::empty(),
    {
        let r: FallbackCache = FallbackCache {
            faces: Vec::new(),
            resolved: HashMap::new(),
            resolved_order: VecDeque::new(),
        };
        assert(r.resolved_order@ =~= Seq::<u32>::empty());
        assert(r.resolved_order@.to_set() =~= r.resolved@.dom());
        r
    }
}

impl FallbackCache {
    /// Few enough faces are kept, and the order holds each remembered character once.
    pub open spec fn wf(&self) -> bool {
        &&& self.faces@.len() <= MAX_FALLBACK_FACES
        &&& self.resolved@.dom().len() <= MAX_RESOLVED_CACHE
        &&& self.resolved_order@.no_duplicates()
        &&& self.resolved_order@.to_set() == self.resolved@.dom()
    }

    /// Keeps a face, unless it is kept already, and returns where it stands. The oldest face makes
    /// way for one too many; all that was remembered is then forgotten, as faces have moved.
    pub fn insert_face(&mut self, face: FallbackFace) -> (r: usize)
        requires
            old(self).wf(),
        ensures
            final(self).wf(),
            ({
                let faces = face_models(old(self).faces@);
                let at = face_place(faces, face@);
                if at < faces.len() {
                    r == at && *final(self) == *old(self)
                } else if faces.len() < MAX_FALLBACK_FACES {
                    &&& face_models(final(self).faces@) == faces.push(face@)
                    &&& r == faces.len()
                    &&& final(self).resolved@ == old(self).resolved@
                    &&& final(self).resolved_order@ == old(self).resolved_order@
                } else {
                    &&& face_models(final(self).faces@) == faces.drop_first().push(face@)
                    &&& r == faces.len() - 1
                    &&& final(self).resolved@ == Map::<u32, Option<(u16, u16)>>::empty()
                    &&& final(self).resolved_order@ == Seq::<u32>::empty()
                }
            }),
    {
        let ghost faces = face_models(self.faces@);
        let at: usize = self.position_of(&face);
        if at < self.faces.len() {
            return at;
        }
        if self.faces.len() >= MAX_FALLBACK_FACES {
            let _ = self.faces.remove(0);
            self.resolved.clear();
            self.resolved_order.clear();
            assert(face_models(self.faces@) =~= faces.drop_first());
            assert(self.resolved_order@ =~= Seq::<u32>::empty());
            assert(self.resolved_order@.to_set() =~= self.resolved@.dom());
        }
        let ghost before = face_models(self.faces@);
        let ghost model = face@;
        self.faces.push(face);
        assert(face_models(self.faces@) =~= before.push(model));
        self.faces.len() - 1
    }

    /// Where a face stands, or the number of faces.
    pub fn position_of(&self, face: &FallbackFace) -> (r: usize)
        ensures
            r == face_place(face_models(self.faces@), face@),
            r <= self.faces@.len(),
    {
        let ghost faces = face_models(self.faces@);
        let path: Vec<char> = text::chars_of(face.path.as_str());
        let mut i: usize = 0;
        assert(faces.skip(0) =~= faces);
        while i < self.faces.len()
            invariant
                i <= self.faces@.len(),
                faces == face_models(self.faces@),
                path@ == face.path@,
                face_place(faces, face@) == i + face_place(faces.skip(i as int), face@),
            decreases self.faces@.len() - i,
        {
            let f: &FallbackFace = &self.faces[i];
            assert(faces.skip(i as int)[0] == f@);
            if f.index == face.index && f.style == face.style && text::spells(
                &path,
                f.path.as_str(),
            ) {
                assert(f@ =~= face@);
                return i;
            }
            assert(faces.skip(i as int).drop_first() =~= faces.skip(i + 1));
            i += 1;
        }
        i
    }

    /// Finds a kept face that has a character, given the character's glyph in each face.
    pub fn covering_face(&self, style: Option<u8>, glyphs: &Vec<u16>) -> (r: Option<(u16, u16)>)
        requires
            self.wf(),
            glyphs@.len() == self.faces@.len(),
        ensures
            match covering(face_models(self.faces@), style, glyphs@) {
                Some((i, glyph)) => r == Some((i as u16, glyph)) && 0 <= i < self.faces@.len(),
                None => r is None,
            },
    {
        let ghost faces = face_models(self.faces@);
        let mut i: usize = 0;
        assert(faces.skip(0) =~= faces);
        assert(glyphs@.skip(0) =~= glyphs@);
        while i < self.faces.len()
            invariant
                i <= self.faces@.len(),
                self.wf(),
                glyphs@.len() == self.faces@.len(),
                faces == face_models(self.faces@),
                covering(faces, style, glyphs@) == (match covering(
                    faces.skip(i as int),
                    style,
                    glyphs@.skip(i as int),
                ) {
                    Some((k, glyph)) => Some((k + i, glyph)),
                    None => None,
                }),
            decreases self.faces@.len() - i,
        {
            assert(faces.skip(i as int)[0] == self.faces@[i as int]@);
            assert(glyphs@.skip(i as int)[0] == glyphs@[i as int]);
            let fits: bool = match style {
                Some(style) => self.faces[i].style == style,
                None => true,
            };
            if glyphs[i] != 0 && fits {
                return Some((i as u16, glyphs[i]));
            }
            assert(faces.skip(i as int).drop_first() =~= faces.skip(i + 1));
            assert(glyphs@.skip(i as int).drop_first() =~= glyphs@.skip(i + 1));
            i += 1;
        }
        None
    }

    /// Searches candidate faces for a character, from one of them on, given the character's glyph
    /// in each kept face. A candidate that was loaded and kept is passed again; one that cannot be
    /// loaded is skipped.
    pub fn search(&self, candidates: &Vec<FallbackFace>, from: usize, glyphs: &Vec<u16>) -> (r:
        SearchStep)
        requires
            self.wf(),
            glyphs@.len() == self.faces@.len(),
        ensures
            r == search(
                face_models(self.faces@),
                face_models(candidates@),
                from as int,
                glyphs@,
            ),
    {
        let ghost faces = face_models(self.faces@);
        let ghost wanted = face_models(candidates@);
        let mut i: usize = from;
        while i < candidates.len()
            invariant
                self.wf(),
                glyphs@.len() == self.faces@.len(),
                faces == face_models(self.faces@),
                wanted == face_models(candidates@),
                search(faces, wanted, from as int, glyphs@) == search(
                    faces,
                    wanted,
                    i as int,
                    glyphs@,
                ),
            decreases candidates@.len() - i,
        {
            let at: usize = self.position_of(&candidates[i]);
            if at >= self.faces.len() {
                return SearchStep::Load(i);
            }
            if glyphs[at] != 0 {
                return SearchStep::Found(at as u16, glyphs[at]);
            }
            i += 1;
        }
        match self.covering_face(None, glyphs) {
            Some((at, glyph)) => SearchStep::Found(at, glyph),
            None => SearchStep::Nothing,
        }
    }

    /// What was found for a character in a style, if it was looked for.
    pub fn lookup(&self, c: char, style: u8) -> (r: Option<Option<(u16, u16)>>)
        requires
            style < 4,
        ensures
            r == (if self.resolved@.contains_key(glyph_number(c, style)) {
                Some(self.resolved@[glyph_number(c, style)])
            } else {
                None
            }),
    {
        match self.resolved.get(&glyph_code(c, style)) {
            Some(found) => Some(*found),
            None => None,
        }
    }

    /// Remembers what was found for a character in a style that was not looked for before. The
    /// oldest memory makes way for one too many.
    pub fn remember(&mut self, c: char, style: u8, found: Option<(u16, u16)>)
        requires
            old(self).wf(),
            style < 4,
            !old(self).resolved@.contains_key(glyph_number(c, style)),
        ensures
            final(self).wf(),
            final(self).faces@ == old(self).faces@,
            ({
                let n = glyph_number(c, style);
                if old(self).resolved@.dom().len() >= MAX_RESOLVED_CACHE {
                    let oldest = old(self).resolved_order@[0];
                    &&& old(self).resolved_order@.len() > 0
                    &&& final(self).resolved@ == old(self).resolved@.remove(oldest).insert(n, found)
                    &&& final(self).resolved_order@
                        == old(self).resolved_order@.drop_first().push(n)
                } else {
                    &&& final(self).resolved@ == old(self).resolved@.insert(n, found)
                    &&& final(self).resolved_order@ == old(self).resolved_order@.push(n)
                }
            }),
    {
        let code: u32 = glyph_code(c, style);
        let ghost order = self.resolved_order@;
        let ghost known = self.resolved@;
        proof {
            order.unique_seq_to_set();
            assert(order.contains(code) <==> order.to_set().contains(code));
        }
        if self.resolved.len() >= MAX_RESOLVED_CACHE {
            if let Some(oldest) = self.resolved_order.pop_front() {
                self.resolved.remove(&oldest);
                proof {
                    let rest = order.drop_first();
                    assert(self.resolved_order@ =~= rest);
                    assert(order[0] == oldest);
                    assert(order.contains(oldest));
                    assert forall|k: u32| rest.to_set().contains(k) <==> known.remove(
                        oldest,
                    ).dom().contains(k) by {
                        if rest.contains(k) {
                            let i = choose|i: int| 0 <= i < rest.len() && rest[i] == k;
                            assert(order[i + 1] == k);
                            assert(order.contains(k));
                        }
                        if known.dom().contains(k) && k != oldest {
                            assert(order.to_set().contains(k));
                            let i = choose|i: int| 0 <= i < order.len() && order[i] == k;
                            assert(rest[i - 1] == k);
                        }
                    }
                    assert(rest.to_set() =~= known.remove(oldest).dom());
                    assert(rest.no_duplicates()) by {
                        assert forall|i: int, j: int|
                            0 <= i < rest.len() && 0 <= j < rest.len() && i != j implies rest[i]
                            != rest[j] by {
                            assert(order[i + 1] != order[j + 1]);
                        }
                    }
                }
            }
        }
        let ghost mid = self.resolved_order@;
        let ghost mid_known = self.resolved@;
        proof {
            assert(!mid_known.dom().contains(code));
            assert(!mid.contains(code)) by {
                assert(mid.contains(code) <==> mid.to_set().contains(code));
            }
        }
        self.resolved_order.push_back(code);
        self.resolved.insert(code, found);
        proof {
            assert(self.resolved_order@ =~= mid.push(code));
            assert forall|k: u32| mid.push(code).to_set().contains(k) <==> mid_known.insert(
                code,
                found,
            ).dom().contains(k) by {
                vstd::seq_lib::lemma_seq_contains_after_push(mid, code, k);
                assert(mid.contains(k) <==> mid.to_set().contains(k));
            }
            assert(mid.push(code).to_set() =~= mid_known.insert(code, found).dom());
        }
    }
}

/// A search that asks for a candidate has passed those before it, and they are kept.
proof fn lemma_search_order(
    faces: Seq<FaceModel>,
    candidates: Seq<FaceModel>,
    from: int,
    glyphs: Seq<u16>,
)
    requires
        0 <= from,
        candidates.len() <= usize::MAX,
    ensures
        match search(faces, candidates, from, glyphs) {
            SearchStep::Load(i) => from <= i < candidates.len() && face_place(
                faces,
                candidates[i as int],
            ) >= faces.len(),
            _ => true,
        },
    decreases candidates.len() - from,
{
    if from < candidates.len() {
        lemma_search_order(faces, candidates, from + 1, glyphs);
    }
}

/// A face that a list holds stands within it.
proof fn lemma_face_place(faces: Seq<FaceModel>, face: FaceModel)
    requires
        faces.contains(face),
    ensures
        face_place(faces, face) < faces.len(),
    decreases faces.len(),
{
    let i = choose|i: int| 0 <= i < faces.len() && faces[i] == face;
    if faces[0] != face {
        assert(faces.drop_first()[i - 1] == face);
        lemma_face_place(faces.drop_first(), face);
    }
}

/// A search never asks for a file twice: once a candidate is kept, the search that goes on from it
/// either ends or asks for a later one. So it ends after as many files as there are candidates.
pub proof fn law_searches_go_forward(
    faces: Seq<FaceModel>,
    candidates: Seq<FaceModel>,
    from: usize,
    glyphs: Seq<u16>,
)
    requires
        from < candidates.len() <= usize::MAX,
        faces.contains(candidates[from as int]),
    ensures
        match search(faces, candidates, from as int, glyphs) {
            SearchStep::Load(next) => from < next < candidates.len(),
            _ => true,
        },
{
    lemma_face_place(faces, candidates[from as int]);
    lemma_search_order(faces, candidates, from + 1, glyphs);
}

/// A character that is remembered is found again, and so are all others but the oldest.
pub proof fn law_memory_is_first_in_first_out(
    known: Map<u32, Option<(u16, u16)>>,
    oldest: u32,
    n: u32,
    found: Option<(u16, u16)>,
    k: u32,
)
    requires
        n != oldest,
    ensures
        known.remove(oldest).insert(n, found)[n] == found,
        !known.remove(oldest).insert(n, found).contains_key(oldest),
        known.contains_key(k) && k != oldest && k != n ==> known.remove(oldest).insert(n, found)[k]
            == known[k],
{
}

} // verus!
