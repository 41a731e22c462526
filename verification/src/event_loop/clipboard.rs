//! Clipboard offers and the bytes of a paste.

use crate::kitty::command::push_bytes;
use crate::text::{chars_of, spells, texts};
use vstd::prelude::*;

verus! {

/// How many bytes of a paste are written at once on the thread of the event loop.
pub const DIRECT_PASTE_BYTES: usize = 4096;

/// How many offers without a selection are remembered.
pub const MAX_PENDING_OFFERS: usize = 4;

/// The types of text that can be pasted, the best first.
pub open spec fn text_mimes() -> Seq<Seq<char>> {
    seq!["text/plain;charset=utf-8"@, "text/plain"@, "UTF8_STRING"@]
}

/// Tells whether a type is among offered ones.
fn offers(mimes: &Vec<String>, wanted: &str) -> (r: bool)
    ensures
        r == texts(mimes@).contains(wanted@),
{
    let mut i: usize = 0;
    while i < mimes.len()
        invariant
            i <= mimes@.len(),
            forall|k: int| 0 <= k < i ==> #[trigger] texts(mimes@)[k] != wanted@,
        decreases mimes@.len() - i,
    {
        assert(texts(mimes@)[i as int] == mimes@[i as int]@);
        if spells(&chars_of(mimes[i].as_str()), wanted) {
            return true;
        }
        i += 1;
    }
    assert(!texts(mimes@).contains(wanted@)) by {
        if texts(mimes@).contains(wanted@) {
            let k = choose|k: int|
                0 <= k < texts(mimes@).len() && texts(mimes@)[k] == wanted@;
            assert(texts(mimes@)[k] != wanted@);
        }
    }
    false
}

/// The best type of text among offered ones.
pub fn best_text_mime(mimes: &Vec<String>) -> (r: Option<&'static str>)
    ensures
        match r {
            Some(m) => exists|k: int|
                0 <= k < 3 && #[trigger] text_mimes()[k] == m@ && texts(mimes@).contains(m@)
                    && forall|j: int|
                    0 <= j < k ==> !texts(mimes@).contains(#[trigger] text_mimes()[j]),
            None => forall|k: int|
                0 <= k < 3 ==> !texts(mimes@).contains(#[trigger] text_mimes()[k]),
        },
{
    if offers(mimes, "text/plain;charset=utf-8") {
        assert(text_mimes()[0] == "text/plain;charset=utf-8"@);
        return Some("text/plain;charset=utf-8");
    }
    if offers(mimes, "text/plain") {
        assert(text_mimes()[1] == "text/plain"@);
        return Some("text/plain");
    }
    if offers(mimes, "UTF8_STRING") {
        assert(text_mimes()[2] == "UTF8_STRING"@);
        return Some("UTF8_STRING");
    }
    None
}

/// What marks the start of a bracketed paste.
pub open spec fn paste_start() -> Seq<u8> {
    seq![0x1b, 0x5b, 0x32, 0x30, 0x30, 0x7e]
}

/// What marks the end of a bracketed paste.
pub open spec fn paste_end() -> Seq<u8> {
    seq![0x1b, 0x5b, 0x32, 0x30, 0x31, 0x7e]
}

/// What is pasted, between marks where the program asked for them.
pub open spec fn pasted(bytes: Seq<u8>, bracketed: bool) -> Seq<u8> {
    if bracketed {
        paste_start() + bytes + paste_end()
    } else {
        bytes
    }
}

/// The bytes of a paste: what is pasted, between marks where the program asked for them.
pub fn paste_payload(bytes: Vec<u8>, bracketed: bool) -> (r: Vec<u8>)
    ensures
        r@ == pasted(bytes@, bracketed),
{
    if !bracketed {
        return bytes;
    }
    let mut out: Vec<u8> = vec![0x1b, 0x5b, 0x32, 0x30, 0x30, 0x7e];
    assert(out@ =~= paste_start());
    push_bytes(&mut out, bytes.as_slice());
    let end: Vec<u8> = vec![0x1b, 0x5b, 0x32, 0x30, 0x31, 0x7e];
    assert(end@ =~= paste_end());
    push_bytes(&mut out, end.as_slice());
    out
}

/// How a paste of the internal clipboard is written.
#[derive(Debug, PartialEq, Eq)]
pub enum PasteRoute {
    /// At once.
    Direct(Vec<u8>),
    /// By a thread of its own.
    Background(Vec<u8>),
}

/// Chooses how to write a paste: a long one goes to a thread, which needs a handle of its own.
/// Where there is none, only the head is written, so that the event loop does not wait.
pub fn route_paste(payload: Vec<u8>, has_handle: bool) -> (r: PasteRoute)
    ensures
        match r {
            PasteRoute::Direct(b) => (payload@.len() <= DIRECT_PASTE_BYTES || !has_handle) && b@
                == (if payload@.len() <= DIRECT_PASTE_BYTES {
                payload@
            } else {
                payload@.take(DIRECT_PASTE_BYTES as int)
            }),
            PasteRoute::Background(b) => payload@.len() > DIRECT_PASTE_BYTES && has_handle && b@
                == payload@,
        },
{
    if payload.len() <= DIRECT_PASTE_BYTES {
        PasteRoute::Direct(payload)
    } else if has_handle {
        PasteRoute::Background(payload)
    } else {
        let mut head: Vec<u8> = payload;
        let ghost all = head@;
        head.truncate(DIRECT_PASTE_BYTES);
        assert(head@ =~= all.take(DIRECT_PASTE_BYTES as int));
        PasteRoute::Direct(head)
    }
}

/// What another program offers to paste: the number of the offer and the types it can have.
#[derive(Debug, Clone, PartialEq, Eq)]
pub struct OfferData {
    pub offer: u32,
    pub mime_types: Vec<String>,
}

/// What an offer holds.
#[verifier::ext_equal]
pub struct OfferModel {
    pub offer: u32,
    pub mime_types: Seq<Seq<char>>,
}

impl View for OfferData {
    type V = OfferModel;

    open spec fn view(&self) -> OfferModel {
        OfferModel { offer: self.offer, mime_types: texts(self.mime_types@) }
    }
}

/// What offers hold.
pub open spec fn offer_models(v: Seq<OfferData>) -> Seq<OfferModel> {
    v.map_values(|o: OfferData| o@)
}

/// What an optional offer holds.
pub open spec fn current_model(o: Option<OfferData>) -> Option<OfferModel> {
    match o {
        Some(o) => Some(o@),
        None => None,
    }
}

/// The place of the first offer with a number, or the length where there is none.
pub open spec fn place_of(offers: Seq<OfferModel>, id: u32) -> int
    decreases offers.len(),
{
    if offers.len() == 0 {
        0
    } else if offers[0].offer == id {
        0
    } else {
        1 + place_of(offers.drop_first(), id)
    }
}

/// Where the first offer with a number stands.
proof fn lemma_place(offers: Seq<OfferModel>, id: u32, i: int)
    requires
        0 <= i <= offers.len(),
        forall|k: int| 0 <= k < i ==> #[trigger] offers[k].offer != id,
        i == offers.len() || offers[i].offer == id,
    ensures
        place_of(offers, id) == i,
    decreases offers.len(),
{
    if i > 0 {
        let rest = offers.drop_first();
        assert forall|k: int| 0 <= k < i - 1 implies #[trigger] rest[k].offer != id by {
            assert(rest[k] == offers[k + 1]);
        }
        if i < offers.len() {
            assert(rest[i - 1] == offers[i]);
        }
        lemma_place(rest, id, i - 1);
        assert(offers[0].offer != id);
    }
}

/// The offers that are remembered once another one is announced: the oldest makes way for one too
/// many.
pub open spec fn announced(known: Seq<OfferModel>, id: u32) -> Seq<OfferModel> {
    let kept = if known.len() >= MAX_PENDING_OFFERS {
        known.drop_first()
    } else {
        known
    };
    kept.push(OfferModel { offer: id, mime_types: Seq::empty() })
}

/// A list whose entry at a place gave way to the last one.
pub open spec fn swapped_out(offers: Seq<OfferModel>, i: int) -> Seq<OfferModel> {
    offers.update(i, offers.last()).drop_last()
}

/// An offer that can have one more type.
pub open spec fn with_mime(o: OfferModel, mime: Seq<char>) -> OfferModel {
    OfferModel { mime_types: o.mime_types.push(mime), ..o }
}

/// The offers that were announced and the one that is the clipboard now.
#[derive(Debug, Clone)]
pub struct Offers {
    pub pending: Vec<OfferData>,
    pub current: Option<OfferData>,
}

impl Default for Offers {
    fn default() -> (r: Self)
        ensures
            r.pending@.len() == 0,
            r.current is None,
    {
        Offers { pending: Vec::new(), current: None }
    }
}

impl Offers {
    pub fn new() -> (r: Self)
        ensures
            r.pending@.len() == 0,
            r.current is None,
    {
        Offers::default()
    }

    /// Finds the first announced offer with a number.
    fn find(&self, id: u32) -> (i: usize)
        ensures
            i == place_of(offer_models(self.pending@), id),
            i <= self.pending@.len(),
            i < self.pending@.len() ==> self.pending@[i as int].offer == id,
    {
        let ghost models = offer_models(self.pending@);
        let mut i: usize = 0;
        while i < self.pending.len() && self.pending[i].offer != id
            invariant
                i <= self.pending@.len(),
                models == offer_models(self.pending@),
                forall|k: int| 0 <= k < i ==> #[trigger] models[k].offer != id,
            decreases self.pending@.len() - i,
        {
            assert(models[i as int].offer == self.pending@[i as int].offer);
            i += 1;
        }
        proof {
            if i < self.pending@.len() {
                assert(models[i as int].offer == self.pending@[i as int].offer);
            }
            lemma_place(models, id, i as int);
        }
        i
    }

    /// Remembers an announced offer, in place of the oldest where there are too many.
    pub fn announce(&mut self, id: u32)
        ensures
            final(self).current == old(self).current,
            offer_models(final(self).pending@) == announced(offer_models(old(self).pending@), id),
    {
        let ghost known = offer_models(self.pending@);
        if self.pending.len() >= MAX_PENDING_OFFERS {
            self.pending.remove(0);
            assert(offer_models(self.pending@) =~= known.drop_first());
        }
        let ghost kept = offer_models(self.pending@);
        let o: OfferData = OfferData { offer: id, mime_types: Vec::new() };
        assert(o@ =~= OfferModel { offer: id, mime_types: Seq::empty() });
        self.pending.push(o);
        assert(offer_models(self.pending@) =~= kept.push(o@));
    }

    /// Makes an announced offer the clipboard. Without one, or with one that was not announced,
    /// the clipboard is empty and all announced offers are forgotten.
    pub fn select(&mut self, id: Option<u32>)
        ensures
            ({
                let known = offer_models(old(self).pending@);
                let place = match id {
                    Some(id) => place_of(known, id),
                    None => known.len() as int,
                };
                if place < known.len() {
                    &&& current_model(final(self).current) == Some(known[place])
                    &&& offer_models(final(self).pending@) == swapped_out(known, place)
                } else {
                    &&& final(self).current is None
                    &&& final(self).pending@.len() == 0
                }
            }),
    {
        let ghost known = offer_models(self.pending@);
        if let Some(id) = id {
            let i: usize = self.find(id);
            if i < self.pending.len() {
                let chosen: OfferData = self.pending.swap_remove(i);
                assert(chosen@ == known[i as int]);
                assert(offer_models(self.pending@) =~= swapped_out(known, i as int));
                self.current = Some(chosen);
                return;
            }
        }
        self.current = None;
        self.pending.clear();
    }

    /// Notes a type that an offer can have: of an announced offer first, else of the clipboard. An
    /// unknown offer changes nothing.
    pub fn add_mime(&mut self, id: u32, mime: String)
        ensures
            ({
                let known = offer_models(old(self).pending@);
                let place = place_of(known, id);
                if place < known.len() {
                    &&& final(self).current == old(self).current
                    &&& offer_models(final(self).pending@) == known.update(
                        place,
                        with_mime(known[place], mime@),
                    )
                } else {
                    &&& final(self).pending@ == old(self).pending@
                    &&& current_model(final(self).current) == (match current_model(
                        old(self).current,
                    ) {
                        Some(c) if c.offer == id => Some(with_mime(c, mime@)),
                        c => c,
                    })
                }
            }),
    {
        let ghost known = offer_models(self.pending@);
        let ghost text = mime@;
        let i: usize = self.find(id);
        if i < self.pending.len() {
            let mut o: OfferData = OfferData { offer: 0, mime_types: Vec::new() };
            std::mem::swap(&mut o, &mut self.pending[i]);
            assert(o@ == known[i as int]);
            let ghost before = texts(o.mime_types@);
            o.mime_types.push(mime);
            assert(texts(o.mime_types@) =~= before.push(text));
            let ghost changed = o@;
            self.pending[i] = o;
            assert(offer_models(self.pending@) =~= known.update(i as int, changed));
            return;
        }
        let mut current: Option<OfferData> = None;
        std::mem::swap(&mut current, &mut self.current);
        if let Some(mut c) = current {
            if c.offer == id {
                let ghost before = texts(c.mime_types@);
                c.mime_types.push(mime);
                assert(texts(c.mime_types@) =~= before.push(text));
            }
            self.current = Some(c);
        }
    }
}

/// Never more offers than the limit are remembered, whatever is announced, chosen or told of them;
/// the newest is always among them.
pub proof fn law_offers_stay_few(known: Seq<OfferModel>, id: u32, place: int, mime: Seq<char>)
    requires
        known.len() <= MAX_PENDING_OFFERS,
    ensures
        announced(known, id).len() <= MAX_PENDING_OFFERS,
        announced(known, id).last().offer == id,
        0 <= place < known.len() ==> swapped_out(known, place).len() <= MAX_PENDING_OFFERS,
        0 <= place < known.len() ==> known.update(place, with_mime(known[place], mime)).len()
            <= MAX_PENDING_OFFERS,
{
}

/// What is pasted reaches the program unchanged, between its marks where there are any.
pub proof fn law_pastes_stay_whole(bytes: Seq<u8>)
    ensures
        pasted(bytes, false) == bytes,
        pasted(bytes, true).len() == bytes.len() + 12,
        pasted(bytes, true).subrange(6, (6 + bytes.len()) as int) == bytes,
        pasted(bytes, true).take(6) == paste_start(),
        pasted(bytes, true).skip((6 + bytes.len()) as int) == paste_end(),
{
    let p = pasted(bytes, true);
    assert(p.subrange(6, (6 + bytes.len()) as int) =~= bytes);
    assert(p.take(6) =~= paste_start());
    assert(p.skip((6 + bytes.len()) as int) =~= paste_end());
}

} // verus!
