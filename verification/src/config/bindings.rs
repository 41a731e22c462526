//! Key bindings: what keys do unless told otherwise, and what is told otherwise.

use crate::input::combo::{combo_of, parse_key_combo, KeyModel, KeyRef};
use crate::input::{
    action_model, binding_models, ActionModel, Binding, BindingModel, KeyAction, KeySymbol,
    Modifiers,
};
use crate::text;
use vstd::prelude::*;

verus! {

/// A command: a line for the shell, or a program with its arguments.
#[derive(Debug, Clone, PartialEq, Eq)]
pub enum CommandDef {
    Single(String),
    List(Vec<String>),
}

impl CommandDef {
    /// The program and its arguments.
    pub open spec fn words(self) -> Seq<Seq<char>> {
        match self {
            CommandDef::Single(s) => seq!["sh"@, "-c"@, s@],
            CommandDef::List(v) => text::texts(v@),
        }
    }

    /// Turns a command into a program and its arguments.
    pub fn into_vec(self) -> (r: Vec<String>)
        ensures
            text::texts(r@) == self.words(),
    {
        match self {
            CommandDef::Single(s) => {
                let mut out: Vec<String> = Vec::new();
                out.push("sh".to_owned());
                out.push("-c".to_owned());
                out.push(s);
                assert(text::texts(out@) =~= seq!["sh"@, "-c"@, s@]);
                out
            },
            CommandDef::List(v) => v,
        }
    }

    /// The program and its arguments.
    fn to_words(&self) -> (r: Vec<String>)
        ensures
            text::texts(r@) == self.words(),
    {
        match self {
            CommandDef::Single(s) => CommandDef::Single(s.clone()).into_vec(),
            CommandDef::List(v) => text::copy_strings(v),
        }
    }
}

/// An action that hands text to a command.
#[derive(Debug, Clone, PartialEq, Eq)]
pub enum PipeActionDef {
    PipeVisible(CommandDef),
    PipeScrollback(CommandDef),
    PipeSelection(CommandDef),
}

/// What a key combination is set to.
#[derive(Debug, Clone, PartialEq, Eq)]
pub enum ActionDef {
    Simple(String),
    Pipe(PipeActionDef),
}

/// The action with a given name in lower case.
pub open spec fn named_action(name: Seq<char>) -> Option<ActionModel> {
    if name == "scrollback_up_page"@ {
        Some(ActionModel::ScrollbackUpPage)
    } else if name == "scrollback_down_page"@ {
        Some(ActionModel::ScrollbackDownPage)
    } else if name == "scrollback_up_line"@ {
        Some(ActionModel::ScrollbackUpLine)
    } else if name == "scrollback_down_line"@ {
        Some(ActionModel::ScrollbackDownLine)
    } else if name == "scrollback_home"@ {
        Some(ActionModel::ScrollbackHome)
    } else if name == "scrollback_end"@ {
        Some(ActionModel::ScrollbackEnd)
    } else if name == "prompt_prev"@ {
        Some(ActionModel::PromptPrev)
    } else if name == "prompt_next"@ {
        Some(ActionModel::PromptNext)
    } else if name == "font_increase"@ {
        Some(ActionModel::FontIncrease)
    } else if name == "font_decrease"@ {
        Some(ActionModel::FontDecrease)
    } else if name == "font_reset"@ {
        Some(ActionModel::FontReset)
    } else if name == "clipboard_copy"@ {
        Some(ActionModel::ClipboardCopy)
    } else if name == "clipboard_paste"@ {
        Some(ActionModel::ClipboardPaste)
    } else if name == "primary_paste"@ {
        Some(ActionModel::PrimaryPaste)
    } else {
        None
    }
}

fn action_named(name: &Vec<char>) -> (r: Option<KeyAction>)
    ensures
        action_model(r) == named_action(name@),
{
    if text::spells(name, "scrollback_up_page") {
        Some(KeyAction::ScrollbackUpPage)
    } else if text::spells(name, "scrollback_down_page") {
        Some(KeyAction::ScrollbackDownPage)
    } else if text::spells(name, "scrollback_up_line") {
        Some(KeyAction::ScrollbackUpLine)
    } else if text::spells(name, "scrollback_down_line") {
        Some(KeyAction::ScrollbackDownLine)
    } else if text::spells(name, "scrollback_home") {
        Some(KeyAction::ScrollbackHome)
    } else if text::spells(name, "scrollback_end") {
        Some(KeyAction::ScrollbackEnd)
    } else if text::spells(name, "prompt_prev") {
        Some(KeyAction::PromptPrev)
    } else if text::spells(name, "prompt_next") {
        Some(KeyAction::PromptNext)
    } else if text::spells(name, "font_increase") {
        Some(KeyAction::FontIncrease)
    } else if text::spells(name, "font_decrease") {
        Some(KeyAction::FontDecrease)
    } else if text::spells(name, "font_reset") {
        Some(KeyAction::FontReset)
    } else if text::spells(name, "clipboard_copy") {
        Some(KeyAction::ClipboardCopy)
    } else if text::spells(name, "clipboard_paste") {
        Some(KeyAction::ClipboardPaste)
    } else if text::spells(name, "primary_paste") {
        Some(KeyAction::PrimaryPaste)
    } else {
        None
    }
}

impl ActionDef {
    /// The action, or none where the combination is to do nothing.
    pub open spec fn action(self) -> Option<ActionModel> {
        match self {
            ActionDef::Simple(s) => named_action(text::lowered(s@)),
            ActionDef::Pipe(PipeActionDef::PipeVisible(cmd)) => Some(
                ActionModel::PipeVisible(cmd.words()),
            ),
            ActionDef::Pipe(PipeActionDef::PipeScrollback(cmd)) => Some(
                ActionModel::PipeScrollback(cmd.words()),
            ),
            ActionDef::Pipe(PipeActionDef::PipeSelection(cmd)) => Some(
                ActionModel::PipeSelection(cmd.words()),
            ),
        }
    }

    pub fn to_key_action(&self) -> (r: Option<KeyAction>)
        ensures
            action_model(r) == self.action(),
    {
        match self {
            ActionDef::Simple(s) => {
                let chars: Vec<char> = text::chars_of(s.as_str());
                action_named(&text::lower_chars(&chars))
            },
            ActionDef::Pipe(PipeActionDef::PipeVisible(cmd)) => Some(
                KeyAction::PipeVisible(cmd.to_words()),
            ),
            ActionDef::Pipe(PipeActionDef::PipeScrollback(cmd)) => Some(
                KeyAction::PipeScrollback(cmd.to_words()),
            ),
            ActionDef::Pipe(PipeActionDef::PipeSelection(cmd)) => Some(
                KeyAction::PipeSelection(cmd.to_words()),
            ),
        }
    }
}

/// A key combination and what it is set to.
#[derive(Debug)]
pub struct KeyBinding {
    pub combo: String,
    pub action: ActionDef,
}

/// Key combinations and what they are set to. No combination is written twice.
#[derive(Debug)]
pub struct KeybindingsConfig {
    pub bindings: Vec<KeyBinding>,
}

/// Whether no combination is written twice.
pub open spec fn distinct(list: Seq<KeyBinding>) -> bool {
    forall|i: int, j: int|
        0 <= i < j < list.len() ==> (#[trigger] list[i]).combo@ != (#[trigger] list[j]).combo@
}

/// Where a combination is written, or the length of the list.
pub open spec fn place(list: Seq<KeyBinding>, combo: Seq<char>) -> int
    decreases list.len(),
{
    if list.len() == 0 || list[0].combo@ == combo {
        0
    } else {
        1 + place(list.drop_first(), combo)
    }
}

/// A list with one more binding, which takes the place of one for the same combination.
pub open spec fn with_binding(list: Seq<KeyBinding>, b: KeyBinding) -> Seq<KeyBinding> {
    let at = place(list, b.combo@);
    if at < list.len() {
        list.update(at, b)
    } else {
        list.push(b)
    }
}

/// A list with the bindings of another added in order.
pub open spec fn extended(list: Seq<KeyBinding>, more: Seq<KeyBinding>) -> Seq<KeyBinding>
    decreases more.len(),
{
    if more.len() == 0 {
        list
    } else {
        with_binding(extended(list, more.drop_last()), more.last())
    }
}

/// The place of a combination is in the list exactly if it is written there.
proof fn lemma_place(list: Seq<KeyBinding>, combo: Seq<char>)
    ensures
        0 <= place(list, combo) <= list.len(),
        place(list, combo) < list.len() ==> list[place(list, combo)].combo@ == combo,
        forall|i: int| 0 <= i < place(list, combo) ==> (#[trigger] list[i]).combo@ != combo,
    decreases list.len(),
{
    if list.len() > 0 && list[0].combo@ != combo {
        lemma_place(list.drop_first(), combo);
        assert forall|i: int| 0 <= i < place(list, combo) implies (#[trigger] list[i]).combo@
            != combo by {
            if i > 0 {
                assert(list.drop_first()[i - 1] == list[i]);
            }
        }
    }
}

/// Adding a binding keeps combinations distinct.
proof fn lemma_with_binding_distinct(list: Seq<KeyBinding>, b: KeyBinding)
    requires
        distinct(list),
    ensures
        distinct(with_binding(list, b)),
{
    lemma_place(list, b.combo@);
}

/// Adding bindings keeps combinations distinct.
pub proof fn law_combinations_stay_distinct(list: Seq<KeyBinding>, more: Seq<KeyBinding>)
    requires
        distinct(list),
    ensures
        distinct(extended(list, more)),
    decreases more.len(),
{
    if more.len() > 0 {
        law_combinations_stay_distinct(list, more.drop_last());
        lemma_with_binding_distinct(extended(list, more.drop_last()), more.last());
    }
}

/// A list is made from nothing by adding its bindings, and adding nothing leaves it as it is.
pub(crate) proof fn lemma_extended_empty(list: Seq<KeyBinding>)
    requires
        distinct(list),
    ensures
        extended(Seq::empty(), list) == list,
        extended(list, Seq::empty()) == list,
    decreases list.len(),
{
    if list.len() > 0 {
        let front = list.drop_last();
        assert forall|i: int, j: int| 0 <= i < j < front.len() implies (#[trigger] front[i]).combo@
            != (#[trigger] front[j]).combo@ by {
            assert(front[i] == list[i] && front[j] == list[j]);
        }
        lemma_extended_empty(front);
        lemma_place(front, list.last().combo@);
        if place(front, list.last().combo@) < front.len() {
            assert(front[place(front, list.last().combo@)] == list[place(
                front,
                list.last().combo@,
            )]);
            assert(list[list.len() - 1] == list.last());
        }
        assert(front.push(list.last()) =~= list);
    }
}

/// A binding that is added last is the one in force for its combination.
pub proof fn law_last_binding_wins(list: Seq<KeyBinding>, more: Seq<KeyBinding>, b: KeyBinding)
    ensures
        ({
            let all = extended(list, more.push(b));
            let at = place(all, b.combo@);
            at < all.len() && all[at] == b
        }),
{
    let before = extended(list, more);
    assert(more.push(b).drop_last() =~= more);
    lemma_place(before, b.combo@);
    let all = with_binding(before, b);
    let at = place(before, b.combo@);
    lemma_place(all, b.combo@);
    let now = place(all, b.combo@);
    if now < at {
        assert(all[now] == before[now]);
    }
    if now > at {
        assert(all[at].combo@ == b.combo@);
    }
}

/// A combination that is written in a list is written in what extends it.
proof fn lemma_stays_written(list: Seq<KeyBinding>, more: Seq<KeyBinding>, combo: Seq<char>)
    requires
        exists|i: int| 0 <= i < more.len() && (#[trigger] more[i]).combo@ == combo,
    ensures
        place(extended(list, more), combo) < extended(list, more).len(),
    decreases more.len(),
{
    let before = extended(list, more.drop_last());
    let all = extended(list, more);
    lemma_place(before, more.last().combo@);
    lemma_place(all, combo);
    let at = place(before, more.last().combo@);
    if more.last().combo@ == combo {
        assert(all[at].combo@ == combo);
    } else {
        let i = choose|i: int| 0 <= i < more.len() && (#[trigger] more[i]).combo@ == combo;
        assert(more.drop_last()[i] == more[i]);
        lemma_stays_written(list, more.drop_last(), combo);
        lemma_place(before, combo);
        let k = place(before, combo);
        assert(all[k].combo@ == combo);
    }
}

/// The place of a combination does not change when the binding there is replaced by one for the
/// same combination.
proof fn lemma_place_after_update(list: Seq<KeyBinding>, k: int, b: KeyBinding, combo: Seq<char>)
    requires
        0 <= k < list.len(),
        list[k].combo@ == b.combo@,
    ensures
        place(list.update(k, b), combo) == place(list, combo),
{
    let now = list.update(k, b);
    lemma_place(list, combo);
    lemma_place(now, combo);
    let p = place(list, combo);
    let q = place(now, combo);
    if q < p {
        assert(list[q].combo@ == now[q].combo@);
    }
    if p < q {
        assert(list[p].combo@ == now[p].combo@);
    }
}

/// Replacing a binding before a list is added is replacing it afterwards.
proof fn lemma_update_commutes(list: Seq<KeyBinding>, more: Seq<KeyBinding>, b: KeyBinding)
    requires
        distinct(more),
        place(more, b.combo@) < more.len(),
    ensures
        extended(list, with_binding(more, b)) == with_binding(extended(list, more), b),
    decreases more.len(),
{
    lemma_place(more, b.combo@);
    let p = place(more, b.combo@);
    let front = more.drop_last();
    let last = more.last();
    let e = extended(list, front);
    let updated = more.update(p, b);
    lemma_place(e, last.combo@);
    if p == more.len() - 1 {
        assert(updated.drop_last() =~= front);
        assert(updated.last() == b);
        let k = place(e, last.combo@);
        let once = with_binding(e, last);
        if k < e.len() {
            lemma_place_after_update(e, k, last, b.combo@);
            assert(once.update(k, b) =~= e.update(k, b));
        } else {
            lemma_place(once, b.combo@);
            assert(once[k] == last);
            let q = place(once, b.combo@);
            if q < k {
                assert(once[q] == e[q]);
            }
            assert(once.update(k, b) =~= e.push(b));
        }
    } else {
        assert forall|i: int, j: int| 0 <= i < j < front.len() implies (#[trigger] front[i]).combo@
            != (#[trigger] front[j]).combo@ by {
            assert(front[i] == more[i] && front[j] == more[j]);
        }
        lemma_place(front, b.combo@);
        assert(front[p] == more[p]);
        let pf = place(front, b.combo@);
        if pf < p {
            assert(front[pf] == more[pf]);
        }
        assert(pf == p);
        lemma_update_commutes(list, front, b);
        assert(updated.drop_last() =~= front.update(p, b));
        assert(updated.last() == last);
        lemma_stays_written(list, front, b.combo@);
        lemma_place(e, b.combo@);
        let k = place(e, b.combo@);
        let with_b = e.update(k, b);
        lemma_place_after_update(e, k, b, last.combo@);
        assert(more[p].combo@ != more[more.len() - 1].combo@);
        let m = place(e, last.combo@);
        let with_last = with_binding(e, last);
        lemma_place(with_last, b.combo@);
        let q = place(with_last, b.combo@);
        if m < e.len() {
            lemma_place_after_update(e, m, last, b.combo@);
            assert(with_last.update(k, b) =~= with_b.update(m, last));
        } else {
            assert(with_last[k] == e[k]);
            if q < k {
                assert(with_last[q] == e[q]);
            }
            assert(with_last.update(k, b) =~= with_b.push(last));
        }
    }
}

/// Adding the first bindings of a list to it changes nothing.
proof fn lemma_extended_by_front(list: Seq<KeyBinding>, n: int)
    requires
        distinct(list),
        0 <= n <= list.len(),
    ensures
        extended(list, list.take(n)) == list,
    decreases n,
{
    let front = list.take(n);
    if n > 0 {
        lemma_extended_by_front(list, n - 1);
        assert(front.drop_last() =~= list.take(n - 1));
        let b = list[n - 1];
        lemma_place(list, b.combo@);
        let at = place(list, b.combo@);
        if at < n - 1 {
            assert(list[at].combo@ != list[n - 1].combo@);
        }
        assert(list.update(n - 1, b) =~= list);
    }
}

/// Adding the same bindings a second time changes nothing.
pub proof fn law_extending_twice_is_extending_once(list: Seq<KeyBinding>, more: Seq<KeyBinding>)
    requires
        distinct(more),
    ensures
        extended(extended(list, more), more) == extended(list, more),
{
    law_extending_is_associative(list, more, more);
    lemma_extended_by_front(more, more.len() as int);
    assert(more.take(more.len() as int) =~= more);
}

/// Lists of bindings can be added in either order of combination, as long as their precedence
/// stays the same.
pub proof fn law_extending_is_associative(
    a: Seq<KeyBinding>,
    b: Seq<KeyBinding>,
    c: Seq<KeyBinding>,
)
    requires
        distinct(b),
    ensures
        extended(extended(a, b), c) == extended(a, extended(b, c)),
    decreases c.len(),
{
    if c.len() > 0 {
        let front = c.drop_last();
        law_extending_is_associative(a, b, front);
        law_combinations_stay_distinct(b, front);
        let x = extended(b, front);
        let e = c.last();
        lemma_place(x, e.combo@);
        if place(x, e.combo@) < x.len() {
            lemma_update_commutes(a, x, e);
        } else {
            assert(x.push(e).drop_last() =~= x);
        }
    }
}

fn find(list: &Vec<KeyBinding>, combo: &str) -> (r: usize)
    ensures
        r == place(list@, combo@),
        r <= list@.len(),
{
    let wanted: Vec<char> = text::chars_of(combo);
    let mut i: usize = 0;
    assert(list@.skip(0) =~= list@);
    while i < list.len()
        invariant
            i <= list@.len(),
            wanted@ == combo@,
            place(list@, combo@) == i + place(list@.skip(i as int), combo@),
        decreases list@.len() - i,
    {
        assert(list@.skip(i as int)[0] == list@[i as int]);
        if text::spells(&wanted, list[i].combo.as_str()) {
            return i;
        }
        assert(list@.skip(i as int).drop_first() =~= list@.skip(i + 1));
        i += 1;
    }
    i
}

/// Adds the bindings of `src` to `dst`, in place of those for the same combinations.
pub fn merge_keybindings(dst: &mut KeybindingsConfig, src: KeybindingsConfig)
    ensures
        final(dst).bindings@ == extended(old(dst).bindings@, src.bindings@),
{
    let ghost base = dst.bindings@;
    let ghost all = src.bindings@;
    let mut rest: Vec<KeyBinding> = src.bindings;
    let mut ordered: Vec<KeyBinding> = Vec::new();
    assert(all.skip(all.len() as int) =~= Seq::<KeyBinding>::empty());
    assert(all.take(all.len() as int) =~= all);
    while rest.len() > 0
        invariant
            ordered@.len() + rest@.len() == all.len(),
            rest@ == all.take(rest@.len() as int),
            forall|k: int|
                0 <= k < ordered@.len() ==> #[trigger] ordered@[k] == all[all.len() - 1 - k],
        decreases rest@.len(),
    {
        let ghost before = rest@;
        if let Some(b) = rest.pop() {
            assert(b == all[before.len() - 1]);
            assert(rest@ =~= all.take(before.len() - 1));
            ordered.push(b);
        }
    }
    assert(all.take(0) =~= Seq::<KeyBinding>::empty());
    while ordered.len() > 0
        invariant
            ordered@.len() <= all.len(),
            forall|k: int|
                0 <= k < ordered@.len() ==> #[trigger] ordered@[k] == all[all.len() - 1 - k],
            dst.bindings@ == extended(base, all.take(all.len() - ordered@.len())),
        decreases ordered@.len(),
    {
        let ghost n = all.len() - ordered@.len();
        if let Some(b) = ordered.pop() {
            assert(b == all[n]);
            assert(all.take(n + 1).drop_last() =~= all.take(n));
            assert(all.take(n + 1).last() == b);
            dst.bind(b);
        }
    }
    assert(all.take(all.len() as int) =~= all);
}

impl Default for KeybindingsConfig {
    fn default() -> (r: Self)
        ensures
            r.bindings@ == Seq::<KeyBinding>::empty(),
    {
        KeybindingsConfig { bindings: Vec::new() }
    }
}

/// A combination and the action it is to have, in the order in which they apply.
#[verifier::ext_equal]
pub struct EntryModel {
    pub combo: Seq<char>,
    pub action: Option<ActionModel>,
}

struct Entry {
    combo: String,
    action: Option<KeyAction>,
}

spec fn entry_models(v: Seq<Entry>) -> Seq<EntryModel> {
    v.map_values(|e: Entry| EntryModel { combo: e.combo@, action: action_model(e.action) })
}

/// What keys do unless told otherwise.
pub open spec fn default_entries() -> Seq<EntryModel> {
    let e = |combo: Seq<char>, action: ActionModel| EntryModel { combo, action: Some(action) };
    seq![
        e("Shift+Page_Up"@, ActionModel::ScrollbackUpPage),
        e("Shift+KP_Page_Up"@, ActionModel::ScrollbackUpPage),
        e("Shift+Page_Down"@, ActionModel::ScrollbackDownPage),
        e("Shift+KP_Page_Down"@, ActionModel::ScrollbackDownPage),
        e("Ctrl+Shift+Up"@, ActionModel::ScrollbackUpLine),
        e("Ctrl+Shift+Down"@, ActionModel::ScrollbackDownLine),
        e("Shift+Home"@, ActionModel::ScrollbackHome),
        e("Shift+End"@, ActionModel::ScrollbackEnd),
        e("Ctrl+Shift+Z"@, ActionModel::PromptPrev),
        e("Ctrl+Shift+X"@, ActionModel::PromptNext),
        e("Ctrl+plus"@, ActionModel::FontIncrease),
        e("Ctrl+equal"@, ActionModel::FontIncrease),
        e("Ctrl+minus"@, ActionModel::FontDecrease),
        e("Ctrl+0"@, ActionModel::FontReset),
        e("Ctrl+Shift+c"@, ActionModel::ClipboardCopy),
        e("Ctrl+Insert"@, ActionModel::ClipboardCopy),
        e("Ctrl+Shift+v"@, ActionModel::ClipboardPaste),
        e("Shift+Insert"@, ActionModel::PrimaryPaste),
    ]
}

/// What keys are told to do.
pub open spec fn config_entries(list: Seq<KeyBinding>) -> Seq<EntryModel> {
    list.map_values(|b: KeyBinding| EntryModel { combo: b.combo@, action: b.action.action() })
}

/// All combinations in the order in which they apply.
pub open spec fn all_entries(list: Seq<KeyBinding>) -> Seq<EntryModel> {
    default_entries() + config_entries(list)
}

/// Where a binding for modifiers and a symbol stands, or the length of the list.
pub open spec fn bound_at(list: Seq<BindingModel>, mods: Modifiers, sym: u32) -> int
    decreases list.len(),
{
    if list.len() == 0 || (list[0].mods == mods && list[0].symbol.sym == sym) {
        0
    } else {
        1 + bound_at(list.drop_first(), mods, sym)
    }
}

/// Bindings after one more entry applied: an action takes the place of the one that its combination
/// had, and none takes that one away. A symbol of zero is none.
pub open spec fn applied(
    list: Seq<BindingModel>,
    mods: Modifiers,
    symbol: KeySymbol,
    action: Option<ActionModel>,
) -> Seq<BindingModel> {
    let at = bound_at(list, mods, symbol.sym);
    match action {
        Some(action) => {
            let b = BindingModel { mods, symbol, action };
            if at < list.len() {
                list.update(at, b)
            } else {
                list.push(b)
            }
        },
        None => if at < list.len() {
            list.remove(at)
        } else {
            list
        },
    }
}

/// The bindings that entries give, where the key of each entry has the symbol in the same place.
/// A key without a symbol is left out.
pub open spec fn resolved(entries: Seq<EntryModel>, symbols: Seq<KeySymbol>) -> Seq<BindingModel>
    decreases entries.len(),
{
    if entries.len() == 0 {
        Seq::empty()
    } else {
        let before = resolved(entries.drop_last(), symbols.drop_last());
        let symbol = symbols.last();
        match combo_of(entries.last().combo) {
            Some((mods, _)) if symbol.sym != 0 => applied(
                before,
                mods,
                symbol,
                entries.last().action,
            ),
            _ => before,
        }
    }
}

/// The keys of entries whose combinations describe any.
pub open spec fn entry_keys(entries: Seq<EntryModel>) -> Seq<Option<KeyModel>> {
    entries.map_values(
        |e: EntryModel|
            match combo_of(e.combo) {
                Some((_, key)) => Some(key),
                None => None,
            },
    )
}

/// What optional keys hold.
pub open spec fn key_models(v: Seq<Option<KeyRef>>) -> Seq<Option<KeyModel>> {
    v.map_values(
        |k: Option<KeyRef>|
            match k {
                Some(k) => Some(k@),
                None => None,
            },
    )
}

fn push_default(out: &mut Vec<Entry>, combo: &str, action: KeyAction)
    ensures
        entry_models(final(out)@) == entry_models(old(out)@).push(
            EntryModel { combo: combo@, action: Some(action@) },
        ),
{
    let ghost before = out@;
    out.push(Entry { combo: combo.to_owned(), action: Some(action) });
    assert(entry_models(out@) =~= entry_models(before).push(
        EntryModel { combo: combo@, action: Some(action@) },
    ));
}

fn default_bindings() -> (r: Vec<Entry>)
    ensures
        entry_models(r@) == default_entries(),
{
    let mut out: Vec<Entry> = Vec::new();
    assert(entry_models(out@) =~= Seq::<EntryModel>::empty());
    push_default(&mut out, "Shift+Page_Up", KeyAction::ScrollbackUpPage);
    push_default(&mut out, "Shift+KP_Page_Up", KeyAction::ScrollbackUpPage);
    push_default(&mut out, "Shift+Page_Down", KeyAction::ScrollbackDownPage);
    push_default(&mut out, "Shift+KP_Page_Down", KeyAction::ScrollbackDownPage);
    push_default(&mut out, "Ctrl+Shift+Up", KeyAction::ScrollbackUpLine);
    push_default(&mut out, "Ctrl+Shift+Down", KeyAction::ScrollbackDownLine);
    push_default(&mut out, "Shift+Home", KeyAction::ScrollbackHome);
    push_default(&mut out, "Shift+End", KeyAction::ScrollbackEnd);
    push_default(&mut out, "Ctrl+Shift+Z", KeyAction::PromptPrev);
    push_default(&mut out, "Ctrl+Shift+X", KeyAction::PromptNext);
    push_default(&mut out, "Ctrl+plus", KeyAction::FontIncrease);
    push_default(&mut out, "Ctrl+equal", KeyAction::FontIncrease);
    push_default(&mut out, "Ctrl+minus", KeyAction::FontDecrease);
    push_default(&mut out, "Ctrl+0", KeyAction::FontReset);
    push_default(&mut out, "Ctrl+Shift+c", KeyAction::ClipboardCopy);
    push_default(&mut out, "Ctrl+Insert", KeyAction::ClipboardCopy);
    push_default(&mut out, "Ctrl+Shift+v", KeyAction::ClipboardPaste);
    push_default(&mut out, "Shift+Insert", KeyAction::PrimaryPaste);
    assert(entry_models(out@) =~= default_entries());
    out
}

fn find_bound(list: &Vec<Binding>, mods: Modifiers, sym: u32) -> (r: usize)
    ensures
        r == bound_at(binding_models(list@), mods, sym),
        r <= list@.len(),
{
    let ghost models = binding_models(list@);
    let mut i: usize = 0;
    assert(models.skip(0) =~= models);
    while i < list.len()
        invariant
            i <= list@.len(),
            models == binding_models(list@),
            bound_at(models, mods, sym) == i + bound_at(models.skip(i as int), mods, sym),
        decreases list@.len() - i,
    {
        assert(models.skip(i as int)[0] == list@[i as int]@);
        if list[i].mods == mods && list[i].symbol.sym == sym {
            return i;
        }
        assert(models.skip(i as int).drop_first() =~= models.skip(i + 1));
        i += 1;
    }
    i
}

fn apply(list: &mut Vec<Binding>, mods: Modifiers, symbol: KeySymbol, action: Option<KeyAction>)
    ensures
        binding_models(final(list)@) == applied(
            binding_models(old(list)@),
            mods,
            symbol,
            action_model(action),
        ),
{
    let ghost before = binding_models(list@);
    let at: usize = find_bound(list, mods, symbol.sym);
    match action {
        Some(action) => {
            let ghost model = BindingModel { mods, symbol, action: action@ };
            let b: Binding = Binding { mods, symbol, action };
            if at < list.len() {
                list[at] = b;
                assert(binding_models(list@) =~= before.update(at as int, model));
            } else {
                list.push(b);
                assert(binding_models(list@) =~= before.push(model));
            }
        },
        None => {
            if at < list.len() {
                let _ = list.remove(at);
                assert(binding_models(list@) =~= before.remove(at as int));
            }
        },
    }
}

impl KeybindingsConfig {
    /// Sets what a combination does.
    pub fn bind(&mut self, b: KeyBinding)
        ensures
            final(self).bindings@ == with_binding(old(self).bindings@, b),
    {
        let at: usize = find(&self.bindings, b.combo.as_str());
        if at < self.bindings.len() {
            self.bindings[at] = b;
        } else {
            self.bindings.push(b);
        }
    }

    /// All combinations in the order in which they apply.
    fn entries(&self) -> (r: Vec<Entry>)
        ensures
            entry_models(r@) == all_entries(self.bindings@),
    {
        let mut out: Vec<Entry> = default_bindings();
        let ghost told = config_entries(self.bindings@);
        let mut i: usize = 0;
        assert(default_entries() + told.take(0) =~= default_entries());
        while i < self.bindings.len()
            invariant
                i <= self.bindings@.len(),
                told == config_entries(self.bindings@),
                entry_models(out@) == default_entries() + told.take(i as int),
            decreases self.bindings@.len() - i,
        {
            let ghost before = out@;
            let b: &KeyBinding = &self.bindings[i];
            let action: Option<KeyAction> = b.action.to_key_action();
            out.push(Entry { combo: b.combo.clone(), action });
            proof {
                assert(entry_models(out@) =~= entry_models(before).push(told[i as int]));
                assert(told.take(i + 1) =~= told.take(i as int).push(told[i as int]));
                assert(default_entries() + told.take(i + 1) =~= (default_entries() + told.take(
                    i as int,
                )).push(told[i as int]));
            }
            i += 1;
        }
        assert(told.take(told.len() as int) =~= told);
        out
    }

    /// The keys of all combinations, in the order in which they apply. Their symbols are what
    /// `resolve_bindings` needs.
    pub fn keys(&self) -> (r: Vec<Option<KeyRef>>)
        ensures
            key_models(r@) == entry_keys(all_entries(self.bindings@)),
    {
        let entries: Vec<Entry> = self.entries();
        let ghost all = entry_keys(all_entries(self.bindings@));
        let mut out: Vec<Option<KeyRef>> = Vec::new();
        let mut i: usize = 0;
        assert(key_models(out@) =~= all.take(0));
        while i < entries.len()
            invariant
                i <= entries@.len(),
                entry_models(entries@) == all_entries(self.bindings@),
                all == entry_keys(all_entries(self.bindings@)),
                key_models(out@) == all.take(i as int),
            decreases entries@.len() - i,
        {
            let ghost before = key_models(out@);
            assert(entry_models(entries@)[i as int].combo == entries@[i as int].combo@);
            match parse_key_combo(entries[i].combo.as_str()) {
                Some((_, key)) => {
                    out.push(Some(key));
                },
                None => {
                    out.push(None);
                },
            }
            assert(key_models(out@) =~= before.push(all[i as int]));
            assert(all.take(i + 1) =~= all.take(i as int).push(all[i as int]));
            i += 1;
        }
        assert(all.take(all.len() as int) =~= all);
        out
    }

    /// The bindings in force, given the symbol of each key that `keys` lists.
    pub fn resolve_bindings(&self, symbols: &Vec<KeySymbol>) -> (r: Vec<Binding>)
        requires
            symbols@.len() == all_entries(self.bindings@).len(),
        ensures
            binding_models(r@) == resolved(all_entries(self.bindings@), symbols@),
    {
        let mut entries: Vec<Entry> = self.entries();
        let ghost all = all_entries(self.bindings@);
        let mut out: Vec<Binding> = Vec::new();
        let mut i: usize = 0;
        assert(binding_models(out@) =~= resolved(all.take(0), symbols@.take(0)));
        while i < entries.len()
            invariant
                i <= entries@.len(),
                entries@.len() == all.len(),
                symbols@.len() == all.len(),
                entry_models(entries@) == all,
                binding_models(out@) == resolved(all.take(i as int), symbols@.take(i as int)),
            decreases entries@.len() - i,
        {
            let symbol: KeySymbol = symbols[i];
            proof {
                assert(all.take(i + 1).drop_last() =~= all.take(i as int));
                assert(symbols@.take(i + 1).drop_last() =~= symbols@.take(i as int));
                assert(all.take(i + 1).last() == all[i as int]);
                assert(symbols@.take(i + 1).last() == symbol);
                assert(all[i as int].combo == entries@[i as int].combo@);
                assert(all[i as int].action == action_model(entries@[i as int].action));
            }
            if symbol.sym != 0 {
                if let Some((mods, _)) = parse_key_combo(entries[i].combo.as_str()) {
                    let action: Option<KeyAction> = match &entries[i].action {
                        Some(action) => Some(action.duplicate()),
                        None => None,
                    };
                    apply(&mut out, mods, symbol, action);
                }
            }
            i += 1;
        }
        assert(all.take(all.len() as int) =~= all);
        assert(symbols@.take(all.len() as int) =~= symbols@);
        out
    }
}

} // verus!
