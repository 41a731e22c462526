//! Key combinations written as text, such as `Ctrl+Shift+C`.

use crate::input::keysyms::{
    KEY_0, KEY_DOWN, KEY_END, KEY_EQUAL, KEY_HOME, KEY_INSERT, KEY_KP_PAGE_DOWN, KEY_KP_PAGE_UP,
    KEY_LEFT, KEY_MINUS, KEY_PAGE_DOWN, KEY_PAGE_UP, KEY_PLUS, KEY_RIGHT, KEY_UP,
};
use crate::input::Modifiers;
use crate::text;
use vstd::prelude::*;

verus! {

/// The key of a combination: a known symbol, a single character, or the name of a symbol.
#[derive(Debug, Clone, PartialEq, Eq)]
pub enum KeyRef {
    Symbol(u32),
    Character(char),
    Named(String),
}

/// What a key of a combination holds.
#[verifier::ext_equal]
pub enum KeyModel {
    Symbol(u32),
    Character(char),
    Named(Seq<char>),
}

impl View for KeyRef {
    type V = KeyModel;

    open spec fn view(&self) -> KeyModel {
        match *self {
            KeyRef::Symbol(sym) => KeyModel::Symbol(sym),
            KeyRef::Character(c) => KeyModel::Character(c),
            KeyRef::Named(name) => KeyModel::Named(name@),
        }
    }
}

/// What a parsed combination holds.
pub open spec fn combo_model(c: Option<(Modifiers, KeyRef)>) -> Option<(Modifiers, KeyModel)> {
    match c {
        Some((mods, key)) => Some((mods, key@)),
        None => None,
    }
}

/// The last place of a character in a text, or minus one.
pub open spec fn last_place(s: Seq<char>, c: char) -> int
    decreases s.len(),
{
    if s.len() == 0 {
        -1
    } else if s.last() == c {
        s.len() - 1
    } else {
        last_place(s.drop_last(), c)
    }
}

/// The part of a combination that names modifiers, and the part that names the key. A combination
/// that ends in two plus signs has the plus key.
pub open spec fn combo_parts(s: Seq<char>) -> (Seq<char>, Seq<char>) {
    let n = s.len() as int;
    if n >= 2 && s[n - 2] == '+' && s[n - 1] == '+' {
        (s.take(n - 2), seq!['+'])
    } else {
        let at = last_place(s, '+');
        if at < 0 {
            (Seq::empty(), s)
        } else {
            (s.take(at), s.skip(at + 1))
        }
    }
}

/// Modifiers with one more held, by its name in lower case.
pub open spec fn with_modifier(mods: Modifiers, name: Seq<char>) -> Option<Modifiers> {
    if name == "ctrl"@ || name == "control"@ {
        Some(Modifiers { ctrl: true, ..mods })
    } else if name == "alt"@ || name == "mod1"@ {
        Some(Modifiers { alt: true, ..mods })
    } else if name == "shift"@ {
        Some(Modifiers { shift: true, ..mods })
    } else if name == "super"@ || name == "mod4"@ || name == "logo"@ {
        Some(Modifiers { logo: true, ..mods })
    } else {
        None
    }
}

/// No modifier held.
pub open spec fn no_modifiers() -> Modifiers {
    Modifiers { ctrl: false, alt: false, shift: false, logo: false }
}

/// The modifiers that a list of names gives, if every name is known.
pub open spec fn modifiers_of(names: Seq<Seq<char>>) -> Option<Modifiers>
    decreases names.len(),
{
    if names.len() == 0 {
        Some(no_modifiers())
    } else {
        match modifiers_of(names.drop_last()) {
            Some(mods) => with_modifier(mods, text::lowered(text::trimmed(names.last()))),
            None => None,
        }
    }
}

/// The symbol of a key with a fixed name in lower case.
pub open spec fn fixed_symbol(name: Seq<char>) -> Option<u32> {
    if name == "pageup"@ || name == "page_up"@ {
        Some(KEY_PAGE_UP)
    } else if name == "pagedown"@ || name == "page_down"@ {
        Some(KEY_PAGE_DOWN)
    } else if name == "kp_pageup"@ || name == "kp_page_up"@ {
        Some(KEY_KP_PAGE_UP)
    } else if name == "kp_pagedown"@ || name == "kp_page_down"@ {
        Some(KEY_KP_PAGE_DOWN)
    } else if name == "home"@ {
        Some(KEY_HOME)
    } else if name == "end"@ {
        Some(KEY_END)
    } else if name == "up"@ {
        Some(KEY_UP)
    } else if name == "down"@ {
        Some(KEY_DOWN)
    } else if name == "left"@ {
        Some(KEY_LEFT)
    } else if name == "right"@ {
        Some(KEY_RIGHT)
    } else if name == "insert"@ {
        Some(KEY_INSERT)
    } else if name == "+"@ || name == "plus"@ || name == "kp_add"@ {
        Some(KEY_PLUS)
    } else if name == "="@ || name == "equal"@ {
        Some(KEY_EQUAL)
    } else if name == "-"@ || name == "minus"@ || name == "kp_subtract"@ {
        Some(KEY_MINUS)
    } else if name == "0"@ || name == "kp_0"@ {
        Some(KEY_0)
    } else {
        None
    }
}

/// The key that a name stands for. A single ASCII character stands for itself.
pub open spec fn key_of(s: Seq<char>) -> KeyModel {
    let name = text::lowered(text::trimmed(s));
    match fixed_symbol(name) {
        Some(sym) => KeyModel::Symbol(sym),
        None => if name.len() == 1 && name[0] as u32 <= 0x7f {
            KeyModel::Character(name[0])
        } else {
            KeyModel::Named(name)
        },
    }
}

/// The combination that a text describes. Empty text, `none` and unknown modifiers describe none.
pub open spec fn combo_of(s: Seq<char>) -> Option<(Modifiers, KeyModel)> {
    let t = text::trimmed(s);
    if t.len() == 0 || text::lowered(t) == "none"@ {
        None
    } else {
        let (names, key) = combo_parts(t);
        let mods = if names.len() == 0 {
            Some(no_modifiers())
        } else {
            modifiers_of(text::split(names, '+'))
        };
        match mods {
            Some(mods) => Some((mods, key_of(key))),
            None => None,
        }
    }
}

fn last_plus(s: &Vec<char>) -> (r: Option<usize>)
    ensures
        match r {
            Some(at) => at == last_place(s@, '+') && at < s@.len(),
            None => last_place(s@, '+') < 0,
        },
{
    let mut i: usize = s.len();
    assert(s@.take(i as int) =~= s@);
    while i > 0
        invariant
            i <= s@.len(),
            last_place(s@, '+') == last_place(s@.take(i as int), '+'),
        decreases i,
    {
        assert(s@.take(i as int).last() == s@[i - 1]);
        assert(s@.take(i as int).drop_last() =~= s@.take(i - 1));
        if s[i - 1] == '+' {
            return Some(i - 1);
        }
        i -= 1;
    }
    None
}

fn slice(s: &Vec<char>, from: usize, to: usize) -> (r: Vec<char>)
    requires
        from <= to <= s@.len(),
    ensures
        r@ == s@.subrange(from as int, to as int),
{
    let mut out: Vec<char> = Vec::new();
    let mut i: usize = from;
    while i < to
        invariant
            from <= i <= to <= s@.len(),
            out@ == s@.subrange(from as int, i as int),
        decreases to - i,
    {
        out.push(s[i]);
        assert(out@ =~= s@.subrange(from as int, i + 1));
        i += 1;
    }
    out
}

fn split_combo(s: &Vec<char>) -> (r: (Vec<char>, Vec<char>))
    ensures
        (r.0@, r.1@) == combo_parts(s@),
{
    let n: usize = s.len();
    if n >= 2 && s[n - 2] == '+' && s[n - 1] == '+' {
        let mut key: Vec<char> = Vec::new();
        key.push('+');
        assert(key@ =~= seq!['+']);
        let names: Vec<char> = slice(s, 0, n - 2);
        assert(names@ =~= s@.take(n - 2));
        (names, key)
    } else {
        match last_plus(s) {
            Some(at) => {
                let names: Vec<char> = slice(s, 0, at);
                let key: Vec<char> = slice(s, at + 1, n);
                assert(names@ =~= s@.take(at as int));
                assert(key@ =~= s@.skip(at + 1));
                (names, key)
            },
            None => {
                let key: Vec<char> = slice(s, 0, n);
                assert(key@ =~= s@);
                let names: Vec<char> = Vec::new();
                assert(names@ =~= Seq::<char>::empty());
                (names, key)
            },
        }
    }
}

fn add_modifier(mods: Modifiers, name: &Vec<char>) -> (r: Option<Modifiers>)
    ensures
        r == with_modifier(mods, name@),
{
    let mut out: Modifiers = mods;
    if text::spells(name, "ctrl") || text::spells(name, "control") {
        out.ctrl = true;
    } else if text::spells(name, "alt") || text::spells(name, "mod1") {
        out.alt = true;
    } else if text::spells(name, "shift") {
        out.shift = true;
    } else if text::spells(name, "super") || text::spells(name, "mod4") || text::spells(
        name,
        "logo",
    ) {
        out.logo = true;
    } else {
        return None;
    }
    Some(out)
}

/// Names from an unknown one on describe no modifiers.
proof fn lemma_unknown_modifier(names: Seq<Seq<char>>, i: int)
    requires
        0 <= i <= names.len(),
        modifiers_of(names.take(i)) is None,
    ensures
        modifiers_of(names) is None,
    decreases names.len() - i,
{
    if i == names.len() {
        assert(names.take(i) =~= names);
    } else {
        assert(names.take(i + 1).drop_last() =~= names.take(i));
        lemma_unknown_modifier(names, i + 1);
    }
}

fn read_modifiers(names: &Vec<Vec<char>>) -> (r: Option<Modifiers>)
    ensures
        r == modifiers_of(text::char_lists(names@)),
{
    let ghost all = text::char_lists(names@);
    let mut mods: Modifiers = Modifiers::default();
    let mut i: usize = 0;
    assert(all.take(0) =~= Seq::<Seq<char>>::empty());
    while i < names.len()
        invariant
            i <= names@.len(),
            all == text::char_lists(names@),
            modifiers_of(all.take(i as int)) == Some(mods),
        decreases names@.len() - i,
    {
        let trimmed: Vec<char> = text::trim(names[i].as_slice());
        let name: Vec<char> = text::lower_chars(&trimmed);
        proof {
            assert(all.take(i + 1).drop_last() =~= all.take(i as int));
            assert(all.take(i + 1).last() == names@[i as int]@);
        }
        match add_modifier(mods, &name) {
            Some(more) => {
                mods = more;
            },
            None => {
                proof {
                    lemma_unknown_modifier(all, i + 1);
                }
                return None;
            },
        }
        i += 1;
    }
    assert(all.take(names@.len() as int) =~= all);
    Some(mods)
}

fn read_fixed_symbol(name: &Vec<char>) -> (r: Option<u32>)
    ensures
        r == fixed_symbol(name@),
{
    if text::spells(name, "pageup") || text::spells(name, "page_up") {
        Some(KEY_PAGE_UP)
    } else if text::spells(name, "pagedown") || text::spells(name, "page_down") {
        Some(KEY_PAGE_DOWN)
    } else if text::spells(name, "kp_pageup") || text::spells(name, "kp_page_up") {
        Some(KEY_KP_PAGE_UP)
    } else if text::spells(name, "kp_pagedown") || text::spells(name, "kp_page_down") {
        Some(KEY_KP_PAGE_DOWN)
    } else if text::spells(name, "home") {
        Some(KEY_HOME)
    } else if text::spells(name, "end") {
        Some(KEY_END)
    } else if text::spells(name, "up") {
        Some(KEY_UP)
    } else if text::spells(name, "down") {
        Some(KEY_DOWN)
    } else if text::spells(name, "left") {
        Some(KEY_LEFT)
    } else if text::spells(name, "right") {
        Some(KEY_RIGHT)
    } else if text::spells(name, "insert") {
        Some(KEY_INSERT)
    } else if text::spells(name, "+") || text::spells(name, "plus") || text::spells(name, "kp_add") {
        Some(KEY_PLUS)
    } else if text::spells(name, "=") || text::spells(name, "equal") {
        Some(KEY_EQUAL)
    } else if text::spells(name, "-") || text::spells(name, "minus") || text::spells(
        name,
        "kp_subtract",
    ) {
        Some(KEY_MINUS)
    } else if text::spells(name, "0") || text::spells(name, "kp_0") {
        Some(KEY_0)
    } else {
        None
    }
}

fn read_key(s: &Vec<char>) -> (r: KeyRef)
    ensures
        r@ == key_of(s@),
{
    let trimmed: Vec<char> = text::trim(s.as_slice());
    let name: Vec<char> = text::lower_chars(&trimmed);
    match read_fixed_symbol(&name) {
        Some(sym) => KeyRef::Symbol(sym),
        None => if name.len() == 1 && name[0] as u32 <= 0x7f {
            KeyRef::Character(name[0])
        } else {
            KeyRef::Named(text::string_of(name.as_slice()))
        },
    }
}

/// Parses a key combination string (e.g. `"Shift+PageUp"` or `"Ctrl+Shift+C"`).
pub fn parse_key_combo(s: &str) -> (r: Option<(Modifiers, KeyRef)>)
    ensures
        combo_model(r) == combo_of(s@),
{
    let chars: Vec<char> = text::chars_of(s);
    let trimmed: Vec<char> = text::trim(chars.as_slice());
    if trimmed.len() == 0 {
        return None;
    }
    let low: Vec<char> = text::lower_chars(&trimmed);
    if text::spells(&low, "none") {
        return None;
    }
    let (names, key): (Vec<char>, Vec<char>) = split_combo(&trimmed);
    let mods: Modifiers = if names.len() == 0 {
        Modifiers::default()
    } else {
        match read_modifiers(&text::split_chars(&names, '+')) {
            Some(mods) => mods,
            None => {
                return None;
            },
        }
    };
    Some((mods, read_key(&key)))
}

} // verus!
