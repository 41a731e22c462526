//! What holds of the bytes that keys send, of key combinations and of the bindings they trigger.

use crate::input::combo::{
    combo_of, fixed_symbol, key_of, last_place, modifiers_of, with_modifier, KeyModel,
};
use crate::input::encode::{
    digits, enhanced, key_event, modifier_value, plain, plain_form, sequence, special_form, KeyForm,
};
use crate::input::keysyms::{
    KEY_0, KEY_A, KEY_ASCIICIRCUM, KEY_AT, KEY_BACKSLASH, KEY_BACKSPACE, KEY_BRACKETLEFT,
    KEY_BRACKETRIGHT, KEY_DELETE, KEY_DOWN, KEY_END, KEY_EQUAL, KEY_ESCAPE, KEY_F1, KEY_F10,
    KEY_F11, KEY_F12, KEY_F13, KEY_F2, KEY_F3, KEY_F35, KEY_F4, KEY_F5, KEY_F6, KEY_F7, KEY_F8,
    KEY_F9, KEY_HOME, KEY_INSERT, KEY_ISO_LEFT_TAB, KEY_KP_ENTER, KEY_KP_PAGE_DOWN, KEY_KP_PAGE_UP,
    KEY_LEFT, KEY_MINUS, KEY_PAGE_DOWN, KEY_PAGE_UP, KEY_PLUS, KEY_RETURN, KEY_RIGHT, KEY_SPACE,
    KEY_TAB, KEY_UNDERSCORE, KEY_UP, KEY_UPPER_A, KEY_UPPER_Z, KEY_Z,
};
use crate::input::{
    supported, triggered, triggers, unpadded, BindingModel, KeyReading, KeySymbol,
    KittyKeyboardFlags, Modifiers, MAX_KITTY_STACK,
};
use crate::text;
use crate::text::laws::{law_short_numbers, law_trimming_keeps_plain_text, written};
use vstd::prelude::*;
use vstd::utf8::encode_utf8;

verus! {

/// Nothing held beside the key.
pub open spec fn nothing_held() -> Modifiers {
    Modifiers { ctrl: false, alt: false, shift: false, logo: false }
}

/// The keys have the symbols that the keyboard layouts give them.
pub proof fn law_key_symbols()
    ensures
        KEY_SPACE == ' ' as u32 && KEY_PLUS == '+' as u32 && KEY_MINUS == '-' as u32,
        KEY_0 == '0' as u32 && KEY_EQUAL == '=' as u32 && KEY_AT == '@' as u32,
        KEY_UPPER_A == 'A' as u32 && KEY_UPPER_Z == 'Z' as u32,
        KEY_A == 'a' as u32 && KEY_Z == 'z' as u32,
        KEY_BRACKETLEFT == '[' as u32 && KEY_BRACKETRIGHT == ']' as u32,
        KEY_BACKSLASH == '\\' as u32 && KEY_ASCIICIRCUM == '^' as u32,
        KEY_UNDERSCORE == '_' as u32,
        KEY_ISO_LEFT_TAB == 0xfe20 && KEY_BACKSPACE == 0xff08 && KEY_TAB == 0xff09,
        KEY_RETURN == 0xff0d && KEY_ESCAPE == 0xff1b && KEY_KP_ENTER == 0xff8d,
        KEY_HOME == 0xff50 && KEY_LEFT == 0xff51 && KEY_UP == 0xff52 && KEY_RIGHT == 0xff53,
        KEY_DOWN == 0xff54 && KEY_PAGE_UP == 0xff55 && KEY_PAGE_DOWN == 0xff56 && KEY_END == 0xff57,
        KEY_INSERT == 0xff63 && KEY_DELETE == 0xffff,
        KEY_KP_PAGE_UP == 0xff9a && KEY_KP_PAGE_DOWN == 0xff9b,
        KEY_F1 == 0xffbe && KEY_F2 == 0xffbf && KEY_F3 == 0xffc0 && KEY_F4 == 0xffc1,
        KEY_F5 == 0xffc2 && KEY_F6 == 0xffc3 && KEY_F7 == 0xffc4 && KEY_F8 == 0xffc5,
        KEY_F9 == 0xffc6 && KEY_F10 == 0xffc7 && KEY_F11 == 0xffc8 && KEY_F12 == 0xffc9,
        KEY_F13 == 0xffca && KEY_F35 == 0xffe0,
{
}

proof fn lemma_all_written()
    ensures
        forall|n: nat| n < 10 ==> #[trigger] written(n) == seq![(48 + n) as u8],
        forall|n: nat|
            10 <= n < 100 ==> #[trigger] written(n) == seq![
                (48 + n / 10) as u8,
                (48 + n % 10) as u8,
            ],
{
    assert forall|n: nat| n < 10 implies #[trigger] written(n) == seq![(48 + n) as u8] by {
        law_short_numbers(n);
    }
    assert forall|n: nat| 10 <= n < 100 implies #[trigger] written(n) == seq![
        (48 + n / 10) as u8,
        (48 + n % 10) as u8,
    ] by {
        law_short_numbers(n);
    }
}

/// What the editing keys and the keys above the letters send, without Alt: an escape, a bracket, the
/// number of the key and a tilde.
pub proof fn law_numbered_keys(typed: Seq<char>, mods: Modifiers)
    requires
        !mods.alt,
    ensures
        plain(KEY_INSERT, typed, mods) == Some(seq![0x1bu8, 0x5b, 0x32, 0x7e]),
        plain(KEY_DELETE, typed, mods) == Some(seq![0x1bu8, 0x5b, 0x33, 0x7e]),
        plain(KEY_PAGE_UP, typed, mods) == Some(seq![0x1bu8, 0x5b, 0x35, 0x7e]),
        plain(KEY_PAGE_DOWN, typed, mods) == Some(seq![0x1bu8, 0x5b, 0x36, 0x7e]),
        plain(KEY_F5, typed, mods) == Some(seq![0x1bu8, 0x5b, 0x31, 0x35, 0x7e]),
        plain(KEY_F6, typed, mods) == Some(seq![0x1bu8, 0x5b, 0x31, 0x37, 0x7e]),
        plain(KEY_F7, typed, mods) == Some(seq![0x1bu8, 0x5b, 0x31, 0x38, 0x7e]),
        plain(KEY_F8, typed, mods) == Some(seq![0x1bu8, 0x5b, 0x31, 0x39, 0x7e]),
        plain(KEY_F9, typed, mods) == Some(seq![0x1bu8, 0x5b, 0x32, 0x30, 0x7e]),
        plain(KEY_F10, typed, mods) == Some(seq![0x1bu8, 0x5b, 0x32, 0x31, 0x7e]),
        plain(KEY_F11, typed, mods) == Some(seq![0x1bu8, 0x5b, 0x32, 0x33, 0x7e]),
        plain(KEY_F12, typed, mods) == Some(seq![0x1bu8, 0x5b, 0x32, 0x34, 0x7e]),
{
    lemma_all_written();
    let at = |sym: u32, n: nat|
        plain(sym, typed, mods) == Some(seq![0x1bu8, 0x5b] + written(n) + seq![0x7eu8]);
    assert(at(KEY_INSERT, 2) && at(KEY_DELETE, 3) && at(KEY_PAGE_UP, 5) && at(KEY_PAGE_DOWN, 6));
    assert(at(KEY_F5, 15) && at(KEY_F6, 17) && at(KEY_F7, 18) && at(KEY_F8, 19));
    assert(at(KEY_F9, 20) && at(KEY_F10, 21) && at(KEY_F11, 23) && at(KEY_F12, 24));
    assert(plain(KEY_INSERT, typed, mods)->0 =~= seq![0x1bu8, 0x5b, 0x32, 0x7e]);
    assert(plain(KEY_DELETE, typed, mods)->0 =~= seq![0x1bu8, 0x5b, 0x33, 0x7e]);
    assert(plain(KEY_PAGE_UP, typed, mods)->0 =~= seq![0x1bu8, 0x5b, 0x35, 0x7e]);
    assert(plain(KEY_PAGE_DOWN, typed, mods)->0 =~= seq![0x1bu8, 0x5b, 0x36, 0x7e]);
    assert(plain(KEY_F5, typed, mods)->0 =~= seq![0x1bu8, 0x5b, 0x31, 0x35, 0x7e]);
    assert(plain(KEY_F6, typed, mods)->0 =~= seq![0x1bu8, 0x5b, 0x31, 0x37, 0x7e]);
    assert(plain(KEY_F7, typed, mods)->0 =~= seq![0x1bu8, 0x5b, 0x31, 0x38, 0x7e]);
    assert(plain(KEY_F8, typed, mods)->0 =~= seq![0x1bu8, 0x5b, 0x31, 0x39, 0x7e]);
    assert(plain(KEY_F9, typed, mods)->0 =~= seq![0x1bu8, 0x5b, 0x32, 0x30, 0x7e]);
    assert(plain(KEY_F10, typed, mods)->0 =~= seq![0x1bu8, 0x5b, 0x32, 0x31, 0x7e]);
    assert(plain(KEY_F11, typed, mods)->0 =~= seq![0x1bu8, 0x5b, 0x32, 0x33, 0x7e]);
    assert(plain(KEY_F12, typed, mods)->0 =~= seq![0x1bu8, 0x5b, 0x32, 0x34, 0x7e]);
}

/// What the keys with a letter of their own and the keys that are control characters send, without
/// Alt.
pub proof fn law_lettered_keys(typed: Seq<char>, mods: Modifiers)
    requires
        !mods.alt,
    ensures
        plain(KEY_UP, typed, mods) == Some(seq![0x1bu8, 0x5b, 0x41]),
        plain(KEY_DOWN, typed, mods) == Some(seq![0x1bu8, 0x5b, 0x42]),
        plain(KEY_RIGHT, typed, mods) == Some(seq![0x1bu8, 0x5b, 0x43]),
        plain(KEY_LEFT, typed, mods) == Some(seq![0x1bu8, 0x5b, 0x44]),
        plain(KEY_END, typed, mods) == Some(seq![0x1bu8, 0x5b, 0x46]),
        plain(KEY_HOME, typed, mods) == Some(seq![0x1bu8, 0x5b, 0x48]),
        plain(KEY_F1, typed, mods) == Some(seq![0x1bu8, 0x4f, 0x50]),
        plain(KEY_F2, typed, mods) == Some(seq![0x1bu8, 0x4f, 0x51]),
        plain(KEY_F3, typed, mods) == Some(seq![0x1bu8, 0x4f, 0x52]),
        plain(KEY_F4, typed, mods) == Some(seq![0x1bu8, 0x4f, 0x53]),
        plain(KEY_RETURN, typed, mods) == Some(seq![0x0du8]),
        plain(KEY_KP_ENTER, typed, mods) == Some(seq![0x0du8]),
        plain(KEY_BACKSPACE, typed, mods) == Some(seq![0x7fu8]),
        plain(KEY_ESCAPE, typed, mods) == Some(seq![0x1bu8]),
        plain(KEY_ISO_LEFT_TAB, typed, mods) == Some(seq![0x1bu8, 0x5b, 0x5a]),
        mods.shift ==> plain(KEY_TAB, typed, mods) == Some(seq![0x1bu8, 0x5b, 0x5a]),
        !mods.shift ==> plain(KEY_TAB, typed, mods) == Some(seq![0x09u8]),
{
}

/// Beside the first four function keys, a key with a letter or a number of its own sends without
/// enhancements what it sends with them, if nothing is held.
pub proof fn law_plain_keys_agree_with_enhanced_keys(sym: u32, typed: Seq<char>)
    requires
        KEY_HOME <= sym <= KEY_END || sym == KEY_INSERT || sym == KEY_DELETE || KEY_F5 <= sym
            <= KEY_F12,
    ensures
        plain(sym, typed, nothing_held()) is Some,
        plain(sym, typed, nothing_held()) == enhanced(1, sym, typed, nothing_held(), 1),
{
    assert(1u8 & 2 == 0) by (bit_vector);
    assert(1u8 & 1 == 1) by (bit_vector);
    assert(plain(sym, typed, nothing_held())->0 =~= enhanced(1, sym, typed, nothing_held(), 1)->0);
}

/// The number of a key with a number or a code point of its own, in the enhanced protocol.
pub open spec fn numbered(sym: u32) -> Option<nat> {
    if sym == KEY_INSERT {
        Some(2)
    } else if sym == KEY_DELETE {
        Some(3)
    } else if sym == KEY_PAGE_UP {
        Some(5)
    } else if sym == KEY_PAGE_DOWN {
        Some(6)
    } else if sym == KEY_F5 {
        Some(15)
    } else if KEY_F6 <= sym <= KEY_F10 {
        Some((sym - KEY_F6 + 17) as nat)
    } else if sym == KEY_F11 {
        Some(23)
    } else if sym == KEY_F12 {
        Some(24)
    } else {
        None
    }
}

/// The final letter of a key that has one.
pub open spec fn lettered(sym: u32) -> Option<u8> {
    if sym == KEY_UP {
        Some(0x41u8)
    } else if sym == KEY_DOWN {
        Some(0x42u8)
    } else if sym == KEY_RIGHT {
        Some(0x43u8)
    } else if sym == KEY_LEFT {
        Some(0x44u8)
    } else if sym == KEY_END {
        Some(0x46u8)
    } else if sym == KEY_HOME {
        Some(0x48u8)
    } else if sym == KEY_F1 {
        Some(0x50u8)
    } else if sym == KEY_F2 {
        Some(0x51u8)
    } else if sym == KEY_F3 {
        Some(0x52u8)
    } else if sym == KEY_F4 {
        Some(0x53u8)
    } else {
        None
    }
}

/// The code point of a key that types no text and has neither a letter nor a number of its own.
pub open spec fn coded(sym: u32) -> Option<nat> {
    if sym == KEY_RETURN || sym == KEY_KP_ENTER {
        Some(13)
    } else if sym == KEY_TAB || sym == KEY_ISO_LEFT_TAB {
        Some(9)
    } else if sym == KEY_BACKSPACE {
        Some(127)
    } else if sym == KEY_ESCAPE {
        Some(27)
    } else if KEY_F13 <= sym <= KEY_F35 {
        Some((sym - KEY_F13 + 57376) as nat)
    } else {
        None
    }
}

/// Eight for the logo key, four for Control, two for Alt, one for Shift, and one on top.
pub open spec fn held_number(mods: Modifiers) -> nat {
    let bit = |held: bool, n: nat|
        if held {
            n
        } else {
            0
        };
    1 + bit(mods.shift, 1) + bit(mods.alt, 2) + bit(mods.ctrl, 4) + bit(mods.logo, 8)
}

/// What follows the number of a key in an escape sequence: what is held and the kind of the event,
/// where either has to be told.
pub open spec fn told_after(flags: u8, mods: Modifiers, event: u8) -> Seq<u8> {
    if flags & 2 != 0 && event != 1 {
        seq![0x3bu8] + written(held_number(mods)) + seq![0x3au8] + written(event as nat)
    } else if mods != nothing_held() {
        seq![0x3bu8] + written(held_number(mods))
    } else {
        Seq::empty()
    }
}

proof fn lemma_own_forms(sym: u32)
    ensures
        match special_form(sym) {
            Some(KeyForm::Letter(b)) => lettered(sym) == Some(b) && numbered(sym) is None && coded(
                sym,
            ) is None,
            Some(KeyForm::Tilde(n)) => lettered(sym) is None && numbered(sym) == Some(n as nat)
                && coded(sym) is None,
            Some(KeyForm::Code(n)) => lettered(sym) is None && numbered(sym) is None && coded(sym)
                == Some(n as nat),
            None => lettered(sym) is None && numbered(sym) is None && coded(sym) is None,
        },
{
}

#[verifier::rlimit(40)]
proof fn lemma_layout(flags: u8, form: KeyForm, mods: Modifiers, event: u8)
    ensures
        ({
            let b = sequence(flags, form, mods, event);
            let after = told_after(flags, mods, event);
            match form {
                KeyForm::Letter(letter) => b == seq![0x1bu8, 0x5b] + (if after.len() == 0 {
                    Seq::empty()
                } else {
                    seq![0x31u8] + after
                }) + seq![letter],
                KeyForm::Tilde(n) => b == seq![0x1bu8, 0x5b] + written(n as nat) + after
                    + seq![0x7eu8],
                KeyForm::Code(n) => b == seq![0x1bu8, 0x5b] + written(n as nat) + after
                    + seq![0x75u8],
            }
        }),
{
    let b = sequence(flags, form, mods, event);
    let after = told_after(flags, mods, event);
    assert(digits(modifier_value(mods)) == written(held_number(mods)));
    assert((modifier_value(mods) == 1) == (mods == nothing_held()));
    match form {
        KeyForm::Letter(letter) => {
            law_short_numbers(1);
            assert(digits(1) == written(1));
            if after.len() == 0 {
                assert(b =~= seq![0x1bu8, 0x5b] + Seq::<u8>::empty() + seq![letter]);
            } else {
                assert(b =~= seq![0x1bu8, 0x5b] + (seq![0x31u8] + after) + seq![letter]);
            }
        },
        KeyForm::Tilde(n) => {
            assert(digits(n as nat) == written(n as nat));
            assert(b =~= seq![0x1bu8, 0x5b] + written(n as nat) + after + seq![0x7eu8]);
        },
        KeyForm::Code(n) => {
            assert(digits(n as nat) == written(n as nat));
            assert(b =~= seq![0x1bu8, 0x5b] + written(n as nat) + after + seq![0x75u8]);
        },
    }
}

/// An escape sequence of the enhanced protocol is an escape, a bracket, the number of the key, what
/// is held and the kind of the event, and the letter, the tilde or the `u` of the key; a key with a
/// letter has the number one, which is left out where nothing follows it.
pub proof fn law_layout_of_enhanced_keys(
    flags: u8,
    sym: u32,
    typed: Seq<char>,
    mods: Modifiers,
    event: u8,
)
    ensures
        enhanced(flags, sym, typed, mods, event) matches Some(b) ==> {
            let after = told_after(flags, mods, event);
            &&& lettered(sym) matches Some(letter) ==> b == seq![0x1bu8, 0x5b] + (if after.len()
                == 0 {
                Seq::empty()
            } else {
                seq![0x31u8] + after
            }) + seq![letter]
            &&& numbered(sym) matches Some(n) ==> b == seq![0x1bu8, 0x5b] + written(n) + after
                + seq![0x7eu8]
            &&& coded(sym) matches Some(n) ==> b == seq![0x1bu8, 0x5b] + written(n) + after
                + seq![0x75u8]
            &&& lettered(sym) is None && numbered(sym) is None && coded(sym) is None ==> b
                == seq![0x1bu8, 0x5b] + written(
                if typed.len() > 0 {
                    typed[0] as u32 as nat
                } else {
                    sym as nat
                },
            ) + after + seq![0x75u8]
        },
{
    if enhanced(flags, sym, typed, mods, event) is Some {
        lemma_own_forms(sym);
        let form = match special_form(sym) {
            Some(form) => form,
            None => plain_form(sym, typed)->0,
        };
        lemma_layout(flags, form, mods, event);
    }
}

/// A key is told by an escape sequence where Control, Alt or the logo key is held, where all keys
/// are asked for, where a repetition or a release is asked for, and, with keys told apart, where
/// Shift is held or the key types no text of its own; never otherwise. A key without text needs a
/// symbol below the Unicode symbols.
pub proof fn law_keys_that_are_told(
    flags: u8,
    sym: u32,
    typed: Seq<char>,
    mods: Modifiers,
    event: u8,
)
    ensures
        enhanced(flags, sym, typed, mods, event) is Some <==> {
            let own = lettered(sym) is Some || numbered(sym) is Some || coded(sym) is Some;
            let code: int = if typed.len() > 0 {
                typed[0] as u32 as int
            } else {
                sym as int
            };
            let control = code == 9 || code == 13 || code == 27 || code == 127 || 57358 <= code
                <= 57398;
            &&& own || typed.len() > 0 || sym < 0x10000
            &&& {
                ||| mods.ctrl
                ||| mods.alt
                ||| mods.logo
                ||| flags & 8 != 0
                ||| flags & 2 != 0 && event != 1
                ||| flags & 1 != 0 && (mods.shift || own || control)
            }
        },
{
    lemma_own_forms(sym);
}

/// Control with a letter sends the number of the letter, in either case; with a sign of the same
/// block it sends the place of the sign in it; with the blank it sends a zero. Alt puts an escape
/// before letters only.
pub proof fn law_control_characters(sym: u32, typed: Seq<char>, mods: Modifiers)
    requires
        mods.ctrl,
    ensures
        0x61 <= sym <= 0x7a ==> plain(sym, typed, mods) == Some(
            if mods.alt {
                seq![0x1bu8, (sym - 0x60) as u8]
            } else {
                seq![(sym - 0x60) as u8]
            },
        ),
        0x41 <= sym <= 0x5a ==> plain(sym, typed, mods) == Some(
            if mods.alt {
                seq![0x1bu8, (sym - 0x40) as u8]
            } else {
                seq![(sym - 0x40) as u8]
            },
        ),
        sym == 0x40 || 0x5b <= sym <= 0x5f ==> plain(sym, typed, mods) == Some(
            seq![(sym - 0x40) as u8],
        ),
        sym == 0x20 ==> plain(sym, typed, mods) == Some(seq![0u8]),
{
    let b = plain(sym, typed, mods)->0;
    if 0x61 <= sym <= 0x7a && mods.alt {
        assert(b =~= seq![0x1bu8, (sym - 0x60) as u8]);
    }
    if 0x41 <= sym <= 0x5a && mods.alt {
        assert(b =~= seq![0x1bu8, (sym - 0x40) as u8]);
    }
}

/// A key that types text sends the text, and nothing where it types none; with Alt, an escape comes
/// first.
pub proof fn law_typed_text_is_sent(sym: u32, typed: Seq<char>, mods: Modifiers)
    requires
        lettered(sym) is None && numbered(sym) is None,
        coded(sym) is None || KEY_F13 <= sym <= KEY_F35,
        !mods.ctrl || !(0x40 <= sym <= 0x5f || 0x61 <= sym <= 0x7a || sym == 0x20),
    ensures
        typed.len() == 0 ==> plain(sym, typed, mods) is None,
        typed.len() > 0 && !mods.alt ==> plain(sym, typed, mods) == Some(encode_utf8(typed)),
        typed.len() > 0 && mods.alt ==> plain(sym, typed, mods) == Some(
            seq![0x1bu8] + encode_utf8(typed),
        ),
{
}

/// Alt puts an escape before what a key sends without it, but for control characters that are no
/// letters.
pub proof fn law_alt_puts_an_escape_first(sym: u32, typed: Seq<char>, mods: Modifiers)
    requires
        !mods.alt,
        !mods.ctrl || !(sym == 0x20 || sym == 0x40 || 0x5b <= sym <= 0x5f),
    ensures
        ({
            let with = plain(sym, typed, Modifiers { alt: true, ..mods });
            match plain(sym, typed, mods) {
                Some(b) => with == Some(seq![0x1bu8] + b),
                None => with is None,
            }
        }),
{
}

/// A press has the kind one, a repetition the kind two and a release the kind three; what is not
/// told by an escape sequence is sent plainly, but a release never is.
pub proof fn law_kinds_of_key_events(flags: u8, key: KeyReading, is_repeat: bool)
    requires
        flags > 0,
    ensures
        ({
            let told = |kind: u8| enhanced(flags, key.symbol.sym, key.text@, key.mods, kind);
            let kind: u8 = if is_repeat {
                2
            } else {
                1
            };
            let sent = plain(key.symbol.sym, key.text@, key.mods);
            &&& told(kind) is Some ==> key_event(flags, key, true, is_repeat) == told(kind)
            &&& told(kind) is None ==> key_event(flags, key, true, is_repeat) == sent
            &&& flags & 2 != 0 ==> key_event(flags, key, false, is_repeat) == told(3)
        }),
{
}

/// The names of keys stand for their symbols.
pub proof fn law_names_of_keys()
    ensures
        fixed_symbol("pageup"@) == Some(KEY_PAGE_UP),
        fixed_symbol("page_up"@) == Some(KEY_PAGE_UP),
        fixed_symbol("pagedown"@) == Some(KEY_PAGE_DOWN),
        fixed_symbol("page_down"@) == Some(KEY_PAGE_DOWN),
        fixed_symbol("kp_pageup"@) == Some(KEY_KP_PAGE_UP),
        fixed_symbol("kp_page_up"@) == Some(KEY_KP_PAGE_UP),
        fixed_symbol("kp_pagedown"@) == Some(KEY_KP_PAGE_DOWN),
        fixed_symbol("kp_page_down"@) == Some(KEY_KP_PAGE_DOWN),
        fixed_symbol("home"@) == Some(KEY_HOME),
        fixed_symbol("end"@) == Some(KEY_END),
        fixed_symbol("up"@) == Some(KEY_UP),
        fixed_symbol("down"@) == Some(KEY_DOWN),
        fixed_symbol("left"@) == Some(KEY_LEFT),
        fixed_symbol("right"@) == Some(KEY_RIGHT),
        fixed_symbol("insert"@) == Some(KEY_INSERT),
        fixed_symbol("+"@) == Some(KEY_PLUS),
        fixed_symbol("plus"@) == Some(KEY_PLUS),
        fixed_symbol("kp_add"@) == Some(KEY_PLUS),
        fixed_symbol("="@) == Some(KEY_EQUAL),
        fixed_symbol("equal"@) == Some(KEY_EQUAL),
        fixed_symbol("-"@) == Some(KEY_MINUS),
        fixed_symbol("minus"@) == Some(KEY_MINUS),
        fixed_symbol("kp_subtract"@) == Some(KEY_MINUS),
        fixed_symbol("0"@) == Some(KEY_0),
        fixed_symbol("kp_0"@) == Some(KEY_0),
{
    assert(fixed_symbol("pageup"@) == Some(KEY_PAGE_UP)) by {
        reveal_strlit("pageup");
        assert("pageup"@.len() == 6);
    }
    assert(fixed_symbol("page_up"@) == Some(KEY_PAGE_UP)) by {
        reveal_strlit("page_up");
        assert("page_up"@.len() == 7);
        reveal_strlit("pageup");
        assert("pageup"@.len() == 6);
    }
    assert(fixed_symbol("pagedown"@) == Some(KEY_PAGE_DOWN)) by {
        reveal_strlit("pagedown");
        assert("pagedown"@.len() == 8);
        reveal_strlit("pageup");
        assert("pageup"@.len() == 6);
        reveal_strlit("page_up");
        assert("page_up"@.len() == 7);
    }
    assert(fixed_symbol("page_down"@) == Some(KEY_PAGE_DOWN)) by {
        reveal_strlit("page_down");
        assert("page_down"@.len() == 9);
        reveal_strlit("pageup");
        assert("pageup"@.len() == 6);
        reveal_strlit("page_up");
        assert("page_up"@.len() == 7);
        reveal_strlit("pagedown");
        assert("pagedown"@.len() == 8);
    }
    assert(fixed_symbol("kp_pageup"@) == Some(KEY_KP_PAGE_UP)) by {
        reveal_strlit("kp_pageup");
        assert("kp_pageup"@.len() == 9);
        reveal_strlit("pageup");
        assert("pageup"@.len() == 6);
        reveal_strlit("page_up");
        assert("page_up"@.len() == 7);
        reveal_strlit("pagedown");
        assert("pagedown"@.len() == 8);
        reveal_strlit("page_down");
        assert("kp_pageup"@[0] == 'k' && "page_down"@[0] == 'p');
    }
    assert(fixed_symbol("kp_page_up"@) == Some(KEY_KP_PAGE_UP)) by {
        reveal_strlit("kp_page_up");
        assert("kp_page_up"@.len() == 10);
        reveal_strlit("pageup");
        assert("pageup"@.len() == 6);
        reveal_strlit("page_up");
        assert("page_up"@.len() == 7);
        reveal_strlit("pagedown");
        assert("pagedown"@.len() == 8);
        reveal_strlit("page_down");
        assert("page_down"@.len() == 9);
        reveal_strlit("kp_pageup");
        assert("kp_pageup"@.len() == 9);
    }
    assert(fixed_symbol("kp_pagedown"@) == Some(KEY_KP_PAGE_DOWN)) by {
        reveal_strlit("kp_pagedown");
        assert("kp_pagedown"@.len() == 11);
        reveal_strlit("pageup");
        assert("pageup"@.len() == 6);
        reveal_strlit("page_up");
        assert("page_up"@.len() == 7);
        reveal_strlit("pagedown");
        assert("pagedown"@.len() == 8);
        reveal_strlit("page_down");
        assert("page_down"@.len() == 9);
        reveal_strlit("kp_pageup");
        assert("kp_pageup"@.len() == 9);
        reveal_strlit("kp_page_up");
        assert("kp_page_up"@.len() == 10);
    }
    assert(fixed_symbol("kp_page_down"@) == Some(KEY_KP_PAGE_DOWN)) by {
        reveal_strlit("kp_page_down");
        assert("kp_page_down"@.len() == 12);
        reveal_strlit("pageup");
        assert("pageup"@.len() == 6);
        reveal_strlit("page_up");
        assert("page_up"@.len() == 7);
        reveal_strlit("pagedown");
        assert("pagedown"@.len() == 8);
        reveal_strlit("page_down");
        assert("page_down"@.len() == 9);
        reveal_strlit("kp_pageup");
        assert("kp_pageup"@.len() == 9);
        reveal_strlit("kp_page_up");
        assert("kp_page_up"@.len() == 10);
        reveal_strlit("kp_pagedown");
        assert("kp_pagedown"@.len() == 11);
    }
    assert(fixed_symbol("home"@) == Some(KEY_HOME)) by {
        reveal_strlit("home");
        assert("home"@.len() == 4);
        reveal_strlit("pageup");
        assert("pageup"@.len() == 6);
        reveal_strlit("page_up");
        assert("page_up"@.len() == 7);
        reveal_strlit("pagedown");
        assert("pagedown"@.len() == 8);
        reveal_strlit("page_down");
        assert("page_down"@.len() == 9);
        reveal_strlit("kp_pageup");
        assert("kp_pageup"@.len() == 9);
        reveal_strlit("kp_page_up");
        assert("kp_page_up"@.len() == 10);
        reveal_strlit("kp_pagedown");
        assert("kp_pagedown"@.len() == 11);
        reveal_strlit("kp_page_down");
        assert("kp_page_down"@.len() == 12);
    }
    assert(fixed_symbol("end"@) == Some(KEY_END)) by {
        reveal_strlit("end");
        assert("end"@.len() == 3);
        reveal_strlit("pageup");
        assert("pageup"@.len() == 6);
        reveal_strlit("page_up");
        assert("page_up"@.len() == 7);
        reveal_strlit("pagedown");
        assert("pagedown"@.len() == 8);
        reveal_strlit("page_down");
        assert("page_down"@.len() == 9);
        reveal_strlit("kp_pageup");
        assert("kp_pageup"@.len() == 9);
        reveal_strlit("kp_page_up");
        assert("kp_page_up"@.len() == 10);
        reveal_strlit("kp_pagedown");
        assert("kp_pagedown"@.len() == 11);
        reveal_strlit("kp_page_down");
        assert("kp_page_down"@.len() == 12);
        reveal_strlit("home");
        assert("home"@.len() == 4);
    }
    assert(fixed_symbol("up"@) == Some(KEY_UP)) by {
        reveal_strlit("up");
        assert("up"@.len() == 2);
        reveal_strlit("pageup");
        assert("pageup"@.len() == 6);
        reveal_strlit("page_up");
        assert("page_up"@.len() == 7);
        reveal_strlit("pagedown");
        assert("pagedown"@.len() == 8);
        reveal_strlit("page_down");
        assert("page_down"@.len() == 9);
        reveal_strlit("kp_pageup");
        assert("kp_pageup"@.len() == 9);
        reveal_strlit("kp_page_up");
        assert("kp_page_up"@.len() == 10);
        reveal_strlit("kp_pagedown");
        assert("kp_pagedown"@.len() == 11);
        reveal_strlit("kp_page_down");
        assert("kp_page_down"@.len() == 12);
        reveal_strlit("home");
        assert("home"@.len() == 4);
        reveal_strlit("end");
        assert("end"@.len() == 3);
    }
    assert(fixed_symbol("down"@) == Some(KEY_DOWN)) by {
        reveal_strlit("down");
        assert("down"@.len() == 4);
        reveal_strlit("pageup");
        assert("pageup"@.len() == 6);
        reveal_strlit("page_up");
        assert("page_up"@.len() == 7);
        reveal_strlit("pagedown");
        assert("pagedown"@.len() == 8);
        reveal_strlit("page_down");
        assert("page_down"@.len() == 9);
        reveal_strlit("kp_pageup");
        assert("kp_pageup"@.len() == 9);
        reveal_strlit("kp_page_up");
        assert("kp_page_up"@.len() == 10);
        reveal_strlit("kp_pagedown");
        assert("kp_pagedown"@.len() == 11);
        reveal_strlit("kp_page_down");
        assert("kp_page_down"@.len() == 12);
        reveal_strlit("home");
        assert("down"@[0] == 'd' && "home"@[0] == 'h');
        reveal_strlit("end");
        assert("end"@.len() == 3);
        reveal_strlit("up");
        assert("up"@.len() == 2);
    }
    assert(fixed_symbol("left"@) == Some(KEY_LEFT)) by {
        reveal_strlit("left");
        assert("left"@.len() == 4);
        reveal_strlit("pageup");
        assert("pageup"@.len() == 6);
        reveal_strlit("page_up");
        assert("page_up"@.len() == 7);
        reveal_strlit("pagedown");
        assert("pagedown"@.len() == 8);
        reveal_strlit("page_down");
        assert("page_down"@.len() == 9);
        reveal_strlit("kp_pageup");
        assert("kp_pageup"@.len() == 9);
        reveal_strlit("kp_page_up");
        assert("kp_page_up"@.len() == 10);
        reveal_strlit("kp_pagedown");
        assert("kp_pagedown"@.len() == 11);
        reveal_strlit("kp_page_down");
        assert("kp_page_down"@.len() == 12);
        reveal_strlit("home");
        assert("left"@[0] == 'l' && "home"@[0] == 'h');
        reveal_strlit("end");
        assert("end"@.len() == 3);
        reveal_strlit("up");
        assert("up"@.len() == 2);
        reveal_strlit("down");
        assert("left"@[0] == 'l' && "down"@[0] == 'd');
    }
    assert(fixed_symbol("right"@) == Some(KEY_RIGHT)) by {
        reveal_strlit("right");
        assert("right"@.len() == 5);
        reveal_strlit("pageup");
        assert("pageup"@.len() == 6);
        reveal_strlit("page_up");
        assert("page_up"@.len() == 7);
        reveal_strlit("pagedown");
        assert("pagedown"@.len() == 8);
        reveal_strlit("page_down");
        assert("page_down"@.len() == 9);
        reveal_strlit("kp_pageup");
        assert("kp_pageup"@.len() == 9);
        reveal_strlit("kp_page_up");
        assert("kp_page_up"@.len() == 10);
        reveal_strlit("kp_pagedown");
        assert("kp_pagedown"@.len() == 11);
        reveal_strlit("kp_page_down");
        assert("kp_page_down"@.len() == 12);
        reveal_strlit("home");
        assert("home"@.len() == 4);
        reveal_strlit("end");
        assert("end"@.len() == 3);
        reveal_strlit("up");
        assert("up"@.len() == 2);
        reveal_strlit("down");
        assert("down"@.len() == 4);
        reveal_strlit("left");
        assert("left"@.len() == 4);
    }
    assert(fixed_symbol("insert"@) == Some(KEY_INSERT)) by {
        reveal_strlit("insert");
        assert("insert"@.len() == 6);
        reveal_strlit("pageup");
        assert("insert"@[0] == 'i' && "pageup"@[0] == 'p');
        reveal_strlit("page_up");
        assert("page_up"@.len() == 7);
        reveal_strlit("pagedown");
        assert("pagedown"@.len() == 8);
        reveal_strlit("page_down");
        assert("page_down"@.len() == 9);
        reveal_strlit("kp_pageup");
        assert("kp_pageup"@.len() == 9);
        reveal_strlit("kp_page_up");
        assert("kp_page_up"@.len() == 10);
        reveal_strlit("kp_pagedown");
        assert("kp_pagedown"@.len() == 11);
        reveal_strlit("kp_page_down");
        assert("kp_page_down"@.len() == 12);
        reveal_strlit("home");
        assert("home"@.len() == 4);
        reveal_strlit("end");
        assert("end"@.len() == 3);
        reveal_strlit("up");
        assert("up"@.len() == 2);
        reveal_strlit("down");
        assert("down"@.len() == 4);
        reveal_strlit("left");
        assert("left"@.len() == 4);
        reveal_strlit("right");
        assert("right"@.len() == 5);
    }
    assert(fixed_symbol("+"@) == Some(KEY_PLUS)) by {
        reveal_strlit("+");
        assert("+"@.len() == 1);
        reveal_strlit("pageup");
        assert("pageup"@.len() == 6);
        reveal_strlit("page_up");
        assert("page_up"@.len() == 7);
        reveal_strlit("pagedown");
        assert("pagedown"@.len() == 8);
        reveal_strlit("page_down");
        assert("page_down"@.len() == 9);
        reveal_strlit("kp_pageup");
        assert("kp_pageup"@.len() == 9);
        reveal_strlit("kp_page_up");
        assert("kp_page_up"@.len() == 10);
        reveal_strlit("kp_pagedown");
        assert("kp_pagedown"@.len() == 11);
        reveal_strlit("kp_page_down");
        assert("kp_page_down"@.len() == 12);
        reveal_strlit("home");
        assert("home"@.len() == 4);
        reveal_strlit("end");
        assert("end"@.len() == 3);
        reveal_strlit("up");
        assert("up"@.len() == 2);
        reveal_strlit("down");
        assert("down"@.len() == 4);
        reveal_strlit("left");
        assert("left"@.len() == 4);
        reveal_strlit("right");
        assert("right"@.len() == 5);
        reveal_strlit("insert");
        assert("insert"@.len() == 6);
    }
    assert(fixed_symbol("plus"@) == Some(KEY_PLUS)) by {
        reveal_strlit("plus");
        assert("plus"@.len() == 4);
        reveal_strlit("pageup");
        assert("pageup"@.len() == 6);
        reveal_strlit("page_up");
        assert("page_up"@.len() == 7);
        reveal_strlit("pagedown");
        assert("pagedown"@.len() == 8);
        reveal_strlit("page_down");
        assert("page_down"@.len() == 9);
        reveal_strlit("kp_pageup");
        assert("kp_pageup"@.len() == 9);
        reveal_strlit("kp_page_up");
        assert("kp_page_up"@.len() == 10);
        reveal_strlit("kp_pagedown");
        assert("kp_pagedown"@.len() == 11);
        reveal_strlit("kp_page_down");
        assert("kp_page_down"@.len() == 12);
        reveal_strlit("home");
        assert("plus"@[0] == 'p' && "home"@[0] == 'h');
        reveal_strlit("end");
        assert("end"@.len() == 3);
        reveal_strlit("up");
        assert("up"@.len() == 2);
        reveal_strlit("down");
        assert("plus"@[0] == 'p' && "down"@[0] == 'd');
        reveal_strlit("left");
        assert("plus"@[0] == 'p' && "left"@[0] == 'l');
        reveal_strlit("right");
        assert("right"@.len() == 5);
        reveal_strlit("insert");
        assert("insert"@.len() == 6);
        reveal_strlit("+");
        assert("+"@.len() == 1);
    }
    assert(fixed_symbol("kp_add"@) == Some(KEY_PLUS)) by {
        reveal_strlit("kp_add");
        assert("kp_add"@.len() == 6);
        reveal_strlit("pageup");
        assert("kp_add"@[0] == 'k' && "pageup"@[0] == 'p');
        reveal_strlit("page_up");
        assert("page_up"@.len() == 7);
        reveal_strlit("pagedown");
        assert("pagedown"@.len() == 8);
        reveal_strlit("page_down");
        assert("page_down"@.len() == 9);
        reveal_strlit("kp_pageup");
        assert("kp_pageup"@.len() == 9);
        reveal_strlit("kp_page_up");
        assert("kp_page_up"@.len() == 10);
        reveal_strlit("kp_pagedown");
        assert("kp_pagedown"@.len() == 11);
        reveal_strlit("kp_page_down");
        assert("kp_page_down"@.len() == 12);
        reveal_strlit("home");
        assert("home"@.len() == 4);
        reveal_strlit("end");
        assert("end"@.len() == 3);
        reveal_strlit("up");
        assert("up"@.len() == 2);
        reveal_strlit("down");
        assert("down"@.len() == 4);
        reveal_strlit("left");
        assert("left"@.len() == 4);
        reveal_strlit("right");
        assert("right"@.len() == 5);
        reveal_strlit("insert");
        assert("kp_add"@[0] == 'k' && "insert"@[0] == 'i');
        reveal_strlit("+");
        assert("+"@.len() == 1);
        reveal_strlit("plus");
        assert("plus"@.len() == 4);
    }
    assert(fixed_symbol("="@) == Some(KEY_EQUAL)) by {
        reveal_strlit("=");
        assert("="@.len() == 1);
        reveal_strlit("pageup");
        assert("pageup"@.len() == 6);
        reveal_strlit("page_up");
        assert("page_up"@.len() == 7);
        reveal_strlit("pagedown");
        assert("pagedown"@.len() == 8);
        reveal_strlit("page_down");
        assert("page_down"@.len() == 9);
        reveal_strlit("kp_pageup");
        assert("kp_pageup"@.len() == 9);
        reveal_strlit("kp_page_up");
        assert("kp_page_up"@.len() == 10);
        reveal_strlit("kp_pagedown");
        assert("kp_pagedown"@.len() == 11);
        reveal_strlit("kp_page_down");
        assert("kp_page_down"@.len() == 12);
        reveal_strlit("home");
        assert("home"@.len() == 4);
        reveal_strlit("end");
        assert("end"@.len() == 3);
        reveal_strlit("up");
        assert("up"@.len() == 2);
        reveal_strlit("down");
        assert("down"@.len() == 4);
        reveal_strlit("left");
        assert("left"@.len() == 4);
        reveal_strlit("right");
        assert("right"@.len() == 5);
        reveal_strlit("insert");
        assert("insert"@.len() == 6);
        reveal_strlit("+");
        assert("="@[0] == '=' && "+"@[0] == '+');
        reveal_strlit("plus");
        assert("plus"@.len() == 4);
        reveal_strlit("kp_add");
        assert("kp_add"@.len() == 6);
    }
    assert(fixed_symbol("equal"@) == Some(KEY_EQUAL)) by {
        reveal_strlit("equal");
        assert("equal"@.len() == 5);
        reveal_strlit("pageup");
        assert("pageup"@.len() == 6);
        reveal_strlit("page_up");
        assert("page_up"@.len() == 7);
        reveal_strlit("pagedown");
        assert("pagedown"@.len() == 8);
        reveal_strlit("page_down");
        assert("page_down"@.len() == 9);
        reveal_strlit("kp_pageup");
        assert("kp_pageup"@.len() == 9);
        reveal_strlit("kp_page_up");
        assert("kp_page_up"@.len() == 10);
        reveal_strlit("kp_pagedown");
        assert("kp_pagedown"@.len() == 11);
        reveal_strlit("kp_page_down");
        assert("kp_page_down"@.len() == 12);
        reveal_strlit("home");
        assert("home"@.len() == 4);
        reveal_strlit("end");
        assert("end"@.len() == 3);
        reveal_strlit("up");
        assert("up"@.len() == 2);
        reveal_strlit("down");
        assert("down"@.len() == 4);
        reveal_strlit("left");
        assert("left"@.len() == 4);
        reveal_strlit("right");
        assert("equal"@[0] == 'e' && "right"@[0] == 'r');
        reveal_strlit("insert");
        assert("insert"@.len() == 6);
        reveal_strlit("+");
        assert("+"@.len() == 1);
        reveal_strlit("plus");
        assert("plus"@.len() == 4);
        reveal_strlit("kp_add");
        assert("kp_add"@.len() == 6);
        reveal_strlit("=");
        assert("="@.len() == 1);
    }
    assert(fixed_symbol("-"@) == Some(KEY_MINUS)) by {
        reveal_strlit("-");
        assert("-"@.len() == 1);
        reveal_strlit("pageup");
        assert("pageup"@.len() == 6);
        reveal_strlit("page_up");
        assert("page_up"@.len() == 7);
        reveal_strlit("pagedown");
        assert("pagedown"@.len() == 8);
        reveal_strlit("page_down");
        assert("page_down"@.len() == 9);
        reveal_strlit("kp_pageup");
        assert("kp_pageup"@.len() == 9);
        reveal_strlit("kp_page_up");
        assert("kp_page_up"@.len() == 10);
        reveal_strlit("kp_pagedown");
        assert("kp_pagedown"@.len() == 11);
        reveal_strlit("kp_page_down");
        assert("kp_page_down"@.len() == 12);
        reveal_strlit("home");
        assert("home"@.len() == 4);
        reveal_strlit("end");
        assert("end"@.len() == 3);
        reveal_strlit("up");
        assert("up"@.len() == 2);
        reveal_strlit("down");
        assert("down"@.len() == 4);
        reveal_strlit("left");
        assert("left"@.len() == 4);
        reveal_strlit("right");
        assert("right"@.len() == 5);
        reveal_strlit("insert");
        assert("insert"@.len() == 6);
        reveal_strlit("+");
        assert("-"@[0] == '-' && "+"@[0] == '+');
        reveal_strlit("plus");
        assert("plus"@.len() == 4);
        reveal_strlit("kp_add");
        assert("kp_add"@.len() == 6);
        reveal_strlit("=");
        assert("-"@[0] == '-' && "="@[0] == '=');
        reveal_strlit("equal");
        assert("equal"@.len() == 5);
    }
    assert(fixed_symbol("minus"@) == Some(KEY_MINUS)) by {
        reveal_strlit("minus");
        assert("minus"@.len() == 5);
        reveal_strlit("pageup");
        assert("pageup"@.len() == 6);
        reveal_strlit("page_up");
        assert("page_up"@.len() == 7);
        reveal_strlit("pagedown");
        assert("pagedown"@.len() == 8);
        reveal_strlit("page_down");
        assert("page_down"@.len() == 9);
        reveal_strlit("kp_pageup");
        assert("kp_pageup"@.len() == 9);
        reveal_strlit("kp_page_up");
        assert("kp_page_up"@.len() == 10);
        reveal_strlit("kp_pagedown");
        assert("kp_pagedown"@.len() == 11);
        reveal_strlit("kp_page_down");
        assert("kp_page_down"@.len() == 12);
        reveal_strlit("home");
        assert("home"@.len() == 4);
        reveal_strlit("end");
        assert("end"@.len() == 3);
        reveal_strlit("up");
        assert("up"@.len() == 2);
        reveal_strlit("down");
        assert("down"@.len() == 4);
        reveal_strlit("left");
        assert("left"@.len() == 4);
        reveal_strlit("right");
        assert("minus"@[0] == 'm' && "right"@[0] == 'r');
        reveal_strlit("insert");
        assert("insert"@.len() == 6);
        reveal_strlit("+");
        assert("+"@.len() == 1);
        reveal_strlit("plus");
        assert("plus"@.len() == 4);
        reveal_strlit("kp_add");
        assert("kp_add"@.len() == 6);
        reveal_strlit("=");
        assert("="@.len() == 1);
        reveal_strlit("equal");
        assert("minus"@[0] == 'm' && "equal"@[0] == 'e');
        reveal_strlit("-");
        assert("-"@.len() == 1);
    }
    assert(fixed_symbol("kp_subtract"@) == Some(KEY_MINUS)) by {
        reveal_strlit("kp_subtract");
        assert("kp_subtract"@.len() == 11);
        reveal_strlit("pageup");
        assert("pageup"@.len() == 6);
        reveal_strlit("page_up");
        assert("page_up"@.len() == 7);
        reveal_strlit("pagedown");
        assert("pagedown"@.len() == 8);
        reveal_strlit("page_down");
        assert("page_down"@.len() == 9);
        reveal_strlit("kp_pageup");
        assert("kp_pageup"@.len() == 9);
        reveal_strlit("kp_page_up");
        assert("kp_page_up"@.len() == 10);
        reveal_strlit("kp_pagedown");
        assert("kp_subtract"@[3] == 's' && "kp_pagedown"@[3] == 'p');
        reveal_strlit("kp_page_down");
        assert("kp_page_down"@.len() == 12);
        reveal_strlit("home");
        assert("home"@.len() == 4);
        reveal_strlit("end");
        assert("end"@.len() == 3);
        reveal_strlit("up");
        assert("up"@.len() == 2);
        reveal_strlit("down");
        assert("down"@.len() == 4);
        reveal_strlit("left");
        assert("left"@.len() == 4);
        reveal_strlit("right");
        assert("right"@.len() == 5);
        reveal_strlit("insert");
        assert("insert"@.len() == 6);
        reveal_strlit("+");
        assert("+"@.len() == 1);
        reveal_strlit("plus");
        assert("plus"@.len() == 4);
        reveal_strlit("kp_add");
        assert("kp_add"@.len() == 6);
        reveal_strlit("=");
        assert("="@.len() == 1);
        reveal_strlit("equal");
        assert("equal"@.len() == 5);
        reveal_strlit("-");
        assert("-"@.len() == 1);
        reveal_strlit("minus");
        assert("minus"@.len() == 5);
    }
    assert(fixed_symbol("0"@) == Some(KEY_0)) by {
        reveal_strlit("0");
        assert("0"@.len() == 1);
        reveal_strlit("pageup");
        assert("pageup"@.len() == 6);
        reveal_strlit("page_up");
        assert("page_up"@.len() == 7);
        reveal_strlit("pagedown");
        assert("pagedown"@.len() == 8);
        reveal_strlit("page_down");
        assert("page_down"@.len() == 9);
        reveal_strlit("kp_pageup");
        assert("kp_pageup"@.len() == 9);
        reveal_strlit("kp_page_up");
        assert("kp_page_up"@.len() == 10);
        reveal_strlit("kp_pagedown");
        assert("kp_pagedown"@.len() == 11);
        reveal_strlit("kp_page_down");
        assert("kp_page_down"@.len() == 12);
        reveal_strlit("home");
        assert("home"@.len() == 4);
        reveal_strlit("end");
        assert("end"@.len() == 3);
        reveal_strlit("up");
        assert("up"@.len() == 2);
        reveal_strlit("down");
        assert("down"@.len() == 4);
        reveal_strlit("left");
        assert("left"@.len() == 4);
        reveal_strlit("right");
        assert("right"@.len() == 5);
        reveal_strlit("insert");
        assert("insert"@.len() == 6);
        reveal_strlit("+");
        assert("0"@[0] == '0' && "+"@[0] == '+');
        reveal_strlit("plus");
        assert("plus"@.len() == 4);
        reveal_strlit("kp_add");
        assert("kp_add"@.len() == 6);
        reveal_strlit("=");
        assert("0"@[0] == '0' && "="@[0] == '=');
        reveal_strlit("equal");
        assert("equal"@.len() == 5);
        reveal_strlit("-");
        assert("0"@[0] == '0' && "-"@[0] == '-');
        reveal_strlit("minus");
        assert("minus"@.len() == 5);
        reveal_strlit("kp_subtract");
        assert("kp_subtract"@.len() == 11);
    }
    assert(fixed_symbol("kp_0"@) == Some(KEY_0)) by {
        reveal_strlit("kp_0");
        assert("kp_0"@.len() == 4);
        reveal_strlit("pageup");
        assert("pageup"@.len() == 6);
        reveal_strlit("page_up");
        assert("page_up"@.len() == 7);
        reveal_strlit("pagedown");
        assert("pagedown"@.len() == 8);
        reveal_strlit("page_down");
        assert("page_down"@.len() == 9);
        reveal_strlit("kp_pageup");
        assert("kp_pageup"@.len() == 9);
        reveal_strlit("kp_page_up");
        assert("kp_page_up"@.len() == 10);
        reveal_strlit("kp_pagedown");
        assert("kp_pagedown"@.len() == 11);
        reveal_strlit("kp_page_down");
        assert("kp_page_down"@.len() == 12);
        reveal_strlit("home");
        assert("kp_0"@[0] == 'k' && "home"@[0] == 'h');
        reveal_strlit("end");
        assert("end"@.len() == 3);
        reveal_strlit("up");
        assert("up"@.len() == 2);
        reveal_strlit("down");
        assert("kp_0"@[0] == 'k' && "down"@[0] == 'd');
        reveal_strlit("left");
        assert("kp_0"@[0] == 'k' && "left"@[0] == 'l');
        reveal_strlit("right");
        assert("right"@.len() == 5);
        reveal_strlit("insert");
        assert("insert"@.len() == 6);
        reveal_strlit("+");
        assert("+"@.len() == 1);
        reveal_strlit("plus");
        assert("kp_0"@[0] == 'k' && "plus"@[0] == 'p');
        reveal_strlit("kp_add");
        assert("kp_add"@.len() == 6);
        reveal_strlit("=");
        assert("="@.len() == 1);
        reveal_strlit("equal");
        assert("equal"@.len() == 5);
        reveal_strlit("-");
        assert("-"@.len() == 1);
        reveal_strlit("minus");
        assert("minus"@.len() == 5);
        reveal_strlit("kp_subtract");
        assert("kp_subtract"@.len() == 11);
        reveal_strlit("0");
        assert("0"@.len() == 1);
    }
}

/// The name of a modifier stands for that modifier and leaves the others as they are; a text that is
/// no such name stands for none.
pub proof fn law_names_of_modifiers(mods: Modifiers, name: Seq<char>)
    ensures
        with_modifier(mods, "ctrl"@) == Some(Modifiers { ctrl: true, ..mods }),
        with_modifier(mods, "control"@) == Some(Modifiers { ctrl: true, ..mods }),
        with_modifier(mods, "alt"@) == Some(Modifiers { alt: true, ..mods }),
        with_modifier(mods, "mod1"@) == Some(Modifiers { alt: true, ..mods }),
        with_modifier(mods, "shift"@) == Some(Modifiers { shift: true, ..mods }),
        with_modifier(mods, "super"@) == Some(Modifiers { logo: true, ..mods }),
        with_modifier(mods, "mod4"@) == Some(Modifiers { logo: true, ..mods }),
        with_modifier(mods, "logo"@) == Some(Modifiers { logo: true, ..mods }),
        !seq![
            "ctrl"@,
            "control"@,
            "alt"@,
            "mod1"@,
            "shift"@,
            "super"@,
            "mod4"@,
            "logo"@,
        ].contains(name) ==> with_modifier(mods, name) is None,
{
    assert(with_modifier(mods, "ctrl"@) == Some(Modifiers { ctrl: true, ..mods })) by {
        reveal_strlit("ctrl");
        assert("ctrl"@.len() == 4);
    }
    assert(with_modifier(mods, "control"@) == Some(Modifiers { ctrl: true, ..mods })) by {
        reveal_strlit("control");
        assert("control"@.len() == 7);
        reveal_strlit("ctrl");
        assert("ctrl"@.len() == 4);
    }
    assert(with_modifier(mods, "alt"@) == Some(Modifiers { alt: true, ..mods })) by {
        reveal_strlit("alt");
        assert("alt"@.len() == 3);
        reveal_strlit("ctrl");
        assert("ctrl"@.len() == 4);
        reveal_strlit("control");
        assert("control"@.len() == 7);
    }
    assert(with_modifier(mods, "mod1"@) == Some(Modifiers { alt: true, ..mods })) by {
        reveal_strlit("mod1");
        assert("mod1"@.len() == 4);
        reveal_strlit("ctrl");
        assert("mod1"@[0] == 'm' && "ctrl"@[0] == 'c');
        reveal_strlit("control");
        assert("control"@.len() == 7);
        reveal_strlit("alt");
        assert("alt"@.len() == 3);
    }
    assert(with_modifier(mods, "shift"@) == Some(Modifiers { shift: true, ..mods })) by {
        reveal_strlit("shift");
        assert("shift"@.len() == 5);
        reveal_strlit("ctrl");
        assert("ctrl"@.len() == 4);
        reveal_strlit("control");
        assert("control"@.len() == 7);
        reveal_strlit("alt");
        assert("alt"@.len() == 3);
        reveal_strlit("mod1");
        assert("mod1"@.len() == 4);
    }
    assert(with_modifier(mods, "super"@) == Some(Modifiers { logo: true, ..mods })) by {
        reveal_strlit("super");
        assert("super"@.len() == 5);
        reveal_strlit("ctrl");
        assert("ctrl"@.len() == 4);
        reveal_strlit("control");
        assert("control"@.len() == 7);
        reveal_strlit("alt");
        assert("alt"@.len() == 3);
        reveal_strlit("mod1");
        assert("mod1"@.len() == 4);
        reveal_strlit("shift");
        assert("super"@[1] == 'u' && "shift"@[1] == 'h');
    }
    assert(with_modifier(mods, "mod4"@) == Some(Modifiers { logo: true, ..mods })) by {
        reveal_strlit("mod4");
        assert("mod4"@.len() == 4);
        reveal_strlit("ctrl");
        assert("mod4"@[0] == 'm' && "ctrl"@[0] == 'c');
        reveal_strlit("control");
        assert("control"@.len() == 7);
        reveal_strlit("alt");
        assert("alt"@.len() == 3);
        reveal_strlit("mod1");
        assert("mod4"@[3] == '4' && "mod1"@[3] == '1');
        reveal_strlit("shift");
        assert("shift"@.len() == 5);
        reveal_strlit("super");
        assert("super"@.len() == 5);
    }
    assert(with_modifier(mods, "logo"@) == Some(Modifiers { logo: true, ..mods })) by {
        reveal_strlit("logo");
        assert("logo"@.len() == 4);
        reveal_strlit("ctrl");
        assert("logo"@[0] == 'l' && "ctrl"@[0] == 'c');
        reveal_strlit("control");
        assert("control"@.len() == 7);
        reveal_strlit("alt");
        assert("alt"@.len() == 3);
        reveal_strlit("mod1");
        assert("logo"@[0] == 'l' && "mod1"@[0] == 'm');
        reveal_strlit("shift");
        assert("shift"@.len() == 5);
        reveal_strlit("super");
        assert("super"@.len() == 5);
        reveal_strlit("mod4");
        assert("logo"@[0] == 'l' && "mod4"@[0] == 'm');
    }
    let all = seq![
        "ctrl"@,
        "control"@,
        "alt"@,
        "mod1"@,
        "shift"@,
        "super"@,
        "mod4"@,
        "logo"@,
    ];
    assert(all[0] == "ctrl"@ && all[1] == "control"@ && all[2] == "alt"@ && all[3] == "mod1"@);
    assert(all[4] == "shift"@ && all[5] == "super"@ && all[6] == "mod4"@ && all[7] == "logo"@);
}

proof fn lemma_last_place(s: Seq<char>, rest: Seq<char>, c: char)
    requires
        !rest.contains(c),
    ensures
        last_place(s.push(c) + rest, c) == s.len(),
        last_place(rest, c) == -1,
    decreases rest.len(),
{
    let all = s.push(c) + rest;
    if rest.len() == 0 {
        assert(all =~= s.push(c));
    } else {
        let t = rest.drop_last();
        assert(rest[rest.len() - 1] != c);
        assert(!t.contains(c)) by {
            if t.contains(c) {
                let k = choose|k: int| 0 <= k < t.len() && t[k] == c;
                assert(rest[k] == c);
            }
        }
        lemma_last_place(s, t, c);
        assert(all.drop_last() =~= s.push(c) + t);
    }
}

/// Whether a text neither starts nor ends with white space and is not empty.
pub open spec fn is_bare(s: Seq<char>) -> bool {
    s.len() > 0 && !text::white_space(s[0]) && !text::white_space(s.last())
}

/// Whether a text is the word for no key at all, in any case.
pub open spec fn says_none(s: Seq<char>) -> bool {
    text::lowered(s) == "none"@
}

/// A combination is the names of its modifiers and the name of its key, with a plus sign between
/// each two; it is none at all where one of the modifiers is unknown.
pub proof fn law_combinations_name_modifiers_and_a_key(names: Seq<char>, key: Seq<char>)
    requires
        is_bare(names),
        is_bare(key),
        !key.contains('+'),
    ensures
        combo_of(names.push('+') + key) == (match modifiers_of(text::split(names, '+')) {
            Some(mods) => Some((mods, key_of(key))),
            None => None,
        }),
{
    let s = names.push('+') + key;
    let n = s.len() as int;
    assert(s[0] == names[0] && s.last() == key.last());
    law_trimming_keeps_plain_text(s);
    lemma_last_place(names, key, '+');
    assert(key[key.len() - 1] != '+');
    assert(s.take(names.len() as int) =~= names);
    assert(s.skip(names.len() as int + 1) =~= key);
    assert(!says_none(s)) by {
        reveal_strlit("none");
        if says_none(s) {
            assert("none"@.len() == 4);
            assert(forall|i: int| 0 <= i < 4 ==> #[trigger] "none"@[i] != '+') by {
                assert("none"@[0] == 'n' && "none"@[1] == 'o');
                assert("none"@[2] == 'n' && "none"@[3] == 'e');
            }
            assert(text::lowered(s)[names.len() as int] == '+');
        }
    }
}

/// A key alone is a combination without modifiers; an empty text and the word for no key are none.
pub proof fn law_keys_alone_are_combinations(key: Seq<char>)
    requires
        is_bare(key),
        !key.contains('+'),
    ensures
        says_none(key) ==> combo_of(key) is None,
        !says_none(key) ==> combo_of(key) == Some((nothing_held(), key_of(key))),
        combo_of(Seq::empty()) is None,
{
    law_trimming_keeps_plain_text(key);
    law_trimming_keeps_plain_text(Seq::empty());
    lemma_last_place(Seq::empty(), key, '+');
    let n = key.len() as int;
    assert(key[n - 1] != '+');
}

/// The plus sign is the key of a combination that ends with two of them.
pub proof fn law_the_plus_sign_is_a_key(names: Seq<char>)
    requires
        is_bare(names),
    ensures
        combo_of(names.push('+').push('+')) == (match modifiers_of(text::split(names, '+')) {
            Some(mods) => Some((mods, KeyModel::Symbol(KEY_PLUS))),
            None => None,
        }),
{
    let s = names.push('+').push('+');
    let n = s.len() as int;
    assert(s[0] == names[0] && s.last() == '+');
    law_trimming_keeps_plain_text(s);
    assert(s.take(n - 2) =~= names);
    assert(!says_none(s)) by {
        reveal_strlit("none");
        if says_none(s) {
            assert("none"@.len() == 4 && "none"@[3] == 'e');
            assert(text::lowered(s)[n - 1] == '+');
        }
    }
    law_trimming_keeps_plain_text(seq!['+']);
    reveal_strlit("+");
    assert(text::lowered(seq!['+']) =~= "+"@);
    law_names_of_keys();
}

/// The modifiers of a combination are those of its names, whatever the case and the white space
/// around them, and none where there is no name; an unknown name makes it none at all.
pub proof fn law_modifiers_add_up(names: Seq<Seq<char>>, name: Seq<char>)
    ensures
        modifiers_of(Seq::empty()) == Some(nothing_held()),
        match modifiers_of(names) {
            Some(mods) => modifiers_of(names.push(name)) == with_modifier(
                mods,
                text::lowered(text::trimmed(name)),
            ),
            None => modifiers_of(names.push(name)) is None,
        },
{
    assert(names.push(name).drop_last() =~= names);
}

/// A key with a name of its own is that symbol; of the others, one character of ASCII is that
/// character in lower case, and any longer name is kept for the keyboard layout.
pub proof fn law_keys_of_combinations(s: Seq<char>)
    ensures
        ({
            let name = text::lowered(text::trimmed(s));
            match fixed_symbol(name) {
                Some(sym) => key_of(s) == KeyModel::Symbol(sym),
                None => {
                    &&& name.len() == 1 && name[0] as u32 <= 0x7f ==> key_of(s)
                        == KeyModel::Character(name[0])
                    &&& name.len() != 1 || name[0] as u32 > 0x7f ==> key_of(s) == KeyModel::Named(
                        name,
                    )
                },
            }
        }),
{
}

/// Two codes are the same letter, whatever its case.
pub open spec fn same_letter(a: u32, b: u32) -> bool {
    ||| a == b
    ||| 0x41 <= a <= 0x5a && b == a + 32
    ||| 0x41 <= b <= 0x5a && a == b + 32
}

/// A binding is triggered by its own key with its own modifiers held, by the same letter in the
/// other case, and by nothing else; only Shift may be held beyond what a binding of the plus sign
/// asks for.
pub proof fn law_bindings_are_triggered_by_their_keys(
    symbol: KeySymbol,
    mods: Modifiers,
    b: BindingModel,
)
    ensures
        symbol.sym == b.symbol.sym && mods == b.mods ==> triggers(symbol, mods, b),
        triggers(symbol, mods, b) ==> mods.ctrl == b.mods.ctrl && mods.alt == b.mods.alt
            && mods.logo == b.mods.logo,
        triggers(symbol, mods, b) && b.symbol.sym != '+' as u32 ==> mods == b.mods,
        triggers(symbol, mods, b) && b.mods.shift ==> mods.shift,
        b.symbol.sym == '+' as u32 && symbol.sym == b.symbol.sym && mods == (Modifiers {
            shift: true,
            ..b.mods
        }) ==> triggers(symbol, mods, b),
        triggers(symbol, mods, b) && symbol.sym != b.symbol.sym ==> symbol.code != 0
            && b.symbol.code != 0 && same_letter(symbol.code, b.symbol.code),
        mods == b.mods && 0 < symbol.code < 0xd800 && 0 < b.symbol.code < 0xd800 && same_letter(
            symbol.code,
            b.symbol.code,
        ) ==> triggers(symbol, mods, b),
{
}

/// The first binding that a key triggers tells the action, and where there is none, there is no
/// action.
pub proof fn law_the_first_binding_counts(
    symbol: KeySymbol,
    mods: Modifiers,
    bindings: Seq<BindingModel>,
)
    ensures
        match triggered(symbol, mods, bindings) {
            Some(action) => exists|i: int|
                {
                    &&& 0 <= i < bindings.len()
                    &&& (#[trigger] bindings[i]).action == action
                    &&& triggers(symbol, mods, bindings[i])
                    &&& forall|j: int| 0 <= j < i ==> !triggers(symbol, mods, #[trigger] bindings[j])
                },
            None => forall|j: int|
                0 <= j < bindings.len() ==> !triggers(symbol, mods, #[trigger] bindings[j]),
        },
    decreases bindings.len(),
{
    if bindings.len() > 0 {
        let rest = bindings.drop_first();
        if triggers(symbol, mods, bindings[0]) {
            assert(bindings[0].action == triggered(symbol, mods, bindings)->0);
        } else {
            law_the_first_binding_counts(symbol, mods, rest);
            match triggered(symbol, mods, rest) {
                Some(action) => {
                    let i = choose|i: int|
                        {
                            &&& 0 <= i < rest.len()
                            &&& (#[trigger] rest[i]).action == action
                            &&& triggers(symbol, mods, rest[i])
                            &&& forall|j: int|
                                0 <= j < i ==> !triggers(symbol, mods, #[trigger] rest[j])
                        };
                    assert(bindings[i + 1] == rest[i]);
                    assert forall|j: int| 0 <= j < i + 1 implies !triggers(
                        symbol,
                        mods,
                        #[trigger] bindings[j],
                    ) by {
                        if j > 0 {
                            assert(bindings[j] == rest[j - 1]);
                        }
                    }
                },
                None => {
                    assert forall|j: int| 0 <= j < bindings.len() implies !triggers(
                        symbol,
                        mods,
                        #[trigger] bindings[j],
                    ) by {
                        if j > 0 {
                            assert(bindings[j] == rest[j - 1]);
                        }
                    }
                },
            }
        }
    }
}

/// Of the enhancements that a program asks for, telling keys apart and reporting event types are
/// kept, and the others are dropped.
pub proof fn law_supported_enhancements(flags: u8)
    ensures
        supported(flags) & 1 == flags & 1,
        supported(flags) & 2 == flags & 2,
        supported(flags) & 0xfc == 0,
        supported(flags) < 4,
        KittyKeyboardFlags::DISAMBIGUATE == 1,
        KittyKeyboardFlags::REPORT_EVENT_TYPES == 2,
        KittyKeyboardFlags::REPORT_ALTERNATE_KEYS == 4,
        KittyKeyboardFlags::REPORT_ALL_KEYS_AS_ESC == 8,
        KittyKeyboardFlags::REPORT_ASSOCIATED_TEXT == 16,
        MAX_KITTY_STACK == 64,
{
    let kept = supported(flags);
    assert(kept == flags & 3 ==> kept & 1 == flags & 1 && kept & 2 == flags & 2 && kept & 0xfc == 0
        && kept < 4) by (bit_vector);
}

/// What is left of padded bytes does not end with a zero, and only zeros were taken from the end.
pub proof fn law_padding_is_zeros(bytes: Seq<u8>)
    ensures
        unpadded(bytes).len() <= bytes.len(),
        unpadded(bytes) == bytes.take(unpadded(bytes).len() as int),
        unpadded(bytes).len() > 0 ==> unpadded(bytes).last() != 0,
        forall|i: int| unpadded(bytes).len() <= i < bytes.len() ==> #[trigger] bytes[i] == 0,
    decreases bytes.len(),
{
    if bytes.len() > 0 && bytes.last() == 0 {
        let front = bytes.drop_last();
        law_padding_is_zeros(front);
        assert(front.take(unpadded(front).len() as int) =~= bytes.take(
            unpadded(front).len() as int,
        ));
        assert forall|i: int| unpadded(bytes).len() <= i < bytes.len() implies #[trigger] bytes[i]
            == 0 by {
            if i < bytes.len() - 1 {
                assert(front[i] == bytes[i]);
            }
        }
    } else {
        assert(bytes.take(bytes.len() as int) =~= bytes);
    }
}

} // verus!
