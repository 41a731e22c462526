//! The bytes that a key sends to the program in the terminal.

use crate::input::keysyms::{
    KEY_A, KEY_ASCIICIRCUM, KEY_AT, KEY_BACKSLASH, KEY_BACKSPACE, KEY_BRACKETLEFT,
    KEY_BRACKETRIGHT, KEY_DELETE, KEY_DOWN, KEY_END, KEY_ESCAPE, KEY_F1, KEY_F10, KEY_F11, KEY_F12,
    KEY_F13, KEY_F2, KEY_F3, KEY_F35, KEY_F4, KEY_F5, KEY_F6, KEY_F7, KEY_F8, KEY_F9, KEY_HOME,
    KEY_INSERT, KEY_ISO_LEFT_TAB, KEY_KP_ENTER, KEY_LEFT, KEY_PAGE_DOWN, KEY_PAGE_UP, KEY_RETURN,
    KEY_RIGHT, KEY_SPACE, KEY_TAB, KEY_UNDERSCORE, KEY_UP, KEY_UPPER_A, KEY_UPPER_Z, KEY_Z,
};
use crate::input::{KeyReading, KeyboardHandler, Modifiers};
use crate::kitty::command::{ascii_bytes, push_bytes, push_decimal};
use crate::text;
use vstd::prelude::*;
use vstd::utf8::encode_utf8;

verus! {

/// How a key is written in an escape sequence: by a final letter, by a number before a tilde, or
/// by its code point before a `u`.
#[derive(Debug, Clone, Copy, PartialEq, Eq, Structural)]
pub enum KeyForm {
    Letter(u8),
    Tilde(u32),
    Code(u32),
}

/// The form of keys with a final letter or a number of their own.
pub open spec fn functional_form(sym: u32) -> Option<KeyForm> {
    if sym == KEY_UP {
        Some(KeyForm::Letter(0x41))
    } else if sym == KEY_DOWN {
        Some(KeyForm::Letter(0x42))
    } else if sym == KEY_RIGHT {
        Some(KeyForm::Letter(0x43))
    } else if sym == KEY_LEFT {
        Some(KeyForm::Letter(0x44))
    } else if sym == KEY_HOME {
        Some(KeyForm::Letter(0x48))
    } else if sym == KEY_END {
        Some(KeyForm::Letter(0x46))
    } else if sym == KEY_INSERT {
        Some(KeyForm::Tilde(2))
    } else if sym == KEY_DELETE {
        Some(KeyForm::Tilde(3))
    } else if sym == KEY_PAGE_UP {
        Some(KeyForm::Tilde(5))
    } else if sym == KEY_PAGE_DOWN {
        Some(KeyForm::Tilde(6))
    } else if KEY_F1 <= sym <= KEY_F4 {
        Some(KeyForm::Letter((0x50 + (sym - KEY_F1)) as u8))
    } else if sym == KEY_F5 {
        Some(KeyForm::Tilde(15))
    } else if KEY_F6 <= sym <= KEY_F10 {
        Some(KeyForm::Tilde((17 + (sym - KEY_F6)) as u32))
    } else if KEY_F11 <= sym <= KEY_F12 {
        Some(KeyForm::Tilde((23 + (sym - KEY_F11)) as u32))
    } else {
        None
    }
}

/// The form of keys that are always worth telling apart.
pub open spec fn special_form(sym: u32) -> Option<KeyForm> {
    if sym == KEY_RETURN || sym == KEY_KP_ENTER {
        Some(KeyForm::Code(13))
    } else if sym == KEY_TAB || sym == KEY_ISO_LEFT_TAB {
        Some(KeyForm::Code(9))
    } else if sym == KEY_BACKSPACE {
        Some(KeyForm::Code(127))
    } else if sym == KEY_ESCAPE {
        Some(KeyForm::Code(27))
    } else if KEY_F13 <= sym <= KEY_F35 {
        Some(KeyForm::Code((57376 + (sym - KEY_F13)) as u32))
    } else {
        functional_form(sym)
    }
}

/// The form of a key that types text, or has at least a small symbol number.
pub open spec fn plain_form(sym: u32, typed: Seq<char>) -> Option<KeyForm> {
    if typed.len() > 0 {
        Some(KeyForm::Code(typed[0] as u32))
    } else if sym < 0x10000 {
        Some(KeyForm::Code(sym))
    } else {
        None
    }
}

/// Whether a code point belongs to a key that is always worth telling apart.
pub open spec fn special_code(code: u32) -> bool {
    code == 13 || code == 9 || code == 127 || code == 27 || 57358 <= code <= 57398
}

/// Whether a key is told apart from others by an escape sequence.
pub open spec fn is_special(sym: u32, form: KeyForm) -> bool {
    special_form(sym) is Some || match form {
        KeyForm::Code(code) => special_code(code),
        _ => true,
    }
}

/// The number that stands for modifiers in an escape sequence.
pub open spec fn modifier_value(mods: Modifiers) -> nat {
    (1 + (if mods.shift {
        1nat
    } else {
        0
    }) + (if mods.alt {
        2nat
    } else {
        0
    }) + (if mods.ctrl {
        4nat
    } else {
        0
    }) + (if mods.logo {
        8nat
    } else {
        0
    })) as nat
}

/// Whether the flags ask for an escape sequence.
pub open spec fn should_encode(flags: u8, mods: Modifiers, event: u8, special: bool) -> bool {
    let modified = mods.ctrl || mods.alt || mods.shift || mods.logo;
    ||| flags & 2 != 0 && event != 1
    ||| flags & 8 != 0
    ||| flags & 1 != 0 && (modified || special)
    ||| mods.ctrl || mods.alt || mods.logo
}

/// The bytes of a decimal number.
pub open spec fn digits(n: nat) -> Seq<u8> {
    ascii_bytes(text::decimal(n))
}

/// The escape sequence for a key in a given form: what comes before the modifiers, the modifiers
/// and the kind of event where they matter, and the end.
pub open spec fn sequence(flags: u8, form: KeyForm, mods: Modifiers, event: u8) -> Seq<u8> {
    let value = modifier_value(mods);
    let report = flags & 2 != 0 && event != 1;
    let number = match form {
        KeyForm::Letter(_) => digits(1),
        KeyForm::Tilde(n) => digits(n as nat),
        KeyForm::Code(n) => digits(n as nat),
    };
    let end = match form {
        KeyForm::Letter(b) => seq![b],
        KeyForm::Tilde(_) => seq![0x7eu8],
        KeyForm::Code(_) => seq![0x75u8],
    };
    let middle = if report {
        number + seq![0x3bu8] + digits(value) + seq![0x3au8] + digits(event as nat)
    } else if value == 1 {
        match form {
            KeyForm::Letter(_) => Seq::empty(),
            _ => number,
        }
    } else {
        number + seq![0x3bu8] + digits(value)
    };
    seq![0x1bu8, 0x5b] + middle + end
}

/// The escape sequence of the enhanced protocol, where one is owed.
pub open spec fn enhanced(flags: u8, sym: u32, typed: Seq<char>, mods: Modifiers, event: u8) -> Option<
    Seq<u8>,
> {
    let form = match special_form(sym) {
        Some(form) => Some(form),
        None => plain_form(sym, typed),
    };
    match form {
        Some(form) => if should_encode(flags, mods, event, is_special(sym, form)) {
            Some(sequence(flags, form, mods, event))
        } else {
            None
        },
        None => None,
    }
}

/// The bytes of keys that type no text.
pub open spec fn control_sequence(sym: u32, shift: bool) -> Option<Seq<u8>> {
    if sym == KEY_RETURN || sym == KEY_KP_ENTER {
        Some(seq![0x0du8])
    } else if sym == KEY_BACKSPACE {
        Some(seq![0x7fu8])
    } else if sym == KEY_TAB {
        if shift {
            Some(seq![0x1bu8, 0x5b, 0x5a])
        } else {
            Some(seq![0x09u8])
        }
    } else if sym == KEY_ISO_LEFT_TAB {
        Some(seq![0x1bu8, 0x5b, 0x5a])
    } else if sym == KEY_ESCAPE {
        Some(seq![0x1bu8])
    } else if KEY_F1 <= sym <= KEY_F4 {
        Some(seq![0x1bu8, 0x4f, (0x50 + (sym - KEY_F1)) as u8])
    } else {
        match functional_form(sym) {
            Some(KeyForm::Letter(b)) => Some(seq![0x1bu8, 0x5b, b]),
            Some(KeyForm::Tilde(n)) => Some(seq![0x1bu8, 0x5b] + digits(n as nat) + seq![0x7eu8]),
            _ => None,
        }
    }
}

/// The control character that a letter or sign gives together with Control, and whether Alt puts
/// an escape before it.
pub open spec fn control_char(sym: u32) -> Option<(u8, bool)> {
    if KEY_A <= sym <= KEY_Z {
        Some(((sym - KEY_A + 1) as u8, true))
    } else if KEY_UPPER_A <= sym <= KEY_UPPER_Z {
        Some(((sym - KEY_UPPER_A + 1) as u8, true))
    } else if sym == KEY_SPACE || sym == KEY_AT {
        Some((0x00, false))
    } else if sym == KEY_BRACKETLEFT {
        Some((0x1b, false))
    } else if sym == KEY_BACKSLASH {
        Some((0x1c, false))
    } else if sym == KEY_BRACKETRIGHT {
        Some((0x1d, false))
    } else if sym == KEY_ASCIICIRCUM {
        Some((0x1e, false))
    } else if sym == KEY_UNDERSCORE {
        Some((0x1f, false))
    } else {
        None
    }
}

/// Bytes after an escape where Alt is held.
pub open spec fn with_alt(alt: bool, bytes: Seq<u8>) -> Seq<u8> {
    if alt {
        seq![0x1bu8] + bytes
    } else {
        bytes
    }
}

/// The bytes that a key sends without any enhancement.
pub open spec fn plain(sym: u32, typed: Seq<char>, mods: Modifiers) -> Option<Seq<u8>> {
    match control_sequence(sym, mods.shift) {
        Some(bytes) => Some(with_alt(mods.alt, bytes)),
        None => match control_char(sym) {
            Some((b, alt)) if mods.ctrl => Some(with_alt(mods.alt && alt, seq![b])),
            _ => if typed.len() == 0 {
                None
            } else {
                Some(with_alt(mods.alt, encode_utf8(typed)))
            },
        },
    }
}

/// The kind of an event: press, repeat or release.
pub open spec fn event_kind(pressed: bool, is_repeat: bool) -> u8 {
    if !pressed {
        3
    } else if is_repeat {
        2
    } else {
        1
    }
}

/// The bytes that a key event sends.
pub open spec fn key_event(flags: u8, key: KeyReading, pressed: bool, is_repeat: bool) -> Option<
    Seq<u8>,
> {
    let sym = key.symbol.sym;
    let kind = event_kind(pressed, is_repeat);
    if !pressed && flags & 2 == 0 {
        None
    } else if flags > 0 && enhanced(flags, sym, key.text@, key.mods, kind) is Some {
        enhanced(flags, sym, key.text@, key.mods, kind)
    } else if pressed {
        plain(sym, key.text@, key.mods)
    } else {
        None
    }
}

/// What optional bytes hold.
pub open spec fn bytes_model(b: Option<Vec<u8>>) -> Option<Seq<u8>> {
    match b {
        Some(b) => Some(b@),
        None => None,
    }
}

fn functional(sym: u32) -> (r: Option<KeyForm>)
    ensures
        r == functional_form(sym),
{
    if sym == KEY_UP {
        Some(KeyForm::Letter(0x41))
    } else if sym == KEY_DOWN {
        Some(KeyForm::Letter(0x42))
    } else if sym == KEY_RIGHT {
        Some(KeyForm::Letter(0x43))
    } else if sym == KEY_LEFT {
        Some(KeyForm::Letter(0x44))
    } else if sym == KEY_HOME {
        Some(KeyForm::Letter(0x48))
    } else if sym == KEY_END {
        Some(KeyForm::Letter(0x46))
    } else if sym == KEY_INSERT {
        Some(KeyForm::Tilde(2))
    } else if sym == KEY_DELETE {
        Some(KeyForm::Tilde(3))
    } else if sym == KEY_PAGE_UP {
        Some(KeyForm::Tilde(5))
    } else if sym == KEY_PAGE_DOWN {
        Some(KeyForm::Tilde(6))
    } else if sym == KEY_F1 {
        Some(KeyForm::Letter(0x50))
    } else if sym == KEY_F2 {
        Some(KeyForm::Letter(0x51))
    } else if sym == KEY_F3 {
        Some(KeyForm::Letter(0x52))
    } else if sym == KEY_F4 {
        Some(KeyForm::Letter(0x53))
    } else if sym == KEY_F5 {
        Some(KeyForm::Tilde(15))
    } else if sym == KEY_F6 {
        Some(KeyForm::Tilde(17))
    } else if sym == KEY_F7 {
        Some(KeyForm::Tilde(18))
    } else if sym == KEY_F8 {
        Some(KeyForm::Tilde(19))
    } else if sym == KEY_F9 {
        Some(KeyForm::Tilde(20))
    } else if sym == KEY_F10 {
        Some(KeyForm::Tilde(21))
    } else if sym == KEY_F11 {
        Some(KeyForm::Tilde(23))
    } else if sym == KEY_F12 {
        Some(KeyForm::Tilde(24))
    } else {
        None
    }
}

fn special(sym: u32) -> (r: Option<KeyForm>)
    ensures
        r == special_form(sym),
{
    if sym == KEY_RETURN || sym == KEY_KP_ENTER {
        Some(KeyForm::Code(13))
    } else if sym == KEY_TAB || sym == KEY_ISO_LEFT_TAB {
        Some(KeyForm::Code(9))
    } else if sym == KEY_BACKSPACE {
        Some(KeyForm::Code(127))
    } else if sym == KEY_ESCAPE {
        Some(KeyForm::Code(27))
    } else if KEY_F13 <= sym && sym <= KEY_F35 {
        Some(KeyForm::Code(57376 + (sym - KEY_F13)))
    } else {
        functional(sym)
    }
}

fn form_of(sym: u32, typed: &str) -> (r: Option<KeyForm>)
    ensures
        r == (match special_form(sym) {
            Some(form) => Some(form),
            None => plain_form(sym, typed@),
        }),
{
    if let Some(form) = special(sym) {
        return Some(form);
    }
    let chars: Vec<char> = text::chars_of(typed);
    if chars.len() > 0 {
        Some(KeyForm::Code(chars[0] as u32))
    } else if sym < 0x10000 {
        Some(KeyForm::Code(sym))
    } else {
        None
    }
}

fn modifier_number(mods: Modifiers) -> (r: u32)
    ensures
        r == modifier_value(mods),
{
    let mut value: u32 = 1;
    if mods.shift {
        value += 1;
    }
    if mods.alt {
        value += 2;
    }
    if mods.ctrl {
        value += 4;
    }
    if mods.logo {
        value += 8;
    }
    value
}

fn write_sequence(flags: u8, form: KeyForm, mods: Modifiers, event: u8) -> (r: Vec<u8>)
    ensures
        r@ == sequence(flags, form, mods, event),
{
    let value: u32 = modifier_number(mods);
    let report: bool = flags & 2 != 0 && event != 1;
    let number: u32 = match form {
        KeyForm::Letter(_) => 1,
        KeyForm::Tilde(n) => n,
        KeyForm::Code(n) => n,
    };
    let bare: bool = match form {
        KeyForm::Letter(_) => !report && value == 1,
        _ => false,
    };
    let end: u8 = match form {
        KeyForm::Letter(b) => b,
        KeyForm::Tilde(_) => 0x7e,
        KeyForm::Code(_) => 0x75,
    };
    let mut out: Vec<u8> = Vec::new();
    out.push(0x1b);
    out.push(0x5b);
    if !bare {
        push_decimal(&mut out, number);
        if report || value != 1 {
            out.push(0x3b);
            push_decimal(&mut out, value);
        }
        if report {
            out.push(0x3a);
            push_decimal(&mut out, event as u32);
        }
    }
    out.push(end);
    assert(out@ =~= sequence(flags, form, mods, event));
    out
}

/// Puts an escape before bytes where Alt is held.
fn after_alt(alt: bool, bytes: &[u8]) -> (r: Vec<u8>)
    ensures
        r@ == with_alt(alt, bytes@),
{
    let mut out: Vec<u8> = Vec::new();
    if alt {
        out.push(0x1b);
    }
    push_bytes(&mut out, bytes);
    assert(out@ =~= with_alt(alt, bytes@));
    out
}

fn control_bytes(sym: u32, shift: bool) -> (r: Option<Vec<u8>>)
    ensures
        bytes_model(r) == control_sequence(sym, shift),
{
    let mut out: Vec<u8> = Vec::new();
    if sym == KEY_RETURN || sym == KEY_KP_ENTER {
        out.push(0x0d);
    } else if sym == KEY_BACKSPACE {
        out.push(0x7f);
    } else if sym == KEY_TAB && !shift {
        out.push(0x09);
    } else if sym == KEY_TAB || sym == KEY_ISO_LEFT_TAB {
        out.push(0x1b);
        out.push(0x5b);
        out.push(0x5a);
    } else if sym == KEY_ESCAPE {
        out.push(0x1b);
    } else if KEY_F1 <= sym && sym <= KEY_F4 {
        out.push(0x1b);
        out.push(0x4f);
        out.push(0x50 + (sym - KEY_F1) as u8);
    } else {
        match functional(sym) {
            Some(KeyForm::Letter(b)) => {
                out.push(0x1b);
                out.push(0x5b);
                out.push(b);
            },
            Some(KeyForm::Tilde(n)) => {
                out.push(0x1b);
                out.push(0x5b);
                push_decimal(&mut out, n);
                out.push(0x7e);
            },
            _ => {
                return None;
            },
        }
    }
    assert(out@ =~= control_sequence(sym, shift)->0);
    Some(out)
}

fn control_byte(sym: u32) -> (r: Option<(u8, bool)>)
    ensures
        r == control_char(sym),
{
    if KEY_A <= sym && sym <= KEY_Z {
        Some(((sym - KEY_A + 1) as u8, true))
    } else if KEY_UPPER_A <= sym && sym <= KEY_UPPER_Z {
        Some(((sym - KEY_UPPER_A + 1) as u8, true))
    } else if sym == KEY_SPACE || sym == KEY_AT {
        Some((0x00, false))
    } else if sym == KEY_BRACKETLEFT {
        Some((0x1b, false))
    } else if sym == KEY_BACKSLASH {
        Some((0x1c, false))
    } else if sym == KEY_BRACKETRIGHT {
        Some((0x1d, false))
    } else if sym == KEY_ASCIICIRCUM {
        Some((0x1e, false))
    } else if sym == KEY_UNDERSCORE {
        Some((0x1f, false))
    } else {
        None
    }
}

impl KeyboardHandler {
    /// Translates key press/release events with Kitty keyboard protocol progressive enhancement.
    pub fn handle_key_event(
        &self,
        reading: Option<&KeyReading>,
        pressed: bool,
        is_repeat: bool,
    ) -> (r: Option<Vec<u8>>)
        ensures
            bytes_model(r) == (match reading {
                Some(key) => key_event(self.kitty_flags, *key, pressed, is_repeat),
                None => None,
            }),
    {
        let key: &KeyReading = match reading {
            Some(key) => key,
            None => {
                return None;
            },
        };
        let event: u8 = if !pressed {
            3
        } else if is_repeat {
            2
        } else {
            1
        };
        if !pressed && self.kitty_flags & 2 == 0 {
            return None;
        }
        if self.kitty_flags > 0 {
            if let Some(bytes) = self.encode_kitty_key(
                key.symbol.sym,
                key.text.as_str(),
                key.mods,
                event,
            ) {
                return Some(bytes);
            }
        }
        if pressed {
            self.handle_key(reading)
        } else {
            None
        }
    }

    /// The escape sequence of the enhanced protocol, where the flags ask for one.
    pub fn encode_kitty_key(&self, sym: u32, typed: &str, mods: Modifiers, event_type: u8) -> (r:
        Option<Vec<u8>>)
        ensures
            bytes_model(r) == enhanced(self.kitty_flags, sym, typed@, mods, event_type),
    {
        let flags: u8 = self.kitty_flags;
        let form: KeyForm = match form_of(sym, typed) {
            Some(form) => form,
            None => {
                return None;
            },
        };
        let known: bool = special(sym).is_some();
        let is_special: bool = known || match form {
            KeyForm::Code(code) => code == 13 || code == 9 || code == 127 || code == 27 || (57358
                <= code && code <= 57398),
            _ => true,
        };
        let modified: bool = mods.ctrl || mods.alt || mods.shift || mods.logo;
        let owed: bool = (flags & 2 != 0 && event_type != 1) || flags & 8 != 0 || (flags & 1 != 0
            && (modified || is_special)) || mods.ctrl || mods.alt || mods.logo;
        if owed {
            Some(write_sequence(flags, form, mods, event_type))
        } else {
            None
        }
    }

    /// Translates a key into the bytes it sends without any enhancement.
    pub fn handle_key(&self, reading: Option<&KeyReading>) -> (r: Option<Vec<u8>>)
        ensures
            bytes_model(r) == (match reading {
                Some(key) => plain(key.symbol.sym, key.text@, key.mods),
                None => None,
            }),
    {
        let key: &KeyReading = match reading {
            Some(key) => key,
            None => {
                return None;
            },
        };
        let sym: u32 = key.symbol.sym;
        if let Some(bytes) = control_bytes(sym, key.mods.shift) {
            return Some(after_alt(key.mods.alt, bytes.as_slice()));
        }
        if key.mods.ctrl {
            if let Some((b, alt)) = control_byte(sym) {
                let mut one: Vec<u8> = Vec::new();
                one.push(b);
                assert(one@ =~= seq![b]);
                return Some(after_alt(key.mods.alt && alt, one.as_slice()));
            }
        }
        let typed: &str = key.text.as_str();
        if text::chars_of(typed).len() == 0 {
            None
        } else {
            Some(after_alt(key.mods.alt, typed.as_bytes()))
        }
    }
}

/// Without enhancements a key event is a plain key press, and releases send nothing.
pub proof fn law_plain_without_flags(key: KeyReading, pressed: bool, is_repeat: bool)
    ensures
        key_event(0, key, pressed, is_repeat) == (if pressed {
            plain(key.symbol.sym, key.text@, key.mods)
        } else {
            None
        }),
{
    assert(0u8 & 2 == 0) by (bit_vector);
}

/// Releases are silent unless event types are reported.
pub proof fn law_release_needs_reporting(flags: u8, key: KeyReading, is_repeat: bool)
    requires
        flags & 2 == 0,
    ensures
        key_event(flags, key, false, is_repeat) is None,
{
}

} // verus!
