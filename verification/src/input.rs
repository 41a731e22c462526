//! Keyboard input: key combinations, the actions they trigger, and the bytes that keys send.
//!
//! What the keyboard layout makes of a physical key comes in as a [`KeyReading`].

pub mod combo;
pub mod encode;
pub mod keysyms;
pub mod laws;

use crate::text;
use vstd::prelude::*;
use vstd::utf8::{decode_utf8, valid_utf8};

pub use combo::{parse_key_combo, KeyRef};

verus! {

/// Keyboard modifiers state.
#[derive(Debug, Clone, Copy, PartialEq, Eq, Structural)]
pub struct Modifiers {
    pub ctrl: bool,
    pub alt: bool,
    pub shift: bool,
    pub logo: bool,
}

impl Default for Modifiers {
    fn default() -> (r: Self)
        ensures
            r == (Modifiers { ctrl: false, alt: false, shift: false, logo: false }),
    {
        Modifiers { ctrl: false, alt: false, shift: false, logo: false }
    }
}

/// A key symbol and the Unicode code point it stands for, or zero where it stands for none.
#[derive(Debug, Clone, Copy, PartialEq, Eq, Structural)]
pub struct KeySymbol {
    pub sym: u32,
    pub code: u32,
}

/// What the keyboard layout makes of a key: its symbol, the text it types and the modifiers that
/// are held.
#[derive(Debug, Clone)]
pub struct KeyReading {
    pub symbol: KeySymbol,
    pub text: String,
    pub mods: Modifiers,
}

/// Semantic actions triggered by key combinations.
#[derive(Debug, Clone, PartialEq, Eq, Hash)]
pub enum KeyAction {
    ScrollbackUpPage,
    ScrollbackDownPage,
    ScrollbackUpLine,
    ScrollbackDownLine,
    ScrollbackHome,
    ScrollbackEnd,
    PromptPrev,
    PromptNext,
    FontIncrease,
    FontDecrease,
    FontReset,
    ClipboardCopy,
    ClipboardPaste,
    PrimaryPaste,
    PipeVisible(Vec<String>),
    PipeScrollback(Vec<String>),
    PipeSelection(Vec<String>),
}

/// What an action holds.
#[verifier::ext_equal]
pub enum ActionModel {
    ScrollbackUpPage,
    ScrollbackDownPage,
    ScrollbackUpLine,
    ScrollbackDownLine,
    ScrollbackHome,
    ScrollbackEnd,
    PromptPrev,
    PromptNext,
    FontIncrease,
    FontDecrease,
    FontReset,
    ClipboardCopy,
    ClipboardPaste,
    PrimaryPaste,
    PipeVisible(Seq<Seq<char>>),
    PipeScrollback(Seq<Seq<char>>),
    PipeSelection(Seq<Seq<char>>),
}

impl View for KeyAction {
    type V = ActionModel;

    open spec fn view(&self) -> ActionModel {
        match *self {
            KeyAction::ScrollbackUpPage => ActionModel::ScrollbackUpPage,
            KeyAction::ScrollbackDownPage => ActionModel::ScrollbackDownPage,
            KeyAction::ScrollbackUpLine => ActionModel::ScrollbackUpLine,
            KeyAction::ScrollbackDownLine => ActionModel::ScrollbackDownLine,
            KeyAction::ScrollbackHome => ActionModel::ScrollbackHome,
            KeyAction::ScrollbackEnd => ActionModel::ScrollbackEnd,
            KeyAction::PromptPrev => ActionModel::PromptPrev,
            KeyAction::PromptNext => ActionModel::PromptNext,
            KeyAction::FontIncrease => ActionModel::FontIncrease,
            KeyAction::FontDecrease => ActionModel::FontDecrease,
            KeyAction::FontReset => ActionModel::FontReset,
            KeyAction::ClipboardCopy => ActionModel::ClipboardCopy,
            KeyAction::ClipboardPaste => ActionModel::ClipboardPaste,
            KeyAction::PrimaryPaste => ActionModel::PrimaryPaste,
            KeyAction::PipeVisible(cmd) => ActionModel::PipeVisible(text::texts(cmd@)),
            KeyAction::PipeScrollback(cmd) => ActionModel::PipeScrollback(text::texts(cmd@)),
            KeyAction::PipeSelection(cmd) => ActionModel::PipeSelection(text::texts(cmd@)),
        }
    }
}

/// What an optional action holds.
pub open spec fn action_model(a: Option<KeyAction>) -> Option<ActionModel> {
    match a {
        Some(a) => Some(a@),
        None => None,
    }
}

impl KeyAction {
    /// A copy of an action.
    pub fn duplicate(&self) -> (r: KeyAction)
        ensures
            r@ == self@,
    {
        match self {
            KeyAction::ScrollbackUpPage => KeyAction::ScrollbackUpPage,
            KeyAction::ScrollbackDownPage => KeyAction::ScrollbackDownPage,
            KeyAction::ScrollbackUpLine => KeyAction::ScrollbackUpLine,
            KeyAction::ScrollbackDownLine => KeyAction::ScrollbackDownLine,
            KeyAction::ScrollbackHome => KeyAction::ScrollbackHome,
            KeyAction::ScrollbackEnd => KeyAction::ScrollbackEnd,
            KeyAction::PromptPrev => KeyAction::PromptPrev,
            KeyAction::PromptNext => KeyAction::PromptNext,
            KeyAction::FontIncrease => KeyAction::FontIncrease,
            KeyAction::FontDecrease => KeyAction::FontDecrease,
            KeyAction::FontReset => KeyAction::FontReset,
            KeyAction::ClipboardCopy => KeyAction::ClipboardCopy,
            KeyAction::ClipboardPaste => KeyAction::ClipboardPaste,
            KeyAction::PrimaryPaste => KeyAction::PrimaryPaste,
            KeyAction::PipeVisible(cmd) => KeyAction::PipeVisible(text::copy_strings(cmd)),
            KeyAction::PipeScrollback(cmd) => KeyAction::PipeScrollback(text::copy_strings(cmd)),
            KeyAction::PipeSelection(cmd) => KeyAction::PipeSelection(text::copy_strings(cmd)),
        }
    }
}

/// A combination of modifiers and a key, and the action it triggers.
#[derive(Debug)]
pub struct Binding {
    pub mods: Modifiers,
    pub symbol: KeySymbol,
    pub action: KeyAction,
}

/// What a binding holds.
#[verifier::ext_equal]
pub struct BindingModel {
    pub mods: Modifiers,
    pub symbol: KeySymbol,
    pub action: ActionModel,
}

impl View for Binding {
    type V = BindingModel;

    open spec fn view(&self) -> BindingModel {
        BindingModel { mods: self.mods, symbol: self.symbol, action: self.action@ }
    }
}

/// What bindings hold.
pub open spec fn binding_models(v: Seq<Binding>) -> Seq<BindingModel> {
    v.map_values(|b: Binding| b@)
}

/// Whether a number is a Unicode scalar value.
pub open spec fn is_scalar_value(u: u32) -> bool {
    u < 0xd800 || 0xe000 <= u <= 0x10ffff
}

/// An ASCII letter's code point in lower case.
pub open spec fn lower_code(u: u32) -> u32 {
    if 0x41 <= u <= 0x5a {
        (u + 32) as u32
    } else {
        u
    }
}

/// Whether a pressed symbol is the target, letters compared without case.
pub open spec fn symbol_matches(pressed: KeySymbol, target: KeySymbol) -> bool {
    ||| pressed.sym == target.sym
    ||| {
        &&& pressed.code != 0
        &&& target.code != 0
        &&& is_scalar_value(pressed.code)
        &&& is_scalar_value(target.code)
        &&& lower_code(pressed.code) == lower_code(target.code)
    }
}

/// Whether a key press triggers a binding. Shift may be held without being asked for where it only
/// serves to type a plus.
pub open spec fn triggers(symbol: KeySymbol, mods: Modifiers, b: BindingModel) -> bool {
    &&& mods.ctrl == b.mods.ctrl
    &&& mods.alt == b.mods.alt
    &&& mods.logo == b.mods.logo
    &&& mods.shift == b.mods.shift || (mods.shift && b.symbol.sym == keysyms::KEY_PLUS)
    &&& symbol_matches(symbol, b.symbol)
}

/// The action of the first binding that a key press triggers.
pub open spec fn triggered(symbol: KeySymbol, mods: Modifiers, bindings: Seq<BindingModel>) -> Option<
    ActionModel,
>
    decreases bindings.len(),
{
    if bindings.len() == 0 {
        None
    } else if triggers(symbol, mods, bindings[0]) {
        Some(bindings[0].action)
    } else {
        triggered(symbol, mods, bindings.drop_first())
    }
}

fn lower_code_of(u: u32) -> (r: u32)
    ensures
        r == lower_code(u),
{
    if 0x41 <= u && u <= 0x5a {
        u + 32
    } else {
        u
    }
}

fn scalar_value(u: u32) -> (r: bool)
    ensures
        r == is_scalar_value(u),
{
    u < 0xd800 || (0xe000 <= u && u <= 0x10ffff)
}

/// Tells whether a pressed symbol is the target, letters compared without case.
pub fn sym_matches(pressed: KeySymbol, target: KeySymbol) -> (r: bool)
    ensures
        r == symbol_matches(pressed, target),
{
    pressed.sym == target.sym || (pressed.code != 0 && target.code != 0 && scalar_value(
        pressed.code,
    ) && scalar_value(target.code) && lower_code_of(pressed.code) == lower_code_of(target.code))
}

/// What the bytes of a keymap hold.
#[derive(Debug)]
pub enum KeymapText {
    /// Nothing but padding.
    Empty,
    /// The text of a keymap.
    Text(String),
    /// Bytes that are no text, with the error's message.
    Invalid(String),
}

/// Bytes without the zeros at their end.
pub open spec fn unpadded(bytes: Seq<u8>) -> Seq<u8>
    decreases bytes.len(),
{
    if bytes.len() > 0 && bytes.last() == 0 {
        unpadded(bytes.drop_last())
    } else {
        bytes
    }
}

/// Reads the text of a keymap, without the zeros that pad it.
pub fn keymap_text(bytes: Vec<u8>) -> (r: KeymapText)
    ensures
        match r {
            KeymapText::Empty => unpadded(bytes@).len() == 0,
            KeymapText::Text(s) => unpadded(bytes@).len() > 0 && valid_utf8(unpadded(bytes@))
                && s@ == decode_utf8(unpadded(bytes@)),
            KeymapText::Invalid(e) => unpadded(bytes@).len() > 0 && !valid_utf8(unpadded(bytes@))
                && e@ == text::utf8_error_text(unpadded(bytes@)),
        },
{
    let mut buf: Vec<u8> = bytes;
    while buf.len() > 0 && buf[buf.len() - 1] == 0
        invariant
            unpadded(buf@) == unpadded(bytes@),
        decreases buf@.len(),
    {
        let ghost before = buf@;
        buf.pop();
        assert(buf@ =~= before.drop_last());
    }
    if buf.len() == 0 {
        return KeymapText::Empty;
    }
    match text::decode_text(buf.as_slice()) {
        Ok(s) => KeymapText::Text(s.to_owned()),
        Err(e) => KeymapText::Invalid(e),
    }
}

/// Flags controlling the Kitty keyboard protocol progressive enhancement.
pub struct KittyKeyboardFlags;

impl KittyKeyboardFlags {
    pub const DISAMBIGUATE: u8 = 1;

    pub const REPORT_EVENT_TYPES: u8 = 2;

    pub const REPORT_ALTERNATE_KEYS: u8 = 4;

    pub const REPORT_ALL_KEYS_AS_ESC: u8 = 8;

    pub const REPORT_ASSOCIATED_TEXT: u8 = 16;
}

/// How deep the stack of keyboard modes may grow.
pub const MAX_KITTY_STACK: usize = 64;

/// Keeps the keyboard modes and produces VT escape sequences or UTF-8 byte streams.
#[derive(Debug)]
pub struct KeyboardHandler {
    pub kitty_flags: u8,
    pub kitty_stack: Vec<u8>,
}

/// The flags that can be switched on.
pub open spec fn supported(flags: u8) -> u8 {
    flags & 3
}

impl Default for KeyboardHandler {
    fn default() -> (r: Self)
        ensures
            r.kitty_flags == 0,
            r.kitty_stack@.len() == 0,
            r.wf(),
    {
        KeyboardHandler::new()
    }
}

impl KeyboardHandler {
    /// The stack stays within its bound.
    pub open spec fn wf(&self) -> bool {
        self.kitty_stack@.len() <= MAX_KITTY_STACK
    }

    /// A handler without any enhancement.
    pub fn new() -> (r: Self)
        ensures
            r.kitty_flags == 0,
            r.kitty_stack@.len() == 0,
            r.wf(),
    {
        KeyboardHandler { kitty_flags: 0, kitty_stack: Vec::new() }
    }

    /// Sets Kitty keyboard mode flags according to mode: 1 (replace), 2 (union), 3 (difference).
    pub fn set_kitty_mode(&mut self, flags: u8, mode: u8)
        ensures
            final(self).kitty_stack@ == old(self).kitty_stack@,
            final(self).kitty_flags == (match mode {
                1 => supported(flags),
                2 => old(self).kitty_flags | supported(flags),
                3 => old(self).kitty_flags & !supported(flags),
                _ => old(self).kitty_flags,
            }),
    {
        let masked: u8 = flags & 3;
        match mode {
            1 => {
                self.kitty_flags = masked;
            },
            2 => {
                self.kitty_flags = self.kitty_flags | masked;
            },
            3 => {
                self.kitty_flags = self.kitty_flags & !masked;
            },
            _ => {},
        }
    }

    /// Pushes current flags and sets new flags. The oldest flags fall off a full stack.
    pub fn push_kitty_flags(&mut self, flags: u8)
        requires
            old(self).wf(),
        ensures
            final(self).wf(),
            final(self).kitty_flags == supported(flags),
            final(self).kitty_stack@ == pushed_stack(old(self).kitty_stack@, old(self).kitty_flags),
    {
        if self.kitty_stack.len() >= MAX_KITTY_STACK {
            let _ = self.kitty_stack.remove(0);
            assert(self.kitty_stack@ =~= old(self).kitty_stack@.drop_first());
        }
        self.kitty_stack.push(self.kitty_flags);
        self.kitty_flags = flags & 3;
    }

    /// Pops `count` frames from the kitty keyboard stack, at least one. Popping past the bottom
    /// clears the flags.
    pub fn pop_kitty_flags(&mut self, count: usize)
        requires
            old(self).wf(),
        ensures
            final(self).wf(),
            ({
                let n: int = if count == 0 {
                    1
                } else {
                    count as int
                };
                let depth = old(self).kitty_stack@.len() as int;
                if n <= depth {
                    &&& final(self).kitty_flags == old(self).kitty_stack@[depth - n]
                    &&& final(self).kitty_stack@ == old(self).kitty_stack@.take(depth - n)
                } else {
                    &&& final(self).kitty_flags == 0
                    &&& final(self).kitty_stack@.len() == 0
                }
            }),
    {
        let n: usize = if count == 0 {
            1
        } else {
            count
        };
        let depth: usize = self.kitty_stack.len();
        if n <= depth {
            self.kitty_flags = self.kitty_stack[depth - n];
            self.kitty_stack.truncate(depth - n);
            assert(self.kitty_stack@ =~= old(self).kitty_stack@.take(depth - n));
        } else {
            self.kitty_flags = 0;
            self.kitty_stack.clear();
        }
    }

    /// Checks which action a key press triggers.
    pub fn check_action(&self, reading: Option<&KeyReading>, bindings: &Vec<Binding>) -> (r: Option<
        KeyAction,
    >)
        ensures
            action_model(r) == (match reading {
                Some(key) => triggered(key.symbol, key.mods, binding_models(bindings@)),
                None => None,
            }),
    {
        let key: &KeyReading = match reading {
            Some(key) => key,
            None => {
                return None;
            },
        };
        let ghost models = binding_models(bindings@);
        let mut i: usize = 0;
        assert(models.skip(0) =~= models);
        while i < bindings.len()
            invariant
                i <= bindings@.len(),
                reading == Some(key),
                models == binding_models(bindings@),
                triggered(key.symbol, key.mods, models) == triggered(
                    key.symbol,
                    key.mods,
                    models.skip(i as int),
                ),
            decreases bindings@.len() - i,
        {
            let b: &Binding = &bindings[i];
            assert(models.skip(i as int)[0] == b@);
            assert(models.skip(i as int).drop_first() =~= models.skip(i + 1));
            let mods: Modifiers = key.mods;
            if mods.ctrl == b.mods.ctrl && mods.alt == b.mods.alt && mods.logo == b.mods.logo && (
            mods.shift == b.mods.shift || (mods.shift && b.symbol.sym == keysyms::KEY_PLUS))
                && sym_matches(key.symbol, b.symbol) {
                return Some(b.action.duplicate());
            }
            i += 1;
        }
        None
    }
}

/// A stack with flags on top, of at most the greatest depth.
pub open spec fn pushed_stack(stack: Seq<u8>, flags: u8) -> Seq<u8> {
    if stack.len() >= MAX_KITTY_STACK {
        stack.drop_first().push(flags)
    } else {
        stack.push(flags)
    }
}

/// Popping what was pushed brings the flags back, and the stack too unless it was full, when the
/// oldest flags are gone.
pub proof fn law_pop_undoes_push(stack: Seq<u8>, flags: u8)
    requires
        stack.len() <= MAX_KITTY_STACK,
    ensures
        pushed_stack(stack, flags).last() == flags,
        pushed_stack(stack, flags).drop_last() == (if stack.len() == MAX_KITTY_STACK {
            stack.drop_first()
        } else {
            stack
        }),
{
    assert(stack.drop_first().push(flags).drop_last() =~= stack.drop_first());
    assert(stack.push(flags).drop_last() =~= stack);
}

} // verus!
