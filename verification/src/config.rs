//! Declarative configuration: its values, how several files are merged, and what is in force where
//! nothing is set.
//!
//! Fractional numbers are held as the bit patterns of single-precision values.

pub mod bindings;
pub mod laws;
pub mod paths;

use crate::color::palette::{default_256_palette, xterm_color};
use crate::color::Rgb;
use crate::collections::keys_of;
use crate::grid::CursorShape;
use crate::text;
use std::collections::HashMap;
use vstd::prelude::*;

pub use bindings::{ActionDef, CommandDef, KeyBinding, KeybindingsConfig, PipeActionDef};
pub use paths::{default_config_path, resolve_path, Include};

verus! {

broadcast use vstd::std_specs::hash::group_hash_axioms;

/// The font size in force where none is set: fourteen.
pub const DEFAULT_FONT_SIZE: u32 = 0x4160_0000;

/// The scroll multiplier in force where none is set: three.
pub const DEFAULT_SCROLL_MULTIPLIER: u32 = 0x4040_0000;

/// The least scroll multiplier: a tenth.
pub const MIN_SCROLL_MULTIPLIER: u32 = 0x3dcc_cccd;

/// The greatest scroll multiplier: a hundred.
pub const MAX_SCROLL_MULTIPLIER: u32 = 0x42c8_0000;

/// Font family configuration supporting a single family name or an ordered fallback chain.
#[derive(Debug, Clone, PartialEq, Eq)]
pub enum FontFamilies {
    Single(String),
    Multiple(Vec<String>),
}

impl FontFamilies {
    /// The names in order.
    pub open spec fn names(self) -> Seq<Seq<char>> {
        match self {
            FontFamilies::Single(name) => seq![name@],
            FontFamilies::Multiple(names) => text::texts(names@),
        }
    }

    pub fn to_vec(&self) -> (r: Vec<String>)
        ensures
            text::texts(r@) == self.names(),
    {
        match self {
            FontFamilies::Single(name) => {
                let mut out: Vec<String> = Vec::new();
                out.push(name.clone());
                assert(text::texts(out@) =~= seq![name@]);
                out
            },
            FontFamilies::Multiple(names) => text::copy_strings(names),
        }
    }
}

/// What hinting a glyph is loaded for.
#[derive(Debug, Clone, Copy, PartialEq, Eq, Structural)]
pub enum FreeTypeLoadTarget {
    Light,
    Normal,
    Mono,
    HorizontalLcd,
}

/// How a glyph's outline is turned into pixels.
#[derive(Debug, Clone, Copy, PartialEq, Eq, Structural)]
pub enum FreeTypeRenderTarget {
    Normal,
    Light,
    Mono,
    HorizontalLcd,
}

/// Whether hinting is applied.
#[derive(Debug, Clone, Copy, PartialEq, Eq, Structural)]
pub enum FreeTypeLoadFlags {
    Default,
    NoHinting,
}

/// A name without underscores and in lower case.
pub open spec fn plain_name(s: Seq<char>) -> Seq<char>
    decreases s.len(),
{
    if s.len() == 0 {
        Seq::empty()
    } else if s.last() == '_' {
        plain_name(s.drop_last())
    } else {
        plain_name(s.drop_last()).push(text::lower(s.last()))
    }
}

fn plain_name_of(s: &str) -> (r: Vec<char>)
    ensures
        r@ == plain_name(s@),
{
    let chars: Vec<char> = text::chars_of(s);
    let mut out: Vec<char> = Vec::new();
    let mut i: usize = 0;
    assert(chars@.take(0) =~= Seq::<char>::empty());
    while i < chars.len()
        invariant
            i <= chars@.len(),
            out@ == plain_name(chars@.take(i as int)),
        decreases chars@.len() - i,
    {
        assert(chars@.take(i + 1).drop_last() =~= chars@.take(i as int));
        assert(chars@.take(i + 1).last() == chars@[i as int]);
        if chars[i] != '_' {
            out.push(text::lower_char(chars[i]));
        }
        i += 1;
    }
    assert(chars@.take(chars@.len() as int) =~= chars@);
    out
}

impl FreeTypeLoadTarget {
    /// The target that a name stands for.
    pub open spec fn named(s: Seq<char>) -> Option<FreeTypeLoadTarget> {
        let name = plain_name(s);
        if name == "light"@ {
            Some(FreeTypeLoadTarget::Light)
        } else if name == "normal"@ {
            Some(FreeTypeLoadTarget::Normal)
        } else if name == "mono"@ {
            Some(FreeTypeLoadTarget::Mono)
        } else if name == "horizontallcd"@ {
            Some(FreeTypeLoadTarget::HorizontalLcd)
        } else {
            None
        }
    }

    /// Reads a target's name, without regard to case and underscores.
    pub fn from_name(s: &str) -> (r: Option<Self>)
        ensures
            r == Self::named(s@),
    {
        let name: Vec<char> = plain_name_of(s);
        if text::spells(&name, "light") {
            Some(FreeTypeLoadTarget::Light)
        } else if text::spells(&name, "normal") {
            Some(FreeTypeLoadTarget::Normal)
        } else if text::spells(&name, "mono") {
            Some(FreeTypeLoadTarget::Mono)
        } else if text::spells(&name, "horizontallcd") {
            Some(FreeTypeLoadTarget::HorizontalLcd)
        } else {
            None
        }
    }
}

impl FreeTypeRenderTarget {
    /// The target that a name stands for.
    pub open spec fn named(s: Seq<char>) -> Option<FreeTypeRenderTarget> {
        let name = plain_name(s);
        if name == "normal"@ {
            Some(FreeTypeRenderTarget::Normal)
        } else if name == "light"@ {
            Some(FreeTypeRenderTarget::Light)
        } else if name == "mono"@ {
            Some(FreeTypeRenderTarget::Mono)
        } else if name == "horizontallcd"@ {
            Some(FreeTypeRenderTarget::HorizontalLcd)
        } else {
            None
        }
    }

    /// Reads a target's name, without regard to case and underscores.
    pub fn from_name(s: &str) -> (r: Option<Self>)
        ensures
            r == Self::named(s@),
    {
        let name: Vec<char> = plain_name_of(s);
        if text::spells(&name, "normal") {
            Some(FreeTypeRenderTarget::Normal)
        } else if text::spells(&name, "light") {
            Some(FreeTypeRenderTarget::Light)
        } else if text::spells(&name, "mono") {
            Some(FreeTypeRenderTarget::Mono)
        } else if text::spells(&name, "horizontallcd") {
            Some(FreeTypeRenderTarget::HorizontalLcd)
        } else {
            None
        }
    }
}

impl FreeTypeLoadFlags {
    /// The flags that a name stands for.
    pub open spec fn named(s: Seq<char>) -> Option<FreeTypeLoadFlags> {
        let name = plain_name(s);
        if name == "default"@ {
            Some(FreeTypeLoadFlags::Default)
        } else if name == "nohinting"@ {
            Some(FreeTypeLoadFlags::NoHinting)
        } else {
            None
        }
    }

    /// Reads the name of flags, without regard to case and underscores.
    pub fn from_name(s: &str) -> (r: Option<Self>)
        ensures
            r == Self::named(s@),
    {
        let name: Vec<char> = plain_name_of(s);
        if text::spells(&name, "default") {
            Some(FreeTypeLoadFlags::Default)
        } else if text::spells(&name, "nohinting") {
            Some(FreeTypeLoadFlags::NoHinting)
        } else {
            None
        }
    }
}

/// Font configuration options.
#[derive(Debug)]
pub struct FontConfig {
    pub family: Option<FontFamilies>,
    pub size: Option<u32>,
    pub freetype_load_target: Option<FreeTypeLoadTarget>,
    pub freetype_render_target: Option<FreeTypeRenderTarget>,
    pub freetype_load_flags: Option<FreeTypeLoadFlags>,
}

impl Default for FontConfig {
    fn default() -> (r: Self)
        ensures
            r.family is None,
            r.size is None,
            r.freetype_load_target is None,
            r.freetype_render_target is None,
            r.freetype_load_flags is None,
    {
        FontConfig {
            family: None,
            size: None,
            freetype_load_target: None,
            freetype_render_target: None,
            freetype_load_flags: None,
        }
    }
}

/// Padding configuration: either a uniform scalar `padding = 4` or an array `padding = [4, 2]`.
#[derive(Debug, Clone, Copy, PartialEq, Eq)]
pub enum Padding {
    Uniform(u16),
    Axes([u16; 2]),
}

impl Padding {
    /// Padding to the left and right, and above and below.
    pub open spec fn axes(self) -> [u16; 2] {
        match self {
            Padding::Uniform(v) => [v, v],
            Padding::Axes(a) => a,
        }
    }

    pub fn to_axes(self) -> (r: [u16; 2])
        ensures
            r@ =~= self.axes()@,
    {
        match self {
            Padding::Uniform(v) => [v, v],
            Padding::Axes(a) => a,
        }
    }
}

/// Padding of the window.
#[derive(Debug)]
pub struct WindowConfig {
    pub padding: Option<Padding>,
}

impl Default for WindowConfig {
    fn default() -> (r: Self)
        ensures
            r.padding is None,
    {
        WindowConfig { padding: None }
    }
}

/// Text cursor appearance.
#[derive(Debug, Clone, Copy, PartialEq, Eq, Structural)]
pub struct CursorConfig {
    pub shape: Option<CursorShape>,
}

impl Default for CursorConfig {
    fn default() -> (r: Self)
        ensures
            r.shape is None,
    {
        CursorConfig { shape: None }
    }
}

/// Named standard 16 ANSI colors (0..=15).
#[derive(Debug, Clone, Copy, PartialEq, Eq, Structural)]
pub struct PaletteConfig {
    pub black: Option<Rgb>,
    pub red: Option<Rgb>,
    pub green: Option<Rgb>,
    pub yellow: Option<Rgb>,
    pub blue: Option<Rgb>,
    pub magenta: Option<Rgb>,
    pub cyan: Option<Rgb>,
    pub white: Option<Rgb>,
    pub bright_black: Option<Rgb>,
    pub bright_red: Option<Rgb>,
    pub bright_green: Option<Rgb>,
    pub bright_yellow: Option<Rgb>,
    pub bright_blue: Option<Rgb>,
    pub bright_magenta: Option<Rgb>,
    pub bright_cyan: Option<Rgb>,
    pub bright_white: Option<Rgb>,
}

/// A palette without any color of its own.
pub open spec fn no_colors() -> PaletteConfig {
    PaletteConfig {
        black: None,
        red: None,
        green: None,
        yellow: None,
        blue: None,
        magenta: None,
        cyan: None,
        white: None,
        bright_black: None,
        bright_red: None,
        bright_green: None,
        bright_yellow: None,
        bright_blue: None,
        bright_magenta: None,
        bright_cyan: None,
        bright_white: None,
    }
}

impl Default for PaletteConfig {
    fn default() -> (r: Self)
        ensures
            r == no_colors(),
    {
        PaletteConfig {
            black: None,
            red: None,
            green: None,
            yellow: None,
            blue: None,
            magenta: None,
            cyan: None,
            white: None,
            bright_black: None,
            bright_red: None,
            bright_green: None,
            bright_yellow: None,
            bright_blue: None,
            bright_magenta: None,
            bright_cyan: None,
            bright_white: None,
        }
    }
}

impl PaletteConfig {
    /// The color set for an index.
    pub open spec fn color(self, i: int) -> Option<Rgb> {
        if i == 0 {
            self.black
        } else if i == 1 {
            self.red
        } else if i == 2 {
            self.green
        } else if i == 3 {
            self.yellow
        } else if i == 4 {
            self.blue
        } else if i == 5 {
            self.magenta
        } else if i == 6 {
            self.cyan
        } else if i == 7 {
            self.white
        } else if i == 8 {
            self.bright_black
        } else if i == 9 {
            self.bright_red
        } else if i == 10 {
            self.bright_green
        } else if i == 11 {
            self.bright_yellow
        } else if i == 12 {
            self.bright_blue
        } else if i == 13 {
            self.bright_magenta
        } else if i == 14 {
            self.bright_cyan
        } else if i == 15 {
            self.bright_white
        } else {
            None
        }
    }

    /// The color set for an index.
    pub fn get(&self, i: usize) -> (r: Option<Rgb>)
        ensures
            r == self.color(i as int),
    {
        match i {
            0 => self.black,
            1 => self.red,
            2 => self.green,
            3 => self.yellow,
            4 => self.blue,
            5 => self.magenta,
            6 => self.cyan,
            7 => self.white,
            8 => self.bright_black,
            9 => self.bright_red,
            10 => self.bright_green,
            11 => self.bright_yellow,
            12 => self.bright_blue,
            13 => self.bright_magenta,
            14 => self.bright_cyan,
            15 => self.bright_white,
            _ => None,
        }
    }

    /// These colors, with those of another palette in place where it sets any.
    #[verifier::opaque]
    pub open spec fn overlaid(self, over: PaletteConfig) -> PaletteConfig {
        PaletteConfig {
            black: or(over.black, self.black),
            red: or(over.red, self.red),
            green: or(over.green, self.green),
            yellow: or(over.yellow, self.yellow),
            blue: or(over.blue, self.blue),
            magenta: or(over.magenta, self.magenta),
            cyan: or(over.cyan, self.cyan),
            white: or(over.white, self.white),
            bright_black: or(over.bright_black, self.bright_black),
            bright_red: or(over.bright_red, self.bright_red),
            bright_green: or(over.bright_green, self.bright_green),
            bright_yellow: or(over.bright_yellow, self.bright_yellow),
            bright_blue: or(over.bright_blue, self.bright_blue),
            bright_magenta: or(over.bright_magenta, self.bright_magenta),
            bright_cyan: or(over.bright_cyan, self.bright_cyan),
            bright_white: or(over.bright_white, self.bright_white),
        }
    }
}

/// The first value if it is set, otherwise the second.
pub open spec fn or<T>(a: Option<T>, b: Option<T>) -> Option<T> {
    match a {
        Some(x) => Some(x),
        None => b,
    }
}

/// The first value if it is set, otherwise the second.
fn first_set<T>(a: Option<T>, b: Option<T>) -> (r: Option<T>)
    ensures
        r == or(a, b),
{
    match a {
        Some(x) => Some(x),
        None => b,
    }
}

/// Puts the colors of `src` over those of `dst`.
pub fn merge_palette(dst: &mut PaletteConfig, src: PaletteConfig)
    ensures
        *final(dst) == old(dst).overlaid(src),
{
    reveal(PaletteConfig::overlaid);
    dst.black = first_set(src.black, dst.black);
    dst.red = first_set(src.red, dst.red);
    dst.green = first_set(src.green, dst.green);
    dst.yellow = first_set(src.yellow, dst.yellow);
    dst.blue = first_set(src.blue, dst.blue);
    dst.magenta = first_set(src.magenta, dst.magenta);
    dst.cyan = first_set(src.cyan, dst.cyan);
    dst.white = first_set(src.white, dst.white);
    dst.bright_black = first_set(src.bright_black, dst.bright_black);
    dst.bright_red = first_set(src.bright_red, dst.bright_red);
    dst.bright_green = first_set(src.bright_green, dst.bright_green);
    dst.bright_yellow = first_set(src.bright_yellow, dst.bright_yellow);
    dst.bright_blue = first_set(src.bright_blue, dst.bright_blue);
    dst.bright_magenta = first_set(src.bright_magenta, dst.bright_magenta);
    dst.bright_cyan = first_set(src.bright_cyan, dst.bright_cyan);
    dst.bright_white = first_set(src.bright_white, dst.bright_white);
}

/// Terminal colors: the defaults for text and background, the standard colors, and single entries
/// of the palette.
#[derive(Debug)]
pub struct ColorsConfig {
    pub foreground: Option<Rgb>,
    pub background: Option<Rgb>,
    /// Standard colors that stand beside the default colors.
    pub ansi: PaletteConfig,
    /// Standard colors in a table of their own.
    pub palette: Option<PaletteConfig>,
    pub indexed: Option<HashMap<u8, Rgb>>,
}

impl Default for ColorsConfig {
    fn default() -> (r: Self)
        ensures
            r.foreground is None,
            r.background is None,
            r.ansi == no_colors(),
            r.palette is None,
            r.indexed is None,
    {
        ColorsConfig {
            foreground: None,
            background: None,
            ansi: PaletteConfig::default(),
            palette: None,
            indexed: None,
        }
    }
}

/// Scrollback buffer depth and mouse wheel scrolling parameters.
#[derive(Debug, Clone, Copy, PartialEq, Eq, Structural)]
pub struct ScrollbackConfig {
    pub lines: Option<u32>,
    pub multiplier: Option<u32>,
    pub auto_scroll: Option<bool>,
}

impl Default for ScrollbackConfig {
    fn default() -> (r: Self)
        ensures
            r == (ScrollbackConfig { lines: None, multiplier: None, auto_scroll: None }),
    {
        ScrollbackConfig { lines: None, multiplier: None, auto_scroll: None }
    }
}

/// Security policies controlling OSC 52 remote clipboard access.
#[derive(Debug, Clone, Copy, PartialEq, Eq, Structural)]
pub struct ClipboardConfig {
    /// Whether applications running in the terminal are permitted to query/read the system clipboard.
    ///
    /// Defaults to `false` for security (preventing untrusted remote SSH processes from silently
    /// exfiltrating local clipboard tokens or passwords).
    pub allow_osc52_read: Option<bool>,
    /// Whether applications running in the terminal are permitted to set or clear the system clipboard.
    ///
    /// Defaults to `true` for standard terminal compatibility.
    pub allow_osc52_write: Option<bool>,
}

impl Default for ClipboardConfig {
    fn default() -> (r: Self)
        ensures
            r == (ClipboardConfig { allow_osc52_read: None, allow_osc52_write: None }),
    {
        ClipboardConfig { allow_osc52_read: None, allow_osc52_write: None }
    }
}

/// Root declarative configuration.
#[derive(Debug)]
pub struct Config {
    /// Further files that form the base of this one.
    pub includes: Option<Include>,
    pub window: WindowConfig,
    pub font: FontConfig,
    pub cursor: CursorConfig,
    pub colors: ColorsConfig,
    pub scrollback: ScrollbackConfig,
    pub clipboard: ClipboardConfig,
    pub keybindings: KeybindingsConfig,
}

/// What the settings of a configuration are, apart from the files it names.
#[verifier::ext_equal]
pub struct ConfigModel {
    pub padding: Option<Padding>,
    pub family: Option<FontFamilies>,
    pub size: Option<u32>,
    pub load_target: Option<FreeTypeLoadTarget>,
    pub render_target: Option<FreeTypeRenderTarget>,
    pub load_flags: Option<FreeTypeLoadFlags>,
    pub shape: Option<CursorShape>,
    pub foreground: Option<Rgb>,
    pub background: Option<Rgb>,
    pub ansi: PaletteConfig,
    pub palette: Option<PaletteConfig>,
    pub indexed: Option<Map<u8, Rgb>>,
    pub lines: Option<u32>,
    pub multiplier: Option<u32>,
    pub auto_scroll: Option<bool>,
    pub osc52_read: Option<bool>,
    pub osc52_write: Option<bool>,
    pub bindings: Seq<KeyBinding>,
}

impl View for Config {
    type V = ConfigModel;

    open spec fn view(&self) -> ConfigModel {
        ConfigModel {
            padding: self.window.padding,
            family: self.font.family,
            size: self.font.size,
            load_target: self.font.freetype_load_target,
            render_target: self.font.freetype_render_target,
            load_flags: self.font.freetype_load_flags,
            shape: self.cursor.shape,
            foreground: self.colors.foreground,
            background: self.colors.background,
            ansi: self.colors.ansi,
            palette: self.colors.palette,
            indexed: indexed_model(self.colors.indexed),
            lines: self.scrollback.lines,
            multiplier: self.scrollback.multiplier,
            auto_scroll: self.scrollback.auto_scroll,
            osc52_read: self.clipboard.allow_osc52_read,
            osc52_write: self.clipboard.allow_osc52_write,
            bindings: self.keybindings.bindings@,
        }
    }
}

/// What optional single entries of the palette are.
pub open spec fn indexed_model(m: Option<HashMap<u8, Rgb>>) -> Option<Map<u8, Rgb>> {
    match m {
        Some(m) => Some(m@),
        None => None,
    }
}

/// Entries of the palette, with others in place where they set any.
pub open spec fn indexed_overlaid(base: Option<Map<u8, Rgb>>, over: Option<Map<u8, Rgb>>) -> Option<
    Map<u8, Rgb>,
> {
    match (base, over) {
        (Some(b), Some(o)) => Some(b.union_prefer_right(o)),
        (None, Some(o)) => Some(o),
        (b, None) => b,
    }
}

/// Standard colors in a table of their own, with others in place where they set any.
pub open spec fn palette_overlaid(base: Option<PaletteConfig>, over: Option<PaletteConfig>) -> Option<
    PaletteConfig,
> {
    match over {
        Some(o) => Some(
            (match base {
                Some(b) => b,
                None => no_colors(),
            }).overlaid(o),
        ),
        None => base,
    }
}

/// A configuration in which nothing is set.
pub open spec fn empty_config() -> ConfigModel {
    ConfigModel {
        padding: None,
        family: None,
        size: None,
        load_target: None,
        render_target: None,
        load_flags: None,
        shape: None,
        foreground: None,
        background: None,
        ansi: no_colors(),
        palette: None,
        indexed: None,
        lines: None,
        multiplier: None,
        auto_scroll: None,
        osc52_read: None,
        osc52_write: None,
        bindings: Seq::empty(),
    }
}

impl ConfigModel {
    /// These settings, with those of another configuration in place where it sets any.
    pub open spec fn merged(self, over: ConfigModel) -> ConfigModel {
        ConfigModel {
            padding: or(over.padding, self.padding),
            family: or(over.family, self.family),
            size: or(over.size, self.size),
            load_target: or(over.load_target, self.load_target),
            render_target: or(over.render_target, self.render_target),
            load_flags: or(over.load_flags, self.load_flags),
            shape: or(over.shape, self.shape),
            foreground: or(over.foreground, self.foreground),
            background: or(over.background, self.background),
            ansi: self.ansi.overlaid(over.ansi),
            palette: palette_overlaid(self.palette, over.palette),
            indexed: indexed_overlaid(self.indexed, over.indexed),
            lines: or(over.lines, self.lines),
            multiplier: or(over.multiplier, self.multiplier),
            auto_scroll: or(over.auto_scroll, self.auto_scroll),
            osc52_read: or(over.osc52_read, self.osc52_read),
            osc52_write: or(over.osc52_write, self.osc52_write),
            bindings: bindings::extended(self.bindings, over.bindings),
        }
    }

    /// The color at an index of the palette.
    pub open spec fn palette_color(self, i: int) -> Rgb {
        let named = or(
            self.ansi.color(i),
            match self.palette {
                Some(p) => p.color(i),
                None => None,
            },
        );
        match self.indexed {
            Some(m) if m.contains_key(i as u8) => m[i as u8],
            _ => match named {
                Some(c) => c,
                None => xterm_color(i),
            },
        }
    }

    /// The font families in order, at least one.
    pub open spec fn families(self) -> Seq<Seq<char>> {
        match self.family {
            Some(f) if f.names().len() > 0 => f.names(),
            _ => seq!["monospace"@],
        }
    }
}

/// A bit pattern of a single-precision number, moved into the range of scroll multipliers. What is
/// no number stays as it is.
pub open spec fn clamped_multiplier(bits: u32) -> u32 {
    if bits % 0x8000_0000 > 0x7f80_0000 {
        bits
    } else if bits >= 0x8000_0000 || bits < MIN_SCROLL_MULTIPLIER {
        MIN_SCROLL_MULTIPLIER
    } else if bits > MAX_SCROLL_MULTIPLIER {
        MAX_SCROLL_MULTIPLIER
    } else {
        bits
    }
}

/// Puts entries of the palette over others.
fn merge_indexed(dst: &mut HashMap<u8, Rgb>, src: &HashMap<u8, Rgb>)
    ensures
        final(dst)@ == old(dst)@.union_prefer_right(src@),
{
    let keys: Vec<u8> = keys_of(src);
    let ghost base = dst@;
    let mut i: usize = 0;
    while i < keys.len()
        invariant
            i <= keys@.len(),
            keys@.to_set() == src@.dom(),
            forall|k: u8| #[trigger]
                dst@.contains_key(k) <==> base.contains_key(k) || keys@.take(i as int).contains(k),
            forall|k: u8|
                dst@.contains_key(k) ==> #[trigger] dst@[k] == (if keys@.take(i as int).contains(k) {
                    src@[k]
                } else {
                    base[k]
                }),
        decreases keys@.len() - i,
    {
        let k: u8 = keys[i];
        assert(keys@.contains(k));
        assert(keys@.to_set().contains(k));
        if let Some(color) = src.get(&k) {
            dst.insert(k, *color);
        }
        proof {
            assert(keys@.take(i + 1) =~= keys@.take(i as int).push(k));
            assert forall|x: u8| keys@.take(i + 1).contains(x) <==> (keys@.take(i as int).contains(x)
                || x == k) by {
                vstd::seq_lib::lemma_seq_contains_after_push(keys@.take(i as int), k, x);
            }
        }
        i += 1;
    }
    proof {
        assert(keys@.take(keys@.len() as int) =~= keys@);
        assert forall|k: u8| keys@.contains(k) <==> src@.contains_key(k) by {
            assert(keys@.to_set().contains(k) <==> keys@.contains(k));
        }
        assert(dst@ =~= base.union_prefer_right(src@));
    }
}

/// Puts font settings over others.
fn merge_font(dst: &mut FontConfig, src: FontConfig)
    ensures
        final(dst).family == or(src.family, old(dst).family),
        final(dst).size == or(src.size, old(dst).size),
        final(dst).freetype_load_target == or(
            src.freetype_load_target,
            old(dst).freetype_load_target,
        ),
        final(dst).freetype_render_target == or(
            src.freetype_render_target,
            old(dst).freetype_render_target,
        ),
        final(dst).freetype_load_flags == or(src.freetype_load_flags, old(dst).freetype_load_flags),
{
    if src.family.is_some() {
        dst.family = src.family;
    }
    dst.size = first_set(src.size, dst.size);
    dst.freetype_load_target = first_set(src.freetype_load_target, dst.freetype_load_target);
    dst.freetype_render_target = first_set(src.freetype_render_target, dst.freetype_render_target);
    dst.freetype_load_flags = first_set(src.freetype_load_flags, dst.freetype_load_flags);
}

/// Puts color settings over others.
fn merge_colors(dst: &mut ColorsConfig, src: ColorsConfig)
    ensures
        final(dst).foreground == or(src.foreground, old(dst).foreground),
        final(dst).background == or(src.background, old(dst).background),
        final(dst).ansi == old(dst).ansi.overlaid(src.ansi),
        final(dst).palette == palette_overlaid(old(dst).palette, src.palette),
        indexed_model(final(dst).indexed) == indexed_overlaid(
            indexed_model(old(dst).indexed),
            indexed_model(src.indexed),
        ),
{
    dst.foreground = first_set(src.foreground, dst.foreground);
    dst.background = first_set(src.background, dst.background);
    merge_palette(&mut dst.ansi, src.ansi);
    if let Some(over) = src.palette {
        let mut base: PaletteConfig = match dst.palette {
            Some(p) => p,
            None => PaletteConfig::default(),
        };
        merge_palette(&mut base, over);
        dst.palette = Some(base);
    }
    if let Some(over) = src.indexed {
        match dst.indexed.take() {
            Some(base) => {
                let mut merged: HashMap<u8, Rgb> = base;
                merge_indexed(&mut merged, &over);
                dst.indexed = Some(merged);
            },
            None => {
                dst.indexed = Some(over);
            },
        }
    }
}

impl Default for Config {
    fn default() -> (r: Self)
        ensures
            r.includes is None,
            r@ == empty_config(),
    {
        let config: Config = Config {
            includes: None,
            window: WindowConfig::default(),
            font: FontConfig::default(),
            cursor: CursorConfig::default(),
            colors: ColorsConfig::default(),
            scrollback: ScrollbackConfig::default(),
            clipboard: ClipboardConfig::default(),
            keybindings: KeybindingsConfig::default(),
        };
        assert(config@ =~= empty_config());
        config
    }
}

impl Config {
    /// Merges `other` into `self`, where explicit options in `other` take precedence.
    pub fn merge(&mut self, other: Self)
        ensures
            final(self)@ == old(self)@.merged(other@),
            final(self).includes == old(self).includes,
    {
        let ghost start = self@;
        merge_font(&mut self.font, other.font);
        self.window.padding = first_set(other.window.padding, self.window.padding);
        self.cursor.shape = first_set(other.cursor.shape, self.cursor.shape);
        merge_colors(&mut self.colors, other.colors);
        self.scrollback.lines = first_set(other.scrollback.lines, self.scrollback.lines);
        self.scrollback.multiplier =
        first_set(other.scrollback.multiplier, self.scrollback.multiplier);
        self.scrollback.auto_scroll =
        first_set(other.scrollback.auto_scroll, self.scrollback.auto_scroll);
        self.clipboard.allow_osc52_read =
        first_set(other.clipboard.allow_osc52_read, self.clipboard.allow_osc52_read);
        self.clipboard.allow_osc52_write =
        first_set(other.clipboard.allow_osc52_write, self.clipboard.allow_osc52_write);
        bindings::merge_keybindings(&mut self.keybindings, other.keybindings);
        assert(self@ =~= start.merged(other@));
    }

    /// The first font family.
    pub fn font_family(&self) -> (r: &str)
        ensures
            r@ == self@.families()[0],
    {
        match &self.font.family {
            Some(FontFamilies::Single(s)) => {
                assert(self.font.family->0.names().len() == 1);
                s.as_str()
            },
            Some(FontFamilies::Multiple(v)) => if v.len() > 0 {
                assert(self.font.family->0.names()[0] == v@[0]@);
                v[0].as_str()
            } else {
                "monospace"
            },
            None => "monospace",
        }
    }

    /// The font families in order, at least one.
    pub fn font_families(&self) -> (r: Vec<String>)
        ensures
            text::texts(r@) == self@.families(),
    {
        if let Some(family) = &self.font.family {
            let names: Vec<String> = family.to_vec();
            assert(text::texts(names@).len() == names@.len());
            if names.len() > 0 {
                return names;
            }
        }
        let mut out: Vec<String> = Vec::new();
        out.push("monospace".to_owned());
        assert(text::texts(out@) =~= seq!["monospace"@]);
        out
    }

    /// The font size, as a bit pattern.
    pub fn font_size(&self) -> (r: u32)
        ensures
            r == (match self@.size {
                Some(size) => size,
                None => DEFAULT_FONT_SIZE,
            }),
    {
        match self.font.size {
            Some(size) => size,
            None => DEFAULT_FONT_SIZE,
        }
    }

    pub fn freetype_load_target(&self) -> (r: FreeTypeLoadTarget)
        ensures
            r == (match self@.load_target {
                Some(t) => t,
                None => FreeTypeLoadTarget::Light,
            }),
    {
        match self.font.freetype_load_target {
            Some(t) => t,
            None => FreeTypeLoadTarget::Light,
        }
    }

    pub fn freetype_render_target(&self) -> (r: FreeTypeRenderTarget)
        ensures
            r == (match self@.render_target {
                Some(t) => t,
                None => FreeTypeRenderTarget::HorizontalLcd,
            }),
    {
        match self.font.freetype_render_target {
            Some(t) => t,
            None => FreeTypeRenderTarget::HorizontalLcd,
        }
    }

    pub fn freetype_load_flags(&self) -> (r: FreeTypeLoadFlags)
        ensures
            r == (match self@.load_flags {
                Some(f) => f,
                None => FreeTypeLoadFlags::Default,
            }),
    {
        match self.font.freetype_load_flags {
            Some(f) => f,
            None => FreeTypeLoadFlags::Default,
        }
    }

    /// Whether glyphs are rendered for subpixels.
    pub fn font_subpixel(&self) -> (r: bool)
        ensures
            r == (self@.render_target is None || self@.render_target == Some(
                FreeTypeRenderTarget::HorizontalLcd,
            )),
    {
        self.freetype_render_target() == FreeTypeRenderTarget::HorizontalLcd
    }

    /// Padding to the left and right, and above and below.
    pub fn padding(&self) -> (r: [u16; 2])
        ensures
            r@ == (match self@.padding {
                Some(p) => p.axes()@,
                None => seq![0u16, 0],
            }),
    {
        match self.window.padding {
            Some(p) => p.to_axes(),
            None => {
                let none: [u16; 2] = [0, 0];
                assert(none@ =~= seq![0u16, 0]);
                none
            },
        }
    }

    pub fn padding_x(&self) -> (r: u16)
        ensures
            r == (match self@.padding {
                Some(p) => p.axes()@[0],
                None => 0,
            }),
    {
        self.padding()[0]
    }

    pub fn padding_y(&self) -> (r: u16)
        ensures
            r == (match self@.padding {
                Some(p) => p.axes()@[1],
                None => 0,
            }),
    {
        self.padding()[1]
    }

    pub fn scrollback_lines(&self) -> (r: usize)
        ensures
            r == (match self@.lines {
                Some(n) => n,
                None => 1000,
            }),
    {
        match self.scrollback.lines {
            Some(n) => n as usize,
            None => 1000,
        }
    }

    /// How many lines a step of the wheel scrolls, as a bit pattern, between a tenth and a hundred.
    pub fn scroll_multiplier(&self) -> (r: u32)
        ensures
            r == clamped_multiplier(
                match self@.multiplier {
                    Some(m) => m,
                    None => DEFAULT_SCROLL_MULTIPLIER,
                },
            ),
    {
        let bits: u32 = match self.scrollback.multiplier {
            Some(m) => m,
            None => DEFAULT_SCROLL_MULTIPLIER,
        };
        if bits % 0x8000_0000 > 0x7f80_0000 {
            bits
        } else if bits >= 0x8000_0000 || bits < MIN_SCROLL_MULTIPLIER {
            MIN_SCROLL_MULTIPLIER
        } else if bits > MAX_SCROLL_MULTIPLIER {
            MAX_SCROLL_MULTIPLIER
        } else {
            bits
        }
    }

    pub fn allow_osc52_read(&self) -> (r: bool)
        ensures
            r == (self@.osc52_read == Some(true)),
    {
        match self.clipboard.allow_osc52_read {
            Some(r) => r,
            None => false,
        }
    }

    pub fn allow_osc52_write(&self) -> (r: bool)
        ensures
            r == (self@.osc52_write != Some(false)),
    {
        match self.clipboard.allow_osc52_write {
            Some(w) => w,
            None => true,
        }
    }

    pub fn auto_scroll(&self) -> (r: bool)
        ensures
            r == (self@.auto_scroll != Some(false)),
    {
        match self.scrollback.auto_scroll {
            Some(a) => a,
            None => true,
        }
    }

    pub fn cursor_shape(&self) -> (r: CursorShape)
        ensures
            r == (match self@.shape {
                Some(s) => s,
                None => CursorShape::Block,
            }),
    {
        match self.cursor.shape {
            Some(s) => s,
            None => CursorShape::Block,
        }
    }

    pub fn foreground(&self) -> (r: Rgb)
        ensures
            r == (match self@.foreground {
                Some(c) => c,
                None => Rgb { r: 220, g: 220, b: 220 },
            }),
    {
        match self.colors.foreground {
            Some(c) => c,
            None => Rgb::new(220, 220, 220),
        }
    }

    pub fn background(&self) -> (r: Rgb)
        ensures
            r == (match self@.background {
                Some(c) => c,
                None => Rgb { r: 24, g: 24, b: 24 },
            }),
    {
        match self.colors.background {
            Some(c) => c,
            None => Rgb::new(24, 24, 24),
        }
    }

    /// Constructs the 256-color palette applying standard ANSI and indexed overrides.
    pub fn build_palette(&self) -> (r: [Rgb; 256])
        ensures
            forall|i: int| 0 <= i < 256 ==> #[trigger] r@[i] == self@.palette_color(i),
    {
        let mut palette: [Rgb; 256] = default_256_palette();
        let mut i: usize = 0;
        while i < 256
            invariant
                i <= 256,
                forall|j: int| 0 <= j < i ==> #[trigger] palette@[j] == self@.palette_color(j),
                forall|j: int| i <= j < 256 ==> #[trigger] palette@[j] == xterm_color(j),
            decreases 256 - i,
        {
            let mut color: Option<Rgb> = self.colors.ansi.get(i);
            if color.is_none() {
                if let Some(p) = &self.colors.palette {
                    color = p.get(i);
                }
            }
            if let Some(m) = &self.colors.indexed {
                if let Some(c) = m.get(&(i as u8)) {
                    color = Some(*c);
                }
            }
            if let Some(c) = color {
                palette[i] = c;
            }
            i += 1;
        }
        palette
    }
}

/// A configuration in which nothing is set changes nothing, and takes every setting of another.
pub proof fn law_empty_config_is_neutral(c: ConfigModel)
    requires
        bindings::distinct(c.bindings),
    ensures
        c.merged(empty_config()) == c,
        empty_config().merged(c) == c,
{
    bindings::lemma_extended_empty(c.bindings);
    lemma_neutral(c.ansi);
    if let Some(p) = c.palette {
        lemma_neutral(p);
    }
    assert(c.merged(empty_config()) =~= c);
    assert(empty_config().merged(c) =~= c);
}

/// Of three values, the first that is set can be found in either order.
proof fn lemma_or<T>(a: Option<T>, b: Option<T>, c: Option<T>)
    ensures
        or(c, or(b, a)) == or(or(c, b), a),
{
}

/// Palettes can be laid over each other in either order of combination.
proof fn lemma_overlaid(p: PaletteConfig, q: PaletteConfig, r: PaletteConfig)
    ensures
        p.overlaid(q).overlaid(r) == p.overlaid(q.overlaid(r)),
{
    reveal(PaletteConfig::overlaid);
    lemma_or(p.black, q.black, r.black);
    lemma_or(p.red, q.red, r.red);
    lemma_or(p.green, q.green, r.green);
    lemma_or(p.yellow, q.yellow, r.yellow);
    lemma_or(p.blue, q.blue, r.blue);
    lemma_or(p.magenta, q.magenta, r.magenta);
    lemma_or(p.cyan, q.cyan, r.cyan);
    lemma_or(p.white, q.white, r.white);
    lemma_or(p.bright_black, q.bright_black, r.bright_black);
    lemma_or(p.bright_red, q.bright_red, r.bright_red);
    lemma_or(p.bright_green, q.bright_green, r.bright_green);
    lemma_or(p.bright_yellow, q.bright_yellow, r.bright_yellow);
    lemma_or(p.bright_blue, q.bright_blue, r.bright_blue);
    lemma_or(p.bright_magenta, q.bright_magenta, r.bright_magenta);
    lemma_or(p.bright_cyan, q.bright_cyan, r.bright_cyan);
    lemma_or(p.bright_white, q.bright_white, r.bright_white);
}

/// Tables of standard colors can be laid over each other in either order of combination.
proof fn lemma_palette_overlaid(
    p: Option<PaletteConfig>,
    q: Option<PaletteConfig>,
    r: Option<PaletteConfig>,
)
    ensures
        palette_overlaid(palette_overlaid(p, q), r) == palette_overlaid(p, palette_overlaid(q, r)),
{
    let base = match p {
        Some(p) => p,
        None => no_colors(),
    };
    if let Some(r) = r {
        if let Some(q) = q {
            lemma_overlaid(base, q, r);
        } else {
            lemma_overlaid(base, no_colors(), r);
            lemma_neutral(r);
        }
    }
}

/// A palette without colors changes nothing, and takes every color of another.
proof fn lemma_neutral(p: PaletteConfig)
    ensures
        no_colors().overlaid(p) == p,
        p.overlaid(no_colors()) == p,
{
    reveal(PaletteConfig::overlaid);
}

/// Entries of the palette can be laid over each other in either order of combination.
proof fn lemma_indexed_overlaid(
    p: Option<Map<u8, Rgb>>,
    q: Option<Map<u8, Rgb>>,
    r: Option<Map<u8, Rgb>>,
)
    ensures
        indexed_overlaid(indexed_overlaid(p, q), r) == indexed_overlaid(p, indexed_overlaid(q, r)),
{
    match (p, q, r) {
        (Some(x), Some(y), Some(z)) => {
            assert(x.union_prefer_right(y).union_prefer_right(z) =~= x.union_prefer_right(
                y.union_prefer_right(z),
            ));
        },
        _ => {},
    }
}

/// It does not matter in which order three configurations are combined, as long as their
/// precedence stays the same.
pub proof fn law_merging_is_associative(a: ConfigModel, b: ConfigModel, c: ConfigModel)
    requires
        bindings::distinct(b.bindings),
    ensures
        a.merged(b).merged(c) == a.merged(b.merged(c)),
{
    let left = a.merged(b).merged(c);
    let right = a.merged(b.merged(c));
    lemma_or(a.padding, b.padding, c.padding);
    lemma_or(a.family, b.family, c.family);
    lemma_or(a.size, b.size, c.size);
    lemma_or(a.load_target, b.load_target, c.load_target);
    lemma_or(a.render_target, b.render_target, c.render_target);
    lemma_or(a.load_flags, b.load_flags, c.load_flags);
    lemma_or(a.shape, b.shape, c.shape);
    lemma_or(a.foreground, b.foreground, c.foreground);
    lemma_or(a.background, b.background, c.background);
    lemma_or(a.lines, b.lines, c.lines);
    lemma_or(a.multiplier, b.multiplier, c.multiplier);
    lemma_or(a.auto_scroll, b.auto_scroll, c.auto_scroll);
    lemma_or(a.osc52_read, b.osc52_read, c.osc52_read);
    lemma_or(a.osc52_write, b.osc52_write, c.osc52_write);
    lemma_overlaid(a.ansi, b.ansi, c.ansi);
    lemma_palette_overlaid(a.palette, b.palette, c.palette);
    lemma_indexed_overlaid(a.indexed, b.indexed, c.indexed);
    bindings::law_extending_is_associative(a.bindings, b.bindings, c.bindings);
    assert(left.palette == right.palette);
    assert(left.indexed == right.indexed);
    assert(left.ansi == right.ansi);
    assert(left.bindings == right.bindings);
    assert(left =~= right);
}

/// Merging the same configuration a second time changes nothing.
pub proof fn law_merging_twice_is_merging_once(a: ConfigModel, b: ConfigModel)
    requires
        bindings::distinct(b.bindings),
    ensures
        a.merged(b).merged(b) == a.merged(b),
{
    let once = a.merged(b);
    let twice = once.merged(b);
    bindings::law_extending_twice_is_extending_once(a.bindings, b.bindings);
    lemma_laid_twice(a.ansi, b.ansi);
    if let Some(p) = b.palette {
        lemma_laid_twice(
            match a.palette {
                Some(q) => q,
                None => no_colors(),
            },
            p,
        );
    }
    if let (Some(x), Some(y)) = (a.indexed, b.indexed) {
        assert(x.union_prefer_right(y).union_prefer_right(y) =~= x.union_prefer_right(y));
    } else if let Some(y) = b.indexed {
        assert(y.union_prefer_right(y) =~= y);
    }
    assert(twice.palette == once.palette);
    assert(twice.indexed == once.indexed);
    assert(twice =~= once);
}

/// A palette laid over another a second time changes nothing.
proof fn lemma_laid_twice(p: PaletteConfig, q: PaletteConfig)
    ensures
        p.overlaid(q).overlaid(q) == p.overlaid(q),
{
    reveal(PaletteConfig::overlaid);
}

/// Every setting made in a configuration that is merged in is in force afterwards.
pub proof fn law_explicit_settings_win(base: ConfigModel, over: ConfigModel)
    ensures
        over.size is Some ==> base.merged(over).size == over.size,
        over.family is Some ==> base.merged(over).family == over.family,
        over.padding is Some ==> base.merged(over).padding == over.padding,
        over.shape is Some ==> base.merged(over).shape == over.shape,
        over.foreground is Some ==> base.merged(over).foreground == over.foreground,
        over.background is Some ==> base.merged(over).background == over.background,
        over.lines is Some ==> base.merged(over).lines == over.lines,
        over.osc52_read is Some ==> base.merged(over).osc52_read == over.osc52_read,
        over.osc52_write is Some ==> base.merged(over).osc52_write == over.osc52_write,
        forall|i: int|
            0 <= i < 256 && over.ansi.color(i) is Some ==> #[trigger] base.merged(over).ansi.color(i)
                == over.ansi.color(i),
        forall|k: u8|
            over.indexed is Some && over.indexed->0.contains_key(k)
                ==> #[trigger] base.merged(over).indexed->0[k] == over.indexed->0[k],
{
    reveal(PaletteConfig::overlaid);
}

} // verus!
