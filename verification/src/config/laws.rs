//! What holds of settings, of files that are merged, and of key bindings.

use crate::color::palette::xterm_color;
use crate::color::Rgb;
use crate::config::bindings::{
    all_entries, applied, bound_at, entry_keys, named_action, place, resolved, with_binding,
    ActionDef, CommandDef, EntryModel, KeyBinding, PipeActionDef,
};
use crate::config::paths::{default_path, joined_path, merged_in_order, resolved_path, Include};
use crate::config::{
    clamped_multiplier, empty_config, plain_name, ConfigModel, FontFamilies,
    FreeTypeLoadFlags, FreeTypeLoadTarget, FreeTypeRenderTarget, Padding, PaletteConfig,
    DEFAULT_FONT_SIZE, DEFAULT_SCROLL_MULTIPLIER, MAX_SCROLL_MULTIPLIER, MIN_SCROLL_MULTIPLIER,
};
use crate::input::combo::combo_of;
use crate::input::{ActionModel, BindingModel, KeySymbol, Modifiers};
use crate::text;
use vstd::prelude::*;

verus! {

/// A setting that the later file gives is the one in force, and the earlier one where it gives none.
pub open spec fn later_first<T>(merged: Option<T>, earlier: Option<T>, later: Option<T>) -> bool {
    if later is Some {
        merged == later
    } else {
        merged == earlier
    }
}

/// In merged settings each setting is that of the later file, and that of the earlier file where the
/// later one does not give it.
pub proof fn law_each_setting_is_merged(base: ConfigModel, over: ConfigModel)
    ensures
        ({
            let m = base.merged(over);
            &&& later_first(m.padding, base.padding, over.padding)
            &&& later_first(m.family, base.family, over.family)
            &&& later_first(m.size, base.size, over.size)
            &&& later_first(m.load_target, base.load_target, over.load_target)
            &&& later_first(m.render_target, base.render_target, over.render_target)
            &&& later_first(m.load_flags, base.load_flags, over.load_flags)
            &&& later_first(m.shape, base.shape, over.shape)
            &&& later_first(m.foreground, base.foreground, over.foreground)
            &&& later_first(m.background, base.background, over.background)
            &&& later_first(m.lines, base.lines, over.lines)
            &&& later_first(m.multiplier, base.multiplier, over.multiplier)
            &&& later_first(m.auto_scroll, base.auto_scroll, over.auto_scroll)
            &&& later_first(m.osc52_read, base.osc52_read, over.osc52_read)
            &&& later_first(m.osc52_write, base.osc52_write, over.osc52_write)
            &&& later_first(m.ansi.black, base.ansi.black, over.ansi.black)
            &&& later_first(m.ansi.red, base.ansi.red, over.ansi.red)
            &&& later_first(m.ansi.green, base.ansi.green, over.ansi.green)
            &&& later_first(m.ansi.yellow, base.ansi.yellow, over.ansi.yellow)
            &&& later_first(m.ansi.blue, base.ansi.blue, over.ansi.blue)
            &&& later_first(m.ansi.magenta, base.ansi.magenta, over.ansi.magenta)
            &&& later_first(m.ansi.cyan, base.ansi.cyan, over.ansi.cyan)
            &&& later_first(m.ansi.white, base.ansi.white, over.ansi.white)
            &&& later_first(m.ansi.bright_black, base.ansi.bright_black, over.ansi.bright_black)
            &&& later_first(m.ansi.bright_red, base.ansi.bright_red, over.ansi.bright_red)
            &&& later_first(m.ansi.bright_green, base.ansi.bright_green, over.ansi.bright_green)
            &&& later_first(m.ansi.bright_yellow, base.ansi.bright_yellow, over.ansi.bright_yellow)
            &&& later_first(m.ansi.bright_blue, base.ansi.bright_blue, over.ansi.bright_blue)
            &&& later_first(m.ansi.bright_magenta, base.ansi.bright_magenta, over.ansi.bright_magenta)
            &&& later_first(m.ansi.bright_cyan, base.ansi.bright_cyan, over.ansi.bright_cyan)
            &&& later_first(m.ansi.bright_white, base.ansi.bright_white, over.ansi.bright_white)
        }),
{
    reveal(PaletteConfig::overlaid);
}

/// Colors in a table of their own are merged color by color, and so are indexed colors.
pub proof fn law_each_color_is_merged(base: ConfigModel, over: ConfigModel, k: u8)
    ensures
        over.palette is None ==> base.merged(over).palette == base.palette,
        over.palette is Some && base.palette is None ==> base.merged(over).palette == over.palette,
        over.palette is Some && base.palette is Some ==> {
            let (m, a, b) = (base.merged(over).palette, base.palette->0, over.palette->0);
            &&& m is Some
            &&& later_first(m->0.black, a.black, b.black)
            &&& later_first(m->0.red, a.red, b.red)
            &&& later_first(m->0.green, a.green, b.green)
            &&& later_first(m->0.yellow, a.yellow, b.yellow)
            &&& later_first(m->0.blue, a.blue, b.blue)
            &&& later_first(m->0.magenta, a.magenta, b.magenta)
            &&& later_first(m->0.cyan, a.cyan, b.cyan)
            &&& later_first(m->0.white, a.white, b.white)
            &&& later_first(m->0.bright_black, a.bright_black, b.bright_black)
            &&& later_first(m->0.bright_red, a.bright_red, b.bright_red)
            &&& later_first(m->0.bright_green, a.bright_green, b.bright_green)
            &&& later_first(m->0.bright_yellow, a.bright_yellow, b.bright_yellow)
            &&& later_first(m->0.bright_blue, a.bright_blue, b.bright_blue)
            &&& later_first(m->0.bright_magenta, a.bright_magenta, b.bright_magenta)
            &&& later_first(m->0.bright_cyan, a.bright_cyan, b.bright_cyan)
            &&& later_first(m->0.bright_white, a.bright_white, b.bright_white)
        },
        ({
            let m = base.merged(over).indexed;
            let given = |c: Option<Map<u8, Rgb>>| c is Some && c->0.contains_key(k);
            &&& given(m) <==> given(base.indexed) || given(over.indexed)
            &&& given(over.indexed) ==> m->0[k] == over.indexed->0[k]
            &&& given(base.indexed) && !given(over.indexed) ==> m->0[k] == base.indexed->0[k]
        }),
{
    reveal(PaletteConfig::overlaid);
    if let Some(b) = over.palette {
        assert(base.palette is None ==> base.merged(over).palette->0 =~= b);
    }
}

/// Without any setting there is none in force.
pub proof fn law_no_settings()
    ensures
        ({
            let c = empty_config();
            &&& c.padding is None
            &&& c.family is None
            &&& c.size is None
            &&& c.load_target is None
            &&& c.render_target is None
            &&& c.load_flags is None
            &&& c.shape is None
            &&& c.foreground is None
            &&& c.background is None
            &&& c.lines is None
            &&& c.multiplier is None
            &&& c.auto_scroll is None
            &&& c.osc52_read is None
            &&& c.osc52_write is None
            &&& c.palette is None
            &&& c.indexed is None
            &&& c.ansi.black is None
            &&& c.ansi.red is None
            &&& c.ansi.green is None
            &&& c.ansi.yellow is None
            &&& c.ansi.blue is None
            &&& c.ansi.magenta is None
            &&& c.ansi.cyan is None
            &&& c.ansi.white is None
            &&& c.ansi.bright_black is None
            &&& c.ansi.bright_red is None
            &&& c.ansi.bright_green is None
            &&& c.ansi.bright_yellow is None
            &&& c.ansi.bright_blue is None
            &&& c.ansi.bright_magenta is None
            &&& c.ansi.bright_cyan is None
            &&& c.ansi.bright_white is None
            &&& c.bindings.len() == 0
        }),
        merged_in_order(Seq::empty()) == empty_config(),
{
}

/// Files are merged in the order in which they are named: the last one is laid over the others.
pub proof fn law_files_are_merged_in_order(files: Seq<ConfigModel>, last: ConfigModel)
    ensures
        merged_in_order(files.push(last)) == merged_in_order(files).merged(last),
{
    assert(files.push(last).drop_last() =~= files);
}

/// The sixteen named colors of a table have the numbers from zero, in their usual order.
pub proof fn law_numbers_of_named_colors(p: PaletteConfig, i: int)
    ensures
        p.color(0) == p.black,
        p.color(1) == p.red,
        p.color(2) == p.green,
        p.color(3) == p.yellow,
        p.color(4) == p.blue,
        p.color(5) == p.magenta,
        p.color(6) == p.cyan,
        p.color(7) == p.white,
        p.color(8) == p.bright_black,
        p.color(9) == p.bright_red,
        p.color(10) == p.bright_green,
        p.color(11) == p.bright_yellow,
        p.color(12) == p.bright_blue,
        p.color(13) == p.bright_magenta,
        p.color(14) == p.bright_cyan,
        p.color(15) == p.bright_white,
        i >= 16 || i < 0 ==> p.color(i) is None,
{
}

/// The color with a number is the one that its number was given, or else the one that its name was
/// given beside the default colors, or else in the table of names, or else the standard one.
pub proof fn law_colors_in_force(c: ConfigModel, i: int)
    requires
        0 <= i < 256,
    ensures
        ({
            let numbered = c.indexed is Some && c.indexed->0.contains_key(i as u8);
            let beside = c.ansi.color(i);
            let tabled = if c.palette is Some {
                c.palette->0.color(i)
            } else {
                None
            };
            &&& numbered ==> c.palette_color(i) == c.indexed->0[i as u8]
            &&& !numbered && beside is Some ==> c.palette_color(i) == beside->0
            &&& !numbered && beside is None && tabled is Some ==> c.palette_color(i) == tabled->0
            &&& !numbered && beside is None && tabled is None ==> c.palette_color(i) == xterm_color(
                i,
            )
        }),
{
}

/// The font families are those that are named, in order, and a monospaced one where none is.
pub proof fn law_font_families(c: ConfigModel)
    ensures
        c.families().len() > 0,
        c.family is None ==> c.families() == seq!["monospace"@],
        c.family matches Some(FontFamilies::Single(name)) ==> c.families() == seq![name@],
        c.family matches Some(FontFamilies::Multiple(names)) ==> {
            &&& names@.len() == 0 ==> c.families() == seq!["monospace"@]
            &&& names@.len() > 0 ==> c.families() == text::texts(names@)
        },
{
}

/// One padding stands for both axes; of two, the first is that of the columns.
pub proof fn law_padding(v: u16, a: [u16; 2])
    ensures
        Padding::Uniform(v).axes()@[0] == v,
        Padding::Uniform(v).axes()@[1] == v,
        Padding::Axes(a).axes()@[0] == a@[0],
        Padding::Axes(a).axes()@[1] == a@[1],
{
}

/// The bit patterns of the values in force where nothing is set: a size of 14, a scroll multiplier
/// of 3, and multipliers from a tenth to a hundred.
pub proof fn law_usual_values()
    ensures
        DEFAULT_FONT_SIZE == 0x4160_0000,
        DEFAULT_SCROLL_MULTIPLIER == 0x4040_0000,
        MIN_SCROLL_MULTIPLIER == 0x3dcc_cccd,
        MAX_SCROLL_MULTIPLIER == 0x42c8_0000,
{
}

/// A scroll multiplier is held between its bounds: what lies between them stays, what lies above or
/// below them, or below zero, becomes the nearer bound. Patterns that are no numbers stay.
pub proof fn law_scroll_multipliers_are_bounded(bits: u32)
    ensures
        0x3dcc_cccd <= bits <= 0x42c8_0000 ==> clamped_multiplier(bits) == bits,
        bits < 0x3dcc_cccd ==> clamped_multiplier(bits) == 0x3dcc_cccd,
        0x42c8_0000 < bits <= 0x7f80_0000 ==> clamped_multiplier(bits) == 0x42c8_0000,
        0x8000_0000 <= bits <= 0xff80_0000 ==> clamped_multiplier(bits) == 0x3dcc_cccd,
        0x7f80_0000 < bits < 0x8000_0000 || bits > 0xff80_0000 ==> clamped_multiplier(bits) == bits,
{
}

/// The plain name of a setting is its text without underscores, in lower case.
pub proof fn law_plain_names(s: Seq<char>, c: char)
    ensures
        plain_name(Seq::empty()).len() == 0,
        c == '_' ==> plain_name(s.push(c)) == plain_name(s),
        c != '_' ==> plain_name(s.push(c)) == plain_name(s).push(text::lower(c)),
{
    assert(s.push(c).drop_last() =~= s);
}

/// The names of the targets that glyphs are loaded for.
pub proof fn law_load_targets(s: Seq<char>)
    ensures
        plain_name(s) == "light"@ ==> FreeTypeLoadTarget::named(s) == Some(FreeTypeLoadTarget::Light),
        plain_name(s) == "normal"@ ==> FreeTypeLoadTarget::named(s) == Some(FreeTypeLoadTarget::Normal),
        plain_name(s) == "mono"@ ==> FreeTypeLoadTarget::named(s) == Some(FreeTypeLoadTarget::Mono),
        plain_name(s) == "horizontallcd"@ ==> FreeTypeLoadTarget::named(s) == Some(FreeTypeLoadTarget::HorizontalLcd),
        plain_name(s) != "light"@ && plain_name(s) != "normal"@ && plain_name(s) != "mono"@ && plain_name(s) != "horizontallcd"@ ==> FreeTypeLoadTarget::named(
            s,
        ) is None,
{
    if plain_name(s) == "light"@ {
        reveal_strlit("light");
        assert("light"@.len() == 5);
    }
    if plain_name(s) == "normal"@ {
        reveal_strlit("normal");
        assert("normal"@.len() == 6);
        reveal_strlit("light");
        assert("light"@.len() == 5);
    }
    if plain_name(s) == "mono"@ {
        reveal_strlit("mono");
        assert("mono"@.len() == 4);
        reveal_strlit("light");
        assert("light"@.len() == 5);
        reveal_strlit("normal");
        assert("normal"@.len() == 6);
    }
    if plain_name(s) == "horizontallcd"@ {
        reveal_strlit("horizontallcd");
        assert("horizontallcd"@.len() == 13);
        reveal_strlit("light");
        assert("light"@.len() == 5);
        reveal_strlit("normal");
        assert("normal"@.len() == 6);
        reveal_strlit("mono");
        assert("mono"@.len() == 4);
    }
}

/// The names of the targets that glyphs are drawn for.
pub proof fn law_render_targets(s: Seq<char>)
    ensures
        plain_name(s) == "normal"@ ==> FreeTypeRenderTarget::named(s) == Some(FreeTypeRenderTarget::Normal),
        plain_name(s) == "light"@ ==> FreeTypeRenderTarget::named(s) == Some(FreeTypeRenderTarget::Light),
        plain_name(s) == "mono"@ ==> FreeTypeRenderTarget::named(s) == Some(FreeTypeRenderTarget::Mono),
        plain_name(s) == "horizontallcd"@ ==> FreeTypeRenderTarget::named(s) == Some(FreeTypeRenderTarget::HorizontalLcd),
        plain_name(s) != "normal"@ && plain_name(s) != "light"@ && plain_name(s) != "mono"@ && plain_name(s) != "horizontallcd"@ ==> FreeTypeRenderTarget::named(
            s,
        ) is None,
{
    if plain_name(s) == "normal"@ {
        reveal_strlit("normal");
        assert("normal"@.len() == 6);
    }
    if plain_name(s) == "light"@ {
        reveal_strlit("light");
        assert("light"@.len() == 5);
        reveal_strlit("normal");
        assert("normal"@.len() == 6);
    }
    if plain_name(s) == "mono"@ {
        reveal_strlit("mono");
        assert("mono"@.len() == 4);
        reveal_strlit("normal");
        assert("normal"@.len() == 6);
        reveal_strlit("light");
        assert("light"@.len() == 5);
    }
    if plain_name(s) == "horizontallcd"@ {
        reveal_strlit("horizontallcd");
        assert("horizontallcd"@.len() == 13);
        reveal_strlit("normal");
        assert("normal"@.len() == 6);
        reveal_strlit("light");
        assert("light"@.len() == 5);
        reveal_strlit("mono");
        assert("mono"@.len() == 4);
    }
}

/// The names of the ways in which glyphs are loaded.
pub proof fn law_load_flags(s: Seq<char>)
    ensures
        plain_name(s) == "default"@ ==> FreeTypeLoadFlags::named(s) == Some(FreeTypeLoadFlags::Default),
        plain_name(s) == "nohinting"@ ==> FreeTypeLoadFlags::named(s) == Some(FreeTypeLoadFlags::NoHinting),
        plain_name(s) != "default"@ && plain_name(s) != "nohinting"@ ==> FreeTypeLoadFlags::named(
            s,
        ) is None,
{
    if plain_name(s) == "default"@ {
        reveal_strlit("default");
        assert("default"@.len() == 7);
    }
    if plain_name(s) == "nohinting"@ {
        reveal_strlit("nohinting");
        assert("nohinting"@.len() == 9);
        reveal_strlit("default");
        assert("default"@.len() == 7);
    }
}

/// The names of actions stand for these actions, and no other text stands for one.
pub proof fn law_names_of_actions(name: Seq<char>)
    ensures
        named_action("scrollback_up_page"@) == Some(ActionModel::ScrollbackUpPage),
        named_action("scrollback_down_page"@) == Some(ActionModel::ScrollbackDownPage),
        named_action("scrollback_up_line"@) == Some(ActionModel::ScrollbackUpLine),
        named_action("scrollback_down_line"@) == Some(ActionModel::ScrollbackDownLine),
        named_action("scrollback_home"@) == Some(ActionModel::ScrollbackHome),
        named_action("scrollback_end"@) == Some(ActionModel::ScrollbackEnd),
        named_action("prompt_prev"@) == Some(ActionModel::PromptPrev),
        named_action("prompt_next"@) == Some(ActionModel::PromptNext),
        named_action("font_increase"@) == Some(ActionModel::FontIncrease),
        named_action("font_decrease"@) == Some(ActionModel::FontDecrease),
        named_action("font_reset"@) == Some(ActionModel::FontReset),
        named_action("clipboard_copy"@) == Some(ActionModel::ClipboardCopy),
        named_action("clipboard_paste"@) == Some(ActionModel::ClipboardPaste),
        named_action("primary_paste"@) == Some(ActionModel::PrimaryPaste),
        name != "scrollback_up_page"@ && name != "scrollback_down_page"@ && name != "scrollback_up_line"@ && name != "scrollback_down_line"@ && name != "scrollback_home"@ && name != "scrollback_end"@ && name != "prompt_prev"@ && name != "prompt_next"@ && name != "font_increase"@ && name != "font_decrease"@ && name != "font_reset"@ && name != "clipboard_copy"@ && name != "clipboard_paste"@ && name != "primary_paste"@ ==> named_action(name) is None,
{
    assert(named_action("scrollback_up_page"@) == Some(ActionModel::ScrollbackUpPage)) by {
        reveal_strlit("scrollback_up_page");
        assert("scrollback_up_page"@.len() == 18);
    }
    assert(named_action("scrollback_down_page"@) == Some(ActionModel::ScrollbackDownPage)) by {
        reveal_strlit("scrollback_down_page");
        assert("scrollback_down_page"@.len() == 20);
        reveal_strlit("scrollback_up_page");
        assert("scrollback_up_page"@.len() == 18);
    }
    assert(named_action("scrollback_up_line"@) == Some(ActionModel::ScrollbackUpLine)) by {
        reveal_strlit("scrollback_up_line");
        assert("scrollback_up_line"@.len() == 18);
        reveal_strlit("scrollback_up_page");
        assert("scrollback_up_line"@[14] == 'l' && "scrollback_up_page"@[14] == 'p');
        reveal_strlit("scrollback_down_page");
        assert("scrollback_down_page"@.len() == 20);
    }
    assert(named_action("scrollback_down_line"@) == Some(ActionModel::ScrollbackDownLine)) by {
        reveal_strlit("scrollback_down_line");
        assert("scrollback_down_line"@.len() == 20);
        reveal_strlit("scrollback_up_page");
        assert("scrollback_up_page"@.len() == 18);
        reveal_strlit("scrollback_down_page");
        assert("scrollback_down_line"@[16] == 'l' && "scrollback_down_page"@[16] == 'p');
        reveal_strlit("scrollback_up_line");
        assert("scrollback_up_line"@.len() == 18);
    }
    assert(named_action("scrollback_home"@) == Some(ActionModel::ScrollbackHome)) by {
        reveal_strlit("scrollback_home");
        assert("scrollback_home"@.len() == 15);
        reveal_strlit("scrollback_up_page");
        assert("scrollback_up_page"@.len() == 18);
        reveal_strlit("scrollback_down_page");
        assert("scrollback_down_page"@.len() == 20);
        reveal_strlit("scrollback_up_line");
        assert("scrollback_up_line"@.len() == 18);
        reveal_strlit("scrollback_down_line");
        assert("scrollback_down_line"@.len() == 20);
    }
    assert(named_action("scrollback_end"@) == Some(ActionModel::ScrollbackEnd)) by {
        reveal_strlit("scrollback_end");
        assert("scrollback_end"@.len() == 14);
        reveal_strlit("scrollback_up_page");
        assert("scrollback_up_page"@.len() == 18);
        reveal_strlit("scrollback_down_page");
        assert("scrollback_down_page"@.len() == 20);
        reveal_strlit("scrollback_up_line");
        assert("scrollback_up_line"@.len() == 18);
        reveal_strlit("scrollback_down_line");
        assert("scrollback_down_line"@.len() == 20);
        reveal_strlit("scrollback_home");
        assert("scrollback_home"@.len() == 15);
    }
    assert(named_action("prompt_prev"@) == Some(ActionModel::PromptPrev)) by {
        reveal_strlit("prompt_prev");
        assert("prompt_prev"@.len() == 11);
        reveal_strlit("scrollback_up_page");
        assert("scrollback_up_page"@.len() == 18);
        reveal_strlit("scrollback_down_page");
        assert("scrollback_down_page"@.len() == 20);
        reveal_strlit("scrollback_up_line");
        assert("scrollback_up_line"@.len() == 18);
        reveal_strlit("scrollback_down_line");
        assert("scrollback_down_line"@.len() == 20);
        reveal_strlit("scrollback_home");
        assert("scrollback_home"@.len() == 15);
        reveal_strlit("scrollback_end");
        assert("scrollback_end"@.len() == 14);
    }
    assert(named_action("prompt_next"@) == Some(ActionModel::PromptNext)) by {
        reveal_strlit("prompt_next");
        assert("prompt_next"@.len() == 11);
        reveal_strlit("scrollback_up_page");
        assert("scrollback_up_page"@.len() == 18);
        reveal_strlit("scrollback_down_page");
        assert("scrollback_down_page"@.len() == 20);
        reveal_strlit("scrollback_up_line");
        assert("scrollback_up_line"@.len() == 18);
        reveal_strlit("scrollback_down_line");
        assert("scrollback_down_line"@.len() == 20);
        reveal_strlit("scrollback_home");
        assert("scrollback_home"@.len() == 15);
        reveal_strlit("scrollback_end");
        assert("scrollback_end"@.len() == 14);
        reveal_strlit("prompt_prev");
        assert("prompt_next"@[7] == 'n' && "prompt_prev"@[7] == 'p');
    }
    assert(named_action("font_increase"@) == Some(ActionModel::FontIncrease)) by {
        reveal_strlit("font_increase");
        assert("font_increase"@.len() == 13);
        reveal_strlit("scrollback_up_page");
        assert("scrollback_up_page"@.len() == 18);
        reveal_strlit("scrollback_down_page");
        assert("scrollback_down_page"@.len() == 20);
        reveal_strlit("scrollback_up_line");
        assert("scrollback_up_line"@.len() == 18);
        reveal_strlit("scrollback_down_line");
        assert("scrollback_down_line"@.len() == 20);
        reveal_strlit("scrollback_home");
        assert("scrollback_home"@.len() == 15);
        reveal_strlit("scrollback_end");
        assert("scrollback_end"@.len() == 14);
        reveal_strlit("prompt_prev");
        assert("prompt_prev"@.len() == 11);
        reveal_strlit("prompt_next");
        assert("prompt_next"@.len() == 11);
    }
    assert(named_action("font_decrease"@) == Some(ActionModel::FontDecrease)) by {
        reveal_strlit("font_decrease");
        assert("font_decrease"@.len() == 13);
        reveal_strlit("scrollback_up_page");
        assert("scrollback_up_page"@.len() == 18);
        reveal_strlit("scrollback_down_page");
        assert("scrollback_down_page"@.len() == 20);
        reveal_strlit("scrollback_up_line");
        assert("scrollback_up_line"@.len() == 18);
        reveal_strlit("scrollback_down_line");
        assert("scrollback_down_line"@.len() == 20);
        reveal_strlit("scrollback_home");
        assert("scrollback_home"@.len() == 15);
        reveal_strlit("scrollback_end");
        assert("scrollback_end"@.len() == 14);
        reveal_strlit("prompt_prev");
        assert("prompt_prev"@.len() == 11);
        reveal_strlit("prompt_next");
        assert("prompt_next"@.len() == 11);
        reveal_strlit("font_increase");
        assert("font_decrease"@[5] == 'd' && "font_increase"@[5] == 'i');
    }
    assert(named_action("font_reset"@) == Some(ActionModel::FontReset)) by {
        reveal_strlit("font_reset");
        assert("font_reset"@.len() == 10);
        reveal_strlit("scrollback_up_page");
        assert("scrollback_up_page"@.len() == 18);
        reveal_strlit("scrollback_down_page");
        assert("scrollback_down_page"@.len() == 20);
        reveal_strlit("scrollback_up_line");
        assert("scrollback_up_line"@.len() == 18);
        reveal_strlit("scrollback_down_line");
        assert("scrollback_down_line"@.len() == 20);
        reveal_strlit("scrollback_home");
        assert("scrollback_home"@.len() == 15);
        reveal_strlit("scrollback_end");
        assert("scrollback_end"@.len() == 14);
        reveal_strlit("prompt_prev");
        assert("prompt_prev"@.len() == 11);
        reveal_strlit("prompt_next");
        assert("prompt_next"@.len() == 11);
        reveal_strlit("font_increase");
        assert("font_increase"@.len() == 13);
        reveal_strlit("font_decrease");
        assert("font_decrease"@.len() == 13);
    }
    assert(named_action("clipboard_copy"@) == Some(ActionModel::ClipboardCopy)) by {
        reveal_strlit("clipboard_copy");
        assert("clipboard_copy"@.len() == 14);
        reveal_strlit("scrollback_up_page");
        assert("scrollback_up_page"@.len() == 18);
        reveal_strlit("scrollback_down_page");
        assert("scrollback_down_page"@.len() == 20);
        reveal_strlit("scrollback_up_line");
        assert("scrollback_up_line"@.len() == 18);
        reveal_strlit("scrollback_down_line");
        assert("scrollback_down_line"@.len() == 20);
        reveal_strlit("scrollback_home");
        assert("scrollback_home"@.len() == 15);
        reveal_strlit("scrollback_end");
        assert("clipboard_copy"@[0] == 'c' && "scrollback_end"@[0] == 's');
        reveal_strlit("prompt_prev");
        assert("prompt_prev"@.len() == 11);
        reveal_strlit("prompt_next");
        assert("prompt_next"@.len() == 11);
        reveal_strlit("font_increase");
        assert("font_increase"@.len() == 13);
        reveal_strlit("font_decrease");
        assert("font_decrease"@.len() == 13);
        reveal_strlit("font_reset");
        assert("font_reset"@.len() == 10);
    }
    assert(named_action("clipboard_paste"@) == Some(ActionModel::ClipboardPaste)) by {
        reveal_strlit("clipboard_paste");
        assert("clipboard_paste"@.len() == 15);
        reveal_strlit("scrollback_up_page");
        assert("scrollback_up_page"@.len() == 18);
        reveal_strlit("scrollback_down_page");
        assert("scrollback_down_page"@.len() == 20);
        reveal_strlit("scrollback_up_line");
        assert("scrollback_up_line"@.len() == 18);
        reveal_strlit("scrollback_down_line");
        assert("scrollback_down_line"@.len() == 20);
        reveal_strlit("scrollback_home");
        assert("clipboard_paste"@[0] == 'c' && "scrollback_home"@[0] == 's');
        reveal_strlit("scrollback_end");
        assert("scrollback_end"@.len() == 14);
        reveal_strlit("prompt_prev");
        assert("prompt_prev"@.len() == 11);
        reveal_strlit("prompt_next");
        assert("prompt_next"@.len() == 11);
        reveal_strlit("font_increase");
        assert("font_increase"@.len() == 13);
        reveal_strlit("font_decrease");
        assert("font_decrease"@.len() == 13);
        reveal_strlit("font_reset");
        assert("font_reset"@.len() == 10);
        reveal_strlit("clipboard_copy");
        assert("clipboard_copy"@.len() == 14);
    }
    assert(named_action("primary_paste"@) == Some(ActionModel::PrimaryPaste)) by {
        reveal_strlit("primary_paste");
        assert("primary_paste"@.len() == 13);
        reveal_strlit("scrollback_up_page");
        assert("scrollback_up_page"@.len() == 18);
        reveal_strlit("scrollback_down_page");
        assert("scrollback_down_page"@.len() == 20);
        reveal_strlit("scrollback_up_line");
        assert("scrollback_up_line"@.len() == 18);
        reveal_strlit("scrollback_down_line");
        assert("scrollback_down_line"@.len() == 20);
        reveal_strlit("scrollback_home");
        assert("scrollback_home"@.len() == 15);
        reveal_strlit("scrollback_end");
        assert("scrollback_end"@.len() == 14);
        reveal_strlit("prompt_prev");
        assert("prompt_prev"@.len() == 11);
        reveal_strlit("prompt_next");
        assert("prompt_next"@.len() == 11);
        reveal_strlit("font_increase");
        assert("primary_paste"@[0] == 'p' && "font_increase"@[0] == 'f');
        reveal_strlit("font_decrease");
        assert("primary_paste"@[0] == 'p' && "font_decrease"@[0] == 'f');
        reveal_strlit("font_reset");
        assert("font_reset"@.len() == 10);
        reveal_strlit("clipboard_copy");
        assert("clipboard_copy"@.len() == 14);
        reveal_strlit("clipboard_paste");
        assert("clipboard_paste"@.len() == 15);
    }
}

/// An action is named in any case, and a command is run with what the binding says of the text to
/// hand to it: a command of one text is run by a shell.
pub proof fn law_actions_of_bindings(name: String, line: String, words: Vec<String>)
    ensures
        ActionDef::Simple(name).action() == named_action(text::lowered(name@)),
        CommandDef::Single(line).words() == seq!["sh"@, "-c"@, line@],
        CommandDef::List(words).words() == text::texts(words@),
        ActionDef::Pipe(PipeActionDef::PipeVisible(CommandDef::List(words))).action() == Some(
            ActionModel::PipeVisible(text::texts(words@)),
        ),
        ActionDef::Pipe(PipeActionDef::PipeScrollback(CommandDef::List(words))).action() == Some(
            ActionModel::PipeScrollback(text::texts(words@)),
        ),
        ActionDef::Pipe(PipeActionDef::PipeSelection(CommandDef::List(words))).action() == Some(
            ActionModel::PipeSelection(text::texts(words@)),
        ),
{
}

/// The bindings that hold where nothing is set, in order; those of the configuration come behind
/// them.
pub proof fn law_usual_bindings(list: Seq<KeyBinding>, i: int)
    requires
        0 <= i < list.len(),
    ensures
        ({
            let is = |k: int, combo: Seq<char>, action: ActionModel|
                all_entries(list)[k].combo == combo && all_entries(list)[k].action == Some(action);
            &&& is(0, "Shift+Page_Up"@, ActionModel::ScrollbackUpPage)
            &&& is(1, "Shift+KP_Page_Up"@, ActionModel::ScrollbackUpPage)
            &&& is(2, "Shift+Page_Down"@, ActionModel::ScrollbackDownPage)
            &&& is(3, "Shift+KP_Page_Down"@, ActionModel::ScrollbackDownPage)
            &&& is(4, "Ctrl+Shift+Up"@, ActionModel::ScrollbackUpLine)
            &&& is(5, "Ctrl+Shift+Down"@, ActionModel::ScrollbackDownLine)
            &&& is(6, "Shift+Home"@, ActionModel::ScrollbackHome)
            &&& is(7, "Shift+End"@, ActionModel::ScrollbackEnd)
            &&& is(8, "Ctrl+Shift+Z"@, ActionModel::PromptPrev)
            &&& is(9, "Ctrl+Shift+X"@, ActionModel::PromptNext)
            &&& is(10, "Ctrl+plus"@, ActionModel::FontIncrease)
            &&& is(11, "Ctrl+equal"@, ActionModel::FontIncrease)
            &&& is(12, "Ctrl+minus"@, ActionModel::FontDecrease)
            &&& is(13, "Ctrl+0"@, ActionModel::FontReset)
            &&& is(14, "Ctrl+Shift+c"@, ActionModel::ClipboardCopy)
            &&& is(15, "Ctrl+Insert"@, ActionModel::ClipboardCopy)
            &&& is(16, "Ctrl+Shift+v"@, ActionModel::ClipboardPaste)
            &&& is(17, "Shift+Insert"@, ActionModel::PrimaryPaste)
        }),
        all_entries(list).len() == 18 + list.len(),
        all_entries(list)[18 + i].combo == list[i].combo@,
        all_entries(list)[18 + i].action == list[i].action.action(),
{
}

/// Binding a combination replaces what it was bound to, in the same place, or comes last; the other
/// bindings stay.
pub proof fn law_bindings_replace_their_own(list: Seq<KeyBinding>, b: KeyBinding)
    ensures
        ({
            let after = with_binding(list, b);
            &&& forall|i: int|
                0 <= i < list.len() && (#[trigger] list[i]).combo@ != b.combo@ ==> after[i]
                    == list[i]
            &&& exists|i: int| 0 <= i < after.len() && #[trigger] after[i] == b
            &&& (exists|i: int| 0 <= i < list.len() && (#[trigger] list[i]).combo@ == b.combo@)
                ==> after.len() == list.len()
            &&& (forall|i: int| 0 <= i < list.len() ==> (#[trigger] list[i]).combo@ != b.combo@)
                ==> after == list.push(b)
        }),
{
    lemma_place_found(list, b.combo@);
    let at = place(list, b.combo@);
    let after = with_binding(list, b);
    assert(after[at] == b);
}

proof fn lemma_place_found(list: Seq<KeyBinding>, combo: Seq<char>)
    ensures
        0 <= place(list, combo) <= list.len(),
        place(list, combo) < list.len() ==> list[place(list, combo)].combo@ == combo,
        forall|i: int| 0 <= i < place(list, combo) ==> (#[trigger] list[i]).combo@ != combo,
    decreases list.len(),
{
    if list.len() > 0 && list[0].combo@ != combo {
        lemma_place_found(list.drop_first(), combo);
        assert forall|i: int| 0 <= i < place(list, combo) implies (#[trigger] list[i]).combo@
            != combo by {
            if i > 0 {
                assert(list.drop_first()[i - 1] == list[i]);
            }
        }
    }
}

/// Whether a binding is one of a key with modifiers.
pub open spec fn binds(b: BindingModel, mods: Modifiers, sym: u32) -> bool {
    b.mods == mods && b.symbol.sym == sym
}

proof fn lemma_bound_at(list: Seq<BindingModel>, mods: Modifiers, sym: u32)
    ensures
        0 <= bound_at(list, mods, sym) <= list.len(),
        bound_at(list, mods, sym) < list.len() ==> binds(
            list[bound_at(list, mods, sym)],
            mods,
            sym,
        ),
        forall|i: int|
            0 <= i < bound_at(list, mods, sym) ==> !binds(#[trigger] list[i], mods, sym),
    decreases list.len(),
{
    if list.len() > 0 && !(list[0].mods == mods && list[0].symbol.sym == sym) {
        lemma_bound_at(list.drop_first(), mods, sym);
        assert forall|i: int| 0 <= i < bound_at(list, mods, sym) implies !binds(
            #[trigger] list[i],
            mods,
            sym,
        ) by {
            if i > 0 {
                assert(list.drop_first()[i - 1] == list[i]);
            }
        }
    }
}

/// A later binding of a key replaces the first one that the key has with the same modifiers, or
/// comes last where there is none; a binding to no action takes that one away. All others stay, in
/// their order.
pub proof fn law_later_bindings_replace(
    list: Seq<BindingModel>,
    mods: Modifiers,
    symbol: KeySymbol,
    action: ActionModel,
    at: int,
)
    requires
        0 <= at <= list.len(),
        forall|i: int| 0 <= i < at ==> !binds(#[trigger] list[i], mods, symbol.sym),
        at < list.len() ==> binds(list[at], mods, symbol.sym),
    ensures
        ({
            let b = BindingModel { mods, symbol, action };
            &&& at < list.len() ==> applied(list, mods, symbol, Some(action)) == list.update(at, b)
            &&& at == list.len() ==> applied(list, mods, symbol, Some(action)) == list.push(b)
            &&& at < list.len() ==> applied(list, mods, symbol, None) == list.take(at) + list.skip(
                at + 1,
            )
            &&& at == list.len() ==> applied(list, mods, symbol, None) == list
        }),
{
    lemma_bound_at(list, mods, symbol.sym);
    let k = bound_at(list, mods, symbol.sym);
    if k < at {
        assert(!binds(list[k], mods, symbol.sym));
    }
    if at < k {
        assert(!binds(list[at], mods, symbol.sym));
    }
    if at < list.len() {
        assert(list.remove(at) =~= list.take(at) + list.skip(at + 1));
    }
}

/// The modifiers of a combination that can be read.
pub open spec fn held_in(e: EntryModel) -> Modifiers {
    let (mods, _) = combo_of(e.combo)->0;
    mods
}

/// Bindings hold in the order in which they are given; one whose combination cannot be read, or
/// whose key the layout does not know, changes nothing.
pub proof fn law_bindings_hold_in_order(
    entries: Seq<EntryModel>,
    symbols: Seq<KeySymbol>,
    e: EntryModel,
    symbol: KeySymbol,
)
    requires
        entries.len() == symbols.len(),
    ensures
        resolved(Seq::empty(), Seq::empty()).len() == 0,
        symbol.sym == 0 || combo_of(e.combo) is None ==> resolved(
            entries.push(e),
            symbols.push(symbol),
        ) == resolved(entries, symbols),
        symbol.sym != 0 && combo_of(e.combo) is Some ==> resolved(
            entries.push(e),
            symbols.push(symbol),
        ) == applied(resolved(entries, symbols), held_in(e), symbol, e.action),
{
    assert(entries.push(e).drop_last() =~= entries);
    assert(symbols.push(symbol).drop_last() =~= symbols);
}

/// The keys to look up are those of the combinations, one for each binding and in their order, and
/// none where a combination cannot be read.
pub proof fn law_keys_to_look_up(entries: Seq<EntryModel>, i: int)
    requires
        0 <= i < entries.len(),
    ensures
        entry_keys(entries).len() == entries.len(),
        combo_of(entries[i].combo) is None ==> entry_keys(entries)[i] is None,
        combo_of(entries[i].combo) matches Some((_, key)) ==> entry_keys(entries)[i] == Some(key),
{
}

/// Further files are named one by one, in order.
pub proof fn law_further_files(path: String, paths: Vec<String>)
    ensures
        Include::Single(path).paths() == seq![path@],
        Include::Multiple(paths).paths() == text::texts(paths@),
        text::texts(paths@).len() == paths@.len(),
        forall|i: int| 0 <= i < paths@.len() ==> #[trigger] text::texts(paths@)[i] == paths@[i]@,
{
}

/// An absolute path stands for itself; any other is looked up in the directory, with exactly one
/// slash between them where the directory has a name.
pub proof fn law_paths_are_joined(base: Seq<char>, path: Seq<char>)
    ensures
        path.len() > 0 && path[0] == '/' ==> joined_path(base, path) == path,
        (path.len() == 0 || path[0] != '/') && base.len() > 0 && base.last() != '/'
            ==> joined_path(base, path) == base + seq!['/'] + path,
        (path.len() == 0 || path[0] != '/') && base.len() > 0 && base.last() == '/'
            ==> joined_path(base, path) == base + path,
        (path.len() == 0 || path[0] != '/') && base.len() == 0 ==> joined_path(base, path) == path,
{
    assert(base.push('/') + path =~= base + seq!['/'] + path);
    assert(Seq::<char>::empty() + path =~= path);
    if base.len() == 0 {
        assert(base + path =~= path);
    }
}

/// A path that starts with a tilde and a slash is looked up in the home directory where one is
/// known, and any other in the directory of the file that names it.
pub proof fn law_paths_are_resolved(path: Seq<char>, base: Seq<char>, home: Seq<char>)
    ensures
        resolved_path(seq!['~', '/'] + path, base, Some(home)) == joined_path(home, path),
        resolved_path(path, base, None) == joined_path(base, path),
        path.len() < 2 || path[0] != '~' || path[1] != '/' ==> resolved_path(path, base, Some(home))
            == joined_path(base, path),
{
    assert((seq!['~', '/'] + path).skip(2) =~= path);
}

/// The configuration file lies in a directory of its own below the directory for configurations, or
/// below `.config` in the home directory; without either there is none.
pub proof fn law_the_configuration_file(xdg: Seq<char>, home: Option<Seq<char>>, h: Seq<char>)
    requires
        xdg.len() > 0 && xdg.last() != '/',
        h.len() > 0 && h.last() != '/',
    ensures
        default_path(Some(xdg), home) == Some(xdg + "/ftty/ftty.toml"@),
        default_path(None, Some(h)) == Some(h + "/.config/ftty/ftty.toml"@),
        default_path(None, None) is None,
{
    reveal_strlit("ftty");
    reveal_strlit("ftty.toml");
    reveal_strlit(".config");
    reveal_strlit("/ftty/ftty.toml");
    reveal_strlit("/.config/ftty/ftty.toml");
    assert("ftty"@ =~= seq!['f', 't', 't', 'y']);
    assert(".config"@ =~= seq!['.', 'c', 'o', 'n', 'f', 'i', 'g']);
    assert("ftty.toml"@ =~= seq!['f', 't', 't', 'y', '.', 't', 'o', 'm', 'l']);
    let file = "ftty.toml"@;
    assert("/ftty/ftty.toml"@ =~= seq!['/'] + "ftty"@ + seq!['/'] + file);
    assert("/.config/ftty/ftty.toml"@ =~= seq!['/'] + ".config"@ + seq!['/'] + "ftty"@ + seq!['/']
        + file);
    law_paths_are_joined(xdg, "ftty"@);
    let a = joined_path(xdg, "ftty"@);
    assert(a.last() == 'y');
    law_paths_are_joined(a, file);
    assert(joined_path(a, file) =~= xdg + "/ftty/ftty.toml"@);
    law_paths_are_joined(h, ".config"@);
    let b = joined_path(h, ".config"@);
    assert(b.last() == 'g');
    law_paths_are_joined(b, "ftty"@);
    let c = joined_path(b, "ftty"@);
    assert(c.last() == 'y');
    law_paths_are_joined(c, file);
    assert(joined_path(c, file) =~= h + "/.config/ftty/ftty.toml"@);
}

} // verus!
