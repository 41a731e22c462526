//! Configuration files: defaults, settings, files that name others, and key bindings.

use ftty::color::Rgb;
use ftty::config::bindings::{ActionDef, CommandDef, KeyBinding, PipeActionDef};
use ftty::config::paths::{combine, default_config_path, resolve_path, Include, OpenFiles};
use ftty::config::{
    Config, FontFamilies, FreeTypeLoadFlags, FreeTypeLoadTarget, FreeTypeRenderTarget, Padding,
    PaletteConfig,
};
use ftty::grid::CursorShape;
use ftty::input::{Binding, KeyAction, KeyRef, KeySymbol};

fn text_of(v: &toml::Value) -> Result<String, String> {
    v.as_str().map(str::to_string).ok_or("expected a text".to_string())
}

fn texts_of(v: &toml::Value) -> Result<Vec<String>, String> {
    v.as_array().ok_or("expected a list".to_string())?.iter().map(text_of).collect()
}

fn float_of(v: &toml::Value) -> Result<u32, String> {
    let n = v.as_float().or(v.as_integer().map(|i| i as f64)).ok_or("expected a number")?;
    Ok((n as f32).to_bits())
}

fn color_of(v: &toml::Value) -> Result<Rgb, String> {
    Rgb::parse(&text_of(v)?)
}

fn palette_entry(p: &mut PaletteConfig, name: &str, color: Rgb) -> bool {
    let slot = match name {
        "black" => &mut p.black,
        "red" => &mut p.red,
        "green" => &mut p.green,
        "yellow" => &mut p.yellow,
        "blue" => &mut p.blue,
        "magenta" => &mut p.magenta,
        "cyan" => &mut p.cyan,
        "white" => &mut p.white,
        "bright_black" => &mut p.bright_black,
        "bright_red" => &mut p.bright_red,
        "bright_green" => &mut p.bright_green,
        "bright_yellow" => &mut p.bright_yellow,
        "bright_blue" => &mut p.bright_blue,
        "bright_magenta" => &mut p.bright_magenta,
        "bright_cyan" => &mut p.bright_cyan,
        "bright_white" => &mut p.bright_white,
        _ => return false,
    };
    *slot = Some(color);
    true
}

fn command_of(v: &toml::Value) -> Result<CommandDef, String> {
    if v.is_str() {
        Ok(CommandDef::Single(text_of(v)?))
    } else {
        Ok(CommandDef::List(texts_of(v)?))
    }
}

fn action_of(v: &toml::Value) -> Result<ActionDef, String> {
    if v.is_str() {
        return Ok(ActionDef::Simple(text_of(v)?));
    }
    let table = v.as_table().ok_or("expected a table")?;
    let (name, command) = table.iter().next().ok_or("expected an action")?;
    let command = command_of(command)?;
    match name.as_str() {
        "pipe_visible" => Ok(ActionDef::Pipe(PipeActionDef::PipeVisible(command))),
        "pipe_scrollback" => Ok(ActionDef::Pipe(PipeActionDef::PipeScrollback(command))),
        "pipe_selection" => Ok(ActionDef::Pipe(PipeActionDef::PipeSelection(command))),
        other => Err(format!("unknown action {other}")),
    }
}

/// Reads a configuration file's text setting by setting.
fn read_config(text: &str) -> Result<Config, String> {
    let file: toml::Table = text.parse().map_err(|e| format!("{e}"))?;
    let mut c = Config::default();
    for (section, value) in &file {
        if section == "include" {
            c.includes = Some(if value.is_str() {
                Include::Single(text_of(value)?)
            } else {
                Include::Multiple(texts_of(value)?)
            });
            continue;
        }
        for (name, v) in value.as_table().ok_or("expected a table")? {
            match (section.as_str(), name.as_str()) {
                ("font", "family" | "families") => {
                    c.font.family = Some(if v.is_str() {
                        FontFamilies::Single(text_of(v)?)
                    } else {
                        FontFamilies::Multiple(texts_of(v)?)
                    });
                }
                ("font", "size") => c.font.size = Some(float_of(v)?),
                ("font", "freetype_load_target") => {
                    let found = FreeTypeLoadTarget::from_name(&text_of(v)?);
                    c.font.freetype_load_target = Some(found.ok_or("unknown load target")?);
                }
                ("font", "freetype_render_target") => {
                    let found = FreeTypeRenderTarget::from_name(&text_of(v)?);
                    c.font.freetype_render_target = Some(found.ok_or("unknown render target")?);
                }
                ("font", "freetype_load_flags") => {
                    let found = FreeTypeLoadFlags::from_name(&text_of(v)?);
                    c.font.freetype_load_flags = Some(found.ok_or("unknown load flags")?);
                }
                ("window", "padding") => {
                    c.window.padding = Some(match v.as_integer() {
                        Some(n) => Padding::Uniform(n as u16),
                        None => {
                            let axes = v.as_array().ok_or("expected a list")?;
                            let axis = |i: usize| axes[i].as_integer().unwrap_or(0) as u16;
                            Padding::Axes([axis(0), axis(1)])
                        }
                    });
                }
                ("cursor", "shape") => {
                    c.cursor.shape = Some(match v.as_str() {
                        Some("beam") => CursorShape::Beam,
                        Some("underline") => CursorShape::Underline,
                        _ => CursorShape::Block,
                    });
                }
                ("colors", "foreground") => c.colors.foreground = Some(color_of(v)?),
                ("colors", "background") => c.colors.background = Some(color_of(v)?),
                ("colors", "palette") => {
                    let mut p = PaletteConfig::default();
                    for (name, v) in v.as_table().ok_or("expected a table")? {
                        palette_entry(&mut p, name, color_of(v)?);
                    }
                    c.colors.palette = Some(p);
                }
                ("colors", "indexed") => {
                    let mut indexed = std::collections::HashMap::new();
                    for (i, v) in v.as_table().ok_or("expected a table")? {
                        indexed.insert(i.parse::<u8>().map_err(|e| format!("{e}"))?, color_of(v)?);
                    }
                    c.colors.indexed = Some(indexed);
                }
                ("colors", name) => {
                    palette_entry(&mut c.colors.ansi, name, color_of(v)?);
                }
                ("scrollback", "lines") => {
                    c.scrollback.lines = v.as_integer().map(|n| n as u32);
                }
                ("scrollback", "multiplier") => c.scrollback.multiplier = Some(float_of(v)?),
                ("scrollback", "auto_scroll") => c.scrollback.auto_scroll = v.as_bool(),
                ("clipboard", "allow_osc52_read") => c.clipboard.allow_osc52_read = v.as_bool(),
                ("clipboard", "allow_osc52_write") => c.clipboard.allow_osc52_write = v.as_bool(),
                ("keybindings", combo) => {
                    let action = action_of(v)?;
                    c.keybindings.bind(KeyBinding {
                        combo: combo.to_string(),
                        action,
                    });
                }
                other => panic!("no setting {other:?}"),
            }
        }
    }
    Ok(c)
}

fn size_of(c: &Config) -> f32 {
    f32::from_bits(c.font_size())
}

/// The bindings in force, with the symbols of single characters and of nothing else.
fn resolved(c: &Config) -> Vec<Binding> {
    let symbol = |key: &Option<KeyRef>| match key {
        Some(KeyRef::Symbol(sym)) => KeySymbol { sym: *sym, code: 0 },
        Some(KeyRef::Character(ch)) => KeySymbol {
            sym: *ch as u32,
            code: *ch as u32,
        },
        _ => KeySymbol { sym: 0, code: 0 },
    };
    let symbols: Vec<KeySymbol> = c.keybindings.keys().iter().map(symbol).collect();
    c.keybindings.resolve_bindings(&symbols)
}

fn bound_to(bindings: &[Binding], lower: char, upper: char) -> Option<&KeyAction> {
    bindings
        .iter()
        .find(|b| b.symbol.sym == lower as u32 || b.symbol.sym == upper as u32)
        .map(|b| &b.action)
}


#[test]
fn tests_test_default_config_values() {
    let config = Config::default();
    assert_eq!(config.font_family(), "monospace");
    assert_eq!(size_of(&config), 14.0);
    assert_eq!(config.padding(), [0, 0]);
    assert_eq!(config.cursor_shape(), CursorShape::Block);
    assert_eq!(config.foreground(), Rgb::new(220, 220, 220));
    assert_eq!(config.background(), Rgb::new(24, 24, 24));
}

#[test]
fn tests_test_parse_basic_toml() {
    let toml_str = r##"
    [font]
    family = ["JetBrains Mono", "Noto Sans CJK SC", "Noto Color Emoji"]
    size = 16.5

    [window]
    padding = [4, 6]

    [cursor]
    shape = "beam"

    [colors]
    foreground = "#ffffff"
    background = "#000000"
    red = "#ff0000"
    bright_red = "#ff5555"
    "##;

    let config: Config = read_config(toml_str).expect("parse toml");
    assert_eq!(config.font_family(), "JetBrains Mono");
    assert_eq!(
        config.font_families(),
        vec![
            "JetBrains Mono".to_string(),
            "Noto Sans CJK SC".to_string(),
            "Noto Color Emoji".to_string(),
        ]
    );
    assert_eq!(size_of(&config), 16.5);
    assert_eq!(config.padding(), [4, 6]);
    assert_eq!(config.padding_x(), 4);
    assert_eq!(config.padding_y(), 6);
    assert_eq!(config.cursor_shape(), CursorShape::Beam);
    assert_eq!(config.foreground(), Rgb::new(255, 255, 255));
    assert_eq!(config.background(), Rgb::new(0, 0, 0));

    let palette = config.build_palette();
    assert_eq!(palette[1], Rgb::new(255, 0, 0));
    assert_eq!(palette[9], Rgb::new(255, 85, 85));
}

#[test]
fn test_parse_padding_scalar() {
    let toml_str = r#"
    [window]
    padding = 8
    "#;
    let config: Config = read_config(toml_str).expect("parse padding scalar");
    assert_eq!(config.padding(), [8, 8]);
    assert_eq!(config.padding_x(), 8);
    assert_eq!(config.padding_y(), 8);
}

#[test]
fn test_parse_font_chain() {
    let toml_str = r#"
    [font]
    families = ["Fira Code", "Symbols Nerd Font", "Noto Sans CJK SC"]
    size = 15.0
    "#;
    let config: Config = read_config(toml_str).expect("parse toml with font chain");
    assert_eq!(config.font_family(), "Fira Code");
    assert_eq!(
        config.font_families(),
        vec!["Fira Code", "Symbols Nerd Font", "Noto Sans CJK SC"]
    );
    assert_eq!(size_of(&config), 15.0);
}

#[test]
fn tests_test_parse_scrollback_and_keybindings() {
    let toml_str = r##"
    [scrollback]
    lines = 5000
    multiplier = 5.5
    auto_scroll = false

    [keybindings]
    "Shift+PageUp" = "scrollback_up_page"
    "Shift+KP_PageUp" = "scrollback_up_page"
    "Shift+PageDown" = "scrollback_down_page"
    "Ctrl+Shift+C" = "clipboard_copy"
    "Ctrl+Shift+V" = "none"
    "Ctrl+Shift+U" = { pipe_visible = ["urlscan"] }
    "Ctrl+Shift+F" = { pipe_scrollback = ["sh", "-c", "fzf | wl-copy"] }
    "Ctrl+Shift+Y" = { pipe_selection = "wl-copy" }
    "##;

    let config: Config = read_config(toml_str).expect("parse toml");
    assert_eq!(config.scrollback_lines(), 5000);
    assert_eq!(f32::from_bits(config.scroll_multiplier()), 5.5);
    assert!(!config.auto_scroll());

    let bindings = resolved(&config);
    assert_eq!(
        bound_to(&bindings, 'u', 'U'),
        Some(&KeyAction::PipeVisible(vec!["urlscan".to_string()]))
    );
    assert_eq!(
        bound_to(&bindings, 'y', 'Y'),
        Some(&KeyAction::PipeSelection(vec![
            "sh".to_string(),
            "-c".to_string(),
            "wl-copy".to_string()
        ]))
    );

    // Verify unbind "none" removed Ctrl+Shift+V
    assert_eq!(bound_to(&bindings, 'v', 'V'), None);
}

#[test]
fn test_parse_font_size_and_family() {
    let toml_default = r#"
        [font]
        size = 14.0
    "#;
    let config: Config = read_config(toml_default).unwrap();
    assert_eq!(size_of(&config), 14.0);

    let mut base = Config::default();
    let mut inc = Config::default();
    inc.font.size = Some(16.0f32.to_bits());
    base.merge(inc);
    assert_eq!(size_of(&base), 16.0);
}

#[test]
fn test_clipboard_security_config() {
    let toml_str = r#"
        [clipboard]
        allow_osc52_read = true
        allow_osc52_write = false
    "#;
    let config: Config = read_config(toml_str).unwrap();
    assert!(config.allow_osc52_read());
    assert!(!config.allow_osc52_write());

    let default_config = Config::default();
    assert!(!default_config.allow_osc52_read());
    assert!(default_config.allow_osc52_write());

    let mut base = Config::default();
    let mut inc = Config::default();
    inc.clipboard.allow_osc52_read = Some(true);
    base.merge(inc);
    assert!(base.allow_osc52_read());
}

#[test]
fn test_flattened_colors_all_ansi_and_indexed() {
    let toml_str = r##"
    [colors]
    foreground = "#dcdcdc"
    background = "#181818"
    black = "#000000"
    red = "#cc0403"
    green = "#19cb00"
    yellow = "#cecb00"
    blue = "#0d73cc"
    magenta = "#cb1ed1"
    cyan = "#0dcdcd"
    white = "#e5e5e5"
    bright_black = "#767676"
    bright_red = "#f2201f"
    bright_green = "#23fd00"
    bright_yellow = "#fffd00"
    bright_blue = "#1a8fff"
    bright_magenta = "#fd28ff"
    bright_cyan = "#14ffff"
    bright_white = "#ffffff"

    [colors.indexed]
    16 = "#ff0088"
    255 = "#112233"
    "##;

    let config: Config = read_config(toml_str).expect("parse flat colors toml");
    assert_eq!(config.foreground(), Rgb::new(0xdc, 0xdc, 0xdc));
    assert_eq!(config.background(), Rgb::new(0x18, 0x18, 0x18));

    let palette = config.build_palette();
    assert_eq!(palette[0], Rgb::new(0, 0, 0));
    assert_eq!(palette[1], Rgb::new(0xcc, 0x04, 0x03));
    assert_eq!(palette[2], Rgb::new(0x19, 0xcb, 0x00));
    assert_eq!(palette[3], Rgb::new(0xce, 0xcb, 0x00));
    assert_eq!(palette[4], Rgb::new(0x0d, 0x73, 0xcc));
    assert_eq!(palette[5], Rgb::new(0xcb, 0x1e, 0xd1));
    assert_eq!(palette[6], Rgb::new(0x0d, 0xcd, 0xcd));
    assert_eq!(palette[7], Rgb::new(0xe5, 0xe5, 0xe5));
    assert_eq!(palette[8], Rgb::new(0x76, 0x76, 0x76));
    assert_eq!(palette[9], Rgb::new(0xf2, 0x20, 0x1f));
    assert_eq!(palette[10], Rgb::new(0x23, 0xfd, 0x00));
    assert_eq!(palette[11], Rgb::new(0xff, 0xfd, 0x00));
    assert_eq!(palette[12], Rgb::new(0x1a, 0x8f, 0xff));
    assert_eq!(palette[13], Rgb::new(0xfd, 0x28, 0xff));
    assert_eq!(palette[14], Rgb::new(0x14, 0xff, 0xff));
    assert_eq!(palette[15], Rgb::new(0xff, 0xff, 0xff));
    assert_eq!(palette[16], Rgb::new(0xff, 0x00, 0x88));
    assert_eq!(palette[255], Rgb::new(0x11, 0x22, 0x33));
}

#[test]
fn test_legacy_palette_subtable_backward_compatibility() {
    let toml_str = r##"
    [colors]
    foreground = "#ffffff"
    background = "#000000"

    [colors.palette]
    red = "#ff0000"
    blue = "#0000ff"
    "##;

    let config: Config = read_config(toml_str).expect("parse legacy palette toml");
    let palette = config.build_palette();
    assert_eq!(palette[1], Rgb::new(255, 0, 0));
    assert_eq!(palette[4], Rgb::new(0, 0, 255));
}

#[test]
fn test_case_insensitive_freetype_config_parsing() {
    let toml_pascal = r#"
    [font]
    freetype_load_target = "Light"
    freetype_render_target = "HorizontalLcd"
    freetype_load_flags = "NO_HINTING"
    "#;
    let cfg1: Config = read_config(toml_pascal).expect("parse pascal");
    assert_eq!(cfg1.freetype_load_target(), FreeTypeLoadTarget::Light);
    assert_eq!(
        cfg1.freetype_render_target(),
        FreeTypeRenderTarget::HorizontalLcd
    );
    assert_eq!(cfg1.freetype_load_flags(), FreeTypeLoadFlags::NoHinting);

    let toml_snake_lower = r#"
    [font]
    freetype_load_target = "light"
    freetype_render_target = "horizontal_lcd"
    freetype_load_flags = "no_hinting"
    "#;
    let cfg2: Config = read_config(toml_snake_lower).expect("parse snake lower");
    assert_eq!(cfg2.freetype_load_target(), FreeTypeLoadTarget::Light);
    assert_eq!(
        cfg2.freetype_render_target(),
        FreeTypeRenderTarget::HorizontalLcd
    );
    assert_eq!(cfg2.freetype_load_flags(), FreeTypeLoadFlags::NoHinting);

    let toml_upper = r#"
    [font]
    freetype_load_target = "LIGHT"
    freetype_render_target = "NORMAL"
    freetype_load_flags = "DEFAULT"
    "#;
    let cfg3: Config = read_config(toml_upper).expect("parse upper");
    assert_eq!(cfg3.freetype_load_target(), FreeTypeLoadTarget::Light);
    assert_eq!(cfg3.freetype_render_target(), FreeTypeRenderTarget::Normal);
    assert_eq!(cfg3.freetype_load_flags(), FreeTypeLoadFlags::Default);

    // Invalid values are rejected with informative errors
    let toml_invalid = r#"
    [font]
    freetype_load_target = "super_heavy"
    "#;
    assert!(read_config(toml_invalid).is_err());
}

#[test]
fn test_include_keybindings_prompt_navigation() {
    let mut base = Config::default();
    let mut inc = Config::default();
    inc.keybindings.bind(KeyBinding {
        combo: "Ctrl+Shift+K".to_string(),
        action: ActionDef::Simple("prompt_prev".to_string()),
    });
    inc.keybindings.bind(KeyBinding {
        combo: "Ctrl+Shift+J".to_string(),
        action: ActionDef::Simple("prompt_next".to_string()),
    });
    base.merge(inc);
    let bindings = resolved(&base);
    assert_eq!(bound_to(&bindings, 'k', 'K'), Some(&KeyAction::PromptPrev));
    assert_eq!(bound_to(&bindings, 'j', 'J'), Some(&KeyAction::PromptNext));
}

#[test]
fn tests_test_include_merging_and_override() {
    let theme = read_config(
        r##"
        [colors]
        foreground = "#aaaaaa"
        background = "#111111"
        blue = "#0000ff"
        "##,
    )
    .unwrap();
    let main = read_config(
        r##"
        include = "theme.toml"

        [font]
        size = 18.0

        [colors]
        background = "#222222"
        "##,
    )
    .unwrap();
    let named = main.includes.as_ref().unwrap().to_paths();
    assert_eq!(named, vec!["theme.toml"]);
    assert_eq!(resolve_path(&named[0], "/etc/ftty", None), "/etc/ftty/theme.toml");
    let config = combine(vec![theme], main);
    assert_eq!(size_of(&config), 18.0);
    assert_eq!(config.foreground(), Rgb::new(170, 170, 170)); // from theme.toml
    assert_eq!(config.background(), Rgb::new(34, 34, 34)); // overridden by main
    let palette = config.build_palette();
    assert_eq!(palette[4], Rgb::new(0, 0, 255)); // from theme.toml
}

#[test]
fn tests_test_circular_include_rejection() {
    let a = read_config("include = 'b.toml'").unwrap();
    let b = read_config("include = 'a.toml'").unwrap();
    let mut open = OpenFiles::new();
    assert!(open.enter("/etc/a.toml".to_string()).is_ok());
    let next = resolve_path(&a.includes.unwrap().to_paths()[0], "/etc", None);
    assert!(open.enter(next).is_ok());
    let next = resolve_path(&b.includes.unwrap().to_paths()[0], "/etc", None);
    assert_eq!(
        open.enter(next),
        Err("circular include detected: /etc/a.toml".to_string())
    );
    // A file that was left can be entered again.
    open.leave();
    assert!(open.enter("/etc/b.toml".to_string()).is_ok());
}

#[test]
fn later_settings_win_and_missing_ones_do_not() {
    let mut base = read_config("[font]\nsize = 10.0\n[scrollback]\nlines = 7").unwrap();
    base.merge(read_config("[font]\nsize = 12.0").unwrap());
    assert_eq!(size_of(&base), 12.0);
    assert_eq!(base.scrollback_lines(), 7);
    base.merge(Config::default());
    assert_eq!(size_of(&base), 12.0);
    assert_eq!(base.scrollback_lines(), 7);
}

#[test]
fn merging_does_not_depend_on_grouping() {
    let read = |s: &str| read_config(s).unwrap();
    let a = "[scrollback]\nlines = 1\nauto_scroll = false";
    let b = "[scrollback]\nlines = 2\n[window]\npadding = 3";
    let c = "[window]\npadding = 4";
    let mut left = read(a);
    left.merge(read(b));
    left.merge(read(c));
    let mut tail = read(b);
    tail.merge(read(c));
    let mut right = read(a);
    right.merge(tail);
    for config in [left, right] {
        assert_eq!(config.scrollback_lines(), 2);
        assert_eq!(config.padding(), [4, 4]);
        assert!(!config.auto_scroll());
    }
}

#[test]
fn the_last_binding_of_a_combination_counts() {
    let mut config = Config::default();
    for name in ["scrollback_home", "scrollback_end"] {
        config.keybindings.bind(KeyBinding {
            combo: "Ctrl+q".to_string(),
            action: ActionDef::Simple(name.to_string()),
        });
    }
    assert_eq!(config.keybindings.bindings.len(), 1);
    let bindings = resolved(&config);
    assert_eq!(bound_to(&bindings, 'q', 'Q'), Some(&KeyAction::ScrollbackEnd));
}

#[test]
fn multipliers_stay_in_range() {
    let multiplier = |s: &str| {
        f32::from_bits(read_config(&format!("[scrollback]\nmultiplier = {s}")).unwrap().scroll_multiplier())
    };
    assert_eq!(multiplier("0.0"), 0.1);
    assert_eq!(multiplier("5000.0"), 100.0);
    assert_eq!(multiplier("2.5"), 2.5);
    assert_eq!(f32::from_bits(Config::default().scroll_multiplier()), 3.0);
}

#[test]
fn paths_of_files() {
    assert_eq!(resolve_path("~/a.toml", "/etc", Some("/home/u")), "/home/u/a.toml");
    assert_eq!(resolve_path("/a.toml", "/etc", Some("/home/u")), "/a.toml");
    assert_eq!(
        default_config_path(Some("/x"), Some("/home/u")),
        Some("/x/ftty/ftty.toml".to_string())
    );
    assert_eq!(
        default_config_path(None, Some("/home/u")),
        Some("/home/u/.config/ftty/ftty.toml".to_string())
    );
    assert_eq!(default_config_path(None, None), None);
}

#[test]
fn merging_twice_changes_nothing_more() {
    let more = "[scrollback]\nlines = 2\n[window]\npadding = 3\n[keybindings]\n\"Ctrl+q\" = \"scrollback_home\"";
    let mut once = read_config("[scrollback]\nlines = 1\nauto_scroll = false").unwrap();
    once.merge(read_config(more).unwrap());
    let mut twice = read_config("[scrollback]\nlines = 1\nauto_scroll = false").unwrap();
    twice.merge(read_config(more).unwrap());
    twice.merge(read_config(more).unwrap());
    assert_eq!(format!("{once:?}"), format!("{twice:?}"));
    assert_eq!(twice.scrollback_lines(), 2);
    assert_eq!(twice.keybindings.bindings.len(), 1);
}
