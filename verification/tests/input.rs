//! Key combinations, shortcuts and the bytes that keys send.

use ftty::config::bindings::{
    ActionDef, CommandDef, KeyBinding, KeybindingsConfig, PipeActionDef,
};
use ftty::input::keysyms::{
    KEY_0, KEY_BACKSPACE, KEY_DELETE, KEY_DOWN, KEY_END, KEY_EQUAL, KEY_ESCAPE, KEY_F13, KEY_F35,
    KEY_HOME, KEY_INSERT, KEY_KP_PAGE_UP, KEY_LEFT, KEY_MINUS, KEY_PAGE_DOWN, KEY_PAGE_UP,
    KEY_PLUS, KEY_RETURN, KEY_RIGHT, KEY_TAB, KEY_UP,
};
use ftty::input::{
    keymap_text, parse_key_combo, Binding, KeyAction, KeyReading, KeyRef, KeySymbol, KeyboardHandler,
    KeymapText, KittyKeyboardFlags, Modifiers,
};

const NONE: Modifiers = Modifiers {
    ctrl: false,
    alt: false,
    shift: false,
    logo: false,
};
const SHIFT: Modifiers = Modifiers {
    shift: true,
    ..NONE
};
const CTRL: Modifiers = Modifiers { ctrl: true, ..NONE };
const CTRL_SHIFT: Modifiers = Modifiers {
    ctrl: true,
    shift: true,
    ..NONE
};

/// What a US layout makes of a physical key.
fn key(code: u32, mods: Modifiers) -> KeyReading {
    let (sym, point, text) = match code {
        28 => (KEY_RETURN, 0x0d, "\r"),
        14 => (KEY_BACKSPACE, 0x08, "\x08"),
        15 => (KEY_TAB, 0x09, "\t"),
        1 => (KEY_ESCAPE, 0x1b, "\x1b"),
        103 => (KEY_UP, 0, ""),
        108 => (KEY_DOWN, 0, ""),
        105 => (KEY_LEFT, 0, ""),
        106 => (KEY_RIGHT, 0, ""),
        102 => (KEY_HOME, 0, ""),
        107 => (KEY_END, 0, ""),
        104 => (KEY_PAGE_UP, 0, ""),
        109 => (KEY_PAGE_DOWN, 0, ""),
        110 => (KEY_INSERT, 0, ""),
        111 => (KEY_DELETE, 0x7f, "\x7f"),
        13 => (KEY_EQUAL, 0x3d, "="),
        12 => (KEY_MINUS, 0x2d, "-"),
        11 => (KEY_0, 0x30, "0"),
        46 if mods.shift => (0x43, 0x43, "C"),
        47 if mods.shift => (0x56, 0x56, "V"),
        22 if mods.shift => (0x55, 0x55, "U"),
        46 => (0x63, 0x63, "c"),
        30 => (0x61, 0x61, "a"),
        other => panic!("no key {other}"),
    };
    KeyReading {
        symbol: KeySymbol { sym, code: point },
        text: text.to_string(),
        mods,
    }
}

/// The symbol of a key in a combination.
fn symbol(key: &Option<KeyRef>) -> KeySymbol {
    match key {
        Some(KeyRef::Symbol(sym)) => KeySymbol {
            sym: *sym,
            code: if *sym < 0x100 { *sym } else { 0 },
        },
        Some(KeyRef::Character(c)) => KeySymbol {
            sym: *c as u32,
            code: *c as u32,
        },
        Some(KeyRef::Named(name)) if name == "kp_pageup" => KeySymbol {
            sym: KEY_KP_PAGE_UP,
            code: 0,
        },
        _ => KeySymbol { sym: 0, code: 0 },
    }
}

fn resolved(config: &KeybindingsConfig) -> Vec<Binding> {
    let symbols: Vec<KeySymbol> = config.keys().iter().map(symbol).collect();
    config.resolve_bindings(&symbols)
}

fn simple(combo: &str, name: &str) -> KeybindingsConfig {
    KeybindingsConfig {
        bindings: vec![KeyBinding {
            combo: combo.to_string(),
            action: ActionDef::Simple(name.to_string()),
        }],
    }
}

fn translation() {
    let handler = KeyboardHandler::new();
    assert_eq!(handler.handle_key(Some(&key(28, NONE))), Some(b"\r".to_vec()));
    assert_eq!(handler.handle_key(Some(&key(14, NONE))), Some(b"\x7f".to_vec()));
    assert_eq!(handler.handle_key(Some(&key(15, NONE))), Some(b"\t".to_vec()));
    assert_eq!(handler.handle_key(Some(&key(1, NONE))), Some(b"\x1b".to_vec()));
    assert_eq!(handler.handle_key(Some(&key(103, NONE))), Some(b"\x1b[A".to_vec()));
    assert_eq!(handler.handle_key(Some(&key(108, NONE))), Some(b"\x1b[B".to_vec()));
}

#[test]
fn input_test_keyboard_keymap_and_translation() {
    translation();
}

#[test]
fn tests_test_keyboard_keymap_and_translation() {
    translation();
}

#[test]
fn test_parse_key_combo() {
    let (mods, sym) = parse_key_combo("Shift+PageUp").unwrap();
    assert!(mods.shift);
    assert!(!mods.ctrl);
    assert_eq!(symbol(&Some(sym)).sym, KEY_PAGE_UP);

    let (mods, sym) = parse_key_combo("Ctrl+Shift+c").unwrap();
    assert!(mods.ctrl);
    assert!(mods.shift);
    assert_eq!(symbol(&Some(sym)).sym, 0x63);

    let (mods, sym) = parse_key_combo("Control+Plus").unwrap();
    assert!(mods.ctrl);
    assert_eq!(symbol(&Some(sym)).sym, KEY_PLUS);

    assert!(parse_key_combo("none").is_none());
    assert!(parse_key_combo("").is_none());
}

#[test]
fn combinations_with_unknown_modifiers_are_refused() {
    assert!(parse_key_combo("Hyper+x").is_none());
    let (mods, sym) = parse_key_combo("Super+Alt+KP_Whatever").unwrap();
    assert!(mods.logo && mods.alt);
    assert!(matches!(sym, KeyRef::Named(name) if name == "kp_whatever"));
}

#[test]
fn test_check_action_default_bindings() {
    let handler = KeyboardHandler::new();
    let config = resolved(&KeybindingsConfig::default());
    let check = |code: u32, mods: Modifiers, bindings: &Vec<Binding>| {
        handler.check_action(Some(&key(code, mods)), bindings)
    };

    // With no modifiers active, PageUp (evdev 104) is NOT an action
    assert!(check(104, NONE, &config).is_none());

    assert_eq!(check(104, SHIFT, &config), Some(KeyAction::ScrollbackUpPage));
    assert_eq!(check(109, SHIFT, &config), Some(KeyAction::ScrollbackDownPage));

    assert_eq!(check(46, CTRL_SHIFT, &config), Some(KeyAction::ClipboardCopy));
    assert_eq!(check(47, CTRL_SHIFT, &config), Some(KeyAction::ClipboardPaste));

    assert_eq!(check(13, CTRL, &config), Some(KeyAction::FontIncrease));
    assert_eq!(check(12, CTRL, &config), Some(KeyAction::FontDecrease));
    assert_eq!(check(11, CTRL, &config), Some(KeyAction::FontReset));

    // Disabling clipboard_paste with "none" keeps primary_paste (Shift+Insert)
    let custom_paste = resolved(&simple("Ctrl+Shift+V", "none"));
    assert_eq!(check(47, CTRL_SHIFT, &custom_paste), None);
    assert_eq!(check(110, SHIFT, &custom_paste), Some(KeyAction::PrimaryPaste));

    // Disabling primary_paste with "none" disables Shift+Insert
    let custom_primary = resolved(&simple("Shift+Insert", "none"));
    assert_eq!(check(110, SHIFT, &custom_primary), None);

    // Disabling clipboard_copy with "none"
    let custom_copy = resolved(&simple("Ctrl+Shift+C", "none"));
    assert_eq!(check(46, CTRL_SHIFT, &custom_copy), None);

    // Custom pipe action
    let custom_pipe = resolved(&KeybindingsConfig {
        bindings: vec![KeyBinding {
            combo: "Ctrl+Shift+U".to_string(),
            action: ActionDef::Pipe(PipeActionDef::PipeVisible(CommandDef::List(vec![
                "urlscan".to_string(),
            ]))),
        }],
    });
    assert_eq!(
        check(22, CTRL_SHIFT, &custom_pipe),
        Some(KeyAction::PipeVisible(vec!["urlscan".to_string()]))
    );
}

#[test]
fn test_kitty_keyboard_encoding() {
    let mut handler = KeyboardHandler::new();
    let enter = key(28, NONE);

    // Default flags = 0: ordinary VT output
    assert_eq!(handler.handle_key_event(Some(&enter), true, false), Some(b"\r".to_vec()));

    // Release event ignored when REPORT_EVENT_TYPES is off
    assert_eq!(handler.handle_key_event(Some(&enter), false, false), None);

    // Enable DISAMBIGUATE (1)
    handler.set_kitty_mode(KittyKeyboardFlags::DISAMBIGUATE, 1);
    assert_eq!(
        handler.handle_key_event(Some(&enter), true, false),
        Some(b"\x1b[13u".to_vec())
    );

    // Enable REPORT_EVENT_TYPES (2) via union (mode 2)
    handler.set_kitty_mode(KittyKeyboardFlags::REPORT_EVENT_TYPES, 2);
    assert_eq!(
        handler.kitty_flags,
        KittyKeyboardFlags::DISAMBIGUATE | KittyKeyboardFlags::REPORT_EVENT_TYPES
    );
    assert_eq!(
        handler.handle_key_event(Some(&enter), true, false),
        Some(b"\x1b[13u".to_vec())
    );
    assert_eq!(
        handler.handle_key_event(Some(&enter), false, false),
        Some(b"\x1b[13;1:3u".to_vec())
    );

    // Push and Pop stack
    handler.push_kitty_flags(0);
    assert_eq!(handler.kitty_flags, 0);
    handler.pop_kitty_flags(1);
    assert_eq!(
        handler.kitty_flags,
        KittyKeyboardFlags::DISAMBIGUATE | KittyKeyboardFlags::REPORT_EVENT_TYPES
    );

    // Popping empty stack resets to 0
    handler.pop_kitty_flags(5);
    assert_eq!(handler.kitty_flags, 0);
}

#[test]
fn test_kitty_arrow_and_functional_keys_encoding() {
    let mut handler = KeyboardHandler::new();
    handler.set_kitty_mode(KittyKeyboardFlags::DISAMBIGUATE, 1);

    let press = |handler: &KeyboardHandler, code: u32, mods: Modifiers| {
        handler.handle_key_event(Some(&key(code, mods)), true, false)
    };

    // Arrow keys: Up (103), Down (108), Left (105), Right (106)
    assert_eq!(press(&handler, 103, NONE), Some(b"\x1b[A".to_vec()));
    assert_eq!(press(&handler, 108, NONE), Some(b"\x1b[B".to_vec()));
    assert_eq!(press(&handler, 106, NONE), Some(b"\x1b[C".to_vec()));
    assert_eq!(press(&handler, 105, NONE), Some(b"\x1b[D".to_vec()));

    // Modified arrow keys: Shift+Up (1;2A), Ctrl+Down (1;5B)
    assert_eq!(press(&handler, 103, SHIFT), Some(b"\x1b[1;2A".to_vec()));
    assert_eq!(press(&handler, 108, CTRL), Some(b"\x1b[1;5B".to_vec()));

    // Functional tilde and letter keys
    assert_eq!(press(&handler, 102, NONE), Some(b"\x1b[H".to_vec()));
    assert_eq!(press(&handler, 107, NONE), Some(b"\x1b[F".to_vec()));
    assert_eq!(press(&handler, 104, NONE), Some(b"\x1b[5~".to_vec()));
    assert_eq!(press(&handler, 109, NONE), Some(b"\x1b[6~".to_vec()));
    assert_eq!(press(&handler, 111, NONE), Some(b"\x1b[3~".to_vec()));

    // Release events with REPORT_EVENT_TYPES: Up release = \x1b[1;1:3A
    handler.set_kitty_mode(KittyKeyboardFlags::REPORT_EVENT_TYPES, 2);
    assert_eq!(
        handler.handle_key_event(Some(&key(103, NONE)), false, false),
        Some(b"\x1b[1;1:3A".to_vec())
    );

    // Higher function keys F13 (57376) and F35 (57398) boundaries
    assert_eq!(
        handler.encode_kitty_key(KEY_F13, "", Modifiers::default(), 1),
        Some(b"\x1b[57376u".to_vec())
    );
    assert_eq!(
        handler.encode_kitty_key(KEY_F35, "", Modifiers::default(), 1),
        Some(b"\x1b[57398u".to_vec())
    );
}

#[test]
fn pushed_flags_come_back() {
    let mut handler = KeyboardHandler::new();
    handler.set_kitty_mode(3, 1);
    handler.push_kitty_flags(9);
    // Only the supported flags are kept.
    assert_eq!(handler.kitty_flags, 1);
    handler.pop_kitty_flags(1);
    assert_eq!(handler.kitty_flags, 3);
    handler.set_kitty_mode(2, 3);
    assert_eq!(handler.kitty_flags, 1);
}

#[test]
fn control_and_alt_change_what_a_key_sends() {
    let handler = KeyboardHandler::new();
    assert_eq!(handler.handle_key(Some(&key(46, CTRL))), Some(vec![3]));
    let alt = Modifiers { alt: true, ..NONE };
    assert_eq!(handler.handle_key(Some(&key(30, alt))), Some(b"\x1ba".to_vec()));
    assert_eq!(handler.handle_key(None), None);
}

#[test]
fn keymaps_are_cut_at_their_end() {
    let text = |bytes: &[u8]| match keymap_text(bytes.to_vec()) {
        KeymapText::Text(s) => Some(s),
        _ => None,
    };
    assert_eq!(text(b"xkb_keymap\0\0\0"), Some("xkb_keymap".to_string()));
    assert_eq!(text(b"xkb_keymap"), Some("xkb_keymap".to_string()));
    assert_eq!(text(b"\xff\xfe"), None);
}
