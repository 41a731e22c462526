//! Colors, their text form and the palette.

use ftty::color::palette::default_256_palette;
use ftty::color::{Color, Rgb};

#[test]
fn color_test_default_palette_values() {
    let palette = default_256_palette();
    assert_eq!(palette[0], Rgb::new(0, 0, 0));
    assert_eq!(palette[15], Rgb::new(255, 255, 255));
    assert_eq!(palette[16], Rgb::new(0, 0, 0));
    assert_eq!(palette[231], Rgb::new(255, 255, 255));
    assert_eq!(palette[232], Rgb::new(8, 8, 8));
    assert_eq!(palette[255], Rgb::new(238, 238, 238));
}

#[test]
fn color_test_color_resolution() {
    let palette = default_256_palette();
    let fg = Rgb::new(200, 200, 200);
    let bg = Rgb::new(20, 20, 20);

    assert_eq!(Color::DefaultForeground.to_rgb(&palette, fg, bg), fg);
    assert_eq!(Color::DefaultBackground.to_rgb(&palette, fg, bg), bg);
    assert_eq!(
        Color::Indexed(1).to_rgb(&palette, fg, bg),
        Rgb::new(205, 0, 0)
    );
    assert_eq!(
        Color::Rgb(42, 43, 44).to_rgb(&palette, fg, bg),
        Rgb::new(42, 43, 44)
    );
}

#[test]
fn color_test_rgb_from_hex_and_serde() {
    assert_eq!("#181818".parse::<Rgb>().unwrap(), Rgb::new(24, 24, 24));
    assert_eq!("181818".parse::<Rgb>().unwrap(), Rgb::new(24, 24, 24));
    assert_eq!("0x181818".parse::<Rgb>().unwrap(), Rgb::new(24, 24, 24));
    assert_eq!("#fff".parse::<Rgb>().unwrap(), Rgb::new(255, 255, 255));
    assert_eq!("#000".parse::<Rgb>().unwrap(), Rgb::new(0, 0, 0));
    assert_eq!(Rgb::new(24, 24, 24).to_string(), "#181818");
    assert!("invalid".parse::<Rgb>().is_err());
    assert!("#1234".parse::<Rgb>().is_err());
}

#[test]
fn tests_test_default_palette_values() {
    let palette = default_256_palette();
    assert_eq!(palette[0], Rgb::new(0, 0, 0));
    assert_eq!(palette[15], Rgb::new(255, 255, 255));
    assert_eq!(palette[16], Rgb::new(0, 0, 0));
    assert_eq!(palette[231], Rgb::new(255, 255, 255));
    assert_eq!(palette[232], Rgb::new(8, 8, 8));
    assert_eq!(palette[255], Rgb::new(238, 238, 238));
}

#[test]
fn tests_test_color_resolution() {
    let palette = default_256_palette();
    let fg = Rgb::new(200, 200, 200);
    let bg = Rgb::new(20, 20, 20);

    assert_eq!(Color::DefaultForeground.to_rgb(&palette, fg, bg), fg);
    assert_eq!(Color::DefaultBackground.to_rgb(&palette, fg, bg), bg);
    assert_eq!(
        Color::Indexed(1).to_rgb(&palette, fg, bg),
        Rgb::new(205, 0, 0)
    );
    assert_eq!(
        Color::Rgb(42, 43, 44).to_rgb(&palette, fg, bg),
        Rgb::new(42, 43, 44)
    );
}

#[test]
fn tests_test_rgb_from_hex_and_serde() {
    assert_eq!("#181818".parse::<Rgb>().unwrap(), Rgb::new(24, 24, 24));
    assert_eq!("181818".parse::<Rgb>().unwrap(), Rgb::new(24, 24, 24));
    assert_eq!("0x181818".parse::<Rgb>().unwrap(), Rgb::new(24, 24, 24));
    assert_eq!("#fff".parse::<Rgb>().unwrap(), Rgb::new(255, 255, 255));
    assert_eq!("#000".parse::<Rgb>().unwrap(), Rgb::new(0, 0, 0));
    assert_eq!(Rgb::new(24, 24, 24).to_string(), "#181818");
    assert!("invalid".parse::<Rgb>().is_err());
    assert!("#1234".parse::<Rgb>().is_err());
    assert!("aéabc".parse::<Rgb>().is_err());
    assert!("#éff".parse::<Rgb>().is_err());
}

#[test]
fn only_hex_digits_make_colors() {
    for text in ["+1+2+3", "+12345", "#+f+f+f", "-1-2-3", "+ff", "12 456", ""] {
        assert!(text.parse::<Rgb>().is_err());
    }
    assert_eq!(" #0xaBcDeF ".parse::<Rgb>().unwrap(), Rgb::new(0xab, 0xcd, 0xef));
    assert_eq!("1f0".parse::<Rgb>().unwrap(), Rgb::new(17, 255, 0));
}

#[test]
fn errors_say_what_is_wrong_with_a_color() {
    let error = |text: &str| text.parse::<Rgb>().unwrap_err();
    assert_eq!(error("#1234"), "invalid hex color: '1234', expected 3 or 6 hex digits");
    assert_eq!(
        error("#\u{e9}ff"),
        "invalid hex color containing non-ASCII characters: '\u{e9}ff'"
    );
    assert_eq!(error("gg0000"), "invalid digit found in string");
}
