use cirrus::error::CError;
use cirrus::theming::colour::Colour;
use cirrus::theming::error::Error;
use cirrus::theming::pallet::{ColourPallet, DEFAULT_ACCENT_HEX, TRANSPARENT_HEX};
use cirrus::theming::theme::config::v1::parse;
use cirrus::theming::theme::Theme;
use cirrus::theming::v1;

#[test]
fn colour_renders_as_padded_lower_hex() {
    assert_eq!(Colour::from_hex(0x7afff8).as_hex_string(), "#7afff8");
    assert_eq!(Colour::from_hex(0x0A).as_hex_string(), "#00000a");
    assert_eq!(Colour::from_hex(0).as_hex_string(), "#000000");
    assert_eq!(Colour::from_hex(TRANSPARENT_HEX).as_hex_string(), "#ff000000");
}

#[test]
fn colour_parses_hex_codes() {
    assert_eq!(Colour::from_hex_str("#7afff8").unwrap().hex, 0x7afff8);
    assert_eq!(Colour::from_hex_str("7AFFf8").unwrap().hex, 0x7afff8);
    assert_eq!(Colour::from_hex_str("#0").unwrap().hex, 0);

    match Colour::from_hex_str("#zzz") {
        Err(Error::FailedToParseHexCode(_, code)) => assert_eq!(code, "#zzz"),
        _ => panic!("expected a hex parse failure"),
    }
    assert!(Colour::from_hex_str("").is_err());
    assert!(Colour::from_hex_str("#123456789").is_err());

    let msg = Colour::from_hex_str("#zzz").unwrap_err().human_message();
    assert!(msg.contains("Failed to parse hex code!"));
    assert!(msg.contains("#zzz"));
}

#[test]
fn colour_hex_round_trip() {
    let rendered = Colour::from_hex(0x3c3939).as_hex_string();
    assert_eq!(Colour::from_hex_str(&rendered).unwrap().hex, 0x3c3939);
}

#[test]
fn pallet_defaults_have_their_modes() {
    let dark = ColourPallet::default_dark();
    assert!(dark.is_dark);
    assert_eq!(dark.accent.hex, DEFAULT_ACCENT_HEX);
    let light = ColourPallet::default_light();
    assert!(!light.is_dark);
    assert_eq!(light.primary.hex, 0xD5EBEB);
}

#[test]
fn theme_config_parses_with_defaults() {
    let text = "version = 1\ndark_mode = true\n\n[pallet]\nprimary = \"#101010\"\naccent = \"#123456\"\n";
    let theme = parse(text, Colour::from_hex(DEFAULT_ACCENT_HEX)).unwrap();
    assert!(theme.pallet.is_dark);
    assert_eq!(theme.pallet.primary.hex, 0x101010);
    assert_eq!(theme.pallet.accent.hex, 0x123456);
    // Absent entries fall back: interactive and surface to transparent,
    // text to white in dark mode.
    assert_eq!(theme.pallet.interactive.hex, TRANSPARENT_HEX);
    assert_eq!(theme.pallet.surface.hex, TRANSPARENT_HEX);
    assert_eq!(theme.pallet.text.hex, 0xffffff);
}

#[test]
fn theme_config_errors() {
    let fallback = Colour::from_hex(DEFAULT_ACCENT_HEX);
    // No dark_mode key.
    assert!(parse("version = 1\n", fallback).is_err());
    // No version key.
    assert!(parse("dark_mode = true\n", fallback).is_err());
    // A pallet entry of the wrong kind.
    assert!(parse("version = 1\ndark_mode = true\n[pallet]\nprimary = 1\n", fallback).is_err());
    // A bad hex code surfaces as a hex error.
    match parse("version = 1\ndark_mode = true\n[pallet]\nprimary = \"#nope\"\n", fallback) {
        Err(Error::FailedToParseHexCode(..)) => {}
        _ => panic!("expected a hex parse failure"),
    }
}

#[test]
fn theme_resolution_prefers_config_then_env() {
    let toml = "version = 1\ndark_mode = false\n[pallet]\nprimary = \"#101010\"\n";

    // Config only.
    let t = Theme::new(None, Some(toml), None);
    assert!(!t.pallet.is_dark);
    assert_eq!(t.pallet.primary.hex, 0x101010);

    // The environment override wins wholesale.
    let t = Theme::new(None, Some(toml), Some("LIGHT"));
    assert_eq!(t.pallet, ColourPallet::default_light());
    let t = Theme::new(None, None, Some("dark"));
    assert_eq!(t.pallet, ColourPallet::default_dark());

    // An unknown override falls back to the config side.
    let t = Theme::new(None, None, Some("candy_crush"));
    assert!(t.pallet.is_dark);
    assert_eq!(t.pallet.accent.hex, DEFAULT_ACCENT_HEX);

    // No file, no env: the dark fallback with the given accent.
    let t = Theme::new(Some(Colour::from_hex(0xABCDEF)), None, None);
    assert!(t.pallet.is_dark);
    assert_eq!(t.pallet.accent.hex, 0xABCDEF);

    // A version 2 file is unsupported, so the fallback palette is used.
    let t = Theme::new(None, Some("version = 2\ndark_mode = true\n"), None);
    assert_eq!(t.pallet.accent.hex, DEFAULT_ACCENT_HEX);
}

#[test]
fn env_pallet_names_are_case_insensitive() {
    assert!(Theme::get_pallet_from_env(Some("Light")).unwrap().is_dark == false);
    assert!(Theme::get_pallet_from_env(Some("DARK")).unwrap().is_dark);
    assert!(Theme::get_pallet_from_env(Some("other")).is_none());
    assert!(Theme::get_pallet_from_env(None).is_none());
}

#[test]
fn legacy_theme_defaults() {
    let t = cirrus::theming::Theme::default(true);
    assert!(t.is_dark);
    assert_eq!(t.hex_code, "#0a0909");
    let t = cirrus::theming::Theme::default(false);
    assert_eq!(t.hex_code, "#b4dede");
}

#[test]
fn five_colour_theme_picks_overrides_in_order() {
    let t = v1::Theme::default(true);
    assert_eq!(t.primary_colour.hex_code, "#0d0d0d");
    assert_eq!(t.accent_colour.hex_code, "#7afff8");

    let t = v1::Theme::new(
        true,
        vec![v1::Colour::from_hex("#111111"), v1::Colour::from_hex("#222222")],
        Some(v1::Colour::from_hex("#333333")),
    );
    assert_eq!(t.primary_colour.hex_code, "#111111");
    assert_eq!(t.secondary_colour.hex_code, "#222222");
    // The third colour was not given, so the stock one stays.
    assert_eq!(t.third_colour.hex_code, "#494848");
    assert_eq!(t.accent_colour.hex_code, "#333333");
    assert_eq!(t.text_colour.hex_code, "#b5b5b5");
}

#[test]
fn hex_codes_accept_one_leading_plus() {
    assert_eq!(Colour::from_hex_str("+ff").unwrap().hex, 0xff);
    assert_eq!(Colour::from_hex_str("#+ff").unwrap().hex, 0xff);
    assert!(Colour::from_hex_str("+").is_err());
    assert!(Colour::from_hex_str("++f").is_err());
}
