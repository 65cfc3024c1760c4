use cirrus::soft_binds::error::Error;
use cirrus::soft_binds::keys::Keys;
use cirrus::soft_binds::tiny_lexer::{tokenize, Token};
use cirrus::softbinds::{normalize, SoftbindsExt};
use egui::Key;

#[test]
fn test_tokenisation() {
    assert_eq!(
        tokenize("Tab+T".into()).unwrap(),
        vec![Token::Tab, Token::Plus, Token::StrKey("T".into())]
    );

    assert_eq!(
        tokenize("taB+t".into()).unwrap(),
        vec![Token::Tab, Token::Plus, Token::StrKey("T".into())]
    );

    assert_eq!(tokenize("tAb".into()).unwrap(), vec![Token::Tab]);

    assert_eq!(tokenize("shift+".into()).unwrap(), vec![Token::Shift, Token::Plus]);

    assert!(tokenize("shift-".into()).is_err());
    assert_eq!(tokenize("".into()).unwrap(), vec![]);
    assert_eq!(tokenize(" ".into()).unwrap(), vec![]);

    assert_eq!(
        tokenize("ctrl + a".into()).unwrap(),
        vec![Token::Ctrl, Token::Plus, Token::StrKey("A".into())]
    );
}

#[test]
fn test_egui_keys_and_modifiers() {
    let keys_1 = Keys::new("taB+t").unwrap();
    assert_eq!(keys_1.egui_keys().unwrap(), vec![Key::Tab, Key::T]);

    let keys_2 = Keys::new("taB+t").unwrap();
    assert_eq!(keys_2.egui_keys().unwrap(), vec![Key::Tab, Key::T]);

    let keys_3 = Keys::new("tAb").unwrap();
    assert_eq!(keys_3.egui_keys().unwrap(), vec![Key::Tab]);

    let keys_4 = Keys::new("CTRL+R").unwrap();
    assert_eq!(keys_4.egui_keys().unwrap(), vec![Key::R]);
    assert!(keys_4.egui_modifiers().ctrl);

    let keys_5 = Keys::new("SHIFT+A").unwrap();
    assert_eq!(keys_5.egui_keys().unwrap(), vec![Key::A]);
    assert!(keys_5.egui_modifiers().shift_only());
}

#[test]
fn softbinds() {
    let test1 = "Tab+T";
    assert_eq!(Key::softbinds(test1).unwrap(), vec![Key::Tab, Key::T]);

    let test2 = "taB+t";
    assert_eq!(Key::softbinds(test2).unwrap(), vec![Key::Tab, Key::T]);

    let test3 = "tAb";
    assert_eq!(Key::softbinds(test3).unwrap(), vec![Key::Tab]);
}

#[test]
fn tokenize_reports_unknown_character_position() {
    match tokenize("ctrl-a".into()) {
        Err(Error::UnknownKeyBindChar { char, position }) => {
            assert_eq!(char, '-');
            assert_eq!(position, 5);
        }
        other => panic!("expected an unknown character error, got {:?}", other.is_ok()),
    }
}

#[test]
fn unknown_key_name_is_reported() {
    let keys = Keys::new("ctrl+definitelynotakey").unwrap();
    match keys.egui_keys() {
        Err(Error::ParseToEguiKeyFailure { key_string }) => {
            assert_eq!(key_string, "DEFINITELYNOTAKEY");
        }
        _ => panic!("expected a key lookup failure"),
    }
}

#[test]
fn softbinds_rejects_unknown_formatting() {
    assert!(Key::softbinds("definitely not a key").is_err());
    assert!(Key::softbinds("Tab+NotAKey").is_err());
}

#[test]
fn modifiers_only_set_what_is_bound() {
    let keys = Keys::new("ctrl+shift+x").unwrap();
    let mods = keys.egui_modifiers();
    assert!(mods.ctrl);
    assert!(mods.shift);
    assert!(!mods.alt);
    assert!(!mods.command);

    let plain = Keys::new("x").unwrap();
    assert!(plain.egui_modifiers().is_none());
}

#[test]
fn keybind_error_messages_name_the_problem() {
    let err = tokenize("shift-".into()).unwrap_err();
    let msg = err.message();
    assert!(msg.contains("'-'"));
    assert!(msg.contains("position 6"));
}

#[test]
fn lexer_skips_all_unicode_whitespace() {
    assert_eq!(tokenize("\u{000B}".into()).unwrap(), vec![]);
    assert_eq!(tokenize("\u{00A0}\u{2003}\u{3000}".into()).unwrap(), vec![]);
    assert_eq!(
        tokenize("\u{00A0}ctrl\u{2003}+ a".into()).unwrap(),
        vec![Token::Ctrl, Token::Plus, Token::StrKey("A".into())]
    );
}

#[test]
fn normalize_folds_unicode_case() {
    assert_eq!(normalize("  \u{00E9}x  "), "\u{00C9}x");
    assert_eq!(normalize("TAB"), "Tab");
    assert_eq!(normalize(""), "");
    assert_eq!(normalize("\u{00A0} \u{00A0}"), "");
    // The Kelvin sign lower-cases into ASCII `k`, so it resolves as a key.
    assert_eq!(Key::softbinds("\u{212A}").unwrap(), vec![Key::K]);
}
