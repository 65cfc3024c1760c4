use vstd::prelude::*;
use vstd::string::StringExecFns;
use crate::document::parse::{spec_parse, spec_parse_ok};
use crate::document::patch::spec_lookup;
use crate::document::{DiskDocument, LineModel, PathSeg, ScalarModel, SegModel, TomlValue};
use crate::theming::colour::{spec_hex_body, spec_hex_ok, spec_hex_val, Colour};
use crate::theming::error::Error;
use crate::theming::pallet::{ColourPallet, TRANSPARENT_HEX};
use crate::theming::theme::Theme;

verus! {

// The version 1 theme file: a `version` mark, a `dark_mode` flag, and an
// optional `[pallet]` table whose string entries override single colours.
/// The raw fields of a version 1 theme file.
pub struct ThemeConfigV1 {
    pub version: i8,
    pub dark_mode: bool,
    pub pallet: ThemePalletV1,
}

/// The optional colour overrides, each a hex code string.
pub struct ThemePalletV1 {
    pub primary: Option<String>,
    pub interactive: Option<String>,
    pub surface: Option<String>,
    pub text: Option<String>,
    pub accent: Option<String>,
}

/// What a `[pallet]` entry holds: nothing, a string, or a value of the
/// wrong kind.
pub enum ColourField {
    Missing,
    Hex(Seq<char>),
    Bad,
}

pub open spec fn spec_root_field(m: Seq<LineModel>, name: Seq<char>) -> Option<ScalarModel> {
    spec_lookup(m, seq![SegModel::Key(name)])
}

pub open spec fn spec_pallet_field(m: Seq<LineModel>, name: Seq<char>) -> ColourField {
    match spec_lookup(m, seq![SegModel::Key("pallet"@), SegModel::Key(name)]) {
        None => ColourField::Missing,
        Some(ScalarModel::Str(s)) => ColourField::Hex(s),
        Some(_) => ColourField::Bad,
    }
}

pub open spec fn spec_field_ok(f: ColourField) -> bool {
    match f {
        ColourField::Missing => true,
        ColourField::Hex(s) => spec_hex_ok(s),
        ColourField::Bad => false,
    }
}

/// The colour a field resolves to, with its default.
pub open spec fn spec_field_colour(f: ColourField, dflt: u32) -> Colour {
    match f {
        ColourField::Hex(s) => Colour { hex: spec_hex_val(spec_hex_body(s)) as u32 },
        _ => Colour { hex: dflt },
    }
}

/// A version 1 theme file is well-formed: an `i8` version, a boolean
/// `dark_mode`, and only well-formed colour overrides.
pub open spec fn spec_config_ok(m: Seq<LineModel>) -> bool {
    &&& match spec_root_field(m, "version"@) {
        Some(ScalarModel::Int(v)) => -128 <= v <= 127,
        _ => false,
    }
    &&& spec_root_field(m, "dark_mode"@) matches Some(ScalarModel::Bool(_))
    &&& spec_field_ok(spec_pallet_field(m, "primary"@))
    &&& spec_field_ok(spec_pallet_field(m, "interactive"@))
    &&& spec_field_ok(spec_pallet_field(m, "surface"@))
    &&& spec_field_ok(spec_pallet_field(m, "text"@))
    &&& spec_field_ok(spec_pallet_field(m, "accent"@))
}

/// The theme a well-formed version 1 file stands for.
pub open spec fn spec_parse_theme(m: Seq<LineModel>, fallback_accent: Colour) -> Theme {
    let dark = spec_root_field(m, "dark_mode"@)->Some_0->Bool_0;
    Theme {
        pallet: ColourPallet {
            is_dark: dark,
            primary: spec_field_colour(spec_pallet_field(m, "primary"@), TRANSPARENT_HEX),
            interactive: spec_field_colour(spec_pallet_field(m, "interactive"@), TRANSPARENT_HEX),
            surface: spec_field_colour(spec_pallet_field(m, "surface"@), TRANSPARENT_HEX),
            text: spec_field_colour(
                spec_pallet_field(m, "text"@),
                if dark {
                    0xffffff
                } else {
                    0x000000
                },
            ),
            accent: spec_field_colour(spec_pallet_field(m, "accent"@), fallback_accent.hex),
        },
    }
}

/// Reads one `[pallet]` entry: `Ok(None)` when absent, the hex string when
/// present, and an error when it is not a string.
fn pallet_field(doc: &DiskDocument, name: &str) -> (r: Result<Option<String>, ()>)
    ensures
        match r {
            Ok(None) => spec_pallet_field(doc.model(), name@) is Missing,
            Ok(Some(s)) => spec_pallet_field(doc.model(), name@) == ColourField::Hex(s@),
            Err(()) => spec_pallet_field(doc.model(), name@) is Bad,
        },
{
    let mut path: Vec<PathSeg> = Vec::new();
    path.push(PathSeg::Key(String::from_str("pallet")));
    path.push(PathSeg::Key(String::from_str(name)));
    proof {
        assert(crate::document::path_model(path@) =~= seq![
            SegModel::Key("pallet"@),
            SegModel::Key(name@),
        ]);
    }
    match doc.lookup(&path) {
        None => Ok(None),
        Some(TomlValue::Str(s)) => Ok(Some(s.clone())),
        Some(_) => Err(()),
    }
}

/// Resolves one colour override against its default.
fn field_colour(field: Option<String>, dflt: u32) -> (r: Result<Colour, Error>)
    ensures
        ({
            let f = match field {
                Some(s) => ColourField::Hex(s@),
                None => ColourField::Missing,
            };
            &&& (r is Ok) == spec_field_ok(f)
            &&& r matches Ok(c) ==> c == spec_field_colour(f, dflt)
            &&& r matches Err(e) ==> e is FailedToParseHexCode
        }),
{
    match field {
        None => Ok(Colour::from_hex(dflt)),
        Some(s) => match Colour::from_hex_str(s.as_str()) {
            Ok(c) => Ok(c),
            Err(e) => Err(e),
        },
    }
}

/// Parses a version 1 theme file.  Succeeds exactly when the text is inside
/// the supported grammar and well-formed; the result is the exact theme the
/// file stands for, with absent colours replaced by their defaults.
pub fn parse(toml_string: &str, fallback_accent_colour: Colour) -> (r: Result<Theme, Error>)
    ensures
        !spec_parse_ok(toml_string@) ==> r is Err,
        spec_parse_ok(toml_string@) ==> ((r is Ok) == spec_config_ok(spec_parse(toml_string@))),
        r matches Ok(t) ==> t == spec_parse_theme(spec_parse(toml_string@), fallback_accent_colour),
{
    let doc = match DiskDocument::parse(toml_string) {
        Ok(d) => d,
        Err(_) => {
            return Err(
                Error::FailedToReadThemeToml(
                    String::from_str("the theme.toml file is outside the supported toml subset"),
                ),
            );
        },
    };
    // The raw fields, as the file shape dictates.
    let mut vpath: Vec<PathSeg> = Vec::new();
    vpath.push(PathSeg::Key(String::from_str("version")));
    proof {
        assert(crate::document::path_model(vpath@) =~= seq![SegModel::Key("version"@)]);
    }
    let version: i8 = match doc.lookup(&vpath) {
        Some(TomlValue::Int(v)) => {
            if -128 <= *v && *v <= 127 {
                *v as i8
            } else {
                return Err(
                    Error::FailedToReadThemeToml(
                        String::from_str("the 'version' key does not fit the version field"),
                    ),
                );
            }
        },
        _ => {
            return Err(
                Error::FailedToReadThemeToml(
                    String::from_str("could not find the 'version' key inside the theme file"),
                ),
            );
        },
    };
    let mut dpath: Vec<PathSeg> = Vec::new();
    dpath.push(PathSeg::Key(String::from_str("dark_mode")));
    proof {
        assert(crate::document::path_model(dpath@) =~= seq![SegModel::Key("dark_mode"@)]);
    }
    let dark_mode: bool = match doc.lookup(&dpath) {
        Some(TomlValue::Bool(b)) => *b,
        _ => {
            return Err(
                Error::FailedToReadThemeToml(
                    String::from_str("could not find the 'dark_mode' key inside the theme file"),
                ),
            );
        },
    };
    let theme_config = ThemeConfigV1 {
        version,
        dark_mode,
        pallet: ThemePalletV1 {
            primary: match pallet_field(&doc, "primary") {
                Ok(f) => f,
                Err(()) => {
                    return Err(
                        Error::FailedToReadThemeToml(
                            String::from_str("a pallet entry of the theme file is not a string"),
                        ),
                    );
                },
            },
            interactive: match pallet_field(&doc, "interactive") {
                Ok(f) => f,
                Err(()) => {
                    return Err(
                        Error::FailedToReadThemeToml(
                            String::from_str("a pallet entry of the theme file is not a string"),
                        ),
                    );
                },
            },
            surface: match pallet_field(&doc, "surface") {
                Ok(f) => f,
                Err(()) => {
                    return Err(
                        Error::FailedToReadThemeToml(
                            String::from_str("a pallet entry of the theme file is not a string"),
                        ),
                    );
                },
            },
            text: match pallet_field(&doc, "text") {
                Ok(f) => f,
                Err(()) => {
                    return Err(
                        Error::FailedToReadThemeToml(
                            String::from_str("a pallet entry of the theme file is not a string"),
                        ),
                    );
                },
            },
            accent: match pallet_field(&doc, "accent") {
                Ok(f) => f,
                Err(()) => {
                    return Err(
                        Error::FailedToReadThemeToml(
                            String::from_str("a pallet entry of the theme file is not a string"),
                        ),
                    );
                },
            },
        },
    };
    let is_dark = theme_config.dark_mode;
    let primary = match field_colour(theme_config.pallet.primary, TRANSPARENT_HEX) {
        Ok(c) => c,
        Err(e) => {
            return Err(e);
        },
    };
    let interactive = match field_colour(theme_config.pallet.interactive, TRANSPARENT_HEX) {
        Ok(c) => c,
        Err(e) => {
            return Err(e);
        },
    };
    let surface = match field_colour(theme_config.pallet.surface, TRANSPARENT_HEX) {
        Ok(c) => c,
        Err(e) => {
            return Err(e);
        },
    };
    let text_default: u32 = if is_dark {
        0xffffff
    } else {
        0x000000
    };
    let text = match field_colour(theme_config.pallet.text, text_default) {
        Ok(c) => c,
        Err(e) => {
            return Err(e);
        },
    };
    let accent = match field_colour(theme_config.pallet.accent, fallback_accent_colour.hex) {
        Ok(c) => c,
        Err(e) => {
            return Err(e);
        },
    };
    Ok(
        Theme {
            pallet: ColourPallet {
                is_dark: theme_config.dark_mode,
                primary,
                interactive,
                surface,
                text,
                accent,
            },
        },
    )
}

} // verus!
