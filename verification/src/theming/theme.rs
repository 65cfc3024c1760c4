use vstd::prelude::*;
use crate::document::parse::{spec_parse, spec_parse_ok};
use crate::document::patch::spec_lookup;
use crate::document::{DiskDocument, LineModel, PathSeg, ScalarModel, SegModel};
use crate::soft_binds::tiny_lexer::{lower_vec, lower_word};
use crate::document::value::{word_is4, word_is5};
use crate::theming::colour::Colour;
use crate::theming::error::Error;
use crate::theming::pallet::{ColourPallet, DEFAULT_ACCENT_HEX};
use vstd::string::StringExecFns;

pub mod config;

verus! {

/// A theme: a full colour palette read from the user's `theme.toml`, the
/// environment, or the built-in defaults.
#[derive(Clone, Copy, PartialEq, Eq, Structural, Debug)]
pub struct Theme {
    pub pallet: ColourPallet,
}

/// The palette an environment override picks: `light` or `dark` in any
/// casing; anything else (or nothing) picks none.
pub open spec fn spec_env_pallet(theme_name: Option<Seq<char>>) -> Option<ColourPallet> {
    match theme_name {
        None => None,
        Some(s) => {
            if lower_word(s) == seq!['l', 'i', 'g', 'h', 't'] {
                Some(
                    ColourPallet {
                        is_dark: false,
                        primary: Colour { hex: 0xD5EBEB },
                        interactive: Colour { hex: 0xA6C4E3 },
                        surface: Colour { hex: 0xB8E2FF },
                        text: Colour { hex: 0x242424 },
                        accent: Colour { hex: DEFAULT_ACCENT_HEX },
                    },
                )
            } else if lower_word(s) == seq!['d', 'a', 'r', 'k'] {
                Some(
                    ColourPallet {
                        is_dark: true,
                        primary: Colour { hex: 0x0A0A0A },
                        interactive: Colour { hex: 0x2E2E2E },
                        surface: Colour { hex: 0x3C3939 },
                        text: Colour { hex: 0xb5b5b5 },
                        accent: Colour { hex: DEFAULT_ACCENT_HEX },
                    },
                )
            } else {
                None
            }
        },
    }
}

/// Whether a theme text carries a supported version mark: a `version` key
/// holding the integer 1.
pub open spec fn spec_version_supported(m: Seq<LineModel>) -> bool {
    spec_lookup(m, seq![SegModel::Key("version"@)]) == Some(ScalarModel::Int(1))
}

impl Theme {
    /// Builds the theme the way the application resolves it at startup: the
    /// theme from the user's `theme.toml` content when one parses, else a
    /// dark palette with the fallback accent; an environment override
    /// (`light` or `dark`) replaces the palette wholesale.  The host hands
    /// in the file content and the environment value; this function only
    /// decides.
    pub fn new(
        fallback_accent_colour: Option<Colour>,
        theme_toml: Option<&str>,
        env_theme_name: Option<&str>,
    ) -> (r: Theme)
        ensures
            ({
                let fb = match fallback_accent_colour {
                    Some(c) => c,
                    None => Colour { hex: DEFAULT_ACCENT_HEX },
                };
                let fallback_theme = Theme {
                    pallet: ColourPallet {
                        is_dark: true,
                        primary: Colour { hex: 0x0A0A0A },
                        interactive: Colour { hex: 0x2E2E2E },
                        surface: Colour { hex: 0x3C3939 },
                        text: Colour { hex: 0xb5b5b5 },
                        accent: fb,
                    },
                };
                let config_theme = match theme_toml {
                    None => fallback_theme,
                    Some(s) => {
                        if spec_parse_ok(s@) && spec_version_supported(spec_parse(s@))
                            && config::v1::spec_config_ok(spec_parse(s@)) {
                            config::v1::spec_parse_theme(spec_parse(s@), fb)
                        } else {
                            fallback_theme
                        }
                    },
                };
                let env_name = match env_theme_name {
                    Some(s) => Some(s@),
                    None => None,
                };
                r == match spec_env_pallet(env_name) {
                    Some(p) => Theme { pallet: p },
                    None => config_theme,
                }
            }),
    {
        let fb = match fallback_accent_colour {
            Some(c) => c,
            None => Colour::from_hex(DEFAULT_ACCENT_HEX),
        };
        let mut dark = ColourPallet::default_dark();
        dark.accent = fb;
        let fallback_theme = Theme { pallet: dark };
        let config_theme = match Self::get_theme_from_config(theme_toml, fb) {
            Ok(Some(theme)) => theme,
            Ok(None) => fallback_theme,
            Err(_) => fallback_theme,
        };
        let mut theme = config_theme;
        if let Some(pallet) = Self::get_pallet_from_env(env_theme_name) {
            theme.pallet = pallet;
        }
        theme
    }

    /// The palette an environment override picks.
    pub fn get_pallet_from_env(theme_name: Option<&str>) -> (r: Option<ColourPallet>)
        ensures
            r == spec_env_pallet(
                match theme_name {
                    Some(s) => Some(s@),
                    None => None::<Seq<char>>,
                },
            ),
    {
        match theme_name {
            None => None,
            Some(s) => {
                let cv = crate::document::chars::str_chars(s);
                let low = lower_vec(&cv);
                if word_is5(&low, 'l', 'i', 'g', 'h', 't') {
                    Some(ColourPallet::default_light())
                } else if word_is4(&low, 'd', 'a', 'r', 'k') {
                    Some(ColourPallet::default_dark())
                } else {
                    None
                }
            },
        }
    }

    /// Reads the theme from the content of `theme.toml`, when there is one:
    /// `Ok(None)` without a file, the parsed theme for a well-formed version
    /// 1 file, and an error for anything else.
    pub fn get_theme_from_config(theme_toml: Option<&str>, fallback_accent_colour: Colour) -> (r:
        Result<Option<Theme>, Error>)
        ensures
            theme_toml is None ==> r matches Ok(None),
            theme_toml matches Some(s) ==> {
                let ok = spec_parse_ok(s@) && spec_version_supported(spec_parse(s@))
                    && config::v1::spec_config_ok(spec_parse(s@));
                &&& ok == (r is Ok)
                &&& r matches Ok(t) ==> t == Some(
                    config::v1::spec_parse_theme(spec_parse(s@), fallback_accent_colour),
                )
            },
    {
        let s = match theme_toml {
            None => {
                return Ok(None);
            },
            Some(s) => s,
        };
        let doc = match DiskDocument::parse(s) {
            Ok(d) => d,
            Err(_) => {
                return Err(
                    Error::FailedToReadThemeToml(
                        String::from_str(
                            "the theme.toml file is outside the supported toml subset",
                        ),
                    ),
                );
            },
        };
        let mut vpath: Vec<PathSeg> = Vec::new();
        vpath.push(PathSeg::Key(String::from_str("version")));
        proof {
            assert(crate::document::path_model(vpath@) =~= seq![SegModel::Key("version"@)]);
        }
        let supported = match doc.lookup(&vpath) {
            Some(crate::document::TomlValue::Int(v)) => *v == 1,
            _ => false,
        };
        if !supported {
            return Err(
                Error::FailedToReadThemeToml(
                    String::from_str(
                        "the theme.toml file does not carry a supported 'version' key",
                    ),
                ),
            );
        }
        match config::v1::parse(s, fallback_accent_colour) {
            Ok(theme) => Ok(Some(theme)),
            Err(e) => Err(e),
        }
    }
}

} // verus!
