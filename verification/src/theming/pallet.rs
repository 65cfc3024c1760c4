use vstd::prelude::*;
use crate::theming::colour::Colour;

verus! {

/// The stock accent colour.
pub const DEFAULT_ACCENT_HEX: u32 = 0x7afff8;

/// The stand-in for an absent colour.
pub const TRANSPARENT_HEX: u32 = 0xFF000000;

/// A full colour palette.
#[derive(Clone, Copy, PartialEq, Eq, Structural, Debug)]
pub struct ColourPallet {
    /// Is this colour pallet meant for dark mode?
    pub is_dark: bool,
    /// Primary colour should be used for background colour.
    pub primary: Colour,
    pub interactive: Colour,
    /// Surface is a supporting colour for elevated layers: containers inside
    /// a section, cards, toolbars, panel backgrounds.
    pub surface: Colour,
    /// Foreground text colour.
    pub text: Colour,
    /// Accent is the strongest emphasis colour, used in interactive
    /// elements, highlights, strokes and loading animations.
    pub accent: Colour,
}

impl ColourPallet {
    pub fn default_dark() -> (r: ColourPallet)
        ensures
            r == (ColourPallet {
                is_dark: true,
                primary: Colour { hex: 0x0A0A0A },
                interactive: Colour { hex: 0x2E2E2E },
                surface: Colour { hex: 0x3C3939 },
                text: Colour { hex: 0xb5b5b5 },
                accent: Colour { hex: DEFAULT_ACCENT_HEX },
            }),
    {
        ColourPallet {
            is_dark: true,
            primary: Colour::from_hex(0x0A0A0A),
            interactive: Colour::from_hex(0x2E2E2E),
            surface: Colour::from_hex(0x3C3939),
            text: Colour::from_hex(0xb5b5b5),
            accent: Colour::from_hex(DEFAULT_ACCENT_HEX),
        }
    }

    pub fn default_light() -> (r: ColourPallet)
        ensures
            r == (ColourPallet {
                is_dark: false,
                primary: Colour { hex: 0xD5EBEB },
                interactive: Colour { hex: 0xA6C4E3 },
                surface: Colour { hex: 0xB8E2FF },
                text: Colour { hex: 0x242424 },
                accent: Colour { hex: DEFAULT_ACCENT_HEX },
            }),
    {
        ColourPallet {
            is_dark: false,
            primary: Colour::from_hex(0xD5EBEB),
            interactive: Colour::from_hex(0xA6C4E3),
            surface: Colour::from_hex(0xB8E2FF),
            text: Colour::from_hex(0x242424),
            accent: Colour::from_hex(DEFAULT_ACCENT_HEX),
        }
    }
}

} // verus!
