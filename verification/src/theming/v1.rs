use vstd::prelude::*;
use vstd::string::StringExecFns;

verus! {

/// A colour held as its hex code text.
#[derive(Clone)]
pub struct Colour {
    pub hex_code: String,
}

impl Colour {
    pub fn from_hex(hex_code: &str) -> (r: Colour)
        ensures
            r.hex_code@ == hex_code@,
    {
        Colour { hex_code: String::from_str(hex_code) }
    }
}

/// A five-colour theme.
#[derive(Clone)]
pub struct Theme {
    pub is_dark: bool,
    /// Primary colour should mostly be used for background colour.
    pub primary_colour: Colour,
    /// Secondary colour is mostly a secondary background colour for
    /// floating windows or widgets.
    pub secondary_colour: Colour,
    /// A free supporting colour, e.g. for floating window outlines.
    pub third_colour: Colour,
    pub text_colour: Colour,
    pub accent_colour: Colour,
}

pub open spec fn spec_default_primary(is_dark: bool) -> Seq<char> {
    if is_dark {
        "#0d0d0d"@
    } else {
        "#dff5f5"@
    }
}

pub open spec fn spec_default_secondary(is_dark: bool) -> Seq<char> {
    if is_dark {
        "#201f1f"@
    } else {
        "#d9f0ff"@
    }
}

pub open spec fn spec_default_third(is_dark: bool) -> Seq<char> {
    if is_dark {
        "#494848"@
    } else {
        "#57575b"@
    }
}

pub open spec fn spec_default_text(is_dark: bool) -> Seq<char> {
    if is_dark {
        "#b5b5b5"@
    } else {
        "#3b3b3b"@
    }
}

pub open spec fn spec_default_accent() -> Seq<char> {
    "#7afff8"@
}

impl Theme {
    /// The stock five-colour theme for the given mode.
    pub fn default(is_dark: bool) -> (r: Theme)
        ensures
            r.is_dark == is_dark,
            r.primary_colour.hex_code@ == spec_default_primary(is_dark),
            r.secondary_colour.hex_code@ == spec_default_secondary(is_dark),
            r.third_colour.hex_code@ == spec_default_third(is_dark),
            r.text_colour.hex_code@ == spec_default_text(is_dark),
            r.accent_colour.hex_code@ == spec_default_accent(),
    {
        let primary = if is_dark {
            Colour::from_hex("#0d0d0d")
        } else {
            Colour::from_hex("#dff5f5")
        };
        let secondary = if is_dark {
            Colour::from_hex("#201f1f")
        } else {
            Colour::from_hex("#d9f0ff")
        };
        let third = if is_dark {
            Colour::from_hex("#494848")
        } else {
            Colour::from_hex("#57575b")
        };
        let text_colour = if is_dark {
            Colour::from_hex("#b5b5b5")
        } else {
            Colour::from_hex("#3b3b3b")
        };
        Theme {
            is_dark,
            primary_colour: primary,
            secondary_colour: secondary,
            third_colour: third,
            text_colour,
            accent_colour: Colour::from_hex("#7afff8"),
        }
    }

    /// A theme from the caller's own colours, falling back to the stock
    /// colours: the first three colours override primary, secondary and
    /// third in that order, and the accent may be overridden separately.
    pub fn new(is_dark: bool, colours: Vec<Colour>, accent_colour: Option<Colour>) -> (r: Theme)
        ensures
            r.is_dark == is_dark,
            r.primary_colour.hex_code@ == if colours@.len() > 0 {
                colours@[0].hex_code@
            } else {
                spec_default_primary(is_dark)
            },
            r.secondary_colour.hex_code@ == if colours@.len() > 1 {
                colours@[1].hex_code@
            } else {
                spec_default_secondary(is_dark)
            },
            r.third_colour.hex_code@ == if colours@.len() > 2 {
                colours@[2].hex_code@
            } else {
                spec_default_third(is_dark)
            },
            r.text_colour.hex_code@ == spec_default_text(is_dark),
            r.accent_colour.hex_code@ == match accent_colour {
                Some(c) => c.hex_code@,
                None => spec_default_accent(),
            },
    {
        let default_theme = Self::default(is_dark);
        let primary_colour = if colours.len() > 0 {
            Colour { hex_code: colours[0].hex_code.clone() }
        } else {
            default_theme.primary_colour
        };
        let secondary_colour = if colours.len() > 1 {
            Colour { hex_code: colours[1].hex_code.clone() }
        } else {
            default_theme.secondary_colour
        };
        let third_colour = if colours.len() > 2 {
            Colour { hex_code: colours[2].hex_code.clone() }
        } else {
            default_theme.third_colour
        };
        let accent_colour = match accent_colour {
            Some(c) => c,
            None => default_theme.accent_colour,
        };
        Theme {
            is_dark,
            primary_colour,
            secondary_colour,
            third_colour,
            text_colour: default_theme.text_colour,
            accent_colour,
        }
    }
}

} // verus!
