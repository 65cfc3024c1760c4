use vstd::prelude::*;
use vstd::string::StringExecFns;

pub mod colour;
pub mod config;
pub mod error;
pub mod pallet;
pub mod theme;
pub mod v1;

verus! {

/// The earliest theme shape: a mode flag and one background colour.
pub struct Theme {
    pub is_dark: bool,
    pub hex_code: String,
}

/// The default background hex code for each mode.
pub open spec fn spec_default_hex(is_dark: bool) -> Seq<char> {
    if is_dark {
        "#0a0909"@
    } else {
        "#b4dede"@
    }
}

impl Theme {
    /// The stock theme for the given mode.
    pub fn default(is_dark: bool) -> (r: Theme)
        ensures
            r.is_dark == is_dark,
            r.hex_code@ == spec_default_hex(is_dark),
    {
        let hex_code = if is_dark {
            String::from_str("#0a0909")
        } else {
            String::from_str("#b4dede")
        };
        Theme { is_dark, hex_code }
    }
}

} // verus!
