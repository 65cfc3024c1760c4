use vstd::prelude::*;

verus! {

/// The shape of a theme configuration file.
pub struct Config {
    pub version: i8,
    pub dark_mode: bool,
    pub pallet: Pallet,
}

/// The optional colour overrides of a theme configuration file.
pub struct Pallet {
    pub primary: Option<String>,
    pub surface: Option<String>,
    pub text: Option<String>,
    pub accent: Option<String>,
}

} // verus!
