use vstd::prelude::*;

verus! {

/// How a settings section presents itself: an optional display name and an
/// optional description shown beside the widget.
#[derive(Clone)]
pub struct SectionDisplayInfo {
    pub name: Option<String>,
    pub description: Option<String>,
}

/// Overrides a developer may set on a section widget: a fixed set of
/// choices, an allowed range, and a placeholder for text entry.
pub struct SectionOverrides<T> {
    pub choices: Option<Vec<T>>,
    pub int_range: Option<(T, T)>,
    pub text_edit_placeholder: Option<String>,
}

/// One settings section: a configuration leaf by key path, its current
/// value, and how to present it.
pub struct Section<T> {
    pub config_key: T,
    pub config_key_path: String,
    pub overrides: SectionOverrides<T>,
    pub display_info: SectionDisplayInfo,
}

impl<T> Section<T> {
    pub fn new(
        config_key_path: String,
        config_key: T,
        overrides: SectionOverrides<T>,
        display_info: SectionDisplayInfo,
    ) -> (r: Section<T>)
        ensures
            r.config_key == config_key,
            r.config_key_path == config_key_path,
            r.overrides == overrides,
            r.display_info == display_info,
    {
        Section { config_key, config_key_path, overrides, display_info }
    }
}

} // verus!
