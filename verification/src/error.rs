use vstd::prelude::*;

verus! {

/// The error interface of the tool kit: every error can render a message a
/// non-technical user understands, and may carry the underlying technical
/// detail.
pub trait CError {
    /// A human readable message about the error that occurred, suitable for
    /// showing directly in the GUI.
    fn human_message(&self) -> String;

    /// The stringified underlying error, where one exists.
    fn actual_error(&self) -> Option<String>;
}

} // verus!
