use vstd::prelude::*;
use vstd::string::StringExecFns;

verus! {

/// The errors of the key-bind parser.
#[derive(Debug)]
pub enum Error {
    /// A tokenized key name has no matching egui key.
    ParseToEguiKeyFailure { key_string: String },
    /// The key-bind string holds a character the lexer does not know, at
    /// this 1-based position.
    UnknownKeyBindChar { char: char, position: u32 },
}

impl Error {
    /// A human readable message about the error.
    pub fn message(&self) -> String {
        match self {
            Error::ParseToEguiKeyFailure { key_string } => {
                let mut msg = String::from_str("Failed to parse the key bind '");
                msg.append(key_string.as_str());
                msg.append("' to an egui key!");
                msg
            },
            Error::UnknownKeyBindChar { char, position } => {
                let mut msg = String::from_str("Unknown key bind key '");
                msg.push(*char);
                msg.append("' at position ");
                let digits = crate::document::chars::decimal_string(*position as u64);
                msg.append(digits.as_str());
                msg.append("!");
                msg
            },
        }
    }
}

} // verus!
