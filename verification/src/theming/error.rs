use vstd::prelude::*;
use vstd::string::StringExecFns;
use crate::error::CError;

verus! {

/// The errors of the theming configuration.
#[derive(Debug)]
pub enum Error {
    /// A hex colour code failed to parse: the detail and the code.
    FailedToParseHexCode(String, String),
    FailedToReadThemeToml(String),
    FailedToFindThemeToml(String),
}

impl CError for Error {
    fn human_message(&self) -> String {
        match self {
            Error::FailedToParseHexCode(detail, hex_code) => {
                let mut msg = String::from_str("Failed to parse hex code! Hex code: '");
                msg.append(hex_code.as_str());
                msg.append("' Error: '");
                msg.append(detail.as_str());
                msg.append("'");
                msg
            },
            Error::FailedToReadThemeToml(detail) => {
                let mut msg = String::from_str(
                    "Failed to read the 'theme.toml' config file, it may be corrupted or the reason below may state otherwise! Error: ",
                );
                msg.append(detail.as_str());
                msg
            },
            Error::FailedToFindThemeToml(detail) => {
                let mut msg = String::from_str(
                    "Failed to find the 'theme.toml' config file! Error: '",
                );
                msg.append(detail.as_str());
                msg.append("'");
                msg
            },
        }
    }

    fn actual_error(&self) -> Option<String> {
        let detail = match self {
            Error::FailedToParseHexCode(detail, _) => detail,
            Error::FailedToReadThemeToml(detail) => detail,
            Error::FailedToFindThemeToml(detail) => detail,
        };
        Some(detail.clone())
    }
}

} // verus!
