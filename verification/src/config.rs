use vstd::prelude::*;
use vstd::string::StringExecFns;
use crate::error::CError;

verus! {

// The canonical config store's bootstrap: resolve the per-user directory,
// create it when missing, then read the config file or create it from the
// bundled template.  The file probing, reading and writing are outside work;
// the decisions between them are this state machine, which the host drives
// by feeding back the outcome of each step.
/// What a configuration value must offer the manager: a canonical TOML
/// serialization of its current field values, and a content hash over them
/// used for change detection.  Every field that can change must feed the
/// hash — an unhashed field silently never autosaves.
pub trait CConfig {
    /// Serializes the whole configuration into canonical TOML text.
    fn serialize_toml(&self) -> String;

    /// A content hash of the current field values, compared by equality only.
    fn config_hash(&self) -> u64;
}

/// The errors of the bootstrap: each carries the underlying detail.
#[derive(Debug)]
pub enum Error {
    FailedToCreateConfigFile(String),
    FailedToCreateConfigDirectory(String),
    FailedToReadConfig(String),
    FailedToWriteToConfig(String),
    /// The bundled template failed to parse: a build defect, not a user
    /// error.
    FailedToParseTemplate(String),
}

impl CError for Error {
    fn human_message(&self) -> String {
        let mut msg = match self {
            Error::FailedToCreateConfigFile(_) => String::from_str(
                "Failed to create config file! Error: ",
            ),
            Error::FailedToCreateConfigDirectory(_) => String::from_str(
                "Failed to create config directory! Error: ",
            ),
            Error::FailedToReadConfig(_) => String::from_str(
                "Failed to read config toml file! Error: ",
            ),
            Error::FailedToWriteToConfig(_) => String::from_str(
                "Failed to write to config toml file! Error: ",
            ),
            Error::FailedToParseTemplate(_) => String::from_str(
                "Failed to parse the bundled template config! Error: ",
            ),
        };
        let detail = match self {
            Error::FailedToCreateConfigFile(e) => e,
            Error::FailedToCreateConfigDirectory(e) => e,
            Error::FailedToReadConfig(e) => e,
            Error::FailedToWriteToConfig(e) => e,
            Error::FailedToParseTemplate(e) => e,
        };
        msg.append(detail.as_str());
        msg
    }

    fn actual_error(&self) -> Option<String> {
        let detail = match self {
            Error::FailedToCreateConfigFile(e) => e,
            Error::FailedToCreateConfigDirectory(e) => e,
            Error::FailedToReadConfig(e) => e,
            Error::FailedToWriteToConfig(e) => e,
            Error::FailedToParseTemplate(e) => e,
        };
        Some(detail.clone())
    }
}

/// Where the bootstrap stands.  Each state names the outside step the host
/// must perform next; `Complete` and `Failed` are terminal.
pub enum BootstrapState {
    /// Probe whether the config directory exists.
    Start,
    /// The directory is missing: create it.
    NeedDir,
    /// The directory exists: probe whether the config file exists.
    DirReady,
    /// The file exists: read it.
    FileFound,
    /// The file is missing: write the template to it.
    FileMissing,
    /// The file was read: deserialize its content into the config.
    ReadDone { content: String },
    /// The template was written: deserialize the template itself.
    TemplateWritten,
    /// The config value is ready.
    Complete,
    /// Bootstrap failed; startup aborts with this error.
    Failed { error: Error },
}

/// The outcome of the outside step the host just performed.
pub enum BootstrapEvent {
    DirProbed { exists: bool },
    DirCreated { ok: bool, detail: String },
    FileProbed { exists: bool },
    FileRead { ok: bool, data: String },
    TemplateWrite { ok: bool, detail: String },
    Parsed { ok: bool, detail: String },
}

/// The transition relation of the bootstrap, in full.
pub open spec fn spec_bootstrap_step(s: BootstrapState, e: BootstrapEvent) -> BootstrapState {
    match (s, e) {
        (BootstrapState::Start, BootstrapEvent::DirProbed { exists }) => if exists {
            BootstrapState::DirReady
        } else {
            BootstrapState::NeedDir
        },
        (BootstrapState::NeedDir, BootstrapEvent::DirCreated { ok, detail }) => if ok {
            BootstrapState::DirReady
        } else {
            BootstrapState::Failed { error: Error::FailedToCreateConfigDirectory(detail) }
        },
        (BootstrapState::DirReady, BootstrapEvent::FileProbed { exists }) => if exists {
            BootstrapState::FileFound
        } else {
            BootstrapState::FileMissing
        },
        (BootstrapState::FileFound, BootstrapEvent::FileRead { ok, data }) => if ok {
            BootstrapState::ReadDone { content: data }
        } else {
            BootstrapState::Failed { error: Error::FailedToReadConfig(data) }
        },
        (BootstrapState::ReadDone { .. }, BootstrapEvent::Parsed { ok, detail }) => if ok {
            BootstrapState::Complete
        } else {
            BootstrapState::Failed { error: Error::FailedToReadConfig(detail) }
        },
        (BootstrapState::FileMissing, BootstrapEvent::TemplateWrite { ok, detail }) => if ok {
            BootstrapState::TemplateWritten
        } else {
            BootstrapState::Failed { error: Error::FailedToWriteToConfig(detail) }
        },
        (BootstrapState::TemplateWritten, BootstrapEvent::Parsed { ok, detail }) => if ok {
            BootstrapState::Complete
        } else {
            BootstrapState::Failed { error: Error::FailedToParseTemplate(detail) }
        },
        (s2, _) => s2,
    }
}

impl BootstrapState {
    /// Advances the bootstrap by the outcome of the step the host performed.
    /// An event that does not belong to the current state changes nothing.
    pub fn step(self, event: BootstrapEvent) -> (r: BootstrapState)
        ensures
            r == spec_bootstrap_step(self, event),
    {
        match (self, event) {
            (BootstrapState::Start, BootstrapEvent::DirProbed { exists }) => {
                if exists {
                    BootstrapState::DirReady
                } else {
                    BootstrapState::NeedDir
                }
            },
            (BootstrapState::NeedDir, BootstrapEvent::DirCreated { ok, detail }) => {
                if ok {
                    BootstrapState::DirReady
                } else {
                    BootstrapState::Failed {
                        error: Error::FailedToCreateConfigDirectory(detail),
                    }
                }
            },
            (BootstrapState::DirReady, BootstrapEvent::FileProbed { exists }) => {
                if exists {
                    BootstrapState::FileFound
                } else {
                    BootstrapState::FileMissing
                }
            },
            (BootstrapState::FileFound, BootstrapEvent::FileRead { ok, data }) => {
                if ok {
                    BootstrapState::ReadDone { content: data }
                } else {
                    BootstrapState::Failed { error: Error::FailedToReadConfig(data) }
                }
            },
            (BootstrapState::ReadDone { .. }, BootstrapEvent::Parsed { ok, detail }) => {
                if ok {
                    BootstrapState::Complete
                } else {
                    BootstrapState::Failed { error: Error::FailedToReadConfig(detail) }
                }
            },
            (BootstrapState::FileMissing, BootstrapEvent::TemplateWrite { ok, detail }) => {
                if ok {
                    BootstrapState::TemplateWritten
                } else {
                    BootstrapState::Failed { error: Error::FailedToWriteToConfig(detail) }
                }
            },
            (BootstrapState::TemplateWritten, BootstrapEvent::Parsed { ok, detail }) => {
                if ok {
                    BootstrapState::Complete
                } else {
                    BootstrapState::Failed { error: Error::FailedToParseTemplate(detail) }
                }
            },
            (s2, _) => s2,
        }
    }
}

} // verus!
