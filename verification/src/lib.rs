//! A tool kit for small GUI applications: a configuration store that
//! persists a strongly typed value to a user-editable TOML file while
//! preserving every comment and formatting choice in it, with change
//! detection by content hash and a cooperative autosave schedule; plus the
//! themes, key binds, update checks and widget data the applications share.
//!
//! Everything here is verified.  The code that touches the outside world
//! (files, the network, the GUI frame) lives with the embedding application,
//! which drives the state machines and contracts of this crate.

pub mod about;
pub mod config;
pub mod config_manager;
pub mod document;
pub mod error;
pub mod notifier;
pub mod sections;
pub mod scheduler;
pub mod soft_binds;
pub mod softbinds;
pub mod theming;
pub mod update_check;
pub mod updates;
