//! Audio-notifier configuration and installation core.
//!
//! The library models the settings-hook merge and uninstall logic of an
//! audio-notifier add-on: merging this tool's hook entries into a shared
//! JSON settings document while preserving third-party hooks, together
//! with the backup, manifest and sentinel bookkeeping around it.

use vstd::prelude::*;

pub mod backup;
pub mod codec;
pub mod config;
pub mod digest;
pub mod hooks;
pub mod install;
pub mod json;
pub mod logs;
pub mod manifest;
pub mod paths;
pub mod sentinels;
pub mod text;
pub mod uninstall;
pub mod vfs;
pub mod voice;

verus! {

/// The errors the library's operations report.
#[derive(Debug, Clone, PartialEq, Eq, Structural)]
pub enum LibError {
    /// A file could not be created, read, written or copied.
    IoError,
    /// Stored content was not well-formed JSON or YAML.
    ParseError,
    /// A required file (manifest or settings) was missing.
    NotFoundError,
    /// A required API key was missing.
    ConfigurationError,
}

} // verus!
