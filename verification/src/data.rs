//! Plain records exchanged with the persistence collaborator.
//!
//! Storage itself — the project database and the files on disk — is
//! outside this crate; these are the values the pipeline hands over.
//! Tempo is carried in thousandths of a beat per minute, as
//! [`crate::analysis`] reports it.

use vstd::prelude::*;

verus! {

/// Application-level metadata records.
pub enum AppMetadata {
    /// An activation record.
    Activation { key: String },
    /// An error counter record.
    Error { value: u32 },
}

/// One separation project as the persistence layer sees it.
pub struct Project {
    /// The project's identifier.
    pub _id: String,
    /// Display name, usually the source file's name.
    pub name: String,
    /// Creation time, in seconds since the epoch.
    pub created_at: i64,
    /// Directory the project's data lives under.
    pub base_dir: String,
    /// Paths of the written stem files.
    pub stem_paths: Vec<String>,
    /// Estimated tempo in thousandths of a beat per minute, when one
    /// was computed.
    pub bpm: Option<i64>,
    /// Estimated key label, when one was computed.
    pub key: Option<String>,
}

} // verus!
