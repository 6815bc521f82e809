//! NixClip: the rules of a clipboard-history manager.

pub mod cli;
pub mod config;
pub mod daemon;
pub mod digest;
pub mod error;
pub mod ipc;
pub mod laws;
pub mod pipeline;
pub mod search;
pub mod storage;
pub mod text;
pub mod toml_value;
pub mod types;
pub mod ui;

pub use error::{NixClipError, Result};
pub use types::{
    ContentClass, EntryId, EntryMetadata, EntrySummary, MimePayload, NewEntry, ProcessedEntry,
    PruneStats, Query, QueryResult, Representation, RestoreMode, StoreStats,
};
