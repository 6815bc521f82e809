//! How entries are stored: where their data goes, which of them are deleted,
//! and how the database is queried and migrated.

pub mod blob;
pub mod clip_store;
pub mod migrations;
pub mod schema;

pub use blob::BlobStore;
