//! The decisions of the popup: keys, filters, rows and replies.

pub mod actions;
pub mod args;
pub mod keys;
pub mod query;
pub mod replies;
pub mod rows;
pub mod settings;
