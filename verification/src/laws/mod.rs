//! What the operations of the library are for, said of their inputs and results.

pub mod blobs;
pub mod classify;
pub mod cli;
pub mod config;
pub mod daemon;
pub mod ipc;
pub mod privacy;
pub mod process;
pub mod search;
pub mod statements;
pub mod storage;
pub mod text;
pub mod types;
pub mod ui;
