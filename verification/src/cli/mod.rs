//! What the command-line client works out before and after it talks to the
//! daemon.

pub mod calendar;
pub mod config_cmd;
pub mod doctor;
pub mod list;
pub mod outcome;
pub mod show;
pub mod stats;
