//! The decisions of the daemon: how clients are answered, which clipboard
//! events are captured, and how it starts and stops.

pub mod args;
pub mod screen_lock;
pub mod server;
pub mod watcher;
