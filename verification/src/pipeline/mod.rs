//! From a clipboard offer to an entry: classification, processing and the
//! privacy rules.

pub mod classifier;
pub mod privacy;
pub mod processor;
pub mod thumbnail;

pub use privacy::{FilterResult, PrivacyFilter};
pub use processor::ContentProcessor;
