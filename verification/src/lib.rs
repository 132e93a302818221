//! Verified core of a small terminal feed reader: the subscription list,
//! the entry-selection rules, the per-source fetch pipeline's pure part,
//! and the bounded-concurrency batch coordinator. Network, disk and the
//! interactive prompts live outside this crate and only hand values in.

pub mod batch;
pub mod config;
pub mod model;
pub mod pipeline;
pub mod report;
pub mod select;
pub mod style;
pub mod time;

pub use batch::Batch;

pub use model::ConfigObj;
pub use model::Feed;
pub use model::FeedEntry;
pub use model::ParsedFeed;
pub use model::PollError;
pub use model::ProcessedFeed;
