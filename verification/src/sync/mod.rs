pub mod pipeline;
pub mod sources;

pub use pipeline::{sync_step, SyncEvent, SyncOutcome, SyncRecord, SyncStep};
pub use sources::{extract_description, extract_tags, GitHubEntry, GitHubSource, MarkdownFile};
