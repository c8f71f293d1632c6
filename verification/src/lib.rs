use vstd::prelude::*;

pub mod db;
pub mod error;
pub mod outside;
pub mod sync;
pub mod text;

pub use db::{SearchQuery, Skill, SourceType, SyncSource};
pub use error::Error;
pub use sync::{SyncOutcome, GitHubSource};
