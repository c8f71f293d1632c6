pub mod models;
pub mod repo;
pub mod schema;

pub use models::{SearchQuery, Skill, SourceType, SyncSource};
pub use repo::{build_fts_query, search_plan, SearchPlan, SkillRow};
