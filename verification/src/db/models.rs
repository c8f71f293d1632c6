//! The records of the skill index: skills, search queries and sync sources.
use vstd::prelude::*;

use crate::outside::{is_rfc3339_utc, is_uuid_v4_text, new_uuid_v4_text, now_rfc3339, string_views};

verus! {

/// One skill of the index.
///
/// What has no plain counterpart here is held as the plain value that stands
/// for it: `metadata` is its JSON text, `quality_score_bits` the IEEE 754 bit
/// pattern of the score, and the two times are RFC 3339 text.
#[derive(Debug, Clone)]
pub struct Skill {
    pub id: String,
    pub name: String,
    pub description: String,
    pub category: String,
    pub source: String,
    pub source_url: Option<String>,
    pub version: String,
    pub tags: Vec<String>,
    pub metadata: String,
    pub quality_score_bits: u64,
    pub download_count: i64,
    pub created_at: String,
    pub updated_at: String,
}

/// A skill with every text as its sequence of characters.
pub struct SkillView {
    pub id: Seq<char>,
    pub name: Seq<char>,
    pub description: Seq<char>,
    pub category: Seq<char>,
    pub source: Seq<char>,
    pub source_url: Option<Seq<char>>,
    pub version: Seq<char>,
    pub tags: Seq<Seq<char>>,
    pub metadata: Seq<char>,
    pub quality_score_bits: u64,
    pub download_count: i64,
    pub created_at: Seq<char>,
    pub updated_at: Seq<char>,
}

/// The view of an optional text.
pub open spec fn opt_view(o: Option<String>) -> Option<Seq<char>> {
    match o {
        Some(s) => Some(s@),
        None => None,
    }
}

impl View for Skill {
    type V = SkillView;

    open spec fn view(&self) -> SkillView {
        SkillView {
            id: self.id@,
            name: self.name@,
            description: self.description@,
            category: self.category@,
            source: self.source@,
            source_url: opt_view(self.source_url),
            version: self.version@,
            tags: string_views(self.tags@),
            metadata: self.metadata@,
            quality_score_bits: self.quality_score_bits,
            download_count: self.download_count,
            created_at: self.created_at@,
            updated_at: self.updated_at@,
        }
    }
}

/// The metadata of a new skill: the empty JSON object.
pub open spec fn empty_metadata() -> Seq<char> {
    seq!['{', '}']
}

impl Skill {
    /// A new skill with a fresh random id, no source URL, empty metadata, a
    /// zero quality score and download count, and both times set to the one
    /// current time.
    pub fn new(
        name: String,
        description: String,
        category: String,
        source: String,
        version: String,
        tags: Vec<String>,
    ) -> (s: Self)
        ensures
            is_uuid_v4_text(s.id@),
            s.name == name,
            s.description == description,
            s.category == category,
            s.source == source,
            s.source_url is None,
            s.version == version,
            s.tags == tags,
            s.metadata@ == empty_metadata(),
            s.quality_score_bits == 0,
            s.download_count == 0,
            s.created_at@ == s.updated_at@,
            is_rfc3339_utc(s.created_at@),
    {
        let id = new_uuid_v4_text();
        let now = now_rfc3339();
        Skill::with_id_and_time(name, description, category, source, version, tags, id, now)
    }

    /// A new skill with the given id, created at the time whose RFC 3339
    /// text is `now`: no source URL, empty metadata, a zero quality score and
    /// download count, and both times `now`.
    pub fn with_id_and_time(
        name: String,
        description: String,
        category: String,
        source: String,
        version: String,
        tags: Vec<String>,
        id: String,
        now: String,
    ) -> (s: Self)
        ensures
            s.id == id,
            s.name == name,
            s.description == description,
            s.category == category,
            s.source == source,
            s.source_url is None,
            s.version == version,
            s.tags == tags,
            s.metadata@ == empty_metadata(),
            s.quality_score_bits == 0,
            s.download_count == 0,
            s.created_at@ == now@,
            s.updated_at@ == now@,
    {
        let mut metadata = String::new();
        crate::outside::push_char(&mut metadata, '{');
        crate::outside::push_char(&mut metadata, '}');
        let created_at = now.clone();
        Skill {
            id,
            name,
            description,
            category,
            source,
            source_url: None,
            version,
            tags,
            metadata,
            quality_score_bits: 0,
            download_count: 0,
            created_at,
            updated_at: now,
        }
    }
}

/// A full-text search over the index, with optional filters and paging.
#[derive(Debug, Clone)]
pub struct SearchQuery {
    pub text: String,
    pub category: Option<String>,
    pub source: Option<String>,
    pub tags: Vec<String>,
    pub limit: Option<usize>,
    pub offset: Option<usize>,
}

/// A place that skills are synced from.
#[derive(Debug, Clone)]
pub struct SyncSource {
    pub name: String,
    pub url: String,
    pub source_type: SourceType,
    pub enabled: bool,
}

/// The kinds of sync source.
#[derive(Clone, Copy, PartialEq, Eq, Structural, Debug)]
pub enum SourceType {
    GitHub,
    Http,
    LocalFile,
}

} // verus!
