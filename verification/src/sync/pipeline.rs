//! The decisions of a sync run, apart from the fetching and storing that
//! surround them.
use vstd::prelude::*;

verus! {

/// The status written to the sync log when a source's skills were stored.
pub const STATUS_SUCCESS: &'static str = "success";

/// The status written to the sync log when storing a source's skills failed.
pub const STATUS_FAILED: &'static str = "failed";

/// What a sync of one source came to.
#[derive(Debug)]
pub struct SyncOutcome {
    pub source: String,
    pub success: bool,
    pub skills_added: usize,
    pub error: Option<String>,
}

/// A line of the sync log.
#[derive(Debug)]
pub struct SyncRecord {
    pub source_name: String,
    pub status: String,
    pub added: i64,
    pub updated: i64,
    pub error: Option<String>,
}

/// What happened to a source's skills: the fetch failed with a message, or
/// the fetched skills were stored (that many of them), or storing them
/// failed with a message.
#[derive(Debug)]
pub enum SyncEvent {
    FetchFailed(String),
    Stored(usize),
    StoreFailed(String),
}

/// The decision after an event: the line to write to the sync log, if any,
/// and the outcome of the sync.
#[derive(Debug)]
pub struct SyncStep {
    pub record: Option<SyncRecord>,
    pub outcome: SyncOutcome,
}

/// The sync-log line and the outcome for `source` after `event`. A failed
/// fetch writes no line and fails with its message; stored skills write a
/// `success` line counting them and succeed; a failed store writes a
/// `failed` line with its message and fails with it.
pub fn sync_step(source: String, event: SyncEvent) -> (r: SyncStep)
    ensures
        r.outcome.source == source,
        r.outcome.success <==> r.outcome.error is None,
        !r.outcome.success ==> r.outcome.skills_added == 0,
        match event {
            SyncEvent::FetchFailed(e) => {
                &&& r.record is None
                &&& !r.outcome.success
                &&& r.outcome.error == Some(e)
            },
            SyncEvent::Stored(n) => {
                &&& r.outcome.success
                &&& r.outcome.skills_added == n
                &&& r.record matches Some(rec) && {
                    &&& rec.source_name == source
                    &&& rec.status@ == STATUS_SUCCESS@
                    &&& rec.added == n as i64
                    &&& rec.updated == 0
                    &&& rec.error is None
                }
            },
            SyncEvent::StoreFailed(e) => {
                &&& !r.outcome.success
                &&& r.outcome.error == Some(e)
                &&& r.record matches Some(rec) && {
                    &&& rec.source_name == source
                    &&& rec.status@ == STATUS_FAILED@
                    &&& rec.added == 0
                    &&& rec.updated == 0
                    &&& rec.error == Some(e)
                }
            },
        },
{
    match event {
        SyncEvent::FetchFailed(e) => SyncStep {
            record: None,
            outcome: SyncOutcome { source, success: false, skills_added: 0, error: Some(e) },
        },
        SyncEvent::Stored(n) => {
            let record = SyncRecord {
                source_name: source.clone(),
                status: String::from_str(STATUS_SUCCESS),
                added: n as i64,
                updated: 0,
                error: None,
            };
            SyncStep {
                record: Some(record),
                outcome: SyncOutcome { source, success: true, skills_added: n, error: None },
            }
        },
        SyncEvent::StoreFailed(e) => {
            let record = SyncRecord {
                source_name: source.clone(),
                status: String::from_str(STATUS_FAILED),
                added: 0,
                updated: 0,
                error: Some(e.clone()),
            };
            SyncStep {
                record: Some(record),
                outcome: SyncOutcome { source, success: false, skills_added: 0, error: Some(e) },
            }
        },
    }
}

} // verus!
