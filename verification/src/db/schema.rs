//! The tables of the skill index.
use vstd::prelude::*;

verus! {

/// The connection settings: write-ahead logging, so that searches can read
/// while a sync writes, and enforced foreign keys.
pub const PRAGMAS_SQL: &'static str = "PRAGMA journal_mode=WAL; PRAGMA foreign_keys=ON;";

/// The tables: the skills; their full-text index over id, name, description
/// and tags, kept in step with the skills by triggers; the sync sources; and
/// the sync log.
pub const SCHEMA_SQL: &'static str =
    "CREATE TABLE IF NOT EXISTS skills (
        id TEXT PRIMARY KEY,
        name TEXT NOT NULL,
        description TEXT NOT NULL,
        category TEXT NOT NULL,
        source TEXT NOT NULL,
        source_url TEXT,
        version TEXT NOT NULL,
        tags TEXT NOT NULL DEFAULT '[]',
        metadata TEXT NOT NULL DEFAULT '{}',
        quality_score REAL NOT NULL DEFAULT 0.0,
        download_count INTEGER NOT NULL DEFAULT 0,
        created_at TEXT NOT NULL,
        updated_at TEXT NOT NULL
    );
    CREATE INDEX IF NOT EXISTS idx_skills_category ON skills(category);
    CREATE INDEX IF NOT EXISTS idx_skills_source ON skills(source);
    CREATE VIRTUAL TABLE IF NOT EXISTS skills_fts USING fts5(
        id UNINDEXED, name, description, tags,
        content='skills', content_rowid='rowid'
    );
    CREATE TRIGGER IF NOT EXISTS skills_ai AFTER INSERT ON skills BEGIN
        INSERT INTO skills_fts(rowid, id, name, description, tags)
        VALUES (new.rowid, new.id, new.name, new.description, new.tags);
    END;
    CREATE TRIGGER IF NOT EXISTS skills_ad AFTER DELETE ON skills BEGIN
        INSERT INTO skills_fts(skills_fts, rowid, id, name, description, tags)
        VALUES ('delete', old.rowid, old.id, old.name, old.description, old.tags);
    END;
    CREATE TRIGGER IF NOT EXISTS skills_au AFTER UPDATE ON skills BEGIN
        INSERT INTO skills_fts(skills_fts, rowid, id, name, description, tags)
        VALUES ('delete', old.rowid, old.id, old.name, old.description, old.tags);
        INSERT INTO skills_fts(rowid, id, name, description, tags)
        VALUES (new.rowid, new.id, new.name, new.description, new.tags);
    END;
    CREATE TABLE IF NOT EXISTS sync_sources (
        name TEXT PRIMARY KEY,
        url TEXT NOT NULL,
        source_type TEXT NOT NULL,
        enabled INTEGER NOT NULL DEFAULT 1
    );
    CREATE TABLE IF NOT EXISTS sync_log (
        id INTEGER PRIMARY KEY AUTOINCREMENT,
        source_name TEXT NOT NULL,
        status TEXT NOT NULL,
        skills_added INTEGER NOT NULL DEFAULT 0,
        skills_updated INTEGER NOT NULL DEFAULT 0,
        error_message TEXT,
        started_at TEXT NOT NULL DEFAULT (datetime('now')),
        finished_at TEXT
    );";

} // verus!
