use skills_dba::sync::pipeline::{sync_step, SyncEvent};
use skills_dba::sync::sources::{select_file, GitHubEntry, MarkdownFile};
use skills_dba::{Error, GitHubSource};

#[test]
fn failed_fetch_writes_no_log_line() {
    let step = sync_step("github".to_string(), SyncEvent::FetchFailed("timeout".to_string()));
    assert!(step.record.is_none());
    assert_eq!(step.outcome.source, "github");
    assert!(!step.outcome.success);
    assert_eq!(step.outcome.skills_added, 0);
    assert_eq!(step.outcome.error.as_deref(), Some("timeout"));
}

#[test]
fn stored_skills_are_logged_as_success() {
    let step = sync_step("github".to_string(), SyncEvent::Stored(7));
    let rec = step.record.unwrap();
    assert_eq!(rec.source_name, "github");
    assert_eq!(rec.status, "success");
    assert_eq!(rec.added, 7);
    assert_eq!(rec.updated, 0);
    assert_eq!(rec.error, None);
    assert!(step.outcome.success);
    assert_eq!(step.outcome.skills_added, 7);
    assert_eq!(step.outcome.error, None);
}

#[test]
fn failed_store_is_logged_as_failed() {
    let step = sync_step("http".to_string(), SyncEvent::StoreFailed("disk full".to_string()));
    let rec = step.record.unwrap();
    assert_eq!(rec.status, "failed");
    assert_eq!(rec.added, 0);
    assert_eq!(rec.error.as_deref(), Some("disk full"));
    assert!(!step.outcome.success);
    assert_eq!(step.outcome.skills_added, 0);
    assert_eq!(step.outcome.error.as_deref(), Some("disk full"));
}

#[test]
fn github_addresses() {
    let g = GitHubSource::new("anthropics", "skills", "skills");
    assert_eq!(g.name(), "github");
    assert_eq!(g.contents_url(), "https://api.github.com/repos/anthropics/skills/contents/skills");
    assert_eq!(g.skill_source(), "github:anthropics:skills");
    match g.status_error("404 Not Found") {
        Error::Sync(m) => assert_eq!(m, "GitHub API returned 404 Not Found for anthropics/skills"),
    }
}

fn entry(name: Option<&str>, dl: Option<&str>, html: Option<&str>) -> GitHubEntry {
    GitHubEntry {
        name: name.map(|s| s.to_string()),
        download_url: dl.map(|s| s.to_string()),
        html_url: html.map(|s| s.to_string()),
    }
}

#[test]
fn only_markdown_files_are_skills() {
    assert!(select_file(&entry(Some("README"), Some("u"), Some("h"))).is_none());
    assert!(select_file(&entry(None, Some("u"), Some("h"))).is_none());
    assert!(select_file(&entry(Some("notes.mdx"), None, None)).is_none());
    let f = select_file(&entry(Some("rust.md"), Some("https://raw/rust.md"), Some("https://gh/rust.md"))).unwrap();
    assert_eq!(f.skill_name, "rust");
    assert_eq!(f.download_url, "https://raw/rust.md");
    assert_eq!(f.html_url, "https://gh/rust.md");
}

#[test]
fn markdown_extension_is_removed_repeatedly() {
    let f = select_file(&entry(Some("a.md.md"), None, None)).unwrap();
    assert_eq!(f.skill_name, "a");
    assert_eq!(f.download_url, "");
    assert_eq!(f.html_url, "");
    let g = select_file(&entry(Some(".md"), None, None)).unwrap();
    assert_eq!(g.skill_name, "");
}

#[test]
fn markdown_file_becomes_a_skill() {
    let g = GitHubSource::new("o", "r", "p");
    let file = MarkdownFile {
        skill_name: "web-scraper".to_string(),
        download_url: "https://raw/web-scraper.md".to_string(),
        html_url: "https://gh/web-scraper.md".to_string(),
    };
    let s = g.skill_from_markdown(&file, "---\ndescription: Scrape pages\ntags: [web, scraping]\n---\n");
    assert_eq!(s.name, "web-scraper");
    assert_eq!(s.description, "Scrape pages");
    assert_eq!(s.category, "general");
    assert_eq!(s.source, "github:o:r");
    assert_eq!(s.version, "0.1.0");
    assert_eq!(s.tags, vec!["web", "scraping"]);
    assert_eq!(s.source_url.as_deref(), Some("https://gh/web-scraper.md"));
    assert_eq!(s.id.len(), 36);
}
