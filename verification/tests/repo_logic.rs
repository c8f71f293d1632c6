use skills_dba::db::repo::{
    decode_tags, encode_tags, search_plan, SEARCH_SQL_CATEGORY, SEARCH_SQL_HEAD,
    SEARCH_SQL_SOURCE, SEARCH_SQL_TAIL,
};
use skills_dba::{SearchQuery, Skill};

fn query(text: &str, category: Option<&str>, source: Option<&str>, limit: Option<usize>, offset: Option<usize>) -> SearchQuery {
    SearchQuery {
        text: text.to_string(),
        category: category.map(|c| c.to_string()),
        source: source.map(|s| s.to_string()),
        tags: vec![],
        limit,
        offset,
    }
}

#[test]
fn search_limit_defaults_to_twenty() {
    let p = search_plan(&query("rust", None, None, None, None));
    assert_eq!(p.limit, 20);
    assert_eq!(p.offset, 0);
}

#[test]
fn search_limit_is_capped_at_one_hundred() {
    assert_eq!(search_plan(&query("x", None, None, Some(500), None)).limit, 100);
    assert_eq!(search_plan(&query("x", None, None, Some(100), None)).limit, 100);
    assert_eq!(search_plan(&query("x", None, None, Some(10), Some(7))).limit, 10);
    assert_eq!(search_plan(&query("x", None, None, Some(10), Some(7))).offset, 7);
}

#[test]
fn search_statement_has_the_asked_filters() {
    let none = search_plan(&query("rust", None, None, Some(10), None));
    assert_eq!(none.sql, format!("{}{}", SEARCH_SQL_HEAD, SEARCH_SQL_TAIL));
    let both = search_plan(&query("rust", Some("backend"), Some("local"), None, None));
    assert_eq!(
        both.sql,
        format!("{}{}{}{}", SEARCH_SQL_HEAD, SEARCH_SQL_CATEGORY, SEARCH_SQL_SOURCE, SEARCH_SQL_TAIL)
    );
    assert_eq!(both.category.as_deref(), Some("backend"));
    assert_eq!(both.source.as_deref(), Some("local"));
    let src = search_plan(&query("rust", None, Some("local"), None, None));
    assert_eq!(src.sql, format!("{}{}{}", SEARCH_SQL_HEAD, SEARCH_SQL_SOURCE, SEARCH_SQL_TAIL));
    assert!(SEARCH_SQL_HEAD.ends_with("WHERE skills_fts MATCH ?1"));
}

#[test]
fn search_plan_carries_the_fts_query() {
    let p = search_plan(&query("rust server", None, None, None, None));
    assert_eq!(p.fts_query, "\"rust\" AND \"server\"");
    let blank = search_plan(&query("  ", None, None, None, None));
    assert_eq!(blank.fts_query, "*");
}

#[test]
fn tags_are_stored_as_json() {
    let tags = vec!["rust".to_string(), "http".to_string()];
    assert_eq!(encode_tags(&tags), "[\"rust\",\"http\"]");
    assert_eq!(encode_tags(&vec![]), "[]");
    let odd = vec!["q\"b\\".to_string(), "\u{1}\u{8}\t\n\u{c}\r\u{1f}".to_string(), "\u{7f}é/".to_string()];
    assert_eq!(
        encode_tags(&odd),
        "[\"q\\\"b\\\\\",\"\\u0001\\b\\t\\n\\f\\r\\u001f\",\"\u{7f}é/\"]"
    );
}

#[test]
fn stored_tags_read_back() {
    let tags = vec!["a \"q\"".to_string(), "back\\slash".to_string(), "new\nline".to_string(), "ü".to_string()];
    assert_eq!(decode_tags(&encode_tags(&tags)), tags);
    assert_eq!(decode_tags("[\"x\"]"), vec!["x"]);
}

#[test]
fn unreadable_tags_are_none() {
    assert_eq!(decode_tags("not json"), Vec::<String>::new());
    assert_eq!(decode_tags("{\"a\":1}"), Vec::<String>::new());
    assert_eq!(decode_tags(""), Vec::<String>::new());
}

#[test]
fn new_skill_has_fresh_id_and_one_time() {
    let s = Skill::new(
        "test-skill".into(),
        "A test skill".into(),
        "testing".into(),
        "local".into(),
        "0.1.0".into(),
        vec!["test".into(), "integration".into()],
    );
    assert_eq!(s.name, "test-skill");
    assert_eq!(s.tags, vec!["test", "integration"]);
    assert_eq!(s.id.len(), 36);
    let id: Vec<char> = s.id.chars().collect();
    for (i, c) in id.iter().enumerate() {
        if [8, 13, 18, 23].contains(&i) {
            assert_eq!(*c, '-');
        } else {
            assert!(c.is_ascii_hexdigit() && !c.is_ascii_uppercase());
        }
    }
    assert_eq!(id[14], '4');
    assert!("89ab".contains(id[19]));
    assert_eq!(s.created_at, s.updated_at);
    assert!(s.created_at.ends_with("+00:00"));
    let t: Vec<char> = s.created_at.chars().collect();
    assert!([25, 29, 32, 35].contains(&t.len()));
    for (i, c) in t.iter().enumerate() {
        match i {
            4 | 7 => assert_eq!(*c, '-'),
            10 => assert_eq!(*c, 'T'),
            13 | 16 => assert_eq!(*c, ':'),
            19 if t.len() > 25 => assert_eq!(*c, '.'),
            _ if i + 6 < t.len() => assert!(c.is_ascii_digit()),
            _ => {}
        }
    }
    assert_eq!(s.metadata, "{}");
    assert_eq!(s.source_url, None);
    assert_eq!(s.quality_score_bits, 0);
    assert_eq!(f64::from_bits(s.quality_score_bits), 0.0);
    assert_eq!(s.download_count, 0);
    let t = Skill::new("t".into(), "".into(), "".into(), "".into(), "".into(), vec![]);
    assert_ne!(s.id, t.id);
}

#[test]
fn skill_row_reads_back_as_the_skill() {
    let mut s = Skill::new(
        "rust-http-server".into(),
        "Build an HTTP server in Rust".into(),
        "backend".into(),
        "github:skills".into(),
        "0.1.0".into(),
        vec!["rust".into(), "http".into()],
    );
    s.source_url = Some("https://example.com".into());
    s.download_count = 42;
    let row = s.to_row();
    assert_eq!(row.tags, "[\"rust\",\"http\"]");
    assert_eq!(row.id, s.id);
    let back = row.into_skill();
    assert_eq!(back.id, s.id);
    assert_eq!(back.name, s.name);
    assert_eq!(back.description, s.description);
    assert_eq!(back.category, s.category);
    assert_eq!(back.source, s.source);
    assert_eq!(back.source_url, s.source_url);
    assert_eq!(back.version, s.version);
    assert_eq!(back.tags, s.tags);
    assert_eq!(back.metadata, s.metadata);
    assert_eq!(back.download_count, 42);
    assert_eq!(back.created_at, s.created_at);
    assert_eq!(back.updated_at, s.updated_at);
}
