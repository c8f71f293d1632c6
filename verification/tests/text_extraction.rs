use skills_dba::db::repo::build_fts_query;
use skills_dba::sync::sources::{extract_description, extract_tags};

#[test]
fn fts_blank_text_matches_everything() {
    assert_eq!(build_fts_query(""), "*");
    assert_eq!(build_fts_query("   \t\n"), "*");
    assert_eq!(build_fts_query("\u{3000}\u{a0}"), "*");
}

#[test]
fn fts_single_term_is_one_phrase() {
    assert_eq!(build_fts_query("rust"), "\"rust\"");
    assert_eq!(build_fts_query("  rust  "), "\"rust\"");
}

#[test]
fn fts_terms_are_anded_phrases() {
    assert_eq!(build_fts_query("rust server"), "\"rust\" AND \"server\"");
    assert_eq!(build_fts_query(" a\t b\n c "), "\"a\" AND \"b\" AND \"c\"");
    assert_eq!(build_fts_query("a\u{3000}b"), "\"a\" AND \"b\"");
}

#[test]
fn fts_quotes_are_removed_from_terms() {
    assert_eq!(build_fts_query("say \"hi\""), "\"say\" AND \"hi\"");
    assert_eq!(build_fts_query("\""), "\"\"");
    assert_eq!(build_fts_query("a\"b\"c"), "\"abc\"");
}

#[test]
fn description_line_is_taken() {
    let md = "---\ndescription: \"Build things\"\n---\n# Title\nBody";
    assert_eq!(extract_description(md), "Build things");
    assert_eq!(extract_description("  description:   spaced  "), "spaced");
    assert_eq!(extract_description("description:\"\"\""), "");
}

#[test]
fn description_line_wins_over_earlier_body() {
    assert_eq!(extract_description("Intro text\ndescription: later"), "later");
}

#[test]
fn description_falls_back_to_first_body_line() {
    assert_eq!(extract_description("# Title\n\n  First para line \nsecond"), "First para line");
    assert_eq!(extract_description("---\nname: x\n---\n"), "name: x");
    assert_eq!(extract_description("# T\r\nBody text\r\n"), "Body text");
    assert_eq!(extract_description("Xdescription: no"), "Xdescription: no");
}

#[test]
fn description_of_empty_text_is_empty() {
    assert_eq!(extract_description(""), "");
    assert_eq!(extract_description("# only\n---\n\n   \n"), "");
}

#[test]
fn tags_line_is_split_and_cleaned() {
    assert_eq!(extract_tags("tags: rust, web, \"cli\""), vec!["rust", "web", "cli"]);
    assert_eq!(extract_tags("# T\n  tags: [a, b]\n"), vec!["a", "b"]);
    assert_eq!(extract_tags("tags: [rust, \"web\"]"), vec!["rust", "web\""]);
}

#[test]
fn empty_tags_are_left_out() {
    assert_eq!(extract_tags("tags:"), Vec::<String>::new());
    assert_eq!(extract_tags("tags: a,,b, ,[]"), vec!["a", "b"]);
}

#[test]
fn no_tags_line_gives_no_tags() {
    assert_eq!(extract_tags("no tags here\nx: tags: y"), Vec::<String>::new());
    assert_eq!(extract_tags(""), Vec::<String>::new());
}

#[test]
fn first_tags_line_wins() {
    assert_eq!(extract_tags("tags: x\ntags: y"), vec!["x"]);
}
