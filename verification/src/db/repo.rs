//! What the skill repository computes around its database: the full-text
//! query and the statement of a search, and the rows that skills are stored
//! as and read back from.
use vstd::prelude::*;

use super::models::{opt_view, SearchQuery, Skill, SkillView};
use crate::outside::{
    json_string_array, push_char, string_views, strings_from_json, strings_of_json_text,
    strings_to_json,
};
use crate::text::{
    chars_of, join, remove_char, split_range, split_on, strip_range, trim, words, non_empty,
    CharClass,
};

verus! {

/// A search term as an FTS5 phrase: between double quotes, with every double
/// quote of the term left out.
pub open spec fn fts_phrase(term: Seq<char>) -> Seq<char> {
    seq!['"'] + remove_char(term, '"') + seq!['"']
}

/// Each term as an FTS5 phrase, in order.
pub open spec fn fts_phrases(terms: Seq<Seq<char>>) -> Seq<Seq<char>>
    decreases terms.len(),
{
    if terms.len() == 0 {
        Seq::<Seq<char>>::empty()
    } else {
        fts_phrases(terms.drop_last()).push(fts_phrase(terms.last()))
    }
}

/// The word that joins the phrases of a query.
pub const FTS_AND: &'static str = " AND ";

/// The FTS5 query for a search text: `*` where the text is blank, else the
/// phrases of its words joined by ` AND `.
pub open spec fn fts_query_of(text: Seq<char>) -> Seq<char> {
    if trim(text).len() == 0 {
        seq!['*']
    } else {
        join(fts_phrases(words(trim(text))), FTS_AND@)
    }
}

proof fn lemma_fts_phrases_len(terms: Seq<Seq<char>>)
    ensures
        fts_phrases(terms).len() == terms.len(),
    decreases terms.len(),
{
    if terms.len() > 0 {
        lemma_fts_phrases_len(terms.drop_last());
    }
}

/// The FTS5 query for a search text.
pub fn build_fts_query(text: &str) -> (q: String)
    ensures
        q@ == fts_query_of(text@),
{
    let v = chars_of(text);
    let n = v.len();
    assert(v@.subrange(0, n as int) =~= text@);
    let (a, b) = strip_range(&v, 0, n, CharClass::Whitespace);
    let mut q = String::new();
    if a == b {
        push_char(&mut q, '*');
        assert(q@ =~= seq!['*']);
        return q;
    }
    let pieces = split_range(&v, a, b, CharClass::Whitespace);
    let ghost ps = split_on(v@.subrange(a as int, b as int), CharClass::Whitespace);
    let mut count: usize = 0;
    let mut k: usize = 0;
    assert(ps.take(0) =~= Seq::<Seq<char>>::empty());
    while k < pieces.len()
        invariant
            a < b <= n == v.len(),
            pieces.len() == ps.len(),
            forall|m: int|
                #![trigger pieces[m]]
                0 <= m < pieces.len() ==> 0 <= pieces[m].0 <= pieces[m].1 <= n && v@.subrange(
                    pieces[m].0 as int,
                    pieces[m].1 as int,
                ) == ps[m],
            k <= pieces.len(),
            count <= k,
            count == non_empty(ps.take(k as int)).len(),
            q@ == join(fts_phrases(non_empty(ps.take(k as int))), FTS_AND@),
        decreases pieces.len() - k,
    {
        let (lo, hi) = pieces[k];
        let ghost ne = non_empty(ps.take(k as int));
        assert(ps.take(k + 1 as int).drop_last() =~= ps.take(k as int));
        assert(ps.take(k + 1 as int).last() == ps[k as int]);
        if lo < hi {
            let ghost before = q@;
            proof {
                lemma_fts_phrases_len(ne);
            }
            if count > 0 {
                q.append(FTS_AND);
            }
            let ghost mid = q@;
            push_char(&mut q, '"');
            let mut i = lo;
            while i < hi
                invariant
                    lo <= i <= hi <= n == v.len(),
                    q@ == mid + seq!['"'] + remove_char(v@.subrange(lo as int, i as int), '"'),
                decreases hi - i,
            {
                assert(v@.subrange(lo as int, i + 1 as int).drop_last() =~= v@.subrange(
                    lo as int,
                    i as int,
                ));
                if v[i] != '"' {
                    push_char(&mut q, v[i]);
                }
                i = i + 1;
            }
            push_char(&mut q, '"');
            let ghost w = v@.subrange(lo as int, hi as int);
            assert(q@ =~= mid + fts_phrase(w));
            assert(ne.push(w).drop_last() =~= ne);
            assert(fts_phrases(ne.push(w)).drop_last() =~= fts_phrases(ne));
            count = count + 1;
        }
        k = k + 1;
    }
    assert(ps.take(pieces.len() as int) =~= ps);
    q
}

/// Stores a new skill; the thirteen parameters are the columns of its row.
pub const INSERT_SKILL_SQL: &'static str =
    "INSERT INTO skills (id, name, description, category, source, source_url, version, tags, metadata, quality_score, download_count, created_at, updated_at)
             VALUES (?1, ?2, ?3, ?4, ?5, ?6, ?7, ?8, ?9, ?10, ?11, ?12, ?13)";

/// Stores a skill, replacing one with the same id.
pub const UPSERT_SKILL_SQL: &'static str =
    "INSERT OR REPLACE INTO skills (id, name, description, category, source, source_url, version, tags, metadata, quality_score, download_count, created_at, updated_at)
                 VALUES (?1, ?2, ?3, ?4, ?5, ?6, ?7, ?8, ?9, ?10, ?11, ?12, ?13)";

/// Reads the row of the skill with the given id.
pub const SELECT_SKILL_SQL: &'static str =
    "SELECT id, name, description, category, source, source_url, version, tags, metadata,
                    quality_score, download_count, created_at, updated_at
             FROM skills WHERE id = ?1";

/// Removes the skill with the given id.
pub const DELETE_SKILL_SQL: &'static str = "DELETE FROM skills WHERE id = ?1";

/// Counts the skills.
pub const COUNT_SKILLS_SQL: &'static str = "SELECT COUNT(*) FROM skills";

/// Registers a sync source, unless one of that name is registered.
pub const REGISTER_SOURCE_SQL: &'static str =
    "INSERT OR IGNORE INTO sync_sources (name, url, source_type) VALUES (?1, ?2, ?3)";

/// Lists the sync sources by name.
pub const LIST_SOURCES_SQL: &'static str =
    "SELECT name, url, source_type, enabled FROM sync_sources ORDER BY name";

/// Writes a line of the sync log.
pub const RECORD_SYNC_SQL: &'static str =
    "INSERT INTO sync_log (source_name, status, skills_added, skills_updated, error_message, finished_at)
             VALUES (?1, ?2, ?3, ?4, ?5, datetime('now'))";

/// The part of the search statement before its optional filters.
pub const SEARCH_SQL_HEAD: &'static str =
    "SELECT s.id, s.name, s.description, s.category, s.source, s.source_url,
                    s.version, s.tags, s.metadata, s.quality_score, s.download_count,
                    s.created_at, s.updated_at,
                    bm25(skills_fts, 0.0, 1.0, 0.5, 0.3) AS relevance
             FROM skills_fts f
             JOIN skills s ON s.rowid = f.rowid
             WHERE skills_fts MATCH ?1";

/// The filter on the category, bound to the second parameter.
pub const SEARCH_SQL_CATEGORY: &'static str = " AND s.category = ?2";

/// The filter on the source, bound to the third parameter.
pub const SEARCH_SQL_SOURCE: &'static str = " AND s.source = ?3";

/// The ordering and paging of a search, bound to the fourth and fifth parameters.
pub const SEARCH_SQL_TAIL: &'static str = " ORDER BY relevance ASC LIMIT ?4 OFFSET ?5";

/// The number of results a search returns when it names no limit.
pub const DEFAULT_LIMIT: usize = 20;

/// The most results a search returns.
pub const MAX_LIMIT: usize = 100;

/// The statement of a search: the head, the category filter where the query
/// has a category, the source filter where it has a source, and the tail.
pub open spec fn search_sql(has_category: bool, has_source: bool) -> Seq<char> {
    SEARCH_SQL_HEAD@ + (if has_category {
        SEARCH_SQL_CATEGORY@
    } else {
        Seq::<char>::empty()
    }) + (if has_source {
        SEARCH_SQL_SOURCE@
    } else {
        Seq::<char>::empty()
    }) + SEARCH_SQL_TAIL@
}

/// The number of results of a search: the query's limit, or 20 where it has
/// none, and never more than 100.
pub open spec fn search_limit(limit: Option<usize>) -> int {
    let l = match limit {
        Some(l) => l as int,
        None => DEFAULT_LIMIT as int,
    };
    if l < MAX_LIMIT { l } else { MAX_LIMIT as int }
}

/// A search, ready to run: the statement and the values of its five
/// parameters.
#[derive(Debug)]
pub struct SearchPlan {
    pub sql: String,
    pub fts_query: String,
    pub category: Option<String>,
    pub source: Option<String>,
    pub limit: i64,
    pub offset: i64,
}

/// The statement and parameters of a search for `query`: the FTS5 query of
/// its text, its category and source as they are, the limit bounded as
/// `search_limit` says, and its offset, or 0.
pub fn search_plan(query: &SearchQuery) -> (p: SearchPlan)
    ensures
        p.sql@ == search_sql(query.category is Some, query.source is Some),
        p.fts_query@ == fts_query_of(query.text@),
        p.category == query.category,
        p.source == query.source,
        p.limit == search_limit(query.limit),
        p.offset == (match query.offset {
            Some(o) => o,
            None => 0,
        }) as i64,
        0 <= p.limit <= MAX_LIMIT,
{
    let limit: usize = match query.limit {
        Some(l) => if l < MAX_LIMIT { l } else { MAX_LIMIT },
        None => DEFAULT_LIMIT,
    };
    let offset: usize = match query.offset {
        Some(o) => o,
        None => 0,
    };
    let mut sql = String::from_str(SEARCH_SQL_HEAD);
    if query.category.is_some() {
        sql.append(SEARCH_SQL_CATEGORY);
    }
    if query.source.is_some() {
        sql.append(SEARCH_SQL_SOURCE);
    }
    sql.append(SEARCH_SQL_TAIL);
    assert(sql@ =~= search_sql(query.category is Some, query.source is Some));
    SearchPlan {
        sql,
        fts_query: build_fts_query(query.text.as_str()),
        category: clone_opt(&query.category),
        source: clone_opt(&query.source),
        limit: limit as i64,
        offset: offset as i64,
    }
}

/// A copy of an optional text.
pub fn clone_opt(o: &Option<String>) -> (r: Option<String>)
    ensures
        r == *o,
{
    match o {
        Some(s) => Some(s.clone()),
        None => None,
    }
}

/// The tags of a stored row, read from its JSON text: the list it holds, or
/// no tags where the text is not a JSON list of strings.
pub open spec fn tags_from_text(text: Seq<char>) -> Seq<Seq<char>> {
    match strings_of_json_text(text) {
        Some(t) => t,
        None => Seq::<Seq<char>>::empty(),
    }
}

/// The JSON text that the tags are stored as.
pub fn encode_tags(tags: &Vec<String>) -> (t: String)
    ensures
        t@ == json_string_array(string_views(tags@)),
        strings_of_json_text(t@) == Some(string_views(tags@)),
{
    match strings_to_json(tags) {
        Some(t) => t,
        None => String::new(),
    }
}

/// The tags stored as the JSON text `text`.
pub fn decode_tags(text: &str) -> (tags: Vec<String>)
    ensures
        string_views(tags@) == tags_from_text(text@),
{
    match strings_from_json(text) {
        Some(v) => v,
        None => {
            let v: Vec<String> = Vec::new();
            assert(string_views(v@) =~= Seq::<Seq<char>>::empty());
            v
        },
    }
}

/// A skill as the columns of its row, in the order of the table.
#[derive(Debug, Clone)]
pub struct SkillRow {
    pub id: String,
    pub name: String,
    pub description: String,
    pub category: String,
    pub source: String,
    pub source_url: Option<String>,
    pub version: String,
    pub tags: String,
    pub metadata: String,
    pub quality_score_bits: u64,
    pub download_count: i64,
    pub created_at: String,
    pub updated_at: String,
}

/// The row of a skill: each column its field, the tags as their JSON text,
/// which reads back as the same tags.
pub open spec fn row_matches(row: SkillRow, s: SkillView) -> bool {
    &&& row.id@ == s.id
    &&& row.name@ == s.name
    &&& row.description@ == s.description
    &&& row.category@ == s.category
    &&& row.source@ == s.source
    &&& opt_view(row.source_url) == s.source_url
    &&& row.version@ == s.version
    &&& row.tags@ == json_string_array(s.tags)
    &&& strings_of_json_text(row.tags@) == Some(s.tags)
    &&& row.metadata@ == s.metadata
    &&& row.quality_score_bits == s.quality_score_bits
    &&& row.download_count == s.download_count
    &&& row.created_at@ == s.created_at
    &&& row.updated_at@ == s.updated_at
}

/// The skill read from a row: each field its column, the tags read from
/// their JSON text as `tags_from_text` says.
pub open spec fn skill_of_row(row: SkillRow) -> SkillView {
    SkillView {
        id: row.id@,
        name: row.name@,
        description: row.description@,
        category: row.category@,
        source: row.source@,
        source_url: opt_view(row.source_url),
        version: row.version@,
        tags: tags_from_text(row.tags@),
        metadata: row.metadata@,
        quality_score_bits: row.quality_score_bits,
        download_count: row.download_count,
        created_at: row.created_at@,
        updated_at: row.updated_at@,
    }
}

impl Skill {
    /// The row this skill is stored as.
    pub fn to_row(&self) -> (row: SkillRow)
        ensures
            row_matches(row, self@),
    {
        SkillRow {
            id: self.id.clone(),
            name: self.name.clone(),
            description: self.description.clone(),
            category: self.category.clone(),
            source: self.source.clone(),
            source_url: clone_opt(&self.source_url),
            version: self.version.clone(),
            tags: encode_tags(&self.tags),
            metadata: self.metadata.clone(),
            quality_score_bits: self.quality_score_bits,
            download_count: self.download_count,
            created_at: self.created_at.clone(),
            updated_at: self.updated_at.clone(),
        }
    }
}

impl SkillRow {
    /// The skill this row holds.
    pub fn into_skill(self) -> (s: Skill)
        ensures
            s@ == skill_of_row(self),
    {
        let tags = decode_tags(self.tags.as_str());
        Skill {
            id: self.id,
            name: self.name,
            description: self.description,
            category: self.category,
            source: self.source,
            source_url: self.source_url,
            version: self.version,
            tags,
            metadata: self.metadata,
            quality_score_bits: self.quality_score_bits,
            download_count: self.download_count,
            created_at: self.created_at,
            updated_at: self.updated_at,
        }
    }
}

/// Reading back the row that a skill is stored as gives that skill, its tags
/// included: whatever the tags, their JSON text reads back as the same list.
pub proof fn law_row_round_trip(s: SkillView, row: SkillRow)
    requires
        row_matches(row, s),
    ensures
        skill_of_row(row) == s,
{
}


/// No search term can close its phrase early: between the two quotes that
/// delimit a phrase there is no double quote.
pub proof fn law_phrase_body_has_no_quote(term: Seq<char>)
    ensures
        fts_phrase(term).len() >= 2,
        fts_phrase(term)[0] == '"',
        fts_phrase(term).last() == '"',
        forall|i: int| 0 < i < fts_phrase(term).len() - 1 ==> fts_phrase(term)[i] != '"',
{
    let body = remove_char(term, '"');
    crate::text::lemma_remove_char_absent(term, '"');
    assert forall|i: int| 0 < i < fts_phrase(term).len() - 1 implies fts_phrase(term)[i] != '"' by {
        assert(fts_phrase(term)[i] == body[i - 1]);
    }
}



/// The category filter stands in the search statement exactly when the query
/// has a category, and the source filter exactly when it has a source, each
/// whatever the other is: with neither, the statement is the head and the
/// tail; asking for a category puts its filter right after the head; asking
/// for a source puts its filter right before the tail.
pub proof fn law_search_statement(has_category: bool, has_source: bool)
    ensures
        search_sql(false, false) == SEARCH_SQL_HEAD@ + SEARCH_SQL_TAIL@,
        search_sql(true, has_source) == SEARCH_SQL_HEAD@ + SEARCH_SQL_CATEGORY@ + search_sql(
            false,
            has_source,
        ).skip(SEARCH_SQL_HEAD@.len() as int),
        search_sql(has_category, true) == search_sql(has_category, false).take(
            search_sql(has_category, false).len() - SEARCH_SQL_TAIL@.len(),
        ) + SEARCH_SQL_SOURCE@ + SEARCH_SQL_TAIL@,
        search_sql(has_category, has_source).take(SEARCH_SQL_HEAD@.len() as int)
            == SEARCH_SQL_HEAD@,
        search_sql(has_category, has_source).skip(
            search_sql(has_category, has_source).len() - SEARCH_SQL_TAIL@.len(),
        ) == SEARCH_SQL_TAIL@,
{
    let e = Seq::<char>::empty();
    assert(search_sql(false, false) =~= SEARCH_SQL_HEAD@ + SEARCH_SQL_TAIL@);
    assert(search_sql(false, has_source).skip(SEARCH_SQL_HEAD@.len() as int) =~= (if has_source {
        SEARCH_SQL_SOURCE@
    } else {
        e
    }) + SEARCH_SQL_TAIL@);
    assert(search_sql(true, has_source) =~= SEARCH_SQL_HEAD@ + SEARCH_SQL_CATEGORY@ + search_sql(
        false,
        has_source,
    ).skip(SEARCH_SQL_HEAD@.len() as int));
    assert(search_sql(has_category, false).take(
        search_sql(has_category, false).len() - SEARCH_SQL_TAIL@.len(),
    ) =~= SEARCH_SQL_HEAD@ + (if has_category {
        SEARCH_SQL_CATEGORY@
    } else {
        e
    }));
    assert(search_sql(has_category, true) =~= search_sql(has_category, false).take(
        search_sql(has_category, false).len() - SEARCH_SQL_TAIL@.len(),
    ) + SEARCH_SQL_SOURCE@ + SEARCH_SQL_TAIL@);
    assert(search_sql(has_category, has_source).take(SEARCH_SQL_HEAD@.len() as int)
        =~= SEARCH_SQL_HEAD@);
    assert(search_sql(has_category, has_source).skip(
        search_sql(has_category, has_source).len() - SEARCH_SQL_TAIL@.len(),
    ) =~= SEARCH_SQL_TAIL@);
}

/// A search returns 20 results where the query names no limit, the named
/// number where it is at most 100, and 100 where it is more.
pub proof fn law_search_limit(l: usize)
    ensures
        search_limit(None) == 20,
        l <= 100 ==> search_limit(Some(l)) == l,
        l > 100 ==> search_limit(Some(l)) == 100,
{
}

/// The FTS5 query of a blank text is `*`; of any other text, one phrase per
/// word of the text, in order, joined by ` AND `, where the phrase of a word
/// is the word without its double quotes, between double quotes.
pub proof fn law_fts_query(text: Seq<char>)
    ensures
        trim(text).len() == 0 ==> fts_query_of(text) == seq!['*'],
        trim(text).len() > 0 ==> exists|ps: Seq<Seq<char>>|
            #![trigger join(ps, FTS_AND@)]
            {
                &&& ps.len() == words(trim(text)).len()
                &&& forall|i: int|
                    0 <= i < ps.len() ==> #[trigger] ps[i] == seq!['"'] + words(trim(text))[i].filter(
                        |x: char| x != '"',
                    ) + seq!['"']
                &&& fts_query_of(text) == join(ps, FTS_AND@)
            },
{
    if trim(text).len() > 0 {
        let w = words(trim(text));
        lemma_fts_phrases_elements(w);
        let ps = fts_phrases(w);
        assert(fts_query_of(text) == join(ps, FTS_AND@));
    }
}

proof fn lemma_fts_phrases_elements(w: Seq<Seq<char>>)
    ensures
        fts_phrases(w).len() == w.len(),
        forall|i: int|
            0 <= i < w.len() ==> #[trigger] fts_phrases(w)[i] == seq!['"'] + w[i].filter(
                |x: char| x != '"',
            ) + seq!['"'],
    decreases w.len(),
{
    if w.len() > 0 {
        lemma_fts_phrases_elements(w.drop_last());
        crate::text::law_remove_char(w.last(), '"');
        assert forall|i: int| 0 <= i < w.len() implies #[trigger] fts_phrases(w)[i] == seq!['"']
            + w[i].filter(|x: char| x != '"') + seq!['"'] by {
            if i < w.len() - 1 {
                assert(fts_phrases(w)[i] == fts_phrases(w.drop_last())[i]);
                assert(w[i] == w.drop_last()[i]);
            }
        }
    }
}

} // verus!
