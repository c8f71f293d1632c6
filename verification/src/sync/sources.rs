//! Skill sources: reading a skill's description and tags out of its markdown
//! text, and the GitHub source's choice of files and of the skills it makes.
use vstd::prelude::*;

use crate::db::models::{empty_metadata, Skill};
use crate::error::Error;
use crate::outside::{is_rfc3339_utc, is_uuid_v4_text, string_views};
use crate::text::{
    chars_of, has_prefix, has_prefix_range, has_suffix, has_suffix_range, lines, split_on,
    split_range, string_of_range, strip_range, strip_suffix_all, strip_suffix_all_range, trim,
    trim_char, CharClass, in_class, is_ws, strip_end, strip_start,
};

verus! {

/// The key of a description line.
pub const DESCRIPTION_KEY: &'static str = "description:";

/// The key of a tags line.
pub const TAGS_KEY: &'static str = "tags:";

/// The opening of a front-matter fence.
pub const FENCE: &'static str = "---";

/// The value of a trimmed description line: the text after the key, trimmed,
/// without `"` at either end.
pub open spec fn description_value(t: Seq<char>) -> Seq<char> {
    trim_char(trim(t.skip(DESCRIPTION_KEY@.len() as int)), '"')
}

/// The value of the first line that, trimmed, begins with the description key.
pub open spec fn first_description(ls: Seq<Seq<char>>) -> Option<Seq<char>>
    decreases ls.len(),
{
    if ls.len() == 0 {
        None
    } else if has_prefix(trim(ls[0]), DESCRIPTION_KEY@) {
        Some(description_value(trim(ls[0])))
    } else {
        first_description(ls.drop_first())
    }
}

/// A line of body text: trimmed, it is not empty, and begins neither with
/// `#` nor with `---`.
pub open spec fn is_body_line(l: Seq<char>) -> bool {
    let t = trim(l);
    t.len() > 0 && t[0] != '#' && !has_prefix(t, FENCE@)
}

/// The first line of body text, trimmed.
pub open spec fn first_body_line(ls: Seq<Seq<char>>) -> Option<Seq<char>>
    decreases ls.len(),
{
    if ls.len() == 0 {
        None
    } else if is_body_line(ls[0]) {
        Some(trim(ls[0]))
    } else {
        first_body_line(ls.drop_first())
    }
}

/// The description of a skill's markdown text: the value of its first
/// description line; failing that, its first line of body text, trimmed;
/// failing that, nothing.
///
/// `lines` splits at every `'\n'`, where `str::lines` also drops a `'\r'`
/// before it and a last empty line; every line is trimmed before it is looked
/// at, and an empty line is never taken, so the two give the same description.
pub open spec fn description_of(content: Seq<char>) -> Seq<char> {
    match first_description(lines(content)) {
        Some(d) => d,
        None => match first_body_line(lines(content)) {
            Some(t) => t,
            None => Seq::<char>::empty(),
        },
    }
}

/// One tag as written between commas, cleaned: trimmed, then stripped of
/// `"`, then of `[`, then of `]` at either end.
pub open spec fn clean_tag(t: Seq<char>) -> Seq<char> {
    trim_char(trim_char(trim_char(trim(t), '"'), '['), ']')
}

/// The cleaned pieces that are not empty, in order.
pub open spec fn clean_tags(ps: Seq<Seq<char>>) -> Seq<Seq<char>>
    decreases ps.len(),
{
    if ps.len() == 0 {
        Seq::<Seq<char>>::empty()
    } else if clean_tag(ps.last()).len() > 0 {
        clean_tags(ps.drop_last()).push(clean_tag(ps.last()))
    } else {
        clean_tags(ps.drop_last())
    }
}

/// The tags of the first line that, trimmed, begins with the tags key: the
/// text after the key split at commas, each piece cleaned, empty ones left out.
pub open spec fn first_tags(ls: Seq<Seq<char>>) -> Option<Seq<Seq<char>>>
    decreases ls.len(),
{
    if ls.len() == 0 {
        None
    } else if has_prefix(trim(ls[0]), TAGS_KEY@) {
        Some(
            clean_tags(split_on(trim(ls[0]).skip(TAGS_KEY@.len() as int), CharClass::Is(','))),
        )
    } else {
        first_tags(ls.drop_first())
    }
}

/// The tags of a skill's markdown text: those of its first tags line, or none.
pub open spec fn tags_of(content: Seq<char>) -> Seq<Seq<char>> {
    match first_tags(lines(content)) {
        Some(t) => t,
        None => Seq::<Seq<char>>::empty(),
    }
}

/// The description of a skill's markdown text.
pub fn extract_description(content: &str) -> (d: String)
    ensures
        d@ == description_of(content@),
{
    let v = chars_of(content);
    let n = v.len();
    let ls = split_range(&v, 0, n, CharClass::Is('\n'));
    assert(v@.subrange(0, n as int) =~= content@);
    let ghost all = lines(content@);
    let key = chars_of(DESCRIPTION_KEY);
    let mut k: usize = 0;
    assert(all.skip(0) =~= all);
    while k < ls.len()
        invariant
            v@ == content@,
            n == v.len(),
            key@ == DESCRIPTION_KEY@,
            all == lines(content@),
            ls.len() == all.len(),
            forall|j: int|
                #![trigger ls[j]]
                0 <= j < ls.len() ==> 0 <= ls[j].0 <= ls[j].1 <= n && v@.subrange(
                    ls[j].0 as int,
                    ls[j].1 as int,
                ) == all[j],
            k <= ls.len(),
            first_description(all) == first_description(all.skip(k as int)),
        decreases ls.len() - k,
    {
        let (lo, hi) = ls[k];
        let (a, b) = strip_range(&v, lo, hi, CharClass::Whitespace);
        assert(all.skip(k as int)[0] == all[k as int]);
        if has_prefix_range(&v, a, b, &key) {
            assert(v@.subrange(a as int, b as int).skip(key@.len() as int) =~= v@.subrange(
                a + key@.len(),
                b as int,
            ));
            let (c, d) = strip_range(&v, a + key.len(), b, CharClass::Whitespace);
            let (e, f) = strip_range(&v, c, d, CharClass::Is('"'));
            return string_of_range(&v, e, f);
        }
        assert(all.skip(k as int).drop_first() =~= all.skip(k + 1 as int));
        k = k + 1;
    }
    assert(all.skip(k as int) =~= Seq::<Seq<char>>::empty());
    let dashes = chars_of(FENCE);
    let mut k: usize = 0;
    assert(all.skip(0) =~= all);
    while k < ls.len()
        invariant
            v@ == content@,
            n == v.len(),
            dashes@ == FENCE@,
            all == lines(content@),
            ls.len() == all.len(),
            forall|j: int|
                #![trigger ls[j]]
                0 <= j < ls.len() ==> 0 <= ls[j].0 <= ls[j].1 <= n && v@.subrange(
                    ls[j].0 as int,
                    ls[j].1 as int,
                ) == all[j],
            k <= ls.len(),
            first_description(all) is None,
            first_body_line(all) == first_body_line(all.skip(k as int)),
        decreases ls.len() - k,
    {
        let (lo, hi) = ls[k];
        let (a, b) = strip_range(&v, lo, hi, CharClass::Whitespace);
        assert(all.skip(k as int)[0] == all[k as int]);
        if a < b && v[a] != '#' && !has_prefix_range(&v, a, b, &dashes) {
            return string_of_range(&v, a, b);
        }
        assert(all.skip(k as int).drop_first() =~= all.skip(k + 1 as int));
        k = k + 1;
    }
    assert(all.skip(k as int) =~= Seq::<Seq<char>>::empty());
    String::new()
}

/// The tags of a skill's markdown text.
pub fn extract_tags(content: &str) -> (tags: Vec<String>)
    ensures
        string_views(tags@) == tags_of(content@),
{
    let v = chars_of(content);
    let n = v.len();
    let ls = split_range(&v, 0, n, CharClass::Is('\n'));
    assert(v@.subrange(0, n as int) =~= content@);
    let ghost all = lines(content@);
    let key = chars_of(TAGS_KEY);
    let mut k: usize = 0;
    assert(all.skip(0) =~= all);
    while k < ls.len()
        invariant
            v@ == content@,
            n == v.len(),
            key@ == TAGS_KEY@,
            all == lines(content@),
            ls.len() == all.len(),
            forall|j: int|
                #![trigger ls[j]]
                0 <= j < ls.len() ==> 0 <= ls[j].0 <= ls[j].1 <= n && v@.subrange(
                    ls[j].0 as int,
                    ls[j].1 as int,
                ) == all[j],
            k <= ls.len(),
            first_tags(all) == first_tags(all.skip(k as int)),
        decreases ls.len() - k,
    {
        let (lo, hi) = ls[k];
        let (a, b) = strip_range(&v, lo, hi, CharClass::Whitespace);
        assert(all.skip(k as int)[0] == all[k as int]);
        if has_prefix_range(&v, a, b, &key) {
            assert(v@.subrange(a as int, b as int).skip(key@.len() as int) =~= v@.subrange(
                a + key@.len(),
                b as int,
            ));
            let pieces = split_range(&v, a + key.len(), b, CharClass::Is(','));
            let ghost ps = split_on(v@.subrange(a + key@.len(), b as int), CharClass::Is(','));
            let mut tags: Vec<String> = Vec::new();
            let mut j: usize = 0;
            while j < pieces.len()
                invariant
                    v@ == content@,
                    n == v.len(),
                    pieces.len() == ps.len(),
                    forall|m: int|
                        #![trigger pieces[m]]
                        0 <= m < pieces.len() ==> 0 <= pieces[m].0 <= pieces[m].1 <= n
                            && v@.subrange(pieces[m].0 as int, pieces[m].1 as int) == ps[m],
                    j <= pieces.len(),
                    string_views(tags@) == clean_tags(ps.take(j as int)),
                decreases pieces.len() - j,
            {
                let (plo, phi) = pieces[j];
                let (c1, d1) = strip_range(&v, plo, phi, CharClass::Whitespace);
                let (c2, d2) = strip_range(&v, c1, d1, CharClass::Is('"'));
                let (c3, d3) = strip_range(&v, c2, d2, CharClass::Is('['));
                let (c4, d4) = strip_range(&v, c3, d3, CharClass::Is(']'));
                assert(ps.take(j + 1 as int).drop_last() =~= ps.take(j as int));
                assert(ps.take(j + 1 as int).last() == ps[j as int]);
                if c4 < d4 {
                    let t = string_of_range(&v, c4, d4);
                    let ghost before = tags@;
                    tags.push(t);
                    assert(string_views(tags@) =~= string_views(before).push(t@));
                }
                j = j + 1;
            }
            assert(ps.take(pieces.len() as int) =~= ps);
            return tags;
        }
        assert(all.skip(k as int).drop_first() =~= all.skip(k + 1 as int));
        k = k + 1;
    }
    assert(all.skip(k as int) =~= Seq::<Seq<char>>::empty());
    Vec::new()
}


/// The ending of the file names of skills.
pub const MARKDOWN_EXT: &'static str = ".md";

/// The name given to a listed file that has none.
pub const UNNAMED_FILE: &'static str = "unknown";

/// The category of skills fetched from GitHub.
pub const GITHUB_CATEGORY: &'static str = "general";

/// The version of skills fetched from GitHub.
pub const GITHUB_VERSION: &'static str = "0.1.0";

/// A directory of skills in a GitHub repository: one markdown file per skill.
#[derive(Debug, Clone)]
pub struct GitHubSource {
    pub owner: String,
    pub repo: String,
    pub path: String,
}

/// An entry of a GitHub directory listing, with the fields a sync reads.
#[derive(Debug, Clone)]
pub struct GitHubEntry {
    pub name: Option<String>,
    pub download_url: Option<String>,
    pub html_url: Option<String>,
}

/// A listed markdown file that holds a skill.
#[derive(Debug, Clone)]
pub struct MarkdownFile {
    pub skill_name: String,
    pub download_url: String,
    pub html_url: String,
}

/// A text, or the given default where there is none.
pub open spec fn text_or(o: Option<String>, default: Seq<char>) -> Seq<char> {
    match o {
        Some(s) => s@,
        None => default,
    }
}

/// A copy of a text, or the given default where there is none.
fn text_or_default(o: &Option<String>, default: &str) -> (r: String)
    ensures
        r@ == text_or(*o, default@),
{
    match o {
        Some(s) => s.clone(),
        None => String::from_str(default),
    }
}

/// The file of a listing entry that holds a skill: an entry whose name (or
/// `unknown`, where it has none) ends with `.md`. The skill is named by the
/// file name with `.md` taken off its end as often as it ends with it; a
/// missing URL is empty.
pub fn select_file(entry: &GitHubEntry) -> (f: Option<MarkdownFile>)
    ensures
        f is Some <==> has_suffix(text_or(entry.name, UNNAMED_FILE@), MARKDOWN_EXT@),
        f matches Some(m) ==> {
            &&& m.skill_name@ == strip_suffix_all(text_or(entry.name, UNNAMED_FILE@), MARKDOWN_EXT@)
            &&& m.download_url@ == text_or(entry.download_url, Seq::<char>::empty())
            &&& m.html_url@ == text_or(entry.html_url, Seq::<char>::empty())
        },
{
    let name = text_or_default(&entry.name, UNNAMED_FILE);
    let v = chars_of(name.as_str());
    let ext = chars_of(MARKDOWN_EXT);
    let n = v.len();
    assert(v@.subrange(0, n as int) =~= v@);
    if !has_suffix_range(&v, 0, n, &ext) {
        return None;
    }
    proof {
        reveal_strlit(".md");
        reveal_strlit("");
    }
    let e = strip_suffix_all_range(&v, 0, n, &ext);
    Some(
        MarkdownFile {
            skill_name: string_of_range(&v, 0, e),
            download_url: text_or_default(&entry.download_url, ""),
            html_url: text_or_default(&entry.html_url, ""),
        },
    )
}

impl GitHubSource {
    /// The directory `path` of the repository `owner/repo`.
    pub fn new(owner: &str, repo: &str, path: &str) -> (s: Self)
        ensures
            s.owner@ == owner@,
            s.repo@ == repo@,
            s.path@ == path@,
    {
        GitHubSource {
            owner: String::from_str(owner),
            repo: String::from_str(repo),
            path: String::from_str(path),
        }
    }

    /// The name of this kind of source.
    pub fn name(&self) -> (n: &'static str)
        ensures
            n@ == "github"@,
    {
        "github"
    }

    /// The API address that lists the directory.
    pub fn contents_url(&self) -> (u: String)
        ensures
            u@ == "https://api.github.com/repos/"@ + self.owner@ + "/"@ + self.repo@
                + "/contents/"@ + self.path@,
    {
        let mut u = String::from_str("https://api.github.com/repos/");
        u.append(self.owner.as_str());
        u.append("/");
        u.append(self.repo.as_str());
        u.append("/contents/");
        u.append(self.path.as_str());
        u
    }

    /// The error for a listing answered with the unsuccessful HTTP status
    /// whose text is `status`.
    pub fn status_error(&self, status: &str) -> (e: Error)
        ensures
            e matches Error::Sync(m) && m@ == "GitHub API returned "@ + status@ + " for "@
                + self.owner@ + "/"@ + self.repo@,
    {
        let mut m = String::from_str("GitHub API returned ");
        m.append(status);
        m.append(" for ");
        m.append(self.owner.as_str());
        m.append("/");
        m.append(self.repo.as_str());
        Error::Sync(m)
    }

    /// The source that skills from this directory carry.
    pub fn skill_source(&self) -> (s: String)
        ensures
            s@ == "github:"@ + self.owner@ + ":"@ + self.repo@,
    {
        let mut s = String::from_str("github:");
        s.append(self.owner.as_str());
        s.append(":");
        s.append(self.repo.as_str());
        s
    }

    /// The skill held by the markdown file `file`, whose text is `content`: a
    /// new skill named after the file, with the description and tags of the
    /// text, category `general`, version `0.1.0`, this directory as source and
    /// the file's page as source URL.
    pub fn skill_from_markdown(&self, file: &MarkdownFile, content: &str) -> (s: Skill)
        ensures
            is_uuid_v4_text(s.id@),
            s.name@ == file.skill_name@,
            s.description@ == description_of(content@),
            s.category@ == GITHUB_CATEGORY@,
            s.source@ == "github:"@ + self.owner@ + ":"@ + self.repo@,
            s.version@ == GITHUB_VERSION@,
            string_views(s.tags@) == tags_of(content@),
            s.source_url matches Some(u) && u@ == file.html_url@,
            s.metadata@ == empty_metadata(),
            s.quality_score_bits == 0,
            s.download_count == 0,
            s.created_at@ == s.updated_at@,
            is_rfc3339_utc(s.created_at@),
    {
        let mut skill = Skill::new(
            file.skill_name.clone(),
            extract_description(content),
            String::from_str(GITHUB_CATEGORY),
            self.skill_source(),
            String::from_str(GITHUB_VERSION),
            extract_tags(content),
        );
        skill.source_url = Some(file.html_url.clone());
        skill
    }
}


/// Every cleaned tag that is kept is non-empty.
proof fn lemma_clean_tags_non_empty(ps: Seq<Seq<char>>)
    ensures
        forall|i: int| 0 <= i < clean_tags(ps).len() ==> #[trigger] clean_tags(ps)[i].len() > 0,
    decreases ps.len(),
{
    if ps.len() > 0 {
        lemma_clean_tags_non_empty(ps.drop_last());
        let rest = clean_tags(ps.drop_last());
        let c = clean_tag(ps.last());
        if c.len() > 0 {
            assert forall|i: int| 0 <= i < rest.push(c).len() implies #[trigger] rest.push(c)[i].len()
                > 0 by {
                if i < rest.len() {
                    assert(rest.push(c)[i] == rest[i]);
                }
            }
        }
    }
}

proof fn lemma_first_tags_non_empty(ls: Seq<Seq<char>>)
    ensures
        first_tags(ls) matches Some(t) ==> forall|i: int| 0 <= i < t.len() ==> #[trigger] t[i].len() > 0,
    decreases ls.len(),
{
    if ls.len() > 0 {
        if has_prefix(trim(ls[0]), TAGS_KEY@) {
            lemma_clean_tags_non_empty(
                split_on(trim(ls[0]).skip(TAGS_KEY@.len() as int), CharClass::Is(',')),
            );
        } else {
            lemma_first_tags_non_empty(ls.drop_first());
        }
    }
}

/// No tag read from a skill's text is empty.
pub proof fn law_tags_not_empty(content: Seq<char>)
    ensures
        forall|i: int| 0 <= i < tags_of(content).len() ==> #[trigger] tags_of(content)[i].len() > 0,
{
    lemma_first_tags_non_empty(lines(content));
}

/// A skill named after a markdown file does not end with `.md`.
pub proof fn law_skill_name_has_no_extension(name: Seq<char>)
    ensures
        !has_suffix(strip_suffix_all(name, MARKDOWN_EXT@), MARKDOWN_EXT@),
{
    reveal_strlit(".md");
    crate::text::lemma_strip_suffix_all_done(name, MARKDOWN_EXT@);
}


proof fn lemma_first_description_at(ls: Seq<Seq<char>>, i: int)
    requires
        0 <= i < ls.len(),
        has_prefix(trim(ls[i]), DESCRIPTION_KEY@),
        forall|j: int| 0 <= j < i ==> !has_prefix(trim(#[trigger] ls[j]), DESCRIPTION_KEY@),
    ensures
        first_description(ls) == Some(
            trim_char(trim(trim(ls[i]).skip(DESCRIPTION_KEY@.len() as int)), '"'),
        ),
    decreases i,
{
    if i > 0 {
        let t = ls.drop_first();
        assert(!has_prefix(trim(ls[0]), DESCRIPTION_KEY@));
        assert(t[i - 1] == ls[i]);
        assert forall|j: int| 0 <= j < i - 1 implies !has_prefix(
            trim(#[trigger] t[j]),
            DESCRIPTION_KEY@,
        ) by {
            assert(t[j] == ls[j + 1]);
        }
        lemma_first_description_at(t, i - 1);
    }
}

proof fn lemma_first_description_none(ls: Seq<Seq<char>>)
    requires
        forall|j: int| 0 <= j < ls.len() ==> !has_prefix(trim(#[trigger] ls[j]), DESCRIPTION_KEY@),
    ensures
        first_description(ls) is None,
    decreases ls.len(),
{
    if ls.len() > 0 {
        let t = ls.drop_first();
        assert(!has_prefix(trim(ls[0]), DESCRIPTION_KEY@));
        assert forall|j: int| 0 <= j < t.len() implies !has_prefix(
            trim(#[trigger] t[j]),
            DESCRIPTION_KEY@,
        ) by {
            assert(t[j] == ls[j + 1]);
        }
        lemma_first_description_none(t);
    }
}

proof fn lemma_first_body_line_at(ls: Seq<Seq<char>>, i: int)
    requires
        0 <= i < ls.len(),
        trim(ls[i]).len() > 0 && trim(ls[i])[0] != '#' && !has_prefix(trim(ls[i]), FENCE@),
        forall|j: int|
            0 <= j < i ==> !(trim(#[trigger] ls[j]).len() > 0 && trim(ls[j])[0] != '#'
                && !has_prefix(trim(ls[j]), FENCE@)),
    ensures
        first_body_line(ls) == Some(trim(ls[i])),
    decreases i,
{
    if i > 0 {
        let t = ls.drop_first();
        assert(!(trim(ls[0]).len() > 0 && trim(ls[0])[0] != '#' && !has_prefix(
            trim(ls[0]),
            FENCE@,
        )));
        assert(t[i - 1] == ls[i]);
        assert forall|j: int|
            0 <= j < i - 1 implies !(trim(#[trigger] t[j]).len() > 0 && trim(t[j])[0] != '#'
            && !has_prefix(trim(t[j]), FENCE@)) by {
            assert(t[j] == ls[j + 1]);
        }
        lemma_first_body_line_at(t, i - 1);
    }
}

proof fn lemma_first_body_line_none(ls: Seq<Seq<char>>)
    requires
        forall|j: int|
            0 <= j < ls.len() ==> !(trim(#[trigger] ls[j]).len() > 0 && trim(ls[j])[0] != '#'
                && !has_prefix(trim(ls[j]), FENCE@)),
    ensures
        first_body_line(ls) is None,
    decreases ls.len(),
{
    if ls.len() > 0 {
        let t = ls.drop_first();
        assert(!(trim(ls[0]).len() > 0 && trim(ls[0])[0] != '#' && !has_prefix(
            trim(ls[0]),
            FENCE@,
        )));
        assert forall|j: int|
            0 <= j < t.len() implies !(trim(#[trigger] t[j]).len() > 0 && trim(t[j])[0] != '#'
            && !has_prefix(trim(t[j]), FENCE@)) by {
            assert(t[j] == ls[j + 1]);
        }
        lemma_first_body_line_none(t);
    }
}

/// The description is taken from the first line that, trimmed, begins with
/// `description:`: it is the whole rest of that line, trimmed and without
/// `"` at either end, whatever characters it holds.
pub proof fn law_description_line(content: Seq<char>, i: int)
    requires
        0 <= i < lines(content).len(),
        has_prefix(trim(lines(content)[i]), DESCRIPTION_KEY@),
        forall|j: int|
            0 <= j < i ==> !has_prefix(trim(#[trigger] lines(content)[j]), DESCRIPTION_KEY@),
    ensures
        description_of(content) == trim_char(
            trim(trim(lines(content)[i]).skip(DESCRIPTION_KEY@.len() as int)),
            '"',
        ),
{
    lemma_first_description_at(lines(content), i);
}

/// Where no line is a description line, the description is the first line
/// that, trimmed, is not empty and begins neither with `#` nor with `---`,
/// trimmed.
pub proof fn law_description_fallback(content: Seq<char>, i: int)
    requires
        forall|j: int|
            0 <= j < lines(content).len() ==> !has_prefix(
                trim(#[trigger] lines(content)[j]),
                DESCRIPTION_KEY@,
            ),
        0 <= i < lines(content).len(),
        trim(lines(content)[i]).len() > 0 && trim(lines(content)[i])[0] != '#' && !has_prefix(
            trim(lines(content)[i]),
            FENCE@,
        ),
        forall|j: int|
            0 <= j < i ==> !(trim(#[trigger] lines(content)[j]).len() > 0 && trim(
                lines(content)[j],
            )[0] != '#' && !has_prefix(trim(lines(content)[j]), FENCE@)),
    ensures
        description_of(content) == trim(lines(content)[i]),
{
    lemma_first_description_none(lines(content));
    lemma_first_body_line_at(lines(content), i);
}

/// Where no line is a description line or a line of body text, the
/// description is empty.
pub proof fn law_description_empty(content: Seq<char>)
    requires
        forall|j: int|
            0 <= j < lines(content).len() ==> !has_prefix(
                trim(#[trigger] lines(content)[j]),
                DESCRIPTION_KEY@,
            ),
        forall|j: int|
            0 <= j < lines(content).len() ==> !(trim(#[trigger] lines(content)[j]).len() > 0
                && trim(lines(content)[j])[0] != '#' && !has_prefix(
                trim(lines(content)[j]),
                FENCE@,
            )),
    ensures
        description_of(content).len() == 0,
{
    lemma_first_description_none(lines(content));
    lemma_first_body_line_none(lines(content));
}

proof fn lemma_clean_tags_map_filter(ps: Seq<Seq<char>>)
    ensures
        clean_tags(ps) == ps.map_values(
            |p: Seq<char>| trim_char(trim_char(trim_char(trim(p), '"'), '['), ']'),
        ).filter(|t: Seq<char>| t.len() > 0),
    decreases ps.len(),
{
    reveal(Seq::filter);
    let f = |p: Seq<char>| trim_char(trim_char(trim_char(trim(p), '"'), '['), ']');
    if ps.len() > 0 {
        lemma_clean_tags_map_filter(ps.drop_last());
        assert(ps.map_values(f).drop_last() =~= ps.drop_last().map_values(f));
        assert(ps.map_values(f).last() == clean_tag(ps.last()));
    } else {
        assert(ps.map_values(f) =~= Seq::<Seq<char>>::empty());
    }
}

proof fn lemma_first_tags_at(ls: Seq<Seq<char>>, i: int)
    requires
        0 <= i < ls.len(),
        has_prefix(trim(ls[i]), TAGS_KEY@),
        forall|j: int| 0 <= j < i ==> !has_prefix(trim(#[trigger] ls[j]), TAGS_KEY@),
    ensures
        first_tags(ls) == Some(
            clean_tags(split_on(trim(ls[i]).skip(TAGS_KEY@.len() as int), CharClass::Is(','))),
        ),
    decreases i,
{
    if i > 0 {
        let t = ls.drop_first();
        assert(!has_prefix(trim(ls[0]), TAGS_KEY@));
        assert(t[i - 1] == ls[i]);
        assert forall|j: int| 0 <= j < i - 1 implies !has_prefix(
            trim(#[trigger] t[j]),
            TAGS_KEY@,
        ) by {
            assert(t[j] == ls[j + 1]);
        }
        lemma_first_tags_at(t, i - 1);
    }
}

proof fn lemma_first_tags_none(ls: Seq<Seq<char>>)
    requires
        forall|j: int| 0 <= j < ls.len() ==> !has_prefix(trim(#[trigger] ls[j]), TAGS_KEY@),
    ensures
        first_tags(ls) is None,
    decreases ls.len(),
{
    if ls.len() > 0 {
        let t = ls.drop_first();
        assert(!has_prefix(trim(ls[0]), TAGS_KEY@));
        assert forall|j: int| 0 <= j < t.len() implies !has_prefix(
            trim(#[trigger] t[j]),
            TAGS_KEY@,
        ) by {
            assert(t[j] == ls[j + 1]);
        }
        lemma_first_tags_none(t);
    }
}

/// The tags come from the first line that, trimmed, begins with `tags:`:
/// the rest of that line is split at every comma, each piece is trimmed and
/// stripped of `"`, then `[`, then `]` at either end, and every piece that is
/// not empty after that is a tag, in order; no other piece is left out.
pub proof fn law_tags_line(content: Seq<char>, i: int)
    requires
        0 <= i < lines(content).len(),
        has_prefix(trim(lines(content)[i]), TAGS_KEY@),
        forall|j: int| 0 <= j < i ==> !has_prefix(trim(#[trigger] lines(content)[j]), TAGS_KEY@),
    ensures
        tags_of(content) == split_on(
            trim(lines(content)[i]).skip(TAGS_KEY@.len() as int),
            CharClass::Is(','),
        ).map_values(|p: Seq<char>| trim_char(trim_char(trim_char(trim(p), '"'), '['), ']')).filter(
            |t: Seq<char>| t.len() > 0,
        ),
{
    lemma_first_tags_at(lines(content), i);
    lemma_clean_tags_map_filter(
        split_on(trim(lines(content)[i]).skip(TAGS_KEY@.len() as int), CharClass::Is(',')),
    );
}

/// A text with no tags line has no tags.
pub proof fn law_tags_absent(content: Seq<char>)
    requires
        forall|j: int|
            0 <= j < lines(content).len() ==> !has_prefix(
                trim(#[trigger] lines(content)[j]),
                TAGS_KEY@,
            ),
    ensures
        tags_of(content).len() == 0,
{
    lemma_first_tags_none(lines(content));
}


/// A text that is just `description: ` and a value is described by that
/// value, whatever characters it holds, as long as it neither begins nor
/// ends with white space or `"` and spans one line.
pub proof fn law_description_plain_value(v: Seq<char>)
    requires
        v.len() > 0,
        !is_ws(v[0]) && v[0] != '"',
        !is_ws(v.last()) && v.last() != '"',
        forall|i: int| 0 <= i < v.len() ==> #[trigger] v[i] != '\n',
    ensures
        description_of(DESCRIPTION_KEY@ + seq![' '] + v) == v,
{
    reveal_strlit("description:");
    let c = DESCRIPTION_KEY@ + seq![' '] + v;
    assert forall|i: int| 0 <= i < c.len() implies !in_class(CharClass::Is('\n'), #[trigger] c[i]) by {
        if i >= 13 {
            assert(c[i] == v[i - 13]);
        }
    }
    crate::text::lemma_split_on_none(c, CharClass::Is('\n'));
    assert(c.last() == v.last());
    assert(strip_end(c, CharClass::Whitespace) == c);
    assert(trim(c) == c);
    assert(c.take(DESCRIPTION_KEY@.len() as int) =~= DESCRIPTION_KEY@);
    let r = c.skip(DESCRIPTION_KEY@.len() as int);
    assert(r =~= seq![' '] + v);
    assert(r.drop_first() =~= v);
    assert(strip_end(r, CharClass::Whitespace) == r);
    assert(strip_start(r, CharClass::Whitespace) == strip_start(v, CharClass::Whitespace));
    assert(strip_end(v, CharClass::Whitespace) == v);
    assert(strip_start(v, CharClass::Whitespace) == v);
    assert(strip_end(v, CharClass::Is('"')) == v);
    assert(strip_start(v, CharClass::Is('"')) == v);
    assert(lines(c).drop_first() =~= Seq::<Seq<char>>::empty());
}

/// A text that is just `tags: ` and one tag has exactly that tag, whatever
/// its length and characters, as long as it spans one line, holds no comma,
/// and neither begins nor ends with white space, `"`, `[` or `]`.
pub proof fn law_tags_single(t: Seq<char>)
    requires
        t.len() > 0,
        !is_ws(t[0]) && t[0] != '"' && t[0] != '[' && t[0] != ']',
        !is_ws(t.last()) && t.last() != '"' && t.last() != '[' && t.last() != ']',
        forall|i: int| 0 <= i < t.len() ==> #[trigger] t[i] != '\n' && t[i] != ',',
    ensures
        tags_of(TAGS_KEY@ + seq![' '] + t) == seq![t],
{
    reveal_strlit("tags:");
    let c = TAGS_KEY@ + seq![' '] + t;
    assert forall|i: int| 0 <= i < c.len() implies !in_class(CharClass::Is('\n'), #[trigger] c[i]) by {
        if i >= 6 {
            assert(c[i] == t[i - 6]);
        }
    }
    crate::text::lemma_split_on_none(c, CharClass::Is('\n'));
    assert(c.last() == t.last());
    assert(strip_end(c, CharClass::Whitespace) == c);
    assert(trim(c) == c);
    assert(c.take(TAGS_KEY@.len() as int) =~= TAGS_KEY@);
    let r = c.skip(TAGS_KEY@.len() as int);
    assert(r =~= seq![' '] + t);
    assert forall|i: int| 0 <= i < r.len() implies !in_class(CharClass::Is(','), #[trigger] r[i]) by {
        if i >= 1 {
            assert(r[i] == t[i - 1]);
        }
    }
    crate::text::lemma_split_on_none(r, CharClass::Is(','));
    assert(r.drop_first() =~= t);
    assert(strip_end(r, CharClass::Whitespace) == r);
    assert(strip_start(r, CharClass::Whitespace) == strip_start(t, CharClass::Whitespace));
    assert(strip_end(t, CharClass::Whitespace) == t);
    assert(strip_start(t, CharClass::Whitespace) == t);
    assert(strip_end(t, CharClass::Is('"')) == t);
    assert(strip_start(t, CharClass::Is('"')) == t);
    assert(strip_end(t, CharClass::Is('[')) == t);
    assert(strip_start(t, CharClass::Is('[')) == t);
    assert(strip_end(t, CharClass::Is(']')) == t);
    assert(strip_start(t, CharClass::Is(']')) == t);
    assert(clean_tag(r) == t);
    assert(seq![r].drop_last() =~= Seq::<Seq<char>>::empty());
    assert(seq![r].last() == r);
    assert(clean_tags(Seq::<Seq<char>>::empty()) == Seq::<Seq<char>>::empty());
    assert(Seq::<Seq<char>>::empty().push(t) =~= seq![t]);
    assert(clean_tags(seq![r]) =~= seq![t]);
    assert(lines(c).drop_first() =~= Seq::<Seq<char>>::empty());
}

} // verus!
