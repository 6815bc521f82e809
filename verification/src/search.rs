//! Fuzzy search over clipboard history: how a query is turned into database
//! queries, and how the candidates that they find are matched.

use vstd::prelude::*;
use vstd::utf8::encode_scalar;
use vstd::utf8::encode_utf8;
use vstd::utf8::is_ascii_chars;

use crate::text::concat2;
use crate::text::concat3;
use crate::text::from_chars;
use crate::text::is_alnum;
use crate::text::join;
use crate::text::join_texts;
use crate::text::replace_char;
use crate::text::replace_in;
use crate::text::same_text;
use crate::text::sub_chars;
use crate::text::texts;
use crate::text::to_chars;
use crate::text::trim;
use crate::text::trim_chars;
use crate::text::uppercase;
use crate::types::class_name;
use crate::types::optional_text;
use crate::types::ContentClass;
use crate::types::EntrySummary;
use crate::types::QueryResult;

verus! {

/// How many candidates are fetched beyond those of the requested page.
pub const SEARCH_HEADROOM: u32 = 500;

/// The longest word of a query, in characters, that can be matched with a text
/// that is longer still: its score fits in 16 bits.
pub const MAX_FUZZY_WORD: usize = 2520;

/// The longest query, in characters, whose score fits in 32 bits whatever
/// matches.
pub const MAX_FUZZY_QUERY: usize = 165_191_049;

// ---------------------------------------------------------------------------
// Query tokens
// ---------------------------------------------------------------------------

/// A character that may stand in a query token.
pub open spec fn is_token_char(c: char) -> bool {
    is_alnum(c) || c == '\'' || c == '-'
}

/// The pieces of a text between the characters that cannot stand in a token.
pub open spec fn raw_words(s: Seq<char>) -> Seq<Seq<char>>
    decreases s.len(),
{
    if s.len() == 0 {
        seq![Seq::<char>::empty()]
    } else {
        let before = raw_words(s.drop_last());
        if is_token_char(s.last()) {
            before.drop_last().push(before.last().push(s.last()))
        } else {
            before.push(Seq::<char>::empty())
        }
    }
}

/// A word without hyphens at its ends.
pub open spec fn without_hyphens(s: Seq<char>) -> Seq<char>
    decreases s.len(),
{
    if s.len() > 0 && s[0] == '-' {
        without_hyphens(s.drop_first())
    } else if s.len() > 0 && s.last() == '-' {
        without_hyphens(s.drop_last())
    } else {
        s
    }
}

/// A word that is an operator of the query language, in whatever case.
pub open spec fn is_operator(word: Seq<char>) -> bool {
    ||| uppercase(word) == "OR"@
    ||| uppercase(word) == "AND"@
    ||| uppercase(word) == "NOT"@
}

/// The tokens among the first `n` words.
pub open spec fn tokens_in(words: Seq<Seq<char>>, n: int) -> Seq<Seq<char>>
    decreases n,
{
    if n <= 0 {
        Seq::<Seq<char>>::empty()
    } else {
        let word = without_hyphens(words[n - 1]);
        if word.len() > 0 && !is_operator(word) {
            tokens_in(words, n - 1).push(word)
        } else {
            tokens_in(words, n - 1)
        }
    }
}

/// The tokens of a query: its words, without hyphens at their ends and without
/// operators.
pub open spec fn query_tokens(raw: Seq<char>) -> Seq<Seq<char>> {
    let words = raw_words(raw);
    tokens_in(words, words.len() as int)
}

proof fn lemma_without_hyphens(s: Seq<char>, from: int, to: int)
    requires
        0 <= from <= to <= s.len(),
        forall|j: int| 0 <= j < from ==> s[j] == '-',
        forall|j: int| to <= j < s.len() ==> s[j] == '-',
        from < to ==> s[from] != '-' && s[to - 1] != '-',
    ensures
        without_hyphens(s) == s.subrange(from, to),
    decreases s.len(),
{
    if from > 0 {
        assert(s[0] == '-');
        lemma_without_hyphens(s.drop_first(), from - 1, to - 1);
        assert(s.drop_first().subrange(from - 1, to - 1) =~= s.subrange(from, to));
    } else if to == 0 && s.len() > 0 {
        assert(s[0] == '-');
        lemma_without_hyphens(s.drop_first(), 0, 0);
        assert(s.drop_first().subrange(0, 0) =~= s.subrange(0, 0));
    } else if to < s.len() {
        assert(s[0] != '-');
        assert(s[s.len() - 1] == '-');
        lemma_without_hyphens(s.drop_last(), 0, to);
        assert(s.drop_last().subrange(0, to) =~= s.subrange(0, to));
    } else {
        assert(s.subrange(0, to) =~= s);
    }
}

/// A word without hyphens at its ends.
fn strip_hyphens(word: &Vec<char>) -> (r: Vec<char>)
    ensures
        r@ == without_hyphens(word@),
{
    let mut from: usize = 0;
    while from < word.len() && word[from] == '-'
        invariant
            from <= word@.len(),
            forall|j: int| 0 <= j < from ==> word@[j] == '-',
        decreases word@.len() - from,
    {
        from += 1;
    }
    let mut to: usize = word.len();
    while to > from && word[to - 1] == '-'
        invariant
            from <= to <= word@.len(),
            forall|j: int| to <= j < word@.len() ==> word@[j] == '-',
        decreases to - from,
    {
        to -= 1;
    }
    proof {
        lemma_without_hyphens(word@, from as int, to as int);
    }
    sub_chars(word, from, to)
}

/// The pieces of a text between the characters that cannot stand in a token.
fn split_words(v: &Vec<char>) -> (r: Vec<Vec<char>>)
    ensures
        r@.map_values(|x: Vec<char>| x@) == raw_words(v@),
{
    let mut done: Vec<Vec<char>> = Vec::new();
    let mut current: Vec<char> = Vec::new();
    let mut i: usize = 0;
    assert(v@.take(0) =~= Seq::<char>::empty());
    assert(done@.map_values(|x: Vec<char>| x@).push(current@) =~= raw_words(v@.take(0)));
    while i < v.len()
        invariant
            i <= v@.len(),
            done@.map_values(|x: Vec<char>| x@).push(current@) == raw_words(v@.take(i as int)),
        decreases v@.len() - i,
    {
        let c = v[i];
        let ghost before = done@.map_values(|x: Vec<char>| x@);
        let ghost piece = current@;
        assert(v@.take(i + 1).drop_last() =~= v@.take(i as int));
        assert(v@.take(i + 1).last() == c);
        assert(before.push(piece).drop_last() =~= before);
        if c.is_alphanumeric() || c == '\'' || c == '-' {
            current.push(c);
        } else {
            done.push(current);
            current = Vec::new();
            assert(done@.map_values(|x: Vec<char>| x@) =~= before.push(piece));
        }
        i += 1;
    }
    assert(v@.take(v@.len() as int) =~= v@);
    done.push(current);
    assert(done@.map_values(|x: Vec<char>| x@) =~= raw_words(v@));
    done
}

/// The tokens of a query.
///
/// Only letters, digits, apostrophes and hyphens inside words are kept;
/// everything else separates words and is dropped. The words `OR`, `AND` and
/// `NOT` are operators of the full-text query language and are dropped too.
pub fn normalize_query_tokens(raw: &str) -> (r: Vec<String>)
    ensures
        texts(r@) == query_tokens(raw@),
{
    let chars = to_chars(raw);
    let words = split_words(&chars);
    let ghost all = raw_words(raw@);
    let mut tokens: Vec<String> = Vec::new();
    let mut i: usize = 0;
    assert(texts(tokens@) =~= Seq::<Seq<char>>::empty());
    while i < words.len()
        invariant
            i <= words@.len(),
            words@.map_values(|x: Vec<char>| x@) == all,
            texts(tokens@) == tokens_in(all, i as int),
        decreases words@.len() - i,
    {
        assert(all[i as int] == words@[i as int]@);
        let stripped = strip_hyphens(&words[i]);
        if stripped.len() > 0 {
            let word = from_chars(&stripped);
            let upper = word.as_str().to_uppercase();
            if !same_text(upper.as_str(), "OR") && !same_text(upper.as_str(), "AND")
                && !same_text(upper.as_str(), "NOT") {
                let ghost before = texts(tokens@);
                tokens.push(word);
                assert(texts(tokens@) =~= before.push(stripped@));
            }
        }
        i += 1;
    }
    assert(words@.len() == all.len());
    tokens
}

/// The tokens of a query, with single spaces between them; `None` where there
/// are none.
pub open spec fn normalized_query(raw: Seq<char>) -> Option<Seq<char>> {
    if query_tokens(raw).len() == 0 {
        None
    } else {
        Some(join(query_tokens(raw), " "@))
    }
}

/// The tokens of a query, with single spaces between them; `None` where there
/// are none.
pub fn normalized_query_text(raw: &str) -> (r: Option<String>)
    ensures
        optional_text(r) == normalized_query(raw@),
{
    let tokens = normalize_query_tokens(raw);
    assert(texts(tokens@).len() == tokens@.len());
    if tokens.len() == 0 {
        None
    } else {
        Some(join_texts(&tokens, " "))
    }
}

/// A token as an atom of a full-text query: quoted, with its quotes doubled,
/// and matched as a prefix.
pub open spec fn prefix_atom(token: Seq<char>) -> Seq<char> {
    "\""@ + replace_char(token, '"', "\"\""@) + "\"*"@
}

/// The full-text query for a text: one prefix atom for each token; `None`
/// where there is no token.
pub open spec fn fts_query(raw: Seq<char>) -> Option<Seq<char>> {
    let tokens = query_tokens(raw);
    if tokens.len() == 0 {
        None
    } else {
        Some(join(tokens.map_values(|t: Seq<char>| prefix_atom(t)), " "@))
    }
}

/// Sanitize user-supplied text for safe use in an FTS5 MATCH expression.
///
/// Each token becomes a quoted phrase, so that nothing in it is read as an
/// operator, and is matched as a prefix. Returns `None` if there is no token.
pub fn sanitize_fts5_query(raw: &str) -> (r: Option<String>)
    ensures
        optional_text(r) == fts_query(raw@),
{
    let tokens = normalize_query_tokens(raw);
    let ghost all = query_tokens(raw@);
    assert(texts(tokens@).len() == tokens@.len());
    if tokens.len() == 0 {
        return None;
    }
    let ghost wanted = all.map_values(|t: Seq<char>| prefix_atom(t));
    let mut atoms: Vec<String> = Vec::new();
    let mut i: usize = 0;
    while i < tokens.len()
        invariant
            i <= tokens@.len(),
            texts(tokens@) == all,
            wanted == all.map_values(|t: Seq<char>| prefix_atom(t)),
            texts(atoms@) =~= wanted.take(i as int),
        decreases tokens@.len() - i,
    {
        let chars = to_chars(tokens[i].as_str());
        let escaped_chars = replace_in(&chars, '"', "\"\"");
        let escaped = from_chars(&escaped_chars);
        let atom = concat3("\"", escaped.as_str(), "\"*");
        let ghost before = texts(atoms@);
        atoms.push(atom);
        assert(all[i as int] == tokens@[i as int]@);
        assert(texts(atoms@) =~= before.push(wanted[i as int]));
        assert(wanted.take(i + 1) =~= wanted.take(i as int).push(wanted[i as int]));
        i += 1;
    }
    assert(wanted.take(wanted.len() as int) =~= wanted);
    Some(join_texts(&atoms, " "))
}

/// The pattern that finds a text anywhere: its wildcards escaped, and a
/// wildcard on either side.
pub open spec fn like_pattern_of(query: Seq<char>) -> Seq<char> {
    "%"@ + replace_char(replace_char(query, '%', "\\%"@), '_', "\\_"@) + "%"@
}

/// The pattern of a substring search for a query.
pub fn like_pattern(query: &str) -> (r: String)
    ensures
        r@ == like_pattern_of(query@),
{
    let chars = to_chars(query);
    let once = replace_in(&chars, '%', "\\%");
    let twice = replace_in(&once, '_', "\\_");
    let escaped = from_chars(&twice);
    concat3("%", escaped.as_str(), "%")
}

// ---------------------------------------------------------------------------
// The plan of a search
// ---------------------------------------------------------------------------

/// What to ask of the database for a search.
#[derive(Debug, Clone)]
pub enum SearchPlan {
    /// The query is empty: a page of the history, pinned entries first, then
    /// the most recently seen.
    Recent { offset: u32, limit: u32 },
    /// Candidates, the most recently seen first, to be matched and ranked.
    Ranked {
        /// The full-text query, where the text has tokens. Without one, the
        /// full-text search has no results.
        fts_query: Option<String>,
        /// The pattern of the substring search that is used where the
        /// full-text search finds nothing or fails.
        like_pattern: String,
        /// The query with which candidates are matched.
        fuzzy_query: String,
        /// How many candidates to fetch at most.
        candidate_limit: u32,
    },
}

/// How many candidates a page needs: those up to its end, and some more.
pub open spec fn candidates_for(offset: u32, limit: u32) -> int {
    let wanted = offset + limit + SEARCH_HEADROOM;
    if wanted > u32::MAX {
        u32::MAX as int
    } else {
        wanted
    }
}

/// `plan` is the plan of a search.
pub open spec fn is_plan(plan: SearchPlan, text: Seq<char>, offset: u32, limit: u32) -> bool {
    let query = trim(text);
    match plan {
        SearchPlan::Recent { offset: o, limit: l } => query.len() == 0 && o == offset && l == limit,
        SearchPlan::Ranked { fts_query: f, like_pattern: p, fuzzy_query: q, candidate_limit: c } => {
            &&& query.len() > 0
            &&& optional_text(f) == fts_query(query)
            &&& p@ == like_pattern_of(query)
            &&& q@ == match normalized_query(query) {
                Some(n) => n,
                None => query,
            }
            &&& c == candidates_for(offset, limit)
        },
    }
}

/// How many candidates to fetch for a page.
pub fn candidate_limit(offset: u32, limit: u32) -> (r: u32)
    ensures
        r == candidates_for(offset, limit),
        r >= limit,
{
    offset.saturating_add(limit).saturating_add(SEARCH_HEADROOM)
}

/// Searches the history in a database.
#[derive(Debug, Clone)]
pub struct SearchEngine {
    db_path: String,
}

impl SearchEngine {
    /// The path of the database.
    pub closed spec fn path(&self) -> Seq<char> {
        self.db_path@
    }

    /// A search engine for the database at the given path.
    pub fn new(db_path: String) -> (r: SearchEngine)
        ensures
            r.path() == db_path@,
    {
        SearchEngine { db_path }
    }

    /// The path of the database.
    pub fn db_path(&self) -> (r: &str)
        ensures
            r@ == self.path(),
    {
        self.db_path.as_str()
    }

    /// Plan a search: white space at the ends of the text does not count, and
    /// a text that is then empty asks for the whole history.
    pub fn plan(&self, text: &str, offset: u32, limit: u32) -> (r: SearchPlan)
        ensures
            is_plan(r, text@, offset, limit),
    {
        let chars = to_chars(text);
        let trimmed_chars = trim_chars(&chars);
        if trimmed_chars.len() == 0 {
            return SearchPlan::Recent { offset, limit };
        }
        let trimmed = from_chars(&trimmed_chars);
        let fuzzy_query = match normalized_query_text(trimmed.as_str()) {
            Some(n) => n,
            None => trimmed.clone(),
        };
        SearchPlan::Ranked {
            fts_query: sanitize_fts5_query(trimmed.as_str()),
            like_pattern: like_pattern(trimmed.as_str()),
            fuzzy_query,
            candidate_limit: candidate_limit(offset, limit),
        }
    }

    /// Whether to use the substring search, given how many candidates the
    /// full-text search found; `None` where it failed.
    pub fn falls_back(fts_candidates: Option<usize>) -> (r: bool)
        ensures
            r == (fts_candidates is None || fts_candidates == Some(0usize)),
    {
        match fts_candidates {
            None => true,
            Some(n) => n == 0,
        }
    }
}

// ---------------------------------------------------------------------------
// Statements
// ---------------------------------------------------------------------------

/// A statement that selects entries and one that counts them. `params` are
/// bound first, in both; then, in the first, the limit and the offset, where
/// there is one.
#[derive(Debug, Clone)]
pub struct CandidateQuery {
    pub page_sql: String,
    pub count_sql: String,
    pub params: Vec<String>,
    pub limit: u32,
    pub offset: Option<u32>,
}

/// The parameters of a statement: those of the text, then that of the class.
pub open spec fn with_class(params: Seq<Seq<char>>, class: Option<ContentClass>) -> Seq<Seq<char>> {
    match class {
        Some(c) => params.push(class_name(c)),
        None => params,
    }
}

/// A condition, where there is a class.
pub open spec fn class_condition(class: Option<ContentClass>, condition: Seq<char>) -> Seq<char> {
    match class {
        Some(_) => condition,
        None => Seq::<char>::empty(),
    }
}

fn class_text(class: Option<ContentClass>, condition: &str) -> (r: String)
    ensures
        r@ == class_condition(class, condition@),
{
    match class {
        Some(_) => condition.to_owned(),
        None => String::new(),
    }
}

/// `q` finds and counts the candidates of a full-text query.
pub open spec fn is_fts_query(
    q: CandidateQuery,
    fts_query: Seq<char>,
    class: Option<ContentClass>,
    limit: u32,
) -> bool {
    &&& q.page_sql@
        == "SELECT e.id, e.created_at, e.last_seen_at, e.pinned, e.ephemeral, e.content_class, e.preview_text, e.source_app FROM entries e JOIN search_idx s ON e.id = s.rowid WHERE search_idx MATCH ?"@
        + class_condition(class, " AND e.content_class = ?"@)
        + " ORDER BY e.last_seen_at DESC, e.id DESC LIMIT ?"@
    &&& q.count_sql@
        == "SELECT COUNT(*) FROM entries e JOIN search_idx s ON e.id = s.rowid WHERE search_idx MATCH ?"@
        + class_condition(class, " AND e.content_class = ?"@)
    &&& texts(q.params@) == with_class(seq![fts_query], class)
    &&& q.limit == limit
    &&& q.offset is None
}

/// `q` finds and counts the candidates of a substring search.
pub open spec fn is_like_query(
    q: CandidateQuery,
    pattern: Seq<char>,
    class: Option<ContentClass>,
    limit: u32,
) -> bool {
    &&& q.page_sql@
        == "SELECT id, created_at, last_seen_at, pinned, ephemeral, content_class, preview_text, source_app FROM entries WHERE (preview_text LIKE ? ESCAPE '\\' OR source_app LIKE ? ESCAPE '\\')"@
        + class_condition(class, " AND content_class = ?"@)
        + " ORDER BY last_seen_at DESC, id DESC LIMIT ?"@
    &&& q.count_sql@
        == "SELECT COUNT(*) FROM entries WHERE (preview_text LIKE ? ESCAPE '\\' OR source_app LIKE ? ESCAPE '\\')"@
        + class_condition(class, " AND content_class = ?"@)
    &&& texts(q.params@) == with_class(seq![pattern, pattern], class)
    &&& q.limit == limit
    &&& q.offset is None
}

/// `q` finds a page of the whole history, and counts the history.
pub open spec fn is_recent_query(
    q: CandidateQuery,
    class: Option<ContentClass>,
    offset: u32,
    limit: u32,
) -> bool {
    &&& q.page_sql@
        == "SELECT id, created_at, last_seen_at, pinned, ephemeral, content_class, preview_text, source_app FROM entries"@
        + class_condition(class, " WHERE content_class = ?"@)
        + " ORDER BY pinned DESC, last_seen_at DESC, id DESC LIMIT ? OFFSET ?"@
    &&& q.count_sql@ == "SELECT COUNT(*) FROM entries"@ + class_condition(
        class,
        " WHERE content_class = ?"@,
    )
    &&& texts(q.params@) == with_class(Seq::<Seq<char>>::empty(), class)
    &&& q.limit == limit
    &&& q.offset == Some(offset)
}

/// Candidates of a full-text query, the most recently seen first.
pub fn fts_candidates(fts_query: &str, class: Option<ContentClass>, limit: u32) -> (r:
    CandidateQuery)
    ensures
        is_fts_query(r, fts_query@, class, limit),
{
    let mut params: Vec<String> = Vec::new();
    params.push(fts_query.to_owned());
    if let Some(c) = class {
        params.push(c.as_str().to_owned());
    }
    assert(texts(params@) =~= with_class(seq![fts_query@], class));
    let condition = class_text(class, " AND e.content_class = ?");
    CandidateQuery {
        page_sql: concat3(
            "SELECT e.id, e.created_at, e.last_seen_at, e.pinned, e.ephemeral, e.content_class, e.preview_text, e.source_app FROM entries e JOIN search_idx s ON e.id = s.rowid WHERE search_idx MATCH ?",
            condition.as_str(),
            " ORDER BY e.last_seen_at DESC, e.id DESC LIMIT ?",
        ),
        count_sql: concat2(
            "SELECT COUNT(*) FROM entries e JOIN search_idx s ON e.id = s.rowid WHERE search_idx MATCH ?",
            condition.as_str(),
        ),
        params,
        limit,
        offset: None,
    }
}

/// Candidates of a substring search, the most recently seen first.
pub fn like_candidates(pattern: &str, class: Option<ContentClass>, limit: u32) -> (r:
    CandidateQuery)
    ensures
        is_like_query(r, pattern@, class, limit),
{
    let mut params: Vec<String> = Vec::new();
    params.push(pattern.to_owned());
    params.push(pattern.to_owned());
    if let Some(c) = class {
        params.push(c.as_str().to_owned());
    }
    assert(texts(params@) =~= with_class(seq![pattern@, pattern@], class));
    let condition = class_text(class, " AND content_class = ?");
    CandidateQuery {
        page_sql: concat3(
            "SELECT id, created_at, last_seen_at, pinned, ephemeral, content_class, preview_text, source_app FROM entries WHERE (preview_text LIKE ? ESCAPE '\\' OR source_app LIKE ? ESCAPE '\\')",
            condition.as_str(),
            " ORDER BY last_seen_at DESC, id DESC LIMIT ?",
        ),
        count_sql: concat2(
            "SELECT COUNT(*) FROM entries WHERE (preview_text LIKE ? ESCAPE '\\' OR source_app LIKE ? ESCAPE '\\')",
            condition.as_str(),
        ),
        params,
        limit,
        offset: None,
    }
}

/// A page of the whole history: pinned entries first, then the most recently
/// seen.
pub fn recent_entries(class: Option<ContentClass>, offset: u32, limit: u32) -> (r: CandidateQuery)
    ensures
        is_recent_query(r, class, offset, limit),
{
    let mut params: Vec<String> = Vec::new();
    if let Some(c) = class {
        params.push(c.as_str().to_owned());
    }
    assert(texts(params@) =~= with_class(Seq::<Seq<char>>::empty(), class));
    let condition = class_text(class, " WHERE content_class = ?");
    CandidateQuery {
        page_sql: concat3(
            "SELECT id, created_at, last_seen_at, pinned, ephemeral, content_class, preview_text, source_app FROM entries",
            condition.as_str(),
            " ORDER BY pinned DESC, last_seen_at DESC, id DESC LIMIT ? OFFSET ?",
        ),
        count_sql: concat2("SELECT COUNT(*) FROM entries", condition.as_str()),
        params,
        limit,
        offset: Some(offset),
    }
}

/// Two texts that differ only in white space at their ends are searched for in
/// the same way; a text of white space alone is searched for like the empty
/// text.
pub proof fn law_plan_ignores_outer_space(
    plan: SearchPlan,
    a: Seq<char>,
    b: Seq<char>,
    offset: u32,
    limit: u32,
)
    requires
        trim(a) == trim(b),
        is_plan(plan, a, offset, limit),
    ensures
        is_plan(plan, b, offset, limit),
        trim(a) == Seq::<char>::empty() ==> plan is Recent,
{
}

/// The candidates always reach to the end of the page, unless that is beyond
/// what can be counted.
pub proof fn law_candidates_cover_page(offset: u32, limit: u32)
    ensures
        candidates_for(offset, limit) >= offset + limit || candidates_for(offset, limit)
            == u32::MAX,
        candidates_for(offset, limit) >= limit,
{
}

proof fn lemma_raw_words(s: Seq<char>)
    ensures
        raw_words(s).len() > 0,
        forall|i: int, j: int|
            0 <= i < raw_words(s).len() && 0 <= j < raw_words(s)[i].len() ==> is_token_char(
                #[trigger] raw_words(s)[i][j],
            ),
    decreases s.len(),
{
    if s.len() > 0 {
        let before = raw_words(s.drop_last());
        lemma_raw_words(s.drop_last());
        assert forall|i: int, j: int|
            0 <= i < raw_words(s).len() && 0 <= j < raw_words(s)[i].len() implies is_token_char(
            #[trigger] raw_words(s)[i][j],
        ) by {
            if i < before.len() - 1 {
                assert(raw_words(s)[i] == before[i]);
                assert(is_token_char(before[i][j]));
            } else if i == before.len() - 1 {
                if j < before[i].len() {
                    assert(raw_words(s)[i][j] == before[i][j]);
                    assert(is_token_char(before[i][j]));
                }
            }
        }
    }
}

proof fn lemma_without_hyphens_piece(s: Seq<char>)
    ensures
        without_hyphens(s).len() <= s.len(),
        without_hyphens(s).len() > 0 ==> without_hyphens(s)[0] != '-' && without_hyphens(s).last()
            != '-',
        forall|i: int|
            0 <= i < without_hyphens(s).len() ==> s.contains(#[trigger] without_hyphens(s)[i]),
    decreases s.len(),
{
    if s.len() > 0 && s[0] == '-' {
        lemma_without_hyphens_piece(s.drop_first());
        assert forall|i: int| 0 <= i < without_hyphens(s).len() implies s.contains(
            #[trigger] without_hyphens(s)[i],
        ) by {
            let k = choose|k: int| 0 <= k < s.drop_first().len() && s.drop_first()[k]
                == without_hyphens(s)[i];
            assert(s[k + 1] == without_hyphens(s)[i]);
        }
    } else if s.len() > 0 && s.last() == '-' {
        lemma_without_hyphens_piece(s.drop_last());
        assert forall|i: int| 0 <= i < without_hyphens(s).len() implies s.contains(
            #[trigger] without_hyphens(s)[i],
        ) by {
            let k = choose|k: int| 0 <= k < s.drop_last().len() && s.drop_last()[k]
                == without_hyphens(s)[i];
            assert(s[k] == without_hyphens(s)[i]);
        }
    }
}

proof fn lemma_tokens_in(words: Seq<Seq<char>>, n: int)
    requires
        0 <= n <= words.len(),
        forall|i: int, j: int|
            0 <= i < words.len() && 0 <= j < words[i].len() ==> is_token_char(
                #[trigger] words[i][j],
            ),
    ensures
        forall|i: int|
            0 <= i < tokens_in(words, n).len() ==> is_token(#[trigger] tokens_in(words, n)[i]),
    decreases n,
{
    if n > 0 {
        let before = tokens_in(words, n - 1);
        lemma_tokens_in(words, n - 1);
        let source = words[n - 1];
        let word = without_hyphens(source);
        lemma_without_hyphens_piece(source);
        assert forall|i: int| 0 <= i < tokens_in(words, n).len() implies is_token(
            #[trigger] tokens_in(words, n)[i],
        ) by {
            if i < before.len() {
                assert(tokens_in(words, n)[i] == before[i]);
            } else {
                assert(tokens_in(words, n)[i] == word);
                assert forall|j: int| 0 <= j < word.len() implies is_token_char(
                    #[trigger] word[j],
                ) by {
                    let k = choose|k: int| 0 <= k < source.len() && source[k] == word[j];
                    assert(is_token_char(words[n - 1][k]));
                }
            }
        }
    }
}

/// A word that can stand in a full-text query: not empty, made of letters,
/// digits, apostrophes and hyphens, no hyphen at its ends, and no operator.
pub open spec fn is_token(word: Seq<char>) -> bool {
    &&& word.len() > 0
    &&& word[0] != '-' && word.last() != '-'
    &&& !is_operator(word)
    &&& forall|j: int| 0 <= j < word.len() ==> is_token_char(#[trigger] word[j])
}

/// Whatever the user types, every token that reaches the full-text query is a
/// plain word.
pub proof fn law_tokens_are_plain_words(raw: Seq<char>)
    ensures
        forall|i: int|
            0 <= i < query_tokens(raw).len() ==> is_token(#[trigger] query_tokens(raw)[i]),
        fts_query(raw) is None <==> query_tokens(raw).len() == 0,
        normalized_query(raw) is None <==> fts_query(raw) is None,
{
    let words = raw_words(raw);
    lemma_raw_words(raw);
    lemma_tokens_in(words, words.len() as int);
}

// ---------------------------------------------------------------------------
// Matching
// ---------------------------------------------------------------------------

/// The text in which an entry is searched: its preview and its source.
pub open spec fn haystack_of(preview: Option<Seq<char>>, app: Option<Seq<char>>) -> Seq<char> {
    match (preview, app) {
        (Some(p), Some(a)) => p + " "@ + a,
        (Some(p), None) => p,
        (None, Some(a)) => a,
        (None, None) => Seq::<char>::empty(),
    }
}

/// The text in which an entry is searched: its preview and its source.
pub fn combined_haystack(entry: &EntrySummary) -> (r: String)
    ensures
        r@ == haystack_of(optional_text(entry.preview_text), optional_text(entry.source_app)),
{
    match (&entry.preview_text, &entry.source_app) {
        (Some(preview), Some(app)) => concat3(preview.as_str(), " ", app.as_str()),
        (Some(preview), None) => preview.clone(),
        (None, Some(app)) => app.clone(),
        (None, None) => String::new(),
    }
}

/// The space at position `k` of a query ends a word: no backslash stands before
/// it.
pub open spec fn ends_word(s: Seq<char>, k: int) -> bool {
    s[k] == ' ' && (k == 0 || s[k - 1] != '\\')
}

/// The words of a query: the pieces between its spaces, but for those after a
/// backslash. Words may be empty.
pub open spec fn words(s: Seq<char>) -> Seq<Seq<char>>
    decreases s.len(),
{
    if s.len() == 0 {
        seq![Seq::<char>::empty()]
    } else {
        let before = words(s.drop_last());
        if ends_word(s, s.len() - 1) {
            before.push(Seq::<char>::empty())
        } else {
            before.drop_last().push(before.last().push(s.last()))
        }
    }
}

/// The scores of a match fit, whatever of the query is found in the text: each
/// word is short enough, or the text is; and so is the query as a whole.
pub open spec fn can_match(query: Seq<char>, text: Seq<char>) -> bool {
    &&& query.len() <= MAX_FUZZY_QUERY
    &&& forall|i: int|
        0 <= i < words(query).len() ==> (#[trigger] words(query)[i]).len() <= MAX_FUZZY_WORD
            || text.len() <= MAX_FUZZY_WORD
}

/// How well a query matches a text; `None` where it does not match.
pub uninterp spec fn fuzzy_score(query: Seq<char>, text: Seq<char>) -> Option<u32>;

/// The positions of the characters of a text that take part in the match of a
/// query; `None` where it does not match.
pub uninterp spec fn fuzzy_positions(query: Seq<char>, text: Seq<char>) -> Option<Seq<u32>>;

/// `nucleo_matcher::pattern::Pattern::score`, for the pattern of a query that
/// ignores case: a fixed function of the query and the text, named
/// [`fuzzy_score`]. The matcher refuses texts of more than `u32::MAX` code
/// units, scores a word in 16 bits and adds the scores of the words in 32.
#[verifier::external_body]
fn match_score(query: &str, text: &str) -> (r: Option<u32>)
    requires
        can_match(query@, text@),
        encode_utf8(text@).len() <= u32::MAX,
    ensures
        r == fuzzy_score(query@, text@),
{
    let case = nucleo_matcher::pattern::CaseMatching::Ignore;
    let kind = nucleo_matcher::pattern::AtomKind::Fuzzy;
    let pattern = nucleo_matcher::pattern::Pattern::new(query, case, kind);
    let mut matcher = nucleo_matcher::Matcher::new(nucleo_matcher::Config::DEFAULT);
    let mut buf: Vec<char> = Vec::new();
    let text = nucleo_matcher::Utf32Str::new(text, &mut buf);
    pattern.score(text, &mut matcher)
}

/// `nucleo_matcher::pattern::Pattern::indices`, for the same pattern, on the
/// characters of a text, so that a position is that of a character: a fixed
/// function of the query and the text, named [`fuzzy_positions`].
#[verifier::external_body]
fn match_positions(query: &str, text: &str, chars: &[char], ascii: bool) -> (r: Option<Vec<u32>>)
    requires
        can_match(query@, text@),
        chars@ == text@,
        ascii == is_ascii_chars(text@),
        encode_utf8(text@).len() <= u32::MAX,
    ensures
        match r {
            Some(indices) => fuzzy_positions(query@, text@) == Some(indices@),
            None => fuzzy_positions(query@, text@) is None,
        },
{
    let case = nucleo_matcher::pattern::CaseMatching::Ignore;
    let kind = nucleo_matcher::pattern::AtomKind::Fuzzy;
    let pattern = nucleo_matcher::pattern::Pattern::new(query, case, kind);
    let mut matcher = nucleo_matcher::Matcher::new(nucleo_matcher::Config::DEFAULT);
    let mut indices: Vec<u32> = Vec::new();
    let text = if ascii {
        nucleo_matcher::Utf32Str::Ascii(text.as_bytes())
    } else {
        nucleo_matcher::Utf32Str::Unicode(chars)
    };
    let score = pattern.indices(text, &mut matcher, &mut indices);
    score.map(|_| indices)
}

/// How well a query matches a text, and the positions of the characters of the
/// text that take part in the match; `None` where it does not match.
pub open spec fn fuzzy_match(query: Seq<char>, text: Seq<char>) -> Option<(u32, Seq<u32>)> {
    match (fuzzy_score(query, text), fuzzy_positions(query, text)) {
        (Some(score), Some(positions)) => Some((score, positions)),
        (Some(score), None) => Some((score, Seq::<u32>::empty())),
        (None, _) => None,
    }
}

fn is_ascii_char(c: char) -> (r: bool)
    ensures
        r == ('\0' <= c <= '\u{7f}'),
{
    let n: u32 = c as u32;
    n <= 127
}

/// Every character of a text is an ASCII character.
fn is_ascii_text(chars: &Vec<char>) -> (r: bool)
    ensures
        r == is_ascii_chars(chars@),
{
    let mut i: usize = 0;
    while i < chars.len()
        invariant
            i <= chars@.len(),
            forall|j: int| 0 <= j < i ==> '\0' <= #[trigger] chars@[j] <= '\u{7f}',
        decreases chars@.len() - i,
    {
        if !is_ascii_char(chars[i]) {
            return false;
        }
        i += 1;
    }
    true
}

/// Match a query with a text.
fn match_indices(query: &str, text: &str) -> (r: Option<(u32, Vec<u32>)>)
    requires
        can_match(query@, text@),
        encode_utf8(text@).len() <= u32::MAX,
    ensures
        match r {
            Some((score, indices)) => fuzzy_match(query@, text@) == Some((score, indices@)),
            None => fuzzy_match(query@, text@) is None,
        },
{
    match match_score(query, text) {
        None => None,
        Some(score) => {
            let chars = to_chars(text);
            let ascii = is_ascii_text(&chars);
            match match_positions(query, text, chars.as_slice(), ascii) {
                Some(indices) => Some((score, indices)),
                None => {
                    let none: Vec<u32> = Vec::new();
                    assert(none@ =~= Seq::<u32>::empty());
                    Some((score, none))
                },
            }
        },
    }
}

/// The longest of some words has `n` characters.
pub open spec fn is_longest(words: Seq<Seq<char>>, n: int) -> bool {
    &&& forall|i: int| 0 <= i < words.len() ==> (#[trigger] words[i]).len() <= n
    &&& exists|i: int| 0 <= i < words.len() && (#[trigger] words[i]).len() == n
}

/// How many characters the longest word of a query has.
fn longest_word(query: &str) -> (r: usize)
    ensures
        is_longest(words(query@), r as int),
{
    let v = to_chars(query);
    let mut longest: usize = 0;
    let mut current: usize = 0;
    let mut i: usize = 0;
    assert(v@.take(0) =~= Seq::<char>::empty());
    assert(words(v@.take(0))[0].len() == 0);
    while i < v.len()
        invariant
            i <= v@.len(),
            current <= i,
            words(v@.take(i as int)).len() > 0,
            words(v@.take(i as int)).last().len() == current,
            is_longest(words(v@.take(i as int)), longest as int),
        decreases v@.len() - i,
    {
        let ghost before = words(v@.take(i as int));
        let ghost now = words(v@.take(i + 1));
        let ghost old_longest = longest as int;
        assert(v@.take(i + 1).drop_last() =~= v@.take(i as int));
        if v[i] == ' ' && (i == 0 || v[i - 1] != '\\') {
            current = 0;
            assert(now =~= before.push(Seq::<char>::empty()));
        } else {
            current += 1;
            if current > longest {
                longest = current;
            }
            assert(now =~= before.drop_last().push(before.last().push(v@[i as int])));
        }
        proof {
            let k = choose|k: int| 0 <= k < before.len() && (#[trigger] before[k]).len()
                == old_longest;
            assert(now[k].len() >= before[k].len());
            assert(now[now.len() - 1].len() == current);
            assert forall|m: int| 0 <= m < now.len() implies (#[trigger] now[m]).len()
                <= longest by {
                if m < before.len() - 1 {
                    assert(now[m] == before[m]);
                } else if m < before.len() {
                    assert(before[m].len() <= old_longest);
                }
            }
            if longest == old_longest {
                assert(now[k].len() <= longest);
            }
        }
        i += 1;
    }
    assert(v@.take(v@.len() as int) =~= v@);
    longest
}

/// A query can be matched with every one of some entries.
pub open spec fn can_match_all(query: Seq<char>, entries: Seq<EntrySummary>) -> bool {
    forall|i: int|
        0 <= i < entries.len() ==> can_match(query, entry_haystack(#[trigger] entries[i]))
            && encode_utf8(entry_haystack(entries[i])).len() <= u32::MAX
}

/// Whether a query can be matched with every one of some entries.
pub fn matchable(query: &str, entries: &Vec<EntrySummary>) -> (r: bool)
    ensures
        r == can_match_all(query@, entries@),
{
    let short_query = to_chars(query).len() <= MAX_FUZZY_QUERY;
    let longest = longest_word(query);
    let mut i: usize = 0;
    while i < entries.len()
        invariant
            i <= entries@.len(),
            short_query == (query@.len() <= MAX_FUZZY_QUERY),
            is_longest(words(query@), longest as int),
            forall|j: int|
                0 <= j < i ==> can_match(query@, entry_haystack(#[trigger] entries@[j]))
                    && encode_utf8(entry_haystack(entries@[j])).len() <= u32::MAX,
        decreases entries@.len() - i,
    {
        let haystack = combined_haystack(&entries[i]);
        let text = haystack.as_str();
        let short_text = to_chars(text).len() <= MAX_FUZZY_WORD;
        let bytes: usize = text.as_bytes().len();
        let ghost held = entry_haystack(entries@[i as int]);
        proof {
            let k = choose|k: int| 0 <= k < words(query@).len() && (#[trigger] words(
                query@,
            )[k]).len() == longest;
            if longest > MAX_FUZZY_WORD && !short_text {
                assert(words(query@)[k].len() > MAX_FUZZY_WORD);
                assert(!can_match(query@, held));
            }
        }
        if !short_query || (longest > MAX_FUZZY_WORD && !short_text) || bytes > u32::MAX as usize {
            assert(!can_match(query@, held) || encode_utf8(held).len() > u32::MAX);
            return false;
        }
        i += 1;
    }
    true
}

/// The score of a match; zero where there is none.
pub open spec fn score_of(found: Option<(u32, Seq<u32>)>) -> u32 {
    match found {
        Some((score, _)) => score,
        None => 0,
    }
}

/// The characters that take part in a match; none where there is none.
pub open spec fn indices_of(found: Option<(u32, Seq<u32>)>) -> Seq<u32> {
    match found {
        Some((_, indices)) => indices,
        None => Seq::<u32>::empty(),
    }
}

// ---------------------------------------------------------------------------
// Match ranges
// ---------------------------------------------------------------------------

/// Character `k` takes part in the match.
pub open spec fn is_matched(indices: Seq<u32>, k: int) -> bool {
    exists|i: int| 0 <= i < indices.len() && #[trigger] indices[i] == k
}

/// The maximal runs of characters that take part in the match, among the first
/// `n`: the first character of each run, and the one after its last.
pub open spec fn runs(indices: Seq<u32>, n: int) -> Seq<(int, int)>
    decreases n,
{
    if n <= 0 {
        Seq::<(int, int)>::empty()
    } else {
        let before = runs(indices, n - 1);
        if !is_matched(indices, n - 1) {
            before
        } else if before.len() > 0 && before.last().1 == n - 1 {
            before.drop_last().push((before.last().0, n))
        } else {
            before.push((n - 1, n))
        }
    }
}

/// Where character `k` of a text begins in its UTF-8 encoding.
pub open spec fn byte_offset(text: Seq<char>, k: int) -> int {
    encode_utf8(text.take(k)).len() as int
}

/// A run of characters of a text as a range of bytes: the first byte, and how
/// many there are.
pub open spec fn byte_range(text: Seq<char>, run: (int, int)) -> (u32, u32) {
    (
        byte_offset(text, run.0) as u32,
        (byte_offset(text, run.1) - byte_offset(text, run.0)) as u32,
    )
}

/// The byte ranges of a text that take part in a match, one for each maximal
/// run of its characters. Characters beyond the end of the text do not count.
pub open spec fn ranges_of(text: Seq<char>, indices: Seq<u32>) -> Seq<(u32, u32)> {
    runs(indices, text.len() as int).map_values(|run: (int, int)| byte_range(text, run))
}

/// How many bytes the UTF-8 encoding of a character has.
fn utf8_width(c: char) -> (r: usize)
    ensures
        r == encode_scalar(c as u32).len(),
        1 <= r <= 4,
{
    let n: u32 = c as u32;
    if n < 0x80 {
        1
    } else if n < 0x800 {
        2
    } else if n < 0x10000 {
        3
    } else {
        4
    }
}

proof fn lemma_encode_push(s: Seq<char>, c: char)
    ensures
        encode_utf8(s.push(c)) == encode_utf8(s) + encode_scalar(c as u32),
    decreases s.len(),
{
    if s.len() == 0 {
        assert(s.push(c).drop_first() =~= s);
        assert(encode_utf8(s.push(c)) =~= encode_utf8(s) + encode_scalar(c as u32));
    } else {
        assert(s.push(c).drop_first() =~= s.drop_first().push(c));
        lemma_encode_push(s.drop_first(), c);
        assert(encode_utf8(s.push(c)) =~= encode_utf8(s) + encode_scalar(c as u32));
    }
}

proof fn lemma_byte_offset_step(text: Seq<char>, k: int)
    requires
        0 <= k < text.len(),
    ensures
        byte_offset(text, k + 1) == byte_offset(text, k) + encode_scalar(text[k] as u32).len(),
{
    assert(text.take(k + 1) =~= text.take(k).push(text[k]));
    lemma_encode_push(text.take(k), text[k]);
}

proof fn lemma_byte_offset_monotone(text: Seq<char>, a: int, b: int)
    requires
        0 <= a <= b <= text.len(),
    ensures
        byte_offset(text, a) + (b - a) <= byte_offset(text, b),
    decreases b - a,
{
    if a < b {
        lemma_byte_offset_monotone(text, a, b - 1);
        lemma_byte_offset_step(text, b - 1);
    }
}

proof fn lemma_runs_bounds(indices: Seq<u32>, n: int)
    requires
        0 <= n,
    ensures
        forall|i: int|
            0 <= i < runs(indices, n).len() ==> 0 <= (#[trigger] runs(indices, n)[i]).0 < runs(
                indices,
                n,
            )[i].1 <= n,
        forall|i: int, j: int|
            0 <= i < j < runs(indices, n).len() ==> (#[trigger] runs(indices, n)[i]).1 < (
            #[trigger] runs(indices, n)[j]).0,
    decreases n,
{
    if n > 0 {
        let before = runs(indices, n - 1);
        let now = runs(indices, n);
        lemma_runs_bounds(indices, n - 1);
        assert forall|i: int| 0 <= i < now.len() implies 0 <= (#[trigger] now[i]).0 < now[i].1
            <= n by {
            if i < before.len() {
                assert(0 <= before[i].0 < before[i].1 <= n - 1);
            }
        }
        assert forall|i: int, j: int| 0 <= i < j < now.len() implies (#[trigger] now[i]).1 < (
        #[trigger] now[j]).0 by {
            if j < before.len() {
                assert(before[i].1 < before[j].0);
            } else {
                assert(before[i].1 <= n - 1);
                if before.len() > 0 && i < before.len() - 1 {
                    assert(before[i].1 < before[before.len() - 1].0);
                }
            }
        }
    }
}

proof fn lemma_runs_cover(indices: Seq<u32>, n: int, k: int)
    requires
        0 <= k < n,
    ensures
        is_matched(indices, k) <==> exists|i: int|
            0 <= i < runs(indices, n).len() && (#[trigger] runs(indices, n)[i]).0 <= k < runs(
                indices,
                n,
            )[i].1,
    decreases n,
{
    let before = runs(indices, n - 1);
    let now = runs(indices, n);
    lemma_runs_bounds(indices, n - 1);
    lemma_runs_bounds(indices, n);
    if k < n - 1 {
        lemma_runs_cover(indices, n - 1, k);
        if is_matched(indices, k) {
            let i = choose|i: int| 0 <= i < before.len() && (#[trigger] before[i]).0 <= k
                < before[i].1;
            assert(now[i].0 <= k < now[i].1);
        } else {
            assert forall|i: int| 0 <= i < now.len() implies !((#[trigger] now[i]).0 <= k
                < now[i].1) by {
                if i < before.len() {
                    assert(!(before[i].0 <= k < before[i].1));
                }
            }
        }
    } else {
        if is_matched(indices, k) {
            assert(now[now.len() - 1].0 <= k < now[now.len() - 1].1);
        } else {
            assert forall|i: int| 0 <= i < now.len() implies !((#[trigger] now[i]).0 <= k
                < now[i].1) by {
                assert(before[i].1 <= n - 1);
            }
        }
    }
}

/// The byte ranges of a match lie in the text, in order, with something
/// between any two of them, and none is empty. A character lies in one of them
/// exactly where it takes part in the match.
pub proof fn law_ranges_mark_the_match(text: Seq<char>, indices: Seq<u32>)
    requires
        encode_utf8(text).len() <= u32::MAX,
    ensures
        forall|i: int|
            0 <= i < ranges_of(text, indices).len() ==> {
                let (start, len) = #[trigger] ranges_of(text, indices)[i];
                len > 0 && start + len <= encode_utf8(text).len()
            },
        forall|i: int, j: int|
            0 <= i < j < ranges_of(text, indices).len() ==> {
                let (start, len) = #[trigger] ranges_of(text, indices)[i];
                start + len < (#[trigger] ranges_of(text, indices)[j]).0
            },
        forall|k: int|
            0 <= k < text.len() ==> (is_matched(indices, k) <==> exists|i: int|
                0 <= i < ranges_of(text, indices).len() && in_range(
                    #[trigger] ranges_of(text, indices)[i],
                    byte_offset(text, k),
                )),
{
    let n = text.len() as int;
    let all = runs(indices, n);
    let ranges = ranges_of(text, indices);
    assert(text.take(n) =~= text);
    lemma_runs_bounds(indices, n);
    assert forall|i: int| 0 <= i < ranges.len() implies ({
        let (start, len) = #[trigger] ranges[i];
        len > 0 && start + len <= encode_utf8(text).len() && start == byte_offset(text, all[i].0)
            && start + len == byte_offset(text, all[i].1)
    }) by {
        let (a, b) = all[i];
        assert(0 <= a < b <= n);
        lemma_byte_offset_monotone(text, a, b);
        lemma_byte_offset_monotone(text, b, n);
        lemma_byte_offset_monotone(text, 0, a);
    }
    assert forall|i: int, j: int| 0 <= i < j < ranges.len() implies ({
        let (start, len) = #[trigger] ranges[i];
        start + len < (#[trigger] ranges[j]).0
    }) by {
        assert(all[i].1 < all[j].0);
        lemma_byte_offset_monotone(text, all[i].1, all[j].0);
    }
    assert forall|k: int| 0 <= k < n implies (is_matched(indices, k) <==> exists|i: int|
        0 <= i < ranges.len() && in_range(#[trigger] ranges[i], byte_offset(text, k))) by {
        lemma_runs_cover(indices, n, k);
        if is_matched(indices, k) {
            let i = choose|i: int| 0 <= i < all.len() && (#[trigger] all[i]).0 <= k < all[i].1;
            lemma_byte_offset_monotone(text, all[i].0, k);
            lemma_byte_offset_monotone(text, k, all[i].1);
            assert(in_range(ranges[i], byte_offset(text, k)));
        } else {
            assert forall|i: int| 0 <= i < ranges.len() implies !in_range(
                #[trigger] ranges[i],
                byte_offset(text, k),
            ) by {
                assert(!(all[i].0 <= k < all[i].1));
                if k < all[i].0 {
                    lemma_byte_offset_monotone(text, k, all[i].0);
                } else {
                    lemma_byte_offset_monotone(text, all[i].1, k);
                }
            }
        }
    }
}

/// A byte lies in a range.
pub open spec fn in_range(range: (u32, u32), byte: int) -> bool {
    range.0 <= byte < range.0 + range.1
}

/// Which of the first `n` characters take part in a match.
fn mark_matched(indices: &Vec<u32>, n: usize) -> (r: Vec<bool>)
    ensures
        r@.len() == n,
        forall|k: int| 0 <= k < n ==> #[trigger] r@[k] == is_matched(indices@, k),
{
    let mut marks: Vec<bool> = Vec::new();
    let mut k: usize = 0;
    while k < n
        invariant
            k <= n,
            marks@.len() == k,
            forall|j: int| 0 <= j < k ==> !(#[trigger] marks@[j]),
        decreases n - k,
    {
        marks.push(false);
        k += 1;
    }
    let mut i: usize = 0;
    while i < indices.len()
        invariant
            i <= indices@.len(),
            marks@.len() == n,
            forall|j: int|
                0 <= j < n ==> #[trigger] marks@[j] == is_matched(indices@.take(i as int), j),
        decreases indices@.len() - i,
    {
        let at: usize = indices[i] as usize;
        let ghost before = indices@.take(i as int);
        let ghost now = indices@.take(i + 1);
        let ghost old_marks = marks@;
        assert(now =~= before.push(indices@[i as int]));
        if at < n {
            marks.set(at, true);
        }
        assert forall|j: int| 0 <= j < n implies #[trigger] marks@[j] == is_matched(now, j) by {
            if is_matched(before, j) {
                let w = choose|w: int| 0 <= w < before.len() && #[trigger] before[w] == j;
                assert(now[w] == j);
            }
            if j == at {
                assert(now[i as int] == j);
            } else {
                assert(marks@[j] == old_marks[j]);
                if is_matched(now, j) {
                    let w = choose|w: int| 0 <= w < now.len() && #[trigger] now[w] == j;
                    assert(before[w] == j);
                }
            }
        }
        i += 1;
    }
    assert(indices@.take(indices@.len() as int) =~= indices@);
    marks
}

/// The byte ranges of a text that take part in a match, given the positions of
/// the matched characters in any order: (first byte, number of bytes), with
/// consecutive positions in one range.
pub fn match_ranges(text: &str, indices: &Vec<u32>) -> (r: Vec<(u32, u32)>)
    ensures
        r@ == ranges_of(text@, indices@),
{
    let chars = to_chars(text);
    let total: usize = text.as_bytes().len();
    let n: usize = chars.len();
    let marks = mark_matched(indices, n);
    let mut ranges: Vec<(u32, u32)> = Vec::new();
    let mut k: usize = 0;
    let mut at: usize = 0;
    let mut open_from: usize = 0;
    let mut is_open: bool = false;
    let ghost mut start: int = 0;
    proof {
        assert(chars@.take(n as int) =~= chars@);
        assert(chars@.take(0) =~= Seq::<char>::empty());
        assert(ranges@ =~= closed_ranges(chars@, indices@, 0));
    }
    while k < n
        invariant
            k <= n,
            n == chars@.len(),
            chars@ == text@,
            marks@.len() == n,
            forall|j: int| 0 <= j < n ==> #[trigger] marks@[j] == is_matched(indices@, j),
            total == byte_offset(chars@, n as int),
            at == byte_offset(chars@, k as int),
            is_open == ends_open(indices@, k as int),
            is_open ==> {
                &&& start == runs(indices@, k as int).last().0
                &&& 0 <= start <= k
                &&& open_from == byte_offset(chars@, start)
                &&& open_from <= at
            },
            ranges@ == closed_ranges(chars@, indices@, k as int),
        decreases n - k,
    {
        let ghost before = runs(indices@, k as int);
        let ghost now = runs(indices@, k + 1);
        proof {
            lemma_byte_offset_step(chars@, k as int);
            lemma_byte_offset_monotone(chars@, k + 1, n as int);
            lemma_runs_bounds(indices@, k as int);
            lemma_runs_bounds(indices@, k + 1);
        }
        if marks[k] {
            if !is_open {
                is_open = true;
                open_from = at;
                proof {
                    start = k as int;
                }
                assert(now.drop_last() =~= before);
            } else {
                assert(now.drop_last() =~= before.drop_last());
            }
            assert(closed_ranges(chars@, indices@, k + 1) =~= closed_ranges(
                chars@,
                indices@,
                k as int,
            ));
        } else if is_open {
            ranges.push((open_from as u32, (at - open_from) as u32));
            is_open = false;
            assert(before.last().1 == k);
            assert(ranges@ =~= closed_ranges(chars@, indices@, k + 1));
        } else {
            assert(ranges@ =~= closed_ranges(chars@, indices@, k + 1));
        }
        at += utf8_width(chars[k]);
        k += 1;
    }
    if is_open {
        ranges.push((open_from as u32, (at - open_from) as u32));
    }
    proof {
        lemma_runs_bounds(indices@, n as int);
        assert(ranges@ =~= ranges_of(text@, indices@));
    }
    ranges
}

/// The last run among the first `n` characters reaches to their end.
spec fn ends_open(indices: Seq<u32>, n: int) -> bool {
    runs(indices, n).len() > 0 && runs(indices, n).last().1 == n
}

/// The byte ranges of the runs among the first `n` characters that end before
/// their end.
spec fn closed_ranges(text: Seq<char>, indices: Seq<u32>, n: int) -> Seq<(u32, u32)> {
    let all = runs(indices, n);
    let closed = if ends_open(indices, n) {
        all.drop_last()
    } else {
        all
    };
    closed.map_values(|run: (int, int)| byte_range(text, run))
}

// ---------------------------------------------------------------------------
// Scoring
// ---------------------------------------------------------------------------

/// Candidates with their match ranges and scores.
#[derive(Debug, Clone)]
pub struct ScoredCandidates {
    /// The candidates, in their order.
    pub entries: Vec<EntrySummary>,
    /// The score of each candidate; zero where it does not match.
    pub scores: Vec<u32>,
    /// The best score, and at least one.
    pub max_score: u32,
}

/// `after` is `before` with the given match ranges.
pub open spec fn with_ranges(
    before: EntrySummary,
    after: EntrySummary,
    ranges: Seq<(u32, u32)>,
) -> bool {
    &&& after.match_ranges@ == ranges
    &&& after.id == before.id
    &&& after.created_at == before.created_at
    &&& after.last_seen_at == before.last_seen_at
    &&& after.pinned == before.pinned
    &&& after.ephemeral == before.ephemeral
    &&& after.content_class == before.content_class
    &&& after.preview_text == before.preview_text
    &&& after.source_app == before.source_app
    &&& after.thumbnail == before.thumbnail
}

/// The preview of an entry; empty where it has none.
pub open spec fn preview_or_empty(entry: EntrySummary) -> Seq<char> {
    match entry.preview_text {
        Some(p) => p@,
        None => Seq::<char>::empty(),
    }
}

/// The text in which an entry is searched.
pub open spec fn entry_haystack(entry: EntrySummary) -> Seq<char> {
    haystack_of(optional_text(entry.preview_text), optional_text(entry.source_app))
}

/// What matching a query against an entry finds.
pub open spec fn entry_match(query: Seq<char>, entry: EntrySummary) -> Option<(u32, Seq<u32>)> {
    fuzzy_match(query, entry_haystack(entry))
}

/// The best of some scores, and at least one.
pub open spec fn is_max_score(scores: Seq<u32>, max: u32) -> bool {
    &&& max >= 1
    &&& forall|i: int| 0 <= i < scores.len() ==> #[trigger] scores[i] <= max
    &&& max == 1 || scores.contains(max)
}

/// An entry with the match ranges that the given positions make in its preview.
pub fn highlight(entry: EntrySummary, indices: &Vec<u32>) -> (r: EntrySummary)
    ensures
        with_ranges(entry, r, ranges_of(preview_or_empty(entry), indices@)),
{
    let mut entry = entry;
    let ranges = match &entry.preview_text {
        Some(p) => match_ranges(p.as_str(), indices),
        None => match_ranges("", indices),
    };
    proof {
        reveal_strlit("");
        assert(""@ =~= Seq::<char>::empty());
    }
    entry.match_ranges = ranges;
    entry
}

/// Match every candidate against the query: record which parts of its preview
/// match, and how well. Candidates that do not match stay, with a score of
/// zero.
pub fn score_candidates(candidates: Vec<EntrySummary>, query: &str) -> (r: ScoredCandidates)
    requires
        can_match_all(query@, candidates@),
    ensures
        r.entries@.len() == candidates@.len(),
        r.scores@.len() == candidates@.len(),
        forall|i: int|
            0 <= i < candidates@.len() ==> with_ranges(
                candidates@[i],
                #[trigger] r.entries@[i],
                ranges_of(
                    preview_or_empty(candidates@[i]),
                    indices_of(entry_match(query@, candidates@[i])),
                ),
            ),
        forall|i: int|
            0 <= i < candidates@.len() ==> #[trigger] r.scores@[i] == score_of(
                entry_match(query@, candidates@[i]),
            ),
        is_max_score(r.scores@, r.max_score),
{
    let ghost all = candidates@;
    let mut rest = candidates;
    let mut done: Vec<EntrySummary> = Vec::new();
    let mut scores: Vec<u32> = Vec::new();
    let mut max_score: u32 = 1;
    while rest.len() > 0
        invariant
            can_match_all(query@, all),
            done@.len() + rest@.len() == all.len(),
            rest@ == all.skip(done@.len() as int),
            scores@.len() == done@.len(),
            forall|i: int|
                0 <= i < done@.len() ==> with_ranges(
                    all[i],
                    #[trigger] done@[i],
                    ranges_of(
                        preview_or_empty(all[i]),
                        indices_of(entry_match(query@, all[i])),
                    ),
                ),
            forall|i: int|
                0 <= i < done@.len() ==> #[trigger] scores@[i] == score_of(
                    entry_match(query@, all[i]),
                ),
            is_max_score(scores@, max_score),
        decreases rest@.len(),
    {
        let ghost at = done@.len() as int;
        let entry = rest.remove(0);
        assert(entry == all[at]);
        assert(rest@ =~= all.skip(at + 1));
        let haystack = combined_haystack(&entry);
        let ghost before = scores@;
        match match_indices(query, haystack.as_str()) {
            Some((score, indices)) => {
                done.push(highlight(entry, &indices));
                scores.push(score);
                if score > max_score {
                    max_score = score;
                }
            },
            None => {
                let none: Vec<u32> = Vec::new();
                assert(none@ =~= Seq::<u32>::empty());
                done.push(highlight(entry, &none));
                scores.push(0);
            },
        }
        proof {
            assert(scores@[at] == score_of(entry_match(query@, all[at])));
            if before.contains(max_score) {
                let k = choose|k: int| 0 <= k < before.len() && before[k] == max_score;
                assert(scores@[k] == max_score);
            }
            assert(is_max_score(scores@, max_score));
        }
    }
    ScoredCandidates { entries: done, scores, max_score }
}

/// The page of a sequence: what is left after skipping `offset`, up to `limit`.
pub open spec fn page_of<A>(all: Seq<A>, offset: int, limit: int) -> Seq<A> {
    if offset >= all.len() {
        Seq::<A>::empty()
    } else if offset + limit >= all.len() {
        all.skip(offset)
    } else {
        all.subrange(offset, offset + limit)
    }
}

/// The requested page of the ranked entries.
pub fn take_page(entries: Vec<EntrySummary>, offset: u32, limit: u32) -> (r: Vec<EntrySummary>)
    ensures
        r@ == page_of(entries@, offset as int, limit as int),
{
    let ghost all = entries@;
    let mut entries = entries;
    let from: usize = offset as usize;
    if from >= entries.len() {
        return Vec::new();
    }
    let mut page = entries.split_off(from);
    assert(page@ =~= all.skip(from as int));
    let count: usize = limit as usize;
    if count < page.len() {
        page.truncate(count);
    }
    assert(page@ =~= page_of(all, offset as int, limit as int));
    page
}

/// `r` is the answer to a planned search: `total` entries were counted, and
/// `rows` are those that the statement of the plan gave, in the order of their
/// rank where the plan ranks them.
pub open spec fn is_result(
    r: QueryResult,
    plan: SearchPlan,
    rows: Seq<EntrySummary>,
    total: u32,
    offset: u32,
    limit: u32,
) -> bool {
    &&& r.total == total
    &&& r.entries@ == match plan {
        SearchPlan::Recent { .. } => rows,
        SearchPlan::Ranked { .. } => page_of(rows, offset as int, limit as int),
    }
}

/// The answer to a planned search, given the rows that the statement of the
/// plan gave, in the order of their rank where the plan ranks them, and how
/// many entries it counted.
pub fn search_result(
    plan: &SearchPlan,
    rows: Vec<EntrySummary>,
    total: u32,
    offset: u32,
    limit: u32,
) -> (r: QueryResult)
    ensures
        is_result(r, *plan, rows@, total, offset, limit),
{
    match plan {
        SearchPlan::Recent { .. } => QueryResult { entries: rows, total },
        SearchPlan::Ranked { .. } => QueryResult { entries: take_page(rows, offset, limit), total },
    }
}

// ---------------------------------------------------------------------------
// Laws of searching
// ---------------------------------------------------------------------------

/// `q` is a statement of a planned search: of the full-text search where
/// `by_words`, else of the substring search.
pub open spec fn is_statement(
    q: CandidateQuery,
    plan: SearchPlan,
    class: Option<ContentClass>,
    by_words: bool,
) -> bool {
    match plan {
        SearchPlan::Recent { offset, limit } => is_recent_query(q, class, offset, limit),
        SearchPlan::Ranked { fts_query, like_pattern, candidate_limit, .. } => if by_words {
            fts_query is Some && is_fts_query(q, fts_query->0@, class, candidate_limit)
        } else {
            is_like_query(q, like_pattern@, class, candidate_limit)
        },
    }
}

/// The rows that a statement gives, out of all that meet its condition, in its
/// order: those after its offset, up to its limit.
pub open spec fn given_rows(q: CandidateQuery, matching: Seq<EntrySummary>) -> Seq<EntrySummary> {
    let offset: int = match q.offset {
        Some(o) => o as int,
        None => 0,
    };
    page_of(matching, offset, q.limit as int)
}

/// How many of `total` entries stand on a page.
pub open spec fn page_length(total: int, offset: int, limit: int) -> int {
    if offset >= total {
        0
    } else if limit <= total - offset {
        limit
    } else {
        total - offset
    }
}

/// A search answers with as many entries as there are on the page, up to the
/// limit, and with the number of all entries that match, whatever the page.
/// Whether the full-text search found anything does not depend on the page
/// either.
pub proof fn law_search_fills_the_page(
    text: Seq<char>,
    class: Option<ContentClass>,
    by_words: bool,
    offset: u32,
    limit: u32,
    plan: SearchPlan,
    q: CandidateQuery,
    matching: Seq<EntrySummary>,
    ranked: Seq<EntrySummary>,
    r: QueryResult,
)
    requires
        is_plan(plan, text, offset, limit),
        is_statement(q, plan, class, by_words),
        matching.len() <= u32::MAX,
        ranked.len() == given_rows(q, matching).len(),
        is_result(r, plan, ranked, matching.len() as u32, offset, limit),
    ensures
        r.total == matching.len(),
        r.entries@.len() == page_length(matching.len() as int, offset as int, limit as int),
        plan is Ranked ==> (given_rows(q, matching).len() == 0 <==> matching.len() == 0),
{
    law_candidates_cover_page(offset, limit);
}

/// A statement that only reads.
pub open spec fn is_select(sql: Seq<char>) -> bool {
    sql.len() >= 7 && sql.take(7) == "SELECT "@
}

/// Whatever the page, a search counts with the same statement and the same
/// parameters, and its statements only read.
pub proof fn law_every_page_counts_alike(
    text: Seq<char>,
    class: Option<ContentClass>,
    by_words: bool,
    first: (u32, u32),
    first_plan: SearchPlan,
    a: CandidateQuery,
    second: (u32, u32),
    second_plan: SearchPlan,
    b: CandidateQuery,
)
    requires
        is_plan(first_plan, text, first.0, first.1),
        is_plan(second_plan, text, second.0, second.1),
        is_statement(a, first_plan, class, by_words),
        is_statement(b, second_plan, class, by_words),
    ensures
        a.count_sql@ == b.count_sql@,
        texts(a.params@) == texts(b.params@),
        is_select(a.page_sql@),
        is_select(a.count_sql@),
{
    lemma_statements_read(a, first_plan, class, by_words);
}

proof fn lemma_statements_read(
    q: CandidateQuery,
    plan: SearchPlan,
    class: Option<ContentClass>,
    by_words: bool,
)
    requires
        is_statement(q, plan, class, by_words),
    ensures
        is_select(q.page_sql@),
        is_select(q.count_sql@),
{
    reveal_strlit("SELECT ");
    reveal_strlit(
        "SELECT e.id, e.created_at, e.last_seen_at, e.pinned, e.ephemeral, e.content_class, e.preview_text, e.source_app FROM entries e JOIN search_idx s ON e.id = s.rowid WHERE search_idx MATCH ?",
    );
    reveal_strlit(
        "SELECT COUNT(*) FROM entries e JOIN search_idx s ON e.id = s.rowid WHERE search_idx MATCH ?",
    );
    reveal_strlit(
        "SELECT id, created_at, last_seen_at, pinned, ephemeral, content_class, preview_text, source_app FROM entries WHERE (preview_text LIKE ? ESCAPE '\\' OR source_app LIKE ? ESCAPE '\\')",
    );
    reveal_strlit(
        "SELECT COUNT(*) FROM entries WHERE (preview_text LIKE ? ESCAPE '\\' OR source_app LIKE ? ESCAPE '\\')",
    );
    reveal_strlit(
        "SELECT id, created_at, last_seen_at, pinned, ephemeral, content_class, preview_text, source_app FROM entries",
    );
    reveal_strlit("SELECT COUNT(*) FROM entries");
    assert(q.page_sql@.take(7) =~= "SELECT "@);
    assert(q.count_sql@.take(7) =~= "SELECT "@);
}

/// The rows of a database that meet the condition of a statement, in its order.
/// The database is given by what it holds for each statement that counts, with
/// its parameters.
pub open spec fn matching_rows(
    db: spec_fn(Seq<char>, Seq<Seq<char>>) -> Seq<EntrySummary>,
    q: CandidateQuery,
) -> Seq<EntrySummary> {
    db(q.count_sql@, texts(q.params@))
}

/// `r` answers a search in a database, by the given plan. `by_words` is the
/// statement of the full-text search, which counts where it finds anything, and
/// `other` that of the history or of the substring search. `ranked` are the
/// rows of the statement that counts, in the order of their rank.
pub open spec fn answers(
    db: spec_fn(Seq<char>, Seq<Seq<char>>) -> Seq<EntrySummary>,
    class: Option<ContentClass>,
    page: (u32, u32),
    plan: SearchPlan,
    by_words: CandidateQuery,
    other: CandidateQuery,
    ranked: Seq<EntrySummary>,
    r: QueryResult,
) -> bool {
    let has_words = plan matches SearchPlan::Ranked { fts_query, .. } && fts_query is Some;
    let q = if has_words && given_rows(by_words, matching_rows(db, by_words)).len() > 0 {
        by_words
    } else {
        other
    };
    let rows = given_rows(q, matching_rows(db, q));
    &&& has_words ==> is_statement(by_words, plan, class, true)
    &&& is_statement(other, plan, class, false)
    &&& matching_rows(db, q).len() <= u32::MAX
    &&& ranked.len() == rows.len()
    &&& plan is Recent ==> ranked == rows
    &&& is_result(r, plan, ranked, matching_rows(db, q).len() as u32, page.0, page.1)
}

/// `r` is the answer to a search in a database, for a page given by its offset
/// and its limit.
pub open spec fn is_search(
    db: spec_fn(Seq<char>, Seq<Seq<char>>) -> Seq<EntrySummary>,
    text: Seq<char>,
    class: Option<ContentClass>,
    page: (u32, u32),
    r: QueryResult,
) -> bool {
    exists|
        plan: SearchPlan,
        by_words: CandidateQuery,
        other: CandidateQuery,
        ranked: Seq<EntrySummary>,
    |
        is_plan(plan, text, page.0, page.1) && #[trigger] answers(
            db,
            class,
            page,
            plan,
            by_words,
            other,
            ranked,
            r,
        )
}

/// Two searches of a database for the same text and class count the same total,
/// whatever their pages, and each answers with as many entries as there are on
/// its page.
pub proof fn law_searches_agree(
    db: spec_fn(Seq<char>, Seq<Seq<char>>) -> Seq<EntrySummary>,
    text: Seq<char>,
    class: Option<ContentClass>,
    first: (u32, u32),
    a: QueryResult,
    second: (u32, u32),
    b: QueryResult,
)
    requires
        is_search(db, text, class, first, a),
        is_search(db, text, class, second, b),
    ensures
        a.total == b.total,
        a.entries@.len() == page_length(a.total as int, first.0 as int, first.1 as int),
        b.entries@.len() == page_length(b.total as int, second.0 as int, second.1 as int),
{
    let (plan_a, words_a, other_a, ranked_a) = choose|
        plan: SearchPlan,
        by_words: CandidateQuery,
        other: CandidateQuery,
        ranked: Seq<EntrySummary>,
    |
        is_plan(plan, text, first.0, first.1) && #[trigger] answers(
            db,
            class,
            first,
            plan,
            by_words,
            other,
            ranked,
            a,
        );
    let (plan_b, words_b, other_b, ranked_b) = choose|
        plan: SearchPlan,
        by_words: CandidateQuery,
        other: CandidateQuery,
        ranked: Seq<EntrySummary>,
    |
        is_plan(plan, text, second.0, second.1) && #[trigger] answers(
            db,
            class,
            second,
            plan,
            by_words,
            other,
            ranked,
            b,
        );
    law_candidates_cover_page(first.0, first.1);
    law_candidates_cover_page(second.0, second.1);
    law_every_page_counts_alike(
        text,
        class,
        false,
        first,
        plan_a,
        other_a,
        second,
        plan_b,
        other_b,
    );
    if is_statement(words_a, plan_a, class, true) && is_statement(words_b, plan_b, class, true) {
        law_every_page_counts_alike(
            text,
            class,
            true,
            first,
            plan_a,
            words_a,
            second,
            plan_b,
            words_b,
        );
    }
}

/// Searches for two texts that differ only in white space at their ends have
/// the same answers; so a text of white space alone is answered like the empty
/// text.
pub proof fn law_outer_space_is_not_searched(
    db: spec_fn(Seq<char>, Seq<Seq<char>>) -> Seq<EntrySummary>,
    text: Seq<char>,
    other_text: Seq<char>,
    class: Option<ContentClass>,
    page: (u32, u32),
    r: QueryResult,
)
    requires
        trim(text) == trim(other_text),
        is_search(db, text, class, page, r),
    ensures
        is_search(db, other_text, class, page, r),
{
    let (plan, by_words, other, ranked) = choose|
        plan: SearchPlan,
        by_words: CandidateQuery,
        other: CandidateQuery,
        ranked: Seq<EntrySummary>,
    |
        is_plan(plan, text, page.0, page.1) && #[trigger] answers(
            db,
            class,
            page,
            plan,
            by_words,
            other,
            ranked,
            r,
        );
    assert(is_plan(plan, other_text, page.0, page.1));
}

} // verus!
