//! What the statements of a search find, count and are given.

use vstd::prelude::*;

use crate::cli::list::is_table;
use crate::cli::list::list_footer;
use crate::cli::list::search_footer;
use crate::search::can_match;
use crate::search::given_rows;
use crate::search::haystack_of;
use crate::search::is_fts_query;
use crate::search::is_like_query;
use crate::search::is_longest;
use crate::search::is_recent_query;
use crate::search::is_result;
use crate::search::is_statement;
use crate::search::page_length;
use crate::search::page_of;
use crate::search::with_ranges;
use crate::search::words;
use crate::search::CandidateQuery;
use crate::search::SearchPlan;
use crate::text::decimal;
use crate::text::texts;
use crate::types::class_name;
use crate::types::ContentClass;
use crate::types::EntrySummary;
use crate::types::QueryResult;

verus! {

/// The columns of an entry that a statement reads.
pub open spec fn entry_columns() -> Seq<char> {
    "SELECT id, created_at, last_seen_at, pinned, ephemeral, content_class, preview_text, source_app"@
}

/// A full-text search looks in the index, the newest first; what it finds and
/// what it counts meet the same condition, and it is given the query and then
/// the name of the class.
pub proof fn law_full_text_statement(
    q: CandidateQuery,
    text: Seq<char>,
    class: ContentClass,
    limit: u32,
)
    ensures
        is_fts_query(q, text, None, limit) ==> {
            let from = " FROM entries e JOIN search_idx s ON e.id = s.rowid WHERE search_idx MATCH ?"@;
            &&& q.count_sql@ == "SELECT COUNT(*)"@ + from
            &&& q.page_sql@
                == "SELECT e.id, e.created_at, e.last_seen_at, e.pinned, e.ephemeral, e.content_class, e.preview_text, e.source_app"@
                + from + " ORDER BY e.last_seen_at DESC, e.id DESC LIMIT ?"@
            &&& texts(q.params@) == seq![text]
            &&& q.limit == limit
            &&& q.offset is None
        },
        is_fts_query(q, text, Some(class), limit) ==> {
            let from =
                " FROM entries e JOIN search_idx s ON e.id = s.rowid WHERE search_idx MATCH ? AND e.content_class = ?"@;
            &&& q.count_sql@ == "SELECT COUNT(*)"@ + from
            &&& q.page_sql@
                == "SELECT e.id, e.created_at, e.last_seen_at, e.pinned, e.ephemeral, e.content_class, e.preview_text, e.source_app"@
                + from + " ORDER BY e.last_seen_at DESC, e.id DESC LIMIT ?"@
            &&& texts(q.params@) == seq![text, class_name(class)]
            &&& q.limit == limit
            &&& q.offset is None
        },
{
    reveal_strlit(" FROM entries e JOIN search_idx s ON e.id = s.rowid WHERE search_idx MATCH ?");
    reveal_strlit(
        " FROM entries e JOIN search_idx s ON e.id = s.rowid WHERE search_idx MATCH ? AND e.content_class = ?",
    );
    reveal_strlit(" AND e.content_class = ?");
    reveal_strlit("SELECT COUNT(*)");
    reveal_strlit(
        "SELECT e.id, e.created_at, e.last_seen_at, e.pinned, e.ephemeral, e.content_class, e.preview_text, e.source_app",
    );
    reveal_strlit(
        "SELECT COUNT(*) FROM entries e JOIN search_idx s ON e.id = s.rowid WHERE search_idx MATCH ?",
    );
    reveal_strlit(
        "SELECT e.id, e.created_at, e.last_seen_at, e.pinned, e.ephemeral, e.content_class, e.preview_text, e.source_app FROM entries e JOIN search_idx s ON e.id = s.rowid WHERE search_idx MATCH ?",
    );
    let from = " FROM entries e JOIN search_idx s ON e.id = s.rowid WHERE search_idx MATCH ?"@;
    let columns =
        "SELECT e.id, e.created_at, e.last_seen_at, e.pinned, e.ephemeral, e.content_class, e.preview_text, e.source_app"@;
    let count = "SELECT COUNT(*)"@;
    assert(count + from
        =~= "SELECT COUNT(*) FROM entries e JOIN search_idx s ON e.id = s.rowid WHERE search_idx MATCH ?"@);
    assert(columns + from
        =~= "SELECT e.id, e.created_at, e.last_seen_at, e.pinned, e.ephemeral, e.content_class, e.preview_text, e.source_app FROM entries e JOIN search_idx s ON e.id = s.rowid WHERE search_idx MATCH ?"@);
    let by_class = " AND e.content_class = ?"@;
    let both =
        " FROM entries e JOIN search_idx s ON e.id = s.rowid WHERE search_idx MATCH ? AND e.content_class = ?"@;
    assert(from + by_class =~= both);
    assert((count + from) + by_class =~= count + both);
    assert((columns + from) + by_class =~= columns + both);
    let order = " ORDER BY e.last_seen_at DESC, e.id DESC LIMIT ?"@;
    let none = Seq::<char>::empty();
    assert((count + from) + none =~= count + from);
    assert((columns + from) + none =~= columns + from);
    assert(seq![text].push(class_name(class)) =~= seq![text, class_name(class)]);
}

/// A substring search looks in the preview and in the source, the newest
/// first; what it finds and what it counts meet the same condition, and it is
/// given the pattern twice and then the name of the class.
pub proof fn law_substring_statement(
    q: CandidateQuery,
    pattern: Seq<char>,
    class: ContentClass,
    limit: u32,
)
    ensures
        is_like_query(q, pattern, None, limit) ==> {
            let from =
                " FROM entries WHERE (preview_text LIKE ? ESCAPE '\\' OR source_app LIKE ? ESCAPE '\\')"@;
            &&& q.count_sql@ == "SELECT COUNT(*)"@ + from
            &&& q.page_sql@ == entry_columns() + from
                + " ORDER BY last_seen_at DESC, id DESC LIMIT ?"@
            &&& texts(q.params@) == seq![pattern, pattern]
            &&& q.limit == limit
            &&& q.offset is None
        },
        is_like_query(q, pattern, Some(class), limit) ==> {
            let from =
                " FROM entries WHERE (preview_text LIKE ? ESCAPE '\\' OR source_app LIKE ? ESCAPE '\\') AND content_class = ?"@;
            &&& q.count_sql@ == "SELECT COUNT(*)"@ + from
            &&& q.page_sql@ == entry_columns() + from
                + " ORDER BY last_seen_at DESC, id DESC LIMIT ?"@
            &&& texts(q.params@) == seq![pattern, pattern, class_name(class)]
            &&& q.limit == limit
            &&& q.offset is None
        },
{
    reveal_strlit(
        " FROM entries WHERE (preview_text LIKE ? ESCAPE '\\' OR source_app LIKE ? ESCAPE '\\')",
    );
    reveal_strlit(
        " FROM entries WHERE (preview_text LIKE ? ESCAPE '\\' OR source_app LIKE ? ESCAPE '\\') AND content_class = ?",
    );
    reveal_strlit(" AND content_class = ?");
    reveal_strlit("SELECT COUNT(*)");
    reveal_strlit(
        "SELECT id, created_at, last_seen_at, pinned, ephemeral, content_class, preview_text, source_app",
    );
    reveal_strlit(
        "SELECT COUNT(*) FROM entries WHERE (preview_text LIKE ? ESCAPE '\\' OR source_app LIKE ? ESCAPE '\\')",
    );
    reveal_strlit(
        "SELECT id, created_at, last_seen_at, pinned, ephemeral, content_class, preview_text, source_app FROM entries WHERE (preview_text LIKE ? ESCAPE '\\' OR source_app LIKE ? ESCAPE '\\')",
    );
    let from =
        " FROM entries WHERE (preview_text LIKE ? ESCAPE '\\' OR source_app LIKE ? ESCAPE '\\')"@;
    let columns = entry_columns();
    let count = "SELECT COUNT(*)"@;
    assert(count + from
        =~= "SELECT COUNT(*) FROM entries WHERE (preview_text LIKE ? ESCAPE '\\' OR source_app LIKE ? ESCAPE '\\')"@);
    assert(columns + from
        =~= "SELECT id, created_at, last_seen_at, pinned, ephemeral, content_class, preview_text, source_app FROM entries WHERE (preview_text LIKE ? ESCAPE '\\' OR source_app LIKE ? ESCAPE '\\')"@);
    let by_class = " AND content_class = ?"@;
    let both =
        " FROM entries WHERE (preview_text LIKE ? ESCAPE '\\' OR source_app LIKE ? ESCAPE '\\') AND content_class = ?"@;
    assert(from + by_class =~= both);
    assert((count + from) + by_class =~= count + both);
    assert((columns + from) + by_class =~= columns + both);
    let none = Seq::<char>::empty();
    assert((count + from) + none =~= count + from);
    assert((columns + from) + none =~= columns + from);
    assert(seq![pattern, pattern].push(class_name(class)) =~= seq![
        pattern,
        pattern,
        class_name(class),
    ]);
}

/// Without a text, the pinned entries come first and among each the newest, and
/// the statement takes the page itself.
pub proof fn law_recent_statement(q: CandidateQuery, class: ContentClass, offset: u32, limit: u32)
    ensures
        is_recent_query(q, None, offset, limit) ==> {
            &&& q.count_sql@ == "SELECT COUNT(*) FROM entries"@
            &&& q.page_sql@ == entry_columns() + " FROM entries"@
                + " ORDER BY pinned DESC, last_seen_at DESC, id DESC LIMIT ? OFFSET ?"@
            &&& q.params@.len() == 0
            &&& q.limit == limit
            &&& q.offset == Some(offset)
        },
        is_recent_query(q, Some(class), offset, limit) ==> {
            &&& q.count_sql@ == "SELECT COUNT(*)"@ + " FROM entries WHERE content_class = ?"@
            &&& q.page_sql@ == entry_columns() + " FROM entries WHERE content_class = ?"@
                + " ORDER BY pinned DESC, last_seen_at DESC, id DESC LIMIT ? OFFSET ?"@
            &&& texts(q.params@) == seq![class_name(class)]
            &&& q.limit == limit
            &&& q.offset == Some(offset)
        },
{
    reveal_strlit(" FROM entries");
    reveal_strlit(" FROM entries WHERE content_class = ?");
    reveal_strlit(" WHERE content_class = ?");
    reveal_strlit("SELECT COUNT(*)");
    reveal_strlit("SELECT COUNT(*) FROM entries");
    reveal_strlit(
        "SELECT id, created_at, last_seen_at, pinned, ephemeral, content_class, preview_text, source_app",
    );
    reveal_strlit(
        "SELECT id, created_at, last_seen_at, pinned, ephemeral, content_class, preview_text, source_app FROM entries",
    );
    let columns = entry_columns();
    let count = "SELECT COUNT(*)"@;
    let from = " FROM entries"@;
    let by_class = " WHERE content_class = ?"@;
    let both = " FROM entries WHERE content_class = ?"@;
    assert(count + from =~= "SELECT COUNT(*) FROM entries"@);
    assert(columns + from
        =~= "SELECT id, created_at, last_seen_at, pinned, ephemeral, content_class, preview_text, source_app FROM entries"@);
    assert(from + by_class =~= both);
    assert((count + from) + by_class =~= count + both);
    assert((columns + from) + by_class =~= columns + both);
    let none = Seq::<char>::empty();
    assert((count + from) + none =~= "SELECT COUNT(*) FROM entries"@);
    assert((columns + from) + none =~= columns + from);
    assert(Seq::<Seq<char>>::empty().push(class_name(class)) =~= seq![class_name(class)]);
    assert(texts(q.params@).len() == q.params@.len());
}

/// A search by words runs the full-text statement of its plan, which it has
/// only where there is a word; one by a part of the text the substring
/// statement; and without a text the history is read.
pub proof fn law_statement_of_a_plan(
    q: CandidateQuery,
    plan: SearchPlan,
    class: Option<ContentClass>,
    by_words: bool,
)
    requires
        is_statement(q, plan, class, by_words),
    ensures
        match plan {
            SearchPlan::Recent { offset, limit } => q.limit == limit && q.offset == Some(offset),
            SearchPlan::Ranked { fts_query, like_pattern, candidate_limit, .. } => {
                &&& q.limit == candidate_limit
                &&& q.offset is None
                &&& by_words ==> fts_query is Some && texts(q.params@)[0] == fts_query->Some_0@
                &&& !by_words ==> texts(q.params@)[0] == like_pattern@ && texts(q.params@)[1]
                    == like_pattern@
            },
        },
{
}

// ---------------------------------------------------------------------------
// Answers
// ---------------------------------------------------------------------------

/// A page has what stands behind as many entries as its offset, and no more
/// than its limit.
pub proof fn law_rows_given(q: CandidateQuery, matching: Seq<EntrySummary>, i: int)
    ensures
        ({
            let offset: int = if q.offset is Some {
                q.offset->Some_0 as int
            } else {
                0
            };
            &&& given_rows(q, matching).len() <= q.limit
            &&& 0 <= i < q.limit && offset + i < matching.len() ==> i < given_rows(
                q,
                matching,
            ).len() && given_rows(q, matching)[i] == matching[offset + i]
            &&& 0 <= i < given_rows(q, matching).len() ==> offset + i < matching.len()
            &&& given_rows(q, matching).len() == page_length(
                matching.len() as int,
                offset,
                q.limit as int,
            )
        }),
{
}

/// How many entries stand on a page: none behind the last one, and never more
/// than the limit or than are left.
pub proof fn law_page_length(total: int, offset: int, limit: int)
    requires
        0 <= total,
        0 <= offset,
        0 <= limit,
    ensures
        offset >= total ==> page_length(total, offset, limit) == 0,
        offset + limit <= total ==> page_length(total, offset, limit) == limit,
        offset <= total <= offset + limit ==> page_length(total, offset, limit) == total - offset,
{
}

/// The answer to a search counts all that was found and holds the asked page:
/// as the statement gave it for the whole history, and cut out of the ranked
/// entries otherwise.
pub proof fn law_answer(
    r: QueryResult,
    plan: SearchPlan,
    rows: Seq<EntrySummary>,
    total: u32,
    offset: u32,
    limit: u32,
    i: int,
)
    requires
        is_result(r, plan, rows, total, offset, limit),
    ensures
        r.total == total,
        plan is Recent ==> r.entries@ == rows,
        plan is Ranked ==> r.entries@.len() <= limit,
        plan is Ranked && 0 <= i < limit && offset + i < rows.len() ==> i < r.entries@.len()
            && r.entries@[i] == rows[offset + i],
        plan is Ranked && 0 <= i < r.entries@.len() ==> offset + i < rows.len(),
{
    assert(plan is Ranked ==> r.entries@ == page_of(rows, offset as int, limit as int));
}

/// Marking what was matched changes nothing else of an entry.
pub proof fn law_marking_changes_nothing_else(
    before: EntrySummary,
    after: EntrySummary,
    ranges: Seq<(u32, u32)>,
)
    requires
        with_ranges(before, after, ranges),
    ensures
        after.match_ranges@ == ranges,
        after == (EntrySummary { match_ranges: after.match_ranges, ..before }),
{
}

/// An entry is searched in its preview and, behind a space, in its source; in
/// the one that it has where the other is missing.
pub proof fn law_searched_text(p: Seq<char>, a: Seq<char>)
    ensures
        haystack_of(Some(p), Some(a)) == p + seq![' '] + a,
        haystack_of(Some(p), None) == p,
        haystack_of(None, Some(a)) == a,
        haystack_of(None, None).len() == 0,
{
    reveal_strlit(" ");
    assert(" "@ =~= seq![' ']);
}

/// A query of up to 165,191,049 characters can be matched with any text where
/// its words have no more than 2520 characters, and with a text of no more than
/// 2520 characters whatever its words have; nothing else can be matched.
pub proof fn law_matchable(query: Seq<char>, text: Seq<char>, i: int)
    ensures
        query.len() <= 165_191_049 && text.len() <= 2520 ==> can_match(query, text),
        query.len() <= 165_191_049 && (forall|k: int|
            0 <= k < words(query).len() ==> (#[trigger] words(query)[k]).len() <= 2520)
            ==> can_match(query, text),
        query.len() > 165_191_049 ==> !can_match(query, text),
        0 <= i < words(query).len() && words(query)[i].len() > 2520 && text.len() > 2520
            ==> !can_match(query, text),
{
}

/// The longest of some words is one of them, and none is longer.
pub proof fn law_longest(all: Seq<Seq<char>>, n: int, i: int)
    requires
        is_longest(all, n),
    ensures
        0 <= i < all.len() ==> all[i].len() <= n,
        exists|k: int| 0 <= k < all.len() && (#[trigger] all[k]).len() == n,
{
}

/// A space ends a word of a query, but not where a backslash stands before it.
pub proof fn law_words_of_a_query(a: Seq<char>, c: char)
    ensures
        words(Seq::<char>::empty()) == seq![Seq::<char>::empty()],
        words(a).len() > 0,
        c == ' ' && (a.len() == 0 || a.last() != '\\') ==> words(a.push(c)) == words(a).push(
            Seq::<char>::empty(),
        ),
        c != ' ' || (a.len() > 0 && a.last() == '\\') ==> {
            &&& words(a.push(c)).drop_last() == words(a).drop_last()
            &&& words(a.push(c)).last() == words(a).last().push(c)
        },
    decreases a.len(),
{
    let s = a.push(c);
    assert(s.drop_last() =~= a);
    assert(s[s.len() - 1] == c);
    if a.len() > 0 {
        assert(s[s.len() - 2] == a.last());
        law_words_of_a_query(a.drop_last(), a.last());
        assert(a.drop_last().push(a.last()) =~= a);
    }
    if c != ' ' || (a.len() > 0 && a.last() == '\\') {
        assert(words(s) == words(a).drop_last().push(words(a).last().push(c)));
        assert(words(s).drop_last() =~= words(a).drop_last());
    }
}

// ---------------------------------------------------------------------------
// Tables
// ---------------------------------------------------------------------------

/// A table has a header of two lines, a row for each entry in order, an empty
/// line and what is said below; that gives how many are shown and how many
/// there are, in this order.
pub proof fn law_table(
    lines: Seq<Seq<char>>,
    entries: Seq<EntrySummary>,
    now_ms: int,
    footer: Seq<char>,
    shown: nat,
    total: nat,
)
    requires
        is_table(lines, entries, now_ms, footer),
    ensures
        lines.len() == entries.len() + 4,
        lines[0] == " ID    │ Type      │ Preview                               │ Age"@,
        lines[1] == "───────┼───────────┼───────────────────────────────────────┼────────"@,
        forall|i: int|
            0 <= i < entries.len() ==> crate::cli::list::is_row(
                #[trigger] lines[i + 2],
                entries[i],
                now_ms,
            ),
        lines[lines.len() - 2].len() == 0,
        lines.last() == footer,
        list_footer(shown, total) == "Showing "@ + decimal(shown) + " of "@ + decimal(total)
            + " entries. Use --limit to see more."@,
        search_footer(shown, total) == "Found "@ + decimal(shown) + " of "@ + decimal(total)
            + " matching entries."@,
{
    assert(lines[0] == lines.take(2)[0]);
    assert(lines[1] == lines.take(2)[1]);
}

} // verus!
