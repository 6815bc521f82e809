//! Search: tokens, plans, statements, matching and pages.

use nixclip_core::search::{
    candidate_limit, combined_haystack, fts_candidates, highlight, like_candidates, like_pattern,
    match_ranges, matchable, normalize_query_tokens, normalized_query_text, recent_entries,
    sanitize_fts5_query, score_candidates, search_result, take_page, CandidateQuery, SearchEngine,
    SearchPlan, SEARCH_HEADROOM,
};
use nixclip_core::{ContentClass, EntrySummary};
use rusqlite::{params_from_iter, Connection};

fn entry(id: i64, preview: Option<&str>, app: Option<&str>) -> EntrySummary {
    EntrySummary {
        id,
        created_at: 0,
        last_seen_at: 0,
        pinned: false,
        ephemeral: false,
        content_class: ContentClass::Text,
        preview_text: preview.map(str::to_string),
        source_app: app.map(str::to_string),
        thumbnail: None,
        match_ranges: vec![],
    }
}

fn database() -> Connection {
    let conn = Connection::open_in_memory().expect("open");
    conn.execute_batch(
        "CREATE TABLE entries (
             id INTEGER PRIMARY KEY, created_at INTEGER, last_seen_at INTEGER, pinned INTEGER,
             ephemeral INTEGER, content_class TEXT, preview_text TEXT, source_app TEXT);
         CREATE VIRTUAL TABLE search_idx
             USING fts5(preview_text, source_app, content=entries, content_rowid=id);
         INSERT INTO entries VALUES
             (1, 1, 1, 0, 0, 'text', 'docker run nginx', 'kitty'),
             (2, 2, 2, 1, 0, 'url', 'https://docker.com', 'firefox'),
             (3, 3, 3, 0, 0, 'text', '100% sure_thing', NULL);
         INSERT INTO search_idx (rowid, preview_text) SELECT id, preview_text FROM entries;",
    )
    .expect("schema");
    conn
}

fn ids(conn: &Connection, q: &CandidateQuery) -> (Vec<i64>, u32) {
    let total: u32 = conn
        .query_row(&q.count_sql, params_from_iter(q.params.iter()), |row| row.get(0))
        .expect("count");
    let mut params = q.params.clone();
    params.push(q.limit.to_string());
    if let Some(offset) = q.offset {
        params.push(offset.to_string());
    }
    let mut stmt = conn.prepare(&q.page_sql).expect("prepare");
    let rows = stmt
        .query_map(params_from_iter(params.iter()), |row| row.get::<_, i64>(0))
        .expect("query");
    (rows.map(|r| r.expect("row")).collect(), total)
}

#[test]
fn tokens_are_words_without_operators() {
    assert_eq!(normalize_query_tokens("docker run"), vec!["docker", "run"]);
    assert_eq!(normalize_query_tokens("it's a well-known -x- (test)*"), vec![
        "it's", "a", "well-known", "x", "test"
    ]);
    assert!(normalize_query_tokens("and OR Not -- ^*()").is_empty());
    assert_eq!(normalize_query_tokens("android"), vec!["android"]);
    assert_eq!(normalized_query_text("a  AND\tb"), Some("a b".to_string()));
    assert_eq!(normalized_query_text("OR"), None);
}

#[test]
fn full_text_expressions_quote_and_prefix_every_token() {
    assert_eq!(sanitize_fts5_query("docker run").as_deref(), Some("\"docker\"* \"run\"*"));
    assert_eq!(sanitize_fts5_query("*"), None);
}

#[test]
fn like_patterns_escape_wildcards() {
    assert_eq!(like_pattern("100% sure_thing"), "%100\\% sure\\_thing%");
    assert_eq!(like_pattern(""), "%%");
}

#[test]
fn plans_ignore_outer_space() {
    let engine = SearchEngine::new("/tmp/db".to_string());
    assert_eq!(engine.db_path(), "/tmp/db");
    assert!(matches!(engine.plan("  \t", 3, 7), SearchPlan::Recent { offset: 3, limit: 7 }));
    for text in ["docker run", "  docker run\n"] {
        match engine.plan(text, 10, 20) {
            SearchPlan::Ranked { fts_query, like_pattern, fuzzy_query, candidate_limit } => {
                assert_eq!(fts_query.as_deref(), Some("\"docker\"* \"run\"*"));
                assert_eq!(like_pattern, "%docker run%");
                assert_eq!(fuzzy_query, "docker run");
                assert_eq!(candidate_limit, 30 + SEARCH_HEADROOM);
            }
            other => panic!("expected Ranked, got {other:?}"),
        }
    }
    match engine.plan("**", 0, 1) {
        SearchPlan::Ranked { fts_query, fuzzy_query, .. } => {
            assert_eq!(fts_query, None);
            assert_eq!(fuzzy_query, "**");
        }
        other => panic!("expected Ranked, got {other:?}"),
    }
}

#[test]
fn candidates_cover_the_page_and_never_overflow() {
    assert_eq!(candidate_limit(0, 0), 500);
    assert_eq!(candidate_limit(u32::MAX, 1), u32::MAX);
    assert_eq!(candidate_limit(1, u32::MAX), u32::MAX);
}

#[test]
fn the_substring_search_follows_an_empty_or_failed_full_text_search() {
    assert!(SearchEngine::falls_back(None));
    assert!(SearchEngine::falls_back(Some(0)));
    assert!(!SearchEngine::falls_back(Some(1)));
}

#[test]
fn statements_find_what_they_are_meant_to_find() {
    let conn = database();
    let expr = sanitize_fts5_query("dock").expect("tokens");
    assert_eq!(ids(&conn, &fts_candidates(&expr, None, 10)), (vec![2, 1], 2));
    assert_eq!(ids(&conn, &fts_candidates(&expr, Some(ContentClass::Text), 10)), (vec![1], 1));
    let pattern = like_pattern("100% sure_");
    assert_eq!(ids(&conn, &like_candidates(&pattern, None, 10)), (vec![3], 1));
    let by_app = like_pattern("fire");
    assert_eq!(ids(&conn, &like_candidates(&by_app, None, 10)), (vec![2], 1));
    assert_eq!(ids(&conn, &like_candidates(&by_app, Some(ContentClass::Text), 10)), (vec![], 0));
    assert_eq!(ids(&conn, &recent_entries(None, 0, 10)), (vec![2, 3, 1], 3));
    assert_eq!(ids(&conn, &recent_entries(Some(ContentClass::Text), 1, 10)), (vec![1], 2));
    assert_eq!(ids(&conn, &recent_entries(None, 0, 0)), (vec![], 3));
}

#[test]
fn a_search_looks_at_the_preview_and_the_source() {
    assert_eq!(combined_haystack(&entry(1, Some("a"), Some("b"))), "a b");
    assert_eq!(combined_haystack(&entry(1, Some("a"), None)), "a");
    assert_eq!(combined_haystack(&entry(1, None, Some("b"))), "b");
    assert_eq!(combined_haystack(&entry(1, None, None)), "");
}

#[test]
fn ranges_join_neighbours_and_count_bytes() {
    assert_eq!(match_ranges("hello", &vec![0, 1, 3]), vec![(0, 2), (3, 1)]);
    assert_eq!(match_ranges("hello", &vec![3, 1, 0, 1]), vec![(0, 2), (3, 1)]);
    assert_eq!(match_ranges("héllo", &vec![1, 2]), vec![(1, 3)]);
    assert_eq!(match_ranges("ab", &vec![1, 2, 9]), vec![(1, 1)]);
    assert!(match_ranges("", &vec![0, 1]).is_empty());
    let marked = highlight(entry(1, Some("héllo"), None), &vec![1]);
    assert_eq!(marked.match_ranges, vec![(1, 2)]);
}

#[test]
fn matching_scores_every_candidate_and_marks_the_match() {
    let candidates = vec![
        entry(1, Some("docker run"), None),
        entry(2, Some("unrelated"), None),
        entry(3, Some("dxoxcxkxexr"), None),
    ];
    let scored = score_candidates(candidates, "docker");
    let ids: Vec<i64> = scored.entries.iter().map(|e| e.id).collect();
    assert_eq!(ids, vec![1, 2, 3]);
    assert_eq!(scored.entries[0].match_ranges, vec![(0, 6)]);
    assert!(scored.entries[1].match_ranges.is_empty());
    assert_eq!(scored.scores[1], 0);
    assert!(scored.scores[0] > scored.scores[2] && scored.scores[2] > 0);
    assert_eq!(scored.max_score, scored.scores[0]);
    assert_eq!(score_candidates(vec![], "docker").max_score, 1);
}

#[test]
fn pages_are_cut_out_of_the_ranked_entries() {
    let all = || (0..5).map(|i| entry(i, None, None)).collect::<Vec<_>>();
    let ids = |v: Vec<EntrySummary>| v.iter().map(|e| e.id).collect::<Vec<_>>();
    assert_eq!(ids(take_page(all(), 1, 2)), vec![1, 2]);
    assert_eq!(ids(take_page(all(), 4, 9)), vec![4]);
    assert!(take_page(all(), 5, 1).is_empty());
    assert!(take_page(all(), 0, 0).is_empty());
    assert_eq!(take_page(all(), 0, u32::MAX).len(), 5);
}

#[test]
fn long_words_match_only_short_texts() {
    let long = || vec![entry(1, Some(&"a".repeat(3000)), None)];
    let short = || vec![entry(1, Some("aaa"), None)];
    assert!(matchable(&"a".repeat(2520), &long()));
    assert!(!matchable(&"a".repeat(2521), &long()));
    assert!(matchable(&"a".repeat(2521), &short()));
    assert!(matchable(&vec!["a".repeat(2520); 3].join(" "), &long()));
    assert!(!matchable(&vec!["a".repeat(2520); 3].join("\\ "), &long()));
    let scored = score_candidates(long(), &"a".repeat(2520));
    assert!(scored.scores[0] > 0);
}

#[test]
fn every_word_has_to_match_and_scores_add_up() {
    let texts = || vec![entry(1, Some("docker run"), None), entry(2, Some("docker"), None)];
    let docker = score_candidates(texts(), "docker").scores;
    let run = score_candidates(texts(), "run").scores;
    let both = score_candidates(texts(), "docker run");
    assert_eq!(both.scores, vec![docker[0] + run[0], 0]);
    assert_eq!(both.entries[0].match_ranges, vec![(0, 6), (7, 3)]);
    let spaced = score_candidates(texts(), "docker  ");
    assert_eq!(spaced.scores, docker);
}

#[test]
fn queries_of_many_words_are_matched() {
    let texts = || vec![entry(1, Some("ab"), None)];
    let one = score_candidates(texts(), "ab").scores[0];
    assert!(one > 0);
    let query = vec!["ab"; 1000].join(" ");
    let scored = score_candidates(texts(), &query);
    assert_eq!(scored.scores, vec![1000 * one]);
    assert_eq!(scored.entries[0].match_ranges, vec![(0, 2)]);
}

#[test]
fn a_word_longer_than_the_text_does_not_match_it() {
    let scored = score_candidates(vec![entry(1, Some("aaa"), None)], &"a".repeat(5000));
    assert_eq!(scored.scores, vec![0]);
    assert!(scored.entries[0].match_ranges.is_empty());
}

#[test]
fn ranges_count_combining_marks() {
    let scored = score_candidates(vec![entry(1, Some("e\u{301}a b"), None)], "b");
    assert_eq!(scored.entries[0].match_ranges, vec![(5, 1)]);
    let scored = score_candidates(vec![entry(1, Some("日e\u{301}本x"), None)], "X");
    assert_eq!(scored.entries[0].match_ranges, vec![(9, 1)]);
    let marked = score_candidates(vec![entry(1, Some("日e\u{301}本"), None)], "日本").scores[0];
    let plain = score_candidates(vec![entry(1, Some("日e本"), None)], "日本").scores[0];
    assert_eq!(marked, plain);
}

#[test]
fn a_search_answers_with_a_page_and_the_number_of_all() {
    let engine = SearchEngine::new("/tmp/db".to_string());
    let rows = || (0..5).map(|i| entry(i, None, None)).collect::<Vec<_>>();
    let ids = |v: &Vec<EntrySummary>| v.iter().map(|e| e.id).collect::<Vec<_>>();
    let ranked = search_result(&engine.plan("x", 3, 9), rows(), 5, 3, 9);
    assert_eq!((ids(&ranked.entries), ranked.total), (vec![3, 4], 5));
    let none = search_result(&engine.plan("x", 0, 0), rows(), 5, 0, 0);
    assert_eq!((none.entries.len(), none.total), (0, 5));
    let past = search_result(&engine.plan("x", 7, 2), rows(), 5, 7, 2);
    assert_eq!((past.entries.len(), past.total), (0, 5));
    let page = search_result(&engine.plan("  ", 3, 2), rows().split_off(3), 5, 3, 2);
    assert_eq!((ids(&page.entries), page.total), (vec![3, 4], 5));
}
