//! Storage rules: what is stored, selected and deleted, run on a real database.

use nixclip_core::config::{GeneralConfig, Retention};
use nixclip_core::storage::blob::{blob_rel_path, hex_encode, BlobFile, BlobStore, FileStep};
use nixclip_core::storage::clip_store::{
    clear_unpinned, data_source, insert, integrity_check, load_thumbnail, oldest_unpinned,
    past_retention, placeholders, prune, prune_ephemeral, query, retention_cutoff, row_to_summary,
    store_payload, BlobReference, DataSource, EntryAge, InsertPlan, Placement, SummaryRow,
    BLOB_THRESHOLD, DAY_MS, HOUR_MS,
};
use nixclip_core::storage::migrations::{
    ensure_entries_metadata_columns, run_migrations, VersionWrite,
};
use nixclip_core::storage::schema::SCHEMA_VERSION;
use nixclip_core::{ContentClass, MimePayload, NewEntry, PruneStats, Query};
use rusqlite::{params_from_iter, Connection};

const NOW: i64 = 1_700_000_000_000;

fn database() -> Connection {
    let conn = Connection::open_in_memory().expect("open");
    conn.execute_batch(
        "CREATE TABLE entries (
             id INTEGER PRIMARY KEY AUTOINCREMENT,
             created_at INTEGER NOT NULL,
             last_seen_at INTEGER NOT NULL,
             pinned INTEGER NOT NULL DEFAULT 0,
             ephemeral INTEGER NOT NULL DEFAULT 0,
             content_class TEXT NOT NULL,
             preview_text TEXT,
             source_app TEXT,
             canonical_hash BLOB NOT NULL);
         CREATE VIRTUAL TABLE search_idx
             USING fts5(preview_text, source_app, content=entries, content_rowid=id);",
    )
    .expect("schema");
    conn
}

fn add(conn: &Connection, seen: i64, pinned: bool, class: &str, text: &str) -> i64 {
    conn.execute(
        "INSERT INTO entries (created_at, last_seen_at, pinned, content_class, preview_text, canonical_hash)
         VALUES (?1, ?1, ?2, ?3, ?4, x'00')",
        (seen, pinned, class, text),
    )
    .expect("insert");
    let id = conn.last_insert_rowid();
    conn.execute(
        "INSERT INTO search_idx (rowid, preview_text) VALUES (?1, ?2)",
        (id, text),
    )
    .expect("index");
    id
}

fn page(conn: &Connection, q: &Query) -> (Vec<String>, u32) {
    let plan = query(q);
    let total: u32 = conn
        .query_row(&plan.count_sql, params_from_iter(plan.params.iter()), |row| row.get(0))
        .expect("count");
    let mut params = plan.params.clone();
    params.push(plan.limit.to_string());
    params.push(plan.offset.to_string());
    let mut stmt = conn.prepare(&plan.page_sql).expect("prepare");
    let rows = stmt
        .query_map(params_from_iter(params.iter()), |row| row.get::<_, String>(6))
        .expect("query");
    (rows.map(|r| r.expect("row")).collect(), total)
}

fn entry(hash: u8, data: Vec<u8>) -> NewEntry {
    NewEntry {
        content_class: ContentClass::Text,
        preview_text: Some("text".to_string()),
        canonical_hash: [hash; 32],
        representations: vec![MimePayload { mime: "text/plain".to_string(), data }],
        source_app: Some("app".to_string()),
        ephemeral: true,
    }
}

fn age(id: i64, seen: i64, pinned: bool, ephemeral: bool) -> EntryAge {
    EntryAge { id, created_at: seen, last_seen_at: seen, pinned, ephemeral }
}

fn config(max_entries: u32, retention: Retention) -> GeneralConfig {
    let mut config = GeneralConfig::default();
    config.max_entries = max_entries;
    config.retention = retention;
    config
}

#[test]
fn new_content_is_stored_unpinned_with_the_present_as_its_time() {
    match insert(None, entry(1, b"hello".to_vec()), NOW) {
        InsertPlan::Store(record) => {
            assert_eq!(record.created_at, NOW);
            assert_eq!(record.last_seen_at, NOW);
            assert!(!record.pinned);
            assert!(record.ephemeral);
            assert_eq!(record.content_class, "text");
            assert_eq!(record.preview_text.as_deref(), Some("text"));
            assert_eq!(record.source_app.as_deref(), Some("app"));
            assert_eq!(record.canonical_hash, [1u8; 32]);
            assert_eq!(record.representations.len(), 1);
            assert_eq!(record.representations[0].mime, "text/plain");
            assert!(
                matches!(&record.representations[0].placement, Placement::Inline(d) if d == b"hello")
            );
        }
        other => panic!("expected Store, got {other:?}"),
    }
}

#[test]
fn repeated_content_only_bumps_the_latest_entry() {
    let plan = insert(Some(vec![7u8; 32]), entry(7, b"again".to_vec()), NOW);
    assert!(matches!(plan, InsertPlan::Bump { last_seen_at: NOW }));
    let plan = insert(Some(vec![8u8; 32]), entry(7, b"again".to_vec()), NOW);
    assert!(matches!(plan, InsertPlan::Store(_)));
    let plan = insert(Some(vec![7u8; 31]), entry(7, b"again".to_vec()), NOW);
    assert!(matches!(plan, InsertPlan::Store(_)));
}

#[test]
fn payloads_of_the_threshold_and_more_go_to_the_blob_store() {
    let small = vec![1u8; BLOB_THRESHOLD - 1];
    let stored = store_payload(MimePayload { mime: "a".to_string(), data: small.clone() });
    assert!(matches!(&stored.placement, Placement::Inline(d) if *d == small));

    for size in [BLOB_THRESHOLD, BLOB_THRESHOLD + 1] {
        let data = vec![2u8; size];
        let stored = store_payload(MimePayload { mime: "b".to_string(), data: data.clone() });
        let hex = blake3::hash(&data).to_hex().to_string();
        match stored.placement {
            Placement::Blob { hash, path, data: kept } => {
                assert_eq!(hash, *blake3::hash(&data).as_bytes());
                assert_eq!(path, format!("{}/{}", &hex[..4], hex));
                assert_eq!(kept, data);
            }
            other => panic!("expected Blob, got {other:?}"),
        }
    }
}

#[test]
fn inline_data_counts_before_a_blob_path() {
    let both = data_source(Some(vec![1]), Some("p".to_string()));
    assert!(matches!(both, DataSource::Inline(d) if d == vec![1]));
    let blob = data_source(None, Some("p".to_string()));
    assert!(matches!(blob, DataSource::Blob(p) if p == "p"));
    assert!(matches!(data_source(None, None), DataSource::Missing));
    assert!(matches!(load_thumbnail(None), DataSource::Missing));
    let thumbnail = load_thumbnail(Some((Some(vec![9]), None)));
    assert!(matches!(thumbnail, DataSource::Inline(d) if d == vec![9]));
}

#[test]
fn a_row_of_an_unknown_class_counts_as_text() {
    let row = |class: &str| SummaryRow {
        id: 5,
        created_at: 1,
        last_seen_at: 2,
        pinned: true,
        ephemeral: false,
        content_class: class.to_string(),
        preview_text: None,
        source_app: Some("app".to_string()),
    };
    let known = row_to_summary(row("url"));
    assert_eq!(known.content_class, ContentClass::Url);
    assert_eq!((known.id, known.created_at, known.last_seen_at), (5, 1, 2));
    assert!(known.pinned && !known.ephemeral);
    assert!(known.thumbnail.is_none() && known.match_ranges.is_empty());
    assert_eq!(row_to_summary(row("Url")).content_class, ContentClass::Text);
}

#[test]
fn a_query_lists_pinned_entries_first_and_then_the_latest() {
    let conn = database();
    add(&conn, 1, false, "text", "old");
    add(&conn, 2, true, "text", "pinned");
    add(&conn, 3, false, "url", "new");
    let q = Query { text: None, content_class: None, offset: 0, limit: 10 };
    assert_eq!(page(&conn, &q), (vec!["pinned".into(), "new".into(), "old".into()], 3));
}

#[test]
fn a_query_filters_by_class_and_pages() {
    let conn = database();
    for i in 0..5 {
        add(&conn, i, false, "text", &format!("t{i}"));
    }
    add(&conn, 9, false, "url", "u");
    let q = Query { text: None, content_class: Some(ContentClass::Text), offset: 1, limit: 2 };
    assert_eq!(page(&conn, &q), (vec!["t3".into(), "t2".into()], 5));
}

#[test]
fn a_query_text_is_a_phrase_and_never_an_operator() {
    let conn = database();
    add(&conn, 1, false, "text", "hello brave world");
    add(&conn, 2, false, "text", "hello OR world");
    let with = |text: &str| Query {
        text: Some(text.to_string()),
        content_class: None,
        offset: 0,
        limit: 10,
    };
    assert_eq!(page(&conn, &with("hello brave")).1, 1);
    assert_eq!(page(&conn, &with("hello OR world")).1, 1);
    assert_eq!(page(&conn, &with("say \"hi\" now")).1, 0);
    assert_eq!(page(&conn, &with("")).1, 2);
    assert_eq!(query(&with("a\"b")).params, vec!["\"a\"\"b\""]);
}

#[test]
fn placeholder_lists_hold_one_mark_per_value() {
    assert_eq!(placeholders(0), "");
    assert_eq!(placeholders(1), "?");
    assert_eq!(placeholders(3), "?, ?, ?");
}

#[test]
fn retention_decides_by_the_time_of_last_use() {
    assert_eq!(retention_cutoff(Retention::Days7, NOW), Some(NOW - 7 * DAY_MS));
    assert_eq!(retention_cutoff(Retention::Year1, NOW), Some(NOW - 365 * DAY_MS));
    assert_eq!(retention_cutoff(Retention::Unlimited, NOW), None);
    let cutoff = Some(NOW - 7 * DAY_MS);
    assert!(past_retention(&age(1, NOW - 7 * DAY_MS - 1, false, false), cutoff));
    assert!(!past_retention(&age(1, NOW - 7 * DAY_MS, false, false), cutoff));
    assert!(!past_retention(&age(1, 0, true, false), cutoff));
    assert!(!past_retention(&age(1, 0, false, false), None));
}

#[test]
fn pruning_spares_pinned_entries_and_takes_the_oldest() {
    let rows = vec![
        age(1, 0, false, false),
        age(2, 0, true, false),
        age(3, NOW - 3, false, false),
        age(4, NOW - 5, false, false),
        age(5, NOW - 4, true, false),
        age(6, NOW - 1, false, false),
    ];
    let plan = prune(&rows, &config(3, Retention::Days30), NOW);
    assert_eq!(plan.expired, vec![1]);
    assert_eq!(plan.overflow, vec![4, 3]);
    let plan = prune(&rows, &config(0, Retention::Unlimited), NOW);
    assert!(plan.expired.is_empty());
    assert_eq!(plan.overflow, vec![1, 4, 3, 6]);
    let plan = prune(&rows, &config(6, Retention::Unlimited), NOW);
    assert!(plan.expired.is_empty() && plan.overflow.is_empty());
}

#[test]
fn of_entries_seen_together_the_first_listed_goes_first() {
    let rows = vec![age(1, 5, false, false), age(2, 5, false, false), age(3, 4, true, false)];
    assert_eq!(oldest_unpinned(&rows, 1), vec![1]);
    assert_eq!(oldest_unpinned(&rows, 9), vec![1, 2]);
}

#[test]
fn ephemeral_entries_go_after_their_time_pinned_or_not() {
    let rows = vec![
        age(1, NOW - 2 * HOUR_MS, false, true),
        age(2, NOW - 2 * HOUR_MS, true, true),
        age(3, NOW - 2 * HOUR_MS, false, false),
        age(4, NOW - HOUR_MS, false, true),
    ];
    assert_eq!(prune_ephemeral(&rows, 1, NOW), vec![1, 2]);
    assert_eq!(prune_ephemeral(&rows, 0, NOW), vec![1, 2, 4]);
    assert!(prune_ephemeral(&rows, 24, NOW).is_empty());
}

#[test]
fn clearing_deletes_what_is_not_pinned() {
    let rows = vec![age(1, 1, false, false), age(2, 2, true, false), age(3, 3, false, true)];
    assert_eq!(clear_unpinned(&rows), vec![1, 3]);
    assert!(clear_unpinned(&vec![]).is_empty());
}

#[test]
fn stats_of_two_passes_add_up() {
    let a = PruneStats { entries_deleted: 1, blobs_deleted: 2, bytes_freed: 3 };
    let b = PruneStats { entries_deleted: 10, blobs_deleted: 20, bytes_freed: 30 };
    let c = a.combined(b).and_then(|c| c.combined(PruneStats::none())).expect("fits");
    assert_eq!((c.entries_deleted, c.blobs_deleted, c.bytes_freed), (11, 22, 33));
    let full = PruneStats { entries_deleted: u32::MAX, blobs_deleted: 0, bytes_freed: 0 };
    let one = PruneStats { entries_deleted: 1, blobs_deleted: 0, bytes_freed: 0 };
    assert!(full.combined(one).is_none());
}

#[test]
fn deleting_counts_entries_blobs_and_the_sizes_that_are_known() {
    let stats = PruneStats::of_deleted(&vec![7, 8], &vec![Some(5), None, Some(6)]).expect("fits");
    assert_eq!((stats.entries_deleted, stats.blobs_deleted, stats.bytes_freed), (2, 3, 11));
    assert!(PruneStats::of_deleted(&vec![7], &vec![Some(u64::MAX), None, Some(1)]).is_none());
}

#[test]
fn a_blob_is_written_aside_and_then_renamed() {
    let store = BlobStore::new("/data/blobs");
    let hash = [0xabu8; 32];
    let hex = "ab".repeat(32);
    let (path, steps) = store.store(&hash, false, 1);
    assert_eq!(path, format!("abab/{hex}"));
    assert_eq!(steps.len(), 3);
    let temp = "/data/blobs/.tmp/0000000000000001.tmp";
    let full = format!("/data/blobs/abab/{hex}");
    assert!(matches!(&steps[0], FileStep::CreateDir { path } if path == "/data/blobs/abab"));
    assert!(matches!(&steps[1], FileStep::Write { path } if path == temp));
    assert!(matches!(&steps[2], FileStep::Rename { from, to } if from == temp && *to == full));
}

#[test]
fn a_blob_that_is_present_is_not_written_again() {
    let store = BlobStore::new("/data/blobs");
    let (path, steps) = store.store(&[0xabu8; 32], true, 2);
    assert_eq!(path, blob_rel_path(&[0xabu8; 32]));
    assert!(steps.is_empty());
}

#[test]
fn integrity_issues_come_from_the_database_and_from_missing_blobs() {
    let reference = |exists: bool| BlobReference {
        entry_id: -4,
        mime: "image/png".to_string(),
        path: "ab/cd".to_string(),
        exists,
    };
    assert!(integrity_check(&vec!["ok".to_string()], &vec![reference(true)]).is_empty());
    assert_eq!(
        integrity_check(
            &vec!["row 3 missing".to_string(), "ok".to_string()],
            &vec![reference(true), reference(false)]
        ),
        vec!["sqlite: row 3 missing", "missing blob: entry_id=-4 mime=image/png path=ab/cd"]
    );
}

#[test]
fn blobs_lie_under_the_first_digits_of_their_hash() {
    assert_eq!(hex_encode(&[0x00, 0x0f, 0xa5, 0xff]), "000fa5ff");
    let mut hash = [0u8; 32];
    hash[0] = 0xab;
    hash[1] = 0xcd;
    let path = blob_rel_path(&hash);
    assert_eq!(path, format!("abcd/abcd{}", "00".repeat(30)));
    let store = BlobStore::new("/data/blobs");
    assert_eq!(store.full_path("abcd/x"), "/data/blobs/abcd/x");
    assert_eq!(store.temp_dir(), "/data/blobs/.tmp");
    assert_eq!(store.temp_path(0x1f), "/data/blobs/.tmp/000000000000001f.tmp");
    assert!(BlobStore::holds_blobs("abcd", true));
    assert!(!BlobStore::holds_blobs("abcd", false));
    assert!(!BlobStore::holds_blobs(".tmp", true));
    assert_eq!(BlobStore::found_path("abcd", "abcdef"), "abcd/abcdef");
}

#[test]
fn only_blobs_that_nothing_refers_to_are_orphans() {
    let file = |path: &str, size: u64| BlobFile { rel_path: path.to_string(), size };
    let files = vec![file("a/1", 10), file("b/2", 20), file("c/3", 30)];
    assert_eq!(BlobStore::total_size(&files), 60);
    let (doomed, freed) = BlobStore::cleanup_orphans(&files, &vec!["b/2".to_string()]);
    assert_eq!(doomed, vec!["a/1", "c/3"]);
    assert_eq!(freed, 40);
}

#[test]
fn a_fresh_database_gets_the_schema_and_one_version() {
    let plan = run_migrations(None, false);
    assert!(plan.init_schema && !plan.ensure_metadata_columns);
    assert_eq!(plan.version_write, VersionWrite::Insert(SCHEMA_VERSION));
    let plan = run_migrations(Some(0), true);
    assert!(plan.init_schema && plan.ensure_metadata_columns);
    assert_eq!(plan.version_write, VersionWrite::Update(SCHEMA_VERSION));
}

#[test]
fn opening_a_database_again_adds_only_missing_columns() {
    let plan = run_migrations(Some(1), true);
    assert!(!plan.init_schema && plan.ensure_metadata_columns);
    assert_eq!(plan.version_write, VersionWrite::Update(1));
    let conn = database();
    for _ in 0..2 {
        let mut stmt = conn.prepare("PRAGMA table_info(entries)").expect("prepare");
        let existing: Vec<String> = stmt
            .query_map([], |row| row.get::<_, String>(1))
            .expect("query")
            .map(|r| r.expect("row"))
            .collect();
        for sql in ensure_entries_metadata_columns(&existing) {
            conn.execute_batch(&sql).expect("alter");
        }
    }
    conn.execute_batch("SELECT image_width, image_height, file_count, url_domain FROM entries")
        .expect("columns");
    let none: Vec<String> = Vec::new();
    assert_eq!(ensure_entries_metadata_columns(&none).len(), 4);
    assert_eq!(run_migrations(Some(7), true).version_write, VersionWrite::Keep);
}

#[test]
fn a_whole_pass_keeps_pinned_entries_that_are_not_ephemeral() {
    let rows = vec![
        age(1, 0, true, false),
        age(2, 0, false, false),
        age(3, NOW - 2 * HOUR_MS, true, true),
        age(4, NOW, false, false),
    ];
    let plan = prune(&rows, &config(1, Retention::Days7), NOW);
    let left: Vec<EntryAge> = rows
        .into_iter()
        .filter(|r| !plan.expired.contains(&r.id) && !plan.overflow.contains(&r.id))
        .collect();
    let stale = prune_ephemeral(&left, 1, NOW);
    assert_eq!(stale, vec![3]);
    assert!(left.iter().any(|r| r.id == 1));
    assert!(left.iter().all(|r| r.id != 2));
}
