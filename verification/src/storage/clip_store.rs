//! Storing entries: deduplication, where data goes, which entries a query
//! selects and which a prune pass deletes.

use vstd::prelude::*;

use crate::config::path_join;
use crate::config::retention_days;
use crate::config::GeneralConfig;
use crate::config::Retention;
use crate::digest::blake3_digest;
use crate::digest::blake3_hash;
use crate::storage::blob::after_steps;
use crate::storage::blob::blob_file;
use crate::storage::blob::blob_path;
use crate::storage::blob::blob_rel_path;
use crate::storage::blob::is_store;
use crate::storage::blob::law_stored_blob_reads_back;
use crate::storage::blob::lemma_blob_file_is_injective;
use crate::storage::blob::lemma_temp_is_no_blob;
use crate::storage::blob::temp_file;
use crate::storage::blob::BlobStore;
use crate::storage::blob::FileStep;
use crate::text::concat2;
use crate::text::concat3;
use crate::text::from_chars;
use crate::text::join;
use crate::text::join_texts;
use crate::text::replace_char;
use crate::text::replace_in;
use crate::text::same_text;
use crate::text::signed_decimal;
use crate::text::signed_text;
use crate::text::texts;
use crate::text::to_chars;
use crate::types::class_name;
use crate::types::names_class;
use crate::types::payloads;
use crate::types::ContentClass;
use crate::types::EntryId;
use crate::types::EntrySummary;
use crate::types::MimePayload;
use crate::types::NewEntry;
use crate::types::PayloadView;
use crate::types::PruneStats;
use crate::types::Query;

verus! {

/// Inline threshold: representations smaller than this are stored directly in
/// the database; larger payloads go to the blob store.
pub const BLOB_THRESHOLD: usize = 65_536;

/// Milliseconds in an hour.
pub const HOUR_MS: i64 = 3_600_000;

/// Milliseconds in a day.
pub const DAY_MS: i64 = 86_400_000;

// ---------------------------------------------------------------------------
// Insert
// ---------------------------------------------------------------------------

/// Where the data of a representation goes.
#[derive(Debug, Clone)]
pub enum Placement {
    /// Into the database.
    Inline(Vec<u8>),
    /// Into the blob store, under the path that belongs to the hash.
    Blob { hash: [u8; 32], path: String, data: Vec<u8> },
}

/// A representation that is about to be stored.
#[derive(Debug, Clone)]
pub struct StoredPayload {
    pub mime: String,
    pub placement: Placement,
}

/// `stored` holds a payload: inline where it is small, otherwise as a blob
/// under the path that belongs to its digest.
pub open spec fn is_stored(payload: PayloadView, stored: StoredPayload, digest: Seq<u8>) -> bool {
    &&& stored.mime@ == payload.mime
    &&& match stored.placement {
        Placement::Inline(data) => payload.data.len() < BLOB_THRESHOLD && data@ == payload.data,
        Placement::Blob { hash, path, data } => {
            &&& payload.data.len() >= BLOB_THRESHOLD
            &&& hash@ == digest
            &&& path@ == blob_path(digest)
            &&& data@ == payload.data
        },
    }
}

/// How to store a payload, given the digest of its data.
pub fn store_with_digest(payload: MimePayload, digest: &[u8; 32]) -> (r: StoredPayload)
    ensures
        is_stored(payload@, r, digest@),
{
    if payload.data.len() < BLOB_THRESHOLD {
        StoredPayload { mime: payload.mime, placement: Placement::Inline(payload.data) }
    } else {
        let path = blob_rel_path(digest);
        StoredPayload {
            mime: payload.mime,
            placement: Placement::Blob { hash: *digest, path, data: payload.data },
        }
    }
}

/// How to store a payload.
pub fn store_payload(payload: MimePayload) -> (r: StoredPayload)
    ensures
        is_stored(payload@, r, blake3_digest(payload.data@)),
{
    let digest = blake3_hash(&payload.data);
    store_with_digest(payload, &digest)
}

/// An entry that is about to be written to the database.
#[derive(Debug, Clone)]
pub struct EntryRecord {
    pub created_at: i64,
    pub last_seen_at: i64,
    pub pinned: bool,
    pub ephemeral: bool,
    pub content_class: String,
    pub preview_text: Option<String>,
    pub source_app: Option<String>,
    pub canonical_hash: [u8; 32],
    pub representations: Vec<StoredPayload>,
}

/// What to do with an entry that is to be inserted.
#[derive(Debug, Clone)]
pub enum InsertPlan {
    /// The most recently seen entry has the same content: only its
    /// `last_seen_at` is set.
    Bump { last_seen_at: i64 },
    /// The entry is stored.
    Store(EntryRecord),
}

/// The content of an entry is that of the most recently seen one.
pub open spec fn repeats_latest(latest_hash: Option<Seq<u8>>, hash: Seq<u8>) -> bool {
    latest_hash == Some(hash)
}

/// `record` is how a new entry is written at a time.
pub open spec fn is_record(record: EntryRecord, entry: NewEntry, now: i64) -> bool {
    &&& record.created_at == now
    &&& record.last_seen_at == now
    &&& !record.pinned
    &&& record.ephemeral == entry.ephemeral
    &&& record.content_class@ == class_name(entry.content_class)
    &&& record.preview_text == entry.preview_text
    &&& record.source_app == entry.source_app
    &&& record.canonical_hash == entry.canonical_hash
    &&& record.representations@.len() == entry.representations@.len()
    &&& forall|i: int|
        0 <= i < entry.representations@.len() ==> is_stored(
            entry.representations@[i]@,
            #[trigger] record.representations@[i],
            blake3_digest(entry.representations@[i].data@),
        )
}

/// The view of an optional hash.
pub open spec fn optional_bytes(v: Option<Vec<u8>>) -> Option<Seq<u8>> {
    match v {
        Some(b) => Some(b@),
        None => None,
    }
}

fn same_hash(a: &Vec<u8>, b: &[u8; 32]) -> (r: bool)
    ensures
        r == (a@ == b@),
{
    if a.len() != 32 {
        assert(b@.len() == 32);
        return false;
    }
    let mut i: usize = 0;
    while i < 32
        invariant
            i <= 32,
            a@.len() == 32,
            b@.len() == 32,
            forall|j: int| 0 <= j < i ==> a@[j] == b@[j],
        decreases 32 - i,
    {
        if a[i] != b[i] {
            assert(a@[i as int] != b@[i as int]);
            return false;
        }
        i += 1;
    }
    assert(a@ =~= b@);
    true
}

/// Plan the insertion of a new clipboard entry, given the hash of the most
/// recently seen one.
///
/// **Last-entry deduplication**: if the most recent entry has the same
/// `canonical_hash`, only its `last_seen_at` timestamp is bumped. Otherwise
/// the entry is stored, not pinned, with the present as its timestamps.
pub fn insert(latest_hash: Option<Vec<u8>>, entry: NewEntry, now: i64) -> (r: InsertPlan)
    ensures
        match r {
            InsertPlan::Bump { last_seen_at } => {
                &&& repeats_latest(optional_bytes(latest_hash), entry.canonical_hash@)
                &&& last_seen_at == now
            },
            InsertPlan::Store(record) => {
                &&& !repeats_latest(optional_bytes(latest_hash), entry.canonical_hash@)
                &&& is_record(record, entry, now)
            },
        },
{
    if let Some(hash) = &latest_hash {
        if same_hash(hash, &entry.canonical_hash) {
            return InsertPlan::Bump { last_seen_at: now };
        }
    }
    let ghost all = entry.representations@;
    let content_class = entry.content_class.as_str().to_owned();
    let mut rest = entry.representations;
    let mut done: Vec<StoredPayload> = Vec::new();
    while rest.len() > 0
        invariant
            done@.len() + rest@.len() == all.len(),
            rest@ == all.skip(done@.len() as int),
            forall|i: int|
                0 <= i < done@.len() ==> is_stored(
                    all[i]@,
                    #[trigger] done@[i],
                    blake3_digest(all[i].data@),
                ),
        decreases rest@.len(),
    {
        let ghost at = done@.len() as int;
        let payload = rest.remove(0);
        assert(payload == all[at]);
        assert(rest@ =~= all.skip(at + 1));
        done.push(store_payload(payload));
    }
    InsertPlan::Store(
        EntryRecord {
            created_at: now,
            last_seen_at: now,
            pinned: false,
            ephemeral: entry.ephemeral,
            content_class,
            preview_text: entry.preview_text,
            source_app: entry.source_app,
            canonical_hash: entry.canonical_hash,
            representations: done,
        },
    )
}

/// When an entry was last seen, and the hash of its content.
pub struct SeenHash {
    pub last_seen_at: int,
    pub hash: Seq<u8>,
}

/// Entry `i` is the most recently seen one, or one of them.
pub open spec fn is_latest(rows: Seq<SeenHash>, i: int) -> bool {
    &&& 0 <= i < rows.len()
    &&& forall|j: int| 0 <= j < rows.len() ==> (#[trigger] rows[j]).last_seen_at
        <= rows[i].last_seen_at
}

/// Copying the same content twice in a row makes one entry: once content has
/// been stored, or the latest entry has been bumped for it, later than
/// everything else, the same content again repeats the latest entry. It is only
/// against the latest entry that content is compared.
pub proof fn law_repeated_content_is_one_entry(
    rows: Seq<SeenHash>,
    hash: Seq<u8>,
    now: int,
    bumped: int,
    latest: int,
)
    requires
        forall|j: int| 0 <= j < rows.len() ==> (#[trigger] rows[j]).last_seen_at < now,
    ensures
        ({
            let stored = rows.push(SeenHash { last_seen_at: now, hash });
            is_latest(stored, latest) ==> repeats_latest(Some(stored[latest].hash), hash)
        }),
        0 <= bumped < rows.len() && rows[bumped].hash == hash ==> {
            let after = rows.update(bumped, SeenHash { last_seen_at: now, hash });
            is_latest(after, latest) ==> repeats_latest(Some(after[latest].hash), hash)
        },
        !repeats_latest(None, hash),
{
    let stored = rows.push(SeenHash { last_seen_at: now, hash });
    assert(stored[rows.len() as int].last_seen_at == now);
    if 0 <= bumped < rows.len() {
        let after = rows.update(bumped, SeenHash { last_seen_at: now, hash });
        assert(after[bumped].last_seen_at == now);
    }
}

/// The data of a representation that was stored is the data that was offered:
/// reading back what is inline, or the blob that was written under its path,
/// gives the payload.
pub proof fn law_stored_data_is_kept(
    payload: PayloadView,
    stored: StoredPayload,
    digest: Seq<u8>,
    blobs: Map<Seq<char>, Seq<u8>>,
)
    requires
        is_stored(payload, stored, digest),
        stored.placement matches Placement::Blob { path, data, .. } ==> blobs.dom().contains(path@)
            && blobs[path@] == data@,
    ensures
        read_back(stored_row(stored), blobs) == payload.data,
{
}

/// What a representation looks like in the database: inline data, a blob path.
pub open spec fn stored_row(stored: StoredPayload) -> (Option<Seq<u8>>, Option<Seq<char>>) {
    match stored.placement {
        Placement::Inline(data) => (Some(data@), None),
        Placement::Blob { path, .. } => (None, Some(path@)),
    }
}

/// The data of a representation, given its row and the blobs on disk.
pub open spec fn read_back(
    row: (Option<Seq<u8>>, Option<Seq<char>>),
    blobs: Map<Seq<char>, Seq<u8>>,
) -> Seq<u8> {
    match row {
        (Some(data), _) => data,
        (None, Some(path)) => blobs[path],
        (None, None) => Seq::<u8>::empty(),
    }
}

/// What files hold once the blobs among the first `n` representations have been
/// stored, each by its steps.
pub open spec fn after_blobs(
    files: Map<Seq<char>, Seq<u8>>,
    representations: Seq<StoredPayload>,
    steps: Seq<Seq<FileStep>>,
    n: int,
) -> Map<Seq<char>, Seq<u8>>
    decreases n,
{
    if n <= 0 {
        files
    } else {
        let before = after_blobs(files, representations, steps, n - 1);
        match representations[n - 1].placement {
            Placement::Inline(_) => before,
            Placement::Blob { data, .. } => after_steps(
                before,
                steps[n - 1],
                data@,
                steps[n - 1].len() as int,
            ),
        }
    }
}

/// The steps are those by which a store takes the blobs of some
/// representations, one after the other.
pub open spec fn are_blob_steps(
    store: BlobStore,
    files: Map<Seq<char>, Seq<u8>>,
    representations: Seq<StoredPayload>,
    numbers: Seq<u64>,
    steps: Seq<Seq<FileStep>>,
) -> bool {
    forall|i: int|
        0 <= i < representations.len() ==> match (#[trigger] representations[i]).placement {
            Placement::Inline(_) => true,
            Placement::Blob { hash, .. } => is_store(
                store,
                hash@,
                after_blobs(files, representations, steps, i).dom().contains(
                    blob_file(store, hash@),
                ),
                numbers[i],
                steps[i],
            ),
        }
}

/// Where the store has a file for a payload, the file holds its data.
pub open spec fn holds_payload(
    store: BlobStore,
    files: Map<Seq<char>, Seq<u8>>,
    data: Seq<u8>,
) -> bool {
    let file = blob_file(store, blake3_digest(data));
    files.dom().contains(file) ==> files[file] == data
}

/// No two of some payloads have the same digest, but for equal ones.
pub open spec fn digests_differ(all: Seq<PayloadView>) -> bool {
    forall|i: int, j: int|
        0 <= i < all.len() && 0 <= j < all.len() && blake3_digest((#[trigger] all[i]).data)
            == blake3_digest((#[trigger] all[j]).data) ==> all[i].data == all[j].data
}

/// The data of a representation, given its row and what files hold.
pub open spec fn read_stored(
    store: BlobStore,
    row: (Option<Seq<u8>>, Option<Seq<char>>),
    files: Map<Seq<char>, Seq<u8>>,
) -> Seq<u8> {
    match row {
        (Some(data), _) => data,
        (None, Some(path)) => files[path_join(store.root(), path)],
        (None, None) => Seq::<u8>::empty(),
    }
}

proof fn lemma_blobs_hold_payloads(
    store: BlobStore,
    files: Map<Seq<char>, Seq<u8>>,
    entry: NewEntry,
    record: EntryRecord,
    now: i64,
    numbers: Seq<u64>,
    steps: Seq<Seq<FileStep>>,
    n: int,
    i: int,
)
    requires
        is_record(record, entry, now),
        are_blob_steps(store, files, record.representations@, numbers, steps),
        digests_differ(payloads(entry.representations@)),
        holds_payload(store, files, entry.representations@[i].data@),
        0 <= n <= entry.representations@.len(),
        0 <= i < entry.representations@.len(),
        record.representations@[i].placement is Blob,
    ensures
        ({
            let after = after_blobs(files, record.representations@, steps, n);
            let data = entry.representations@[i].data@;
            &&& holds_payload(store, after, data)
            &&& i < n ==> after.dom().contains(blob_file(store, blake3_digest(data)))
        }),
    decreases n,
{
    let stored = record.representations@;
    let data = entry.representations@[i].data@;
    let all = payloads(entry.representations@);
    assert(is_stored(entry.representations@[i]@, stored[i], blake3_digest(data)));
    let file = blob_file(store, blake3_digest(data));
    if n > 0 {
        lemma_blobs_hold_payloads(store, files, entry, record, now, numbers, steps, n - 1, i);
        let before = after_blobs(files, stored, steps, n - 1);
        let payload = entry.representations@[n - 1]@;
        assert(is_stored(payload, stored[n - 1], blake3_digest(payload.data)));
        match stored[n - 1].placement {
            Placement::Inline(_) => {},
            Placement::Blob { hash, data: written, .. } => {
                assert(hash@.len() == 32);
                match stored[i].placement {
                    Placement::Blob { hash: own, .. } => {
                        assert(own@.len() == 32);
                        assert(own@ == blake3_digest(data));
                        lemma_temp_is_no_blob(store, own@, numbers[n - 1]);
                        if file == blob_file(store, hash@) {
                            lemma_blob_file_is_injective(store, own@, hash@);
                            assert(all[i].data == all[n - 1].data);
                            let other = file.push('x');
                            let spare = if other == temp_file(store, numbers[n - 1]) {
                                other.push('x')
                            } else {
                                other
                            };
                            assert(other.len() != file.len());
                            law_stored_blob_reads_back(
                                store,
                                hash@,
                                numbers[n - 1],
                                written@,
                                steps[n - 1],
                                before,
                                spare,
                            );
                        } else {
                            law_stored_blob_reads_back(
                                store,
                                hash@,
                                numbers[n - 1],
                                written@,
                                steps[n - 1],
                                before,
                                file,
                            );
                        }
                    },
                    Placement::Inline(_) => {},
                }
            },
        }
    }
}

/// Every representation of an entry that was inserted reads back as it was
/// offered, byte for byte, whether it is kept inline or as a blob. A file that
/// was there before has to hold the data of its digest, and different payloads
/// of the entry have to have different digests.
pub proof fn law_inserted_representations_read_back(
    store: BlobStore,
    files: Map<Seq<char>, Seq<u8>>,
    entry: NewEntry,
    record: EntryRecord,
    now: i64,
    numbers: Seq<u64>,
    steps: Seq<Seq<FileStep>>,
    i: int,
)
    requires
        is_record(record, entry, now),
        are_blob_steps(store, files, record.representations@, numbers, steps),
        digests_differ(payloads(entry.representations@)),
        0 <= i < entry.representations@.len(),
        holds_payload(store, files, entry.representations@[i].data@),
    ensures
        record.representations@.len() == entry.representations@.len(),
        record.representations@[i].mime@ == entry.representations@[i].mime@,
        read_stored(
            store,
            stored_row(record.representations@[i]),
            after_blobs(
                files,
                record.representations@,
                steps,
                record.representations@.len() as int,
            ),
        ) == entry.representations@[i].data@,
{
    let n = record.representations@.len() as int;
    let data = entry.representations@[i].data@;
    assert(is_stored(
        entry.representations@[i]@,
        record.representations@[i],
        blake3_digest(data),
    ));
    if record.representations@[i].placement is Blob {
        lemma_blobs_hold_payloads(store, files, entry, record, now, numbers, steps, n, i);
    }
}

// ---------------------------------------------------------------------------
// Reading representations
// ---------------------------------------------------------------------------

/// Where the data of a stored representation is found.
#[derive(Debug, Clone)]
pub enum DataSource {
    /// Here.
    Inline(Vec<u8>),
    /// In the blob store, under this path.
    Blob(String),
    /// Nowhere: there is no data.
    Missing,
}

/// Inline data counts before a blob path.
pub open spec fn is_source(
    inline_data: Option<Vec<u8>>,
    blob: Option<String>,
    source: DataSource,
) -> bool {
    match (inline_data, blob, source) {
        (Some(data), _, DataSource::Inline(d)) => d == data,
        (None, Some(path), DataSource::Blob(p)) => p == path,
        (None, None, DataSource::Missing) => true,
        _ => false,
    }
}

/// Where the data of a stored representation is found, given its row. Without
/// inline data and blob path the representation is empty.
pub fn data_source(inline_data: Option<Vec<u8>>, blob: Option<String>) -> (r: DataSource)
    ensures
        is_source(inline_data, blob, r),
{
    match inline_data {
        Some(data) => DataSource::Inline(data),
        None => match blob {
            Some(path) => DataSource::Blob(path),
            None => DataSource::Missing,
        },
    }
}

/// Where the thumbnail of an entry is found, given the row of its thumbnail,
/// where there is one.
pub fn load_thumbnail(row: Option<(Option<Vec<u8>>, Option<String>)>) -> (r: DataSource)
    ensures
        match row {
            Some((inline_data, blob)) => is_source(inline_data, blob, r),
            None => r is Missing,
        },
{
    match row {
        Some((inline_data, blob)) => data_source(inline_data, blob),
        None => DataSource::Missing,
    }
}

/// A row of the entries table.
#[derive(Debug, Clone)]
pub struct SummaryRow {
    pub id: EntryId,
    pub created_at: i64,
    pub last_seen_at: i64,
    pub pinned: bool,
    pub ephemeral: bool,
    pub content_class: String,
    pub preview_text: Option<String>,
    pub source_app: Option<String>,
}

/// The summary of a row. A class that is not known counts as text. The
/// thumbnail is loaded separately.
pub fn row_to_summary(row: SummaryRow) -> (r: EntrySummary)
    ensures
        r.id == row.id,
        r.created_at == row.created_at,
        r.last_seen_at == row.last_seen_at,
        r.pinned == row.pinned,
        r.ephemeral == row.ephemeral,
        names_class(row.content_class@) ==> class_name(r.content_class) == row.content_class@,
        !names_class(row.content_class@) ==> r.content_class == ContentClass::Text,
        r.preview_text == row.preview_text,
        r.source_app == row.source_app,
        r.thumbnail is None,
        r.match_ranges@ == Seq::<(u32, u32)>::empty(),
{
    let content_class = ContentClass::parse_or_text(row.content_class.as_str());
    EntrySummary {
        id: row.id,
        created_at: row.created_at,
        last_seen_at: row.last_seen_at,
        pinned: row.pinned,
        ephemeral: row.ephemeral,
        content_class,
        preview_text: row.preview_text,
        source_app: row.source_app,
        thumbnail: None,
        match_ranges: Vec::new(),
    }
}

// ---------------------------------------------------------------------------
// Query
// ---------------------------------------------------------------------------

/// The statements of a query. `params` are bound first, then, for the page,
/// the limit and the offset.
#[derive(Debug, Clone)]
pub struct QueryPlan {
    pub count_sql: String,
    pub page_sql: String,
    pub params: Vec<String>,
    pub limit: u32,
    pub offset: u32,
}

/// The query has a text to search for.
pub open spec fn has_text(q: Query) -> bool {
    q.text matches Some(t) && t@.len() > 0
}

/// The conditions of a query.
pub open spec fn query_conditions(q: Query) -> Seq<Seq<char>> {
    let by_text = if has_text(q) {
        seq!["e.id IN (SELECT rowid FROM search_idx WHERE search_idx MATCH ?)"@]
    } else {
        Seq::<Seq<char>>::empty()
    };
    if q.content_class is Some {
        by_text.push("e.content_class = ?"@)
    } else {
        by_text
    }
}

/// The values that the conditions of a query are about. The text is quoted, so
/// that nothing in it is read as an operator.
pub open spec fn query_params(q: Query) -> Seq<Seq<char>> {
    let by_text = if has_text(q) {
        seq!["\""@ + replace_char(q.text->Some_0@, '"', "\"\""@) + "\""@]
    } else {
        Seq::<Seq<char>>::empty()
    };
    match q.content_class {
        Some(class) => by_text.push(class_name(class)),
        None => by_text,
    }
}

/// The condition clause of a query; empty where there is no condition.
pub open spec fn where_clause(q: Query) -> Seq<char> {
    if query_conditions(q).len() == 0 {
        Seq::<char>::empty()
    } else {
        "WHERE "@ + join(query_conditions(q), " AND "@)
    }
}

/// Plan a query: all matching entries are counted; the page holds pinned
/// entries first, then the most recently seen.
pub fn query(q: &Query) -> (r: QueryPlan)
    ensures
        r.count_sql@ == "SELECT COUNT(*) FROM entries e "@ + where_clause(*q),
        r.page_sql@
            == "SELECT e.id, e.created_at, e.last_seen_at, e.pinned, e.ephemeral, e.content_class, e.preview_text, e.source_app FROM entries e "@
            + where_clause(*q) + " ORDER BY e.pinned DESC, e.last_seen_at DESC LIMIT ? OFFSET ?"@,
        texts(r.params@) == query_params(*q),
        r.limit == q.limit,
        r.offset == q.offset,
{
    let mut conditions: Vec<String> = Vec::new();
    let mut params: Vec<String> = Vec::new();
    if let Some(text) = &q.text {
        if !text.as_str().is_empty() {
            conditions.push(
                "e.id IN (SELECT rowid FROM search_idx WHERE search_idx MATCH ?)".to_owned(),
            );
            let chars = to_chars(text.as_str());
            let escaped_chars = replace_in(&chars, '"', "\"\"");
            let escaped = from_chars(&escaped_chars);
            params.push(concat3("\"", escaped.as_str(), "\""));
        }
    }
    if let Some(class) = q.content_class {
        conditions.push("e.content_class = ?".to_owned());
        params.push(class.as_str().to_owned());
    }
    assert(texts(conditions@) =~= query_conditions(*q));
    assert(texts(params@) =~= query_params(*q));
    assert(texts(conditions@).len() == conditions@.len());
    let clause = if conditions.len() == 0 {
        String::new()
    } else {
        let joined = join_texts(&conditions, " AND ");
        concat2("WHERE ", joined.as_str())
    };
    QueryPlan {
        count_sql: concat2("SELECT COUNT(*) FROM entries e ", clause.as_str()),
        page_sql: concat3(
            "SELECT e.id, e.created_at, e.last_seen_at, e.pinned, e.ephemeral, e.content_class, e.preview_text, e.source_app FROM entries e ",
            clause.as_str(),
            " ORDER BY e.pinned DESC, e.last_seen_at DESC LIMIT ? OFFSET ?",
        ),
        params,
        limit: q.limit,
        offset: q.offset,
    }
}

/// A query has as many conditions as values for them.
pub proof fn law_one_value_per_condition(q: Query)
    ensures
        query_conditions(q).len() == query_params(q).len(),
{
}

/// A list of `n` placeholders.
pub open spec fn placeholder_list(n: nat) -> Seq<char>
    decreases n,
{
    if n == 0 {
        Seq::<char>::empty()
    } else if n == 1 {
        seq!['?']
    } else {
        placeholder_list((n - 1) as nat) + ", ?"@
    }
}

/// Generate a comma-separated list of `?` placeholders for use in `IN (...)`.
pub fn placeholders(count: usize) -> (r: String)
    ensures
        r@ == placeholder_list(count as nat),
{
    let mut out = String::new();
    let mut i: usize = 0;
    while i < count
        invariant
            i <= count,
            out@ == placeholder_list(i as nat),
        decreases count - i,
    {
        let ghost before = out@;
        if i > 0 {
            out.append(", ");
        }
        out.push('?');
        proof {
            reveal_strlit(", ");
            reveal_strlit(", ?");
            if i > 0 {
                assert(out@ =~= before + ", ?"@);
            } else {
                assert(out@ =~= seq!['?']);
            }
        }
        i += 1;
    }
    out
}

// ---------------------------------------------------------------------------
// Prune
// ---------------------------------------------------------------------------

/// What the prune rules read of an entry.
#[derive(Debug, Clone, Copy, PartialEq, Eq, Structural)]
pub struct EntryAge {
    pub id: EntryId,
    pub created_at: i64,
    pub last_seen_at: i64,
    pub pinned: bool,
    pub ephemeral: bool,
}

/// The time before which an unpinned entry is too old, where there is one.
pub open spec fn cutoff_of(retention: Retention, now: int) -> Option<int> {
    match retention_days(retention) {
        Some(days) => Some(now - days * DAY_MS),
        None => None,
    }
}

/// The entry is past the retention window.
pub open spec fn is_expired(entry: EntryAge, cutoff: Option<int>) -> bool {
    cutoff matches Some(c) && entry.last_seen_at < c && !entry.pinned
}

/// Chooses the entries past the retention window.
pub open spec fn expired_rule(cutoff: Option<int>) -> spec_fn(EntryAge) -> bool {
    |e: EntryAge| is_expired(e, cutoff)
}

/// Chooses the entries within the retention window.
pub open spec fn fresh_rule(cutoff: Option<int>) -> spec_fn(EntryAge) -> bool {
    |e: EntryAge| !is_expired(e, cutoff)
}

/// The entry is ephemeral and older than its time to live.
pub open spec fn is_stale(entry: EntryAge, cutoff: int) -> bool {
    entry.ephemeral && entry.created_at < cutoff
}

/// Chooses the ephemeral entries that have outlived their time.
pub open spec fn stale_rule(cutoff: int) -> spec_fn(EntryAge) -> bool {
    |e: EntryAge| is_stale(e, cutoff)
}

/// Chooses the entries that are not pinned.
pub open spec fn unpinned_rule() -> spec_fn(EntryAge) -> bool {
    |e: EntryAge| !e.pinned
}

/// The identifiers of those of the first `n` entries that satisfy `p`.
pub open spec fn selected_ids(
    rows: Seq<EntryAge>,
    p: spec_fn(EntryAge) -> bool,
    n: int,
) -> Seq<EntryId>
    decreases n,
{
    if n <= 0 {
        Seq::<EntryId>::empty()
    } else if p(rows[n - 1]) {
        selected_ids(rows, p, n - 1).push(rows[n - 1].id)
    } else {
        selected_ids(rows, p, n - 1)
    }
}

/// The identifiers of the ephemeral entries that have outlived their time.
pub open spec fn stale_ids(rows: Seq<EntryAge>, ttl_hours: int, now: int) -> Seq<EntryId> {
    selected_ids(rows, stale_rule(now - ttl_hours * HOUR_MS), rows.len() as int)
}

/// The identifiers of the entries that are not pinned.
pub open spec fn unpinned_ids(rows: Seq<EntryAge>) -> Seq<EntryId> {
    selected_ids(rows, unpinned_rule(), rows.len() as int)
}

/// Those of the first `n` entries that satisfy `p`.
pub open spec fn selected_rows(
    rows: Seq<EntryAge>,
    p: spec_fn(EntryAge) -> bool,
    n: int,
) -> Seq<EntryAge>
    decreases n,
{
    if n <= 0 {
        Seq::<EntryAge>::empty()
    } else if p(rows[n - 1]) {
        selected_rows(rows, p, n - 1).push(rows[n - 1])
    } else {
        selected_rows(rows, p, n - 1)
    }
}

/// Entry `i` was last seen before entry `j`; of entries seen at the same time
/// the one that is listed first counts as older.
pub open spec fn older(rows: Seq<EntryAge>, i: int, j: int) -> bool {
    rows[i].last_seen_at < rows[j].last_seen_at || (rows[i].last_seen_at == rows[j].last_seen_at
        && i < j)
}

/// `picked` are the positions of the `count` oldest entries that are not
/// pinned, the oldest first; of all of them where there are fewer.
pub open spec fn is_oldest(rows: Seq<EntryAge>, count: int, picked: Seq<int>) -> bool {
    &&& picked.len() <= count
    &&& forall|a: int|
        0 <= a < picked.len() ==> 0 <= #[trigger] picked[a] < rows.len() && !rows[picked[a]].pinned
    &&& forall|a: int, b: int|
        0 <= a < b < picked.len() ==> older(rows, #[trigger] picked[a], #[trigger] picked[b])
    &&& forall|a: int, j: int|
        0 <= a < picked.len() && 0 <= j < rows.len() && !(#[trigger] rows[j]).pinned
            && !picked.contains(j) ==> older(rows, #[trigger] picked[a], j)
    &&& picked.len() == count || forall|j: int|
        0 <= j < rows.len() && !(#[trigger] rows[j]).pinned ==> picked.contains(j)
}

/// The identifiers of the entries at some positions.
pub open spec fn ids_at(rows: Seq<EntryAge>, picked: Seq<int>) -> Seq<EntryId> {
    picked.map_values(|i: int| rows[i].id)
}

/// How many entries there are beyond a limit.
pub open spec fn excess_of(count: int, max_entries: int) -> int {
    if count > max_entries {
        count - max_entries
    } else {
        0
    }
}

/// The entries to delete: those past the retention window, and then the oldest
/// of the others, as many as there are too many.
#[derive(Debug, Clone)]
pub struct PrunePlan {
    pub expired: Vec<EntryId>,
    pub overflow: Vec<EntryId>,
}

/// The time before which an unpinned entry is too old.
pub fn retention_cutoff(retention: Retention, now: i64) -> (r: Option<i64>)
    requires
        now - 365 * DAY_MS >= i64::MIN,
    ensures
        match (r, cutoff_of(retention, now as int)) {
            (Some(a), Some(b)) => a == b,
            (None, None) => true,
            _ => false,
        },
{
    match retention.to_duration() {
        Some(duration) => Some(now - duration.num_milliseconds()),
        None => None,
    }
}

/// Whether an entry is past the retention window.
pub fn past_retention(entry: &EntryAge, cutoff: Option<i64>) -> (r: bool)
    ensures
        r == is_expired(
            *entry,
            match cutoff {
                Some(c) => Some(c as int),
                None => None,
            },
        ),
{
    match cutoff {
        Some(c) => entry.last_seen_at < c && !entry.pinned,
        None => false,
    }
}

/// The position of the oldest entry that is neither pinned nor taken.
fn find_oldest(rows: &Vec<EntryAge>, taken: &Vec<bool>) -> (r: Option<usize>)
    requires
        taken@.len() == rows@.len(),
    ensures
        match r {
            Some(i) => {
                &&& i < rows@.len()
                &&& !rows@[i as int].pinned
                &&& !taken@[i as int]
                &&& forall|j: int|
                    0 <= j < rows@.len() && !(#[trigger] rows@[j]).pinned && !taken@[j] && j != i
                        ==> older(rows@, i as int, j)
            },
            None => forall|j: int|
                0 <= j < rows@.len() && !(#[trigger] rows@[j]).pinned ==> taken@[j],
        },
{
    let mut best: Option<usize> = None;
    let mut i: usize = 0;
    while i < rows.len()
        invariant
            i <= rows@.len(),
            taken@.len() == rows@.len(),
            match best {
                Some(b) => {
                    &&& b < i
                    &&& !rows@[b as int].pinned
                    &&& !taken@[b as int]
                    &&& forall|j: int|
                        0 <= j < i && !(#[trigger] rows@[j]).pinned && !taken@[j] && j != b
                            ==> older(rows@, b as int, j)
                },
                None => forall|j: int|
                    0 <= j < i && !(#[trigger] rows@[j]).pinned ==> taken@[j],
            },
        decreases rows@.len() - i,
    {
        if !rows[i].pinned && !taken[i] {
            best = match best {
                None => Some(i),
                Some(b) => {
                    if rows[i].last_seen_at < rows[b].last_seen_at {
                        Some(i)
                    } else {
                        Some(b)
                    }
                },
            };
        }
        i += 1;
    }
    best
}

/// The identifiers of the `count` oldest entries that are not pinned, the
/// oldest first; of all of them where there are fewer.
pub fn oldest_unpinned(rows: &Vec<EntryAge>, count: u32) -> (r: Vec<EntryId>)
    ensures
        exists|picked: Seq<int>| #[trigger]
            is_oldest(rows@, count as int, picked) && r@ == ids_at(rows@, picked),
{
    let mut taken: Vec<bool> = Vec::new();
    let mut k: usize = 0;
    while k < rows.len()
        invariant
            k <= rows@.len(),
            taken@.len() == k,
            forall|j: int| 0 <= j < k ==> !(#[trigger] taken@[j]),
        decreases rows@.len() - k,
    {
        taken.push(false);
        k += 1;
    }
    let mut ids: Vec<EntryId> = Vec::new();
    let ghost mut picked: Seq<int> = Seq::empty();
    let mut n: u32 = 0;
    while n < count
        invariant
            n <= count,
            picked.len() == n,
            taken@.len() == rows@.len(),
            forall|j: int| 0 <= j < rows@.len() ==> #[trigger] taken@[j] == picked.contains(j),
            ids@ == ids_at(rows@, picked),
            forall|a: int|
                0 <= a < picked.len() ==> 0 <= #[trigger] picked[a] < rows@.len()
                    && !rows@[picked[a]].pinned,
            forall|a: int, b: int|
                0 <= a < b < picked.len() ==> older(
                    rows@,
                    #[trigger] picked[a],
                    #[trigger] picked[b],
                ),
            forall|a: int, j: int|
                0 <= a < picked.len() && 0 <= j < rows@.len() && !(#[trigger] rows@[j]).pinned
                    && !picked.contains(j) ==> older(rows@, #[trigger] picked[a], j),
        decreases count - n,
    {
        match find_oldest(rows, &taken) {
            None => {
                assert(is_oldest(rows@, count as int, picked));
                return ids;
            },
            Some(i) => {
                let ghost before = picked;
                assert(!before.contains(i as int));
                ids.push(rows[i].id);
                taken.set(i, true);
                proof {
                    picked = before.push(i as int);
                    assert(ids@ =~= ids_at(rows@, picked));
                    assert forall|j: int| 0 <= j < rows@.len() implies #[trigger] taken@[j]
                        == picked.contains(j) by {
                        if before.contains(j) {
                            let w = choose|w: int| 0 <= w < before.len() && before[w] == j;
                            assert(picked[w] == j);
                        }
                        if j == i {
                            assert(picked[before.len() as int] == j);
                        } else if picked.contains(j) {
                            let w = choose|w: int| 0 <= w < picked.len() && picked[w] == j;
                            assert(before[w] == j);
                        }
                    }
                    assert forall|a: int, b: int| 0 <= a < b < picked.len() implies older(
                        rows@,
                        #[trigger] picked[a],
                        #[trigger] picked[b],
                    ) by {
                        if b < before.len() {
                            assert(older(rows@, before[a], before[b]));
                        } else {
                            assert(picked[a] == before[a]);
                            assert(older(rows@, before[a], i as int));
                        }
                    }
                    assert forall|a: int, j: int|
                        0 <= a < picked.len() && 0 <= j < rows@.len() && !(
                        #[trigger] rows@[j]).pinned && !picked.contains(j) implies older(
                        rows@,
                        #[trigger] picked[a],
                        j,
                    ) by {
                        assert(!taken@[j]);
                        assert(j != i);
                        if before.contains(j) {
                            let w = choose|w: int| 0 <= w < before.len() && before[w] == j;
                            assert(picked[w] == j);
                        }
                        if a < before.len() {
                            assert(older(rows@, before[a], j));
                        }
                    }
                }
                n += 1;
            },
        }
    }
    assert(is_oldest(rows@, count as int, picked));
    ids
}

/// `plan` deletes what the retention and the entry limit demand.
pub open spec fn is_prune_plan(
    rows: Seq<EntryAge>,
    config: GeneralConfig,
    now: int,
    plan: PrunePlan,
) -> bool {
    let cutoff = cutoff_of(config.retention, now);
    let kept = selected_rows(rows, fresh_rule(cutoff), rows.len() as int);
    &&& plan.expired@ == selected_ids(rows, expired_rule(cutoff), rows.len() as int)
    &&& exists|picked: Seq<int>| #[trigger]
        is_oldest(kept, excess_of(kept.len() as int, config.max_entries as int), picked)
            && plan.overflow@ == ids_at(kept, picked)
}

/// Enforce retention and max-entries limits: which entries to delete.
///
/// First, unpinned entries that were last seen before the retention window.
/// Then, where more entries are left than `max_entries`, the oldest of them
/// that are not pinned.
pub fn prune(rows: &Vec<EntryAge>, config: &GeneralConfig, now: i64) -> (r: PrunePlan)
    requires
        now - 365 * DAY_MS >= i64::MIN,
        rows@.len() <= u32::MAX,
    ensures
        is_prune_plan(rows@, *config, now as int, r),
{
    let cutoff = retention_cutoff(config.retention, now);
    let ghost c = cutoff_of(config.retention, now as int);
    let mut expired: Vec<EntryId> = Vec::new();
    let mut kept: Vec<EntryAge> = Vec::new();
    let mut i: usize = 0;
    while i < rows.len()
        invariant
            i <= rows@.len(),
            c == match cutoff {
                Some(x) => Some(x as int),
                None => None,
            },
            expired@ == selected_ids(rows@, expired_rule(c), i as int),
            kept@ == selected_rows(rows@, fresh_rule(c), i as int),
            kept@.len() <= i,
        decreases rows@.len() - i,
    {
        if past_retention(&rows[i], cutoff) {
            expired.push(rows[i].id);
        } else {
            kept.push(rows[i]);
        }
        i += 1;
    }
    let total: u32 = kept.len() as u32;
    let excess: u32 = if total > config.max_entries {
        total - config.max_entries
    } else {
        0
    };
    let overflow = oldest_unpinned(&kept, excess);
    proof {
        assert(kept@ == selected_rows(rows@, fresh_rule(c), rows@.len() as int));
        assert(excess == excess_of(kept@.len() as int, config.max_entries as int));
        let picked = choose|picked: Seq<int>| #[trigger]
            is_oldest(kept@, excess as int, picked) && overflow@ == ids_at(kept@, picked);
        assert(is_oldest(
            kept@,
            excess_of(kept@.len() as int, config.max_entries as int),
            picked,
        ));
    }
    PrunePlan { expired, overflow }
}

/// Delete ephemeral entries older than `ttl_hours`: which entries those are.
///
/// Ephemeral entries are clipboard captures that matched a sensitive-content
/// pattern. They are kept for a limited time so the user can still paste them
/// during the current session, but are cleaned up afterwards, pinned or not.
pub fn prune_ephemeral(rows: &Vec<EntryAge>, ttl_hours: u32, now: i64) -> (r: Vec<EntryId>)
    requires
        now - ttl_hours * HOUR_MS >= i64::MIN,
    ensures
        r@ == stale_ids(rows@, ttl_hours as int, now as int),
{
    let cutoff: i64 = now - ttl_hours as i64 * HOUR_MS;
    let mut ids: Vec<EntryId> = Vec::new();
    let mut i: usize = 0;
    while i < rows.len()
        invariant
            i <= rows@.len(),
            cutoff == now - ttl_hours * HOUR_MS,
            ids@ == selected_ids(rows@, stale_rule(now - ttl_hours * HOUR_MS), i as int),
        decreases rows@.len() - i,
    {
        if rows[i].ephemeral && rows[i].created_at < cutoff {
            ids.push(rows[i].id);
        }
        i += 1;
    }
    ids
}

/// Delete all unpinned entries: which entries those are.
pub fn clear_unpinned(rows: &Vec<EntryAge>) -> (r: Vec<EntryId>)
    ensures
        r@ == unpinned_ids(rows@),
{
    let mut ids: Vec<EntryId> = Vec::new();
    let mut i: usize = 0;
    while i < rows.len()
        invariant
            i <= rows@.len(),
            ids@ == selected_ids(rows@, unpinned_rule(), i as int),
        decreases rows@.len() - i,
    {
        if !rows[i].pinned {
            ids.push(rows[i].id);
        }
        i += 1;
    }
    ids
}

impl PruneStats {
    /// Nothing was removed.
    pub fn none() -> (r: PruneStats)
        ensures
            r == (PruneStats { entries_deleted: 0, blobs_deleted: 0, bytes_freed: 0 }),
    {
        PruneStats { entries_deleted: 0, blobs_deleted: 0, bytes_freed: 0 }
    }

    /// What two passes removed together; `None` where that cannot be counted.
    pub fn combined(self, other: PruneStats) -> (r: Option<PruneStats>)
        ensures
            match r {
                Some(sum) => {
                    &&& sum.entries_deleted == self.entries_deleted + other.entries_deleted
                    &&& sum.blobs_deleted == self.blobs_deleted + other.blobs_deleted
                    &&& sum.bytes_freed == self.bytes_freed + other.bytes_freed
                },
                None => {
                    ||| self.entries_deleted + other.entries_deleted > u32::MAX
                    ||| self.blobs_deleted + other.blobs_deleted > u32::MAX
                    ||| self.bytes_freed + other.bytes_freed > u64::MAX
                },
            },
    {
        match (
            self.entries_deleted.checked_add(other.entries_deleted),
            self.blobs_deleted.checked_add(other.blobs_deleted),
            self.bytes_freed.checked_add(other.bytes_freed),
        ) {
            (Some(entries_deleted), Some(blobs_deleted), Some(bytes_freed)) => Some(
                PruneStats { entries_deleted, blobs_deleted, bytes_freed },
            ),
            _ => None,
        }
    }

    /// What deleting entries removed, given the sizes of their blobs, as far as
    /// the blobs were found; `None` where that cannot be counted.
    pub fn of_deleted(ids: &Vec<EntryId>, sizes: &Vec<Option<u64>>) -> (r: Option<PruneStats>)
        ensures
            match r {
                Some(stats) => {
                    &&& stats.entries_deleted == ids@.len()
                    &&& stats.blobs_deleted == sizes@.len()
                    &&& stats.bytes_freed == known_sum(sizes@, sizes@.len() as int)
                },
                None => {
                    ||| ids@.len() > u32::MAX
                    ||| sizes@.len() > u32::MAX
                    ||| known_sum(sizes@, sizes@.len() as int) > u64::MAX
                },
            },
    {
        if ids.len() > u32::MAX as usize || sizes.len() > u32::MAX as usize {
            return None;
        }
        let mut bytes_freed: u64 = 0;
        let mut i: usize = 0;
        while i < sizes.len()
            invariant
                i <= sizes@.len(),
                bytes_freed == known_sum(sizes@, i as int),
            decreases sizes@.len() - i,
        {
            if let Some(size) = sizes[i] {
                match bytes_freed.checked_add(size) {
                    Some(sum) => {
                        bytes_freed = sum;
                    },
                    None => {
                        proof {
                            lemma_known_sum_grows(sizes@, i + 1, sizes@.len() as int);
                        }
                        return None;
                    },
                }
            }
            i += 1;
        }
        Some(
            PruneStats {
                entries_deleted: ids.len() as u32,
                blobs_deleted: sizes.len() as u32,
                bytes_freed,
            },
        )
    }
}

/// The sum of the sizes that are known, among the first `n`.
pub open spec fn known_sum(sizes: Seq<Option<u64>>, n: int) -> int
    decreases n,
{
    if n <= 0 {
        0
    } else {
        known_sum(sizes, n - 1) + match sizes[n - 1] {
            Some(size) => size as int,
            None => 0,
        }
    }
}

proof fn lemma_known_sum_grows(sizes: Seq<Option<u64>>, m: int, n: int)
    requires
        m <= n,
    ensures
        known_sum(sizes, m) <= known_sum(sizes, n),
    decreases n - m,
{
    if m < n {
        lemma_known_sum_grows(sizes, m, n - 1);
    }
}

// ---------------------------------------------------------------------------
// Laws of pruning
// ---------------------------------------------------------------------------

pub proof fn lemma_selected_ids(
    rows: Seq<EntryAge>,
    p: spec_fn(EntryAge) -> bool,
    n: int,
    id: EntryId,
)
    requires
        0 <= n <= rows.len(),
    ensures
        selected_ids(rows, p, n).contains(id) <==> exists|i: int|
            0 <= i < n && p(rows[i]) && (#[trigger] rows[i]).id == id,
    decreases n,
{
    if n > 0 {
        let before = selected_ids(rows, p, n - 1);
        let now = selected_ids(rows, p, n);
        lemma_selected_ids(rows, p, n - 1, id);
        if before.contains(id) {
            let k = choose|k: int| 0 <= k < before.len() && before[k] == id;
            assert(now[k] == id);
        }
        if p(rows[n - 1]) && rows[n - 1].id == id {
            assert(now[now.len() - 1] == id);
        }
        if now.contains(id) && !before.contains(id) {
            let k = choose|k: int| 0 <= k < now.len() && now[k] == id;
            assert(k == before.len());
        }
    }
}

pub proof fn lemma_selected_rows(
    rows: Seq<EntryAge>,
    p: spec_fn(EntryAge) -> bool,
    n: int,
    entry: EntryAge,
)
    requires
        0 <= n <= rows.len(),
    ensures
        selected_rows(rows, p, n).contains(entry) <==> exists|i: int|
            0 <= i < n && p(rows[i]) && #[trigger] rows[i] == entry,
        selected_rows(rows, p, n).len() <= n,
    decreases n,
{
    if n > 0 {
        let before = selected_rows(rows, p, n - 1);
        let now = selected_rows(rows, p, n);
        lemma_selected_rows(rows, p, n - 1, entry);
        if before.contains(entry) {
            let k = choose|k: int| 0 <= k < before.len() && before[k] == entry;
            assert(now[k] == entry);
        }
        if p(rows[n - 1]) && rows[n - 1] == entry {
            assert(now[now.len() - 1] == entry);
        }
        if now.contains(entry) && !before.contains(entry) {
            let k = choose|k: int| 0 <= k < now.len() && now[k] == entry;
            assert(k == before.len());
        }
    }
}

/// No two entries have the same identifier.
pub open spec fn ids_differ(rows: Seq<EntryAge>) -> bool {
    forall|i: int, j: int|
        0 <= i < j < rows.len() ==> (#[trigger] rows[i]).id != (#[trigger] rows[j]).id
}

/// Pruning by age and number never deletes a pinned entry.
pub proof fn law_prune_spares_pinned(
    rows: Seq<EntryAge>,
    config: GeneralConfig,
    now: int,
    plan: PrunePlan,
    i: int,
)
    requires
        ids_differ(rows),
        is_prune_plan(rows, config, now, plan),
        0 <= i < rows.len(),
        rows[i].pinned,
    ensures
        !plan.expired@.contains(rows[i].id),
        !plan.overflow@.contains(rows[i].id),
{
    let id = rows[i].id;
    let cutoff = cutoff_of(config.retention, now);
    let expired = expired_rule(cutoff);
    let fresh = fresh_rule(cutoff);
    let n = rows.len() as int;
    lemma_selected_ids(rows, expired, n, id);
    if plan.expired@.contains(id) {
        let j = choose|j: int| 0 <= j < n && expired(rows[j]) && (#[trigger] rows[j]).id == id;
        assert(j == i);
    }
    let kept = selected_rows(rows, fresh, n);
    let picked = choose|picked: Seq<int>| #[trigger]
        is_oldest(kept, excess_of(kept.len() as int, config.max_entries as int), picked)
            && plan.overflow@ == ids_at(kept, picked);
    if plan.overflow@.contains(id) {
        let a = choose|a: int| 0 <= a < plan.overflow@.len() && plan.overflow@[a] == id;
        let entry = kept[picked[a]];
        assert(entry.id == id);
        assert(!entry.pinned);
        assert(kept.contains(entry));
        lemma_selected_rows(rows, fresh, n, entry);
        let j = choose|j: int| 0 <= j < n && fresh(rows[j]) && #[trigger] rows[j] == entry;
        assert(rows[j].id == rows[i].id);
        assert(j == i);
    }
}

/// Every unpinned entry that is past the retention window is deleted, and no
/// other entry is deleted for its age.
pub proof fn law_retention_decides(
    rows: Seq<EntryAge>,
    config: GeneralConfig,
    now: int,
    plan: PrunePlan,
    i: int,
)
    requires
        ids_differ(rows),
        is_prune_plan(rows, config, now, plan),
        0 <= i < rows.len(),
    ensures
        plan.expired@.contains(rows[i].id) <==> is_expired(
            rows[i],
            cutoff_of(config.retention, now),
        ),
        config.retention == Retention::Unlimited ==> !plan.expired@.contains(rows[i].id),
{
    let id = rows[i].id;
    let cutoff = cutoff_of(config.retention, now);
    let expired = expired_rule(cutoff);
    let n = rows.len() as int;
    lemma_selected_ids(rows, expired, n, id);
    if plan.expired@.contains(id) {
        let j = choose|j: int| 0 <= j < n && expired(rows[j]) && (#[trigger] rows[j]).id == id;
        assert(j == i);
    }
    if is_expired(rows[i], cutoff) {
        assert(expired(rows[i]));
    }
}

pub proof fn lemma_partition(rows: Seq<EntryAge>, p: spec_fn(EntryAge) -> bool, n: int)
    requires
        0 <= n <= rows.len(),
    ensures
        selected_ids(rows, p, n).len() + selected_rows(rows, |e: EntryAge| !p(e), n).len() == n,
    decreases n,
{
    if n > 0 {
        lemma_partition(rows, p, n - 1);
    }
}

/// After pruning, either no more than `max_entries` entries are left, or all
/// that is left is pinned. A prune that finds nothing expired and no more than
/// `max_entries` entries deletes nothing.
pub proof fn law_prune_enforces_limit(
    rows: Seq<EntryAge>,
    config: GeneralConfig,
    now: int,
    plan: PrunePlan,
)
    requires
        is_prune_plan(rows, config, now, plan),
    ensures
        rows.len() - plan.expired@.len() - plan.overflow@.len() <= config.max_entries
            || forall|i: int|
            0 <= i < rows.len() && !(#[trigger] rows[i]).pinned ==> plan.expired@.contains(
                rows[i].id,
            ) || plan.overflow@.contains(rows[i].id),
        plan.expired@.len() == 0 && rows.len() <= config.max_entries ==> plan.overflow@.len() == 0,
{
    let cutoff = cutoff_of(config.retention, now);
    let expired = expired_rule(cutoff);
    let fresh = fresh_rule(cutoff);
    let n = rows.len() as int;
    let kept = selected_rows(rows, fresh, n);
    lemma_partition(rows, expired, n);
    lemma_same_rows(rows, |e: EntryAge| !expired(e), fresh, n);
    let excess = excess_of(kept.len() as int, config.max_entries as int);
    let picked = choose|picked: Seq<int>| #[trigger]
        is_oldest(kept, excess, picked) && plan.overflow@ == ids_at(kept, picked);
    if picked.len() != excess {
        assert forall|i: int| 0 <= i < rows.len() && !(#[trigger] rows[i]).pinned implies
            plan.expired@.contains(rows[i].id) || plan.overflow@.contains(rows[i].id) by {
            lemma_selected_ids(rows, expired, n, rows[i].id);
            lemma_selected_rows(rows, fresh, n, rows[i]);
            if is_expired(rows[i], cutoff) {
                assert(expired(rows[i]));
            } else {
                assert(fresh(rows[i]));
                assert(kept.contains(rows[i]));
                let k = choose|k: int| 0 <= k < kept.len() && kept[k] == rows[i];
                assert(!kept[k].pinned);
                assert(picked.contains(k));
                let a = choose|a: int| 0 <= a < picked.len() && picked[a] == k;
                assert(plan.overflow@[a] == rows[i].id);
            }
        }
    }
}

pub proof fn lemma_same_rows(
    rows: Seq<EntryAge>,
    p: spec_fn(EntryAge) -> bool,
    q: spec_fn(EntryAge) -> bool,
    n: int,
)
    requires
        0 <= n <= rows.len(),
        forall|e: EntryAge| #[trigger] p(e) == q(e),
    ensures
        selected_rows(rows, p, n) == selected_rows(rows, q, n),
    decreases n,
{
    if n > 0 {
        lemma_same_rows(rows, p, q, n - 1);
    }
}

/// What is deleted to keep within the limit is older than what stays.
pub proof fn law_overflow_takes_the_oldest(
    rows: Seq<EntryAge>,
    count: int,
    picked: Seq<int>,
    a: int,
    j: int,
)
    requires
        is_oldest(rows, count, picked),
        0 <= a < picked.len(),
        0 <= j < rows.len(),
        !rows[j].pinned,
        !picked.contains(j),
    ensures
        rows[picked[a]].last_seen_at <= rows[j].last_seen_at,
{
    assert(older(rows, picked[a], j));
}

/// Clearing deletes exactly the entries that are not pinned.
pub proof fn law_clear_keeps_pinned(rows: Seq<EntryAge>, i: int)
    requires
        ids_differ(rows),
        0 <= i < rows.len(),
    ensures
        selected_ids(rows, unpinned_rule(), rows.len() as int).contains(rows[i].id)
            <==> !rows[i].pinned,
{
    let p = unpinned_rule();
    lemma_selected_ids(rows, p, rows.len() as int, rows[i].id);
    if !rows[i].pinned {
        assert(p(rows[i]));
    }
}

/// Only ephemeral entries are deleted for their time to live, and those that
/// have not outlived it stay.
pub proof fn law_ephemeral_only(rows: Seq<EntryAge>, cutoff: int, i: int)
    requires
        ids_differ(rows),
        0 <= i < rows.len(),
    ensures
        selected_ids(rows, stale_rule(cutoff), rows.len() as int).contains(
            rows[i].id,
        ) <==> rows[i].ephemeral && rows[i].created_at < cutoff,
{
    let p = stale_rule(cutoff);
    lemma_selected_ids(rows, p, rows.len() as int, rows[i].id);
    if is_stale(rows[i], cutoff) {
        assert(p(rows[i]));
    }
}

/// A whole maintenance pass, by age and number first and then by time to live
/// on the entries that are left, deletes no pinned entry that is not ephemeral.
pub proof fn law_pass_keeps_pinned(
    rows: Seq<EntryAge>,
    config: GeneralConfig,
    now: int,
    plan: PrunePlan,
    left: Seq<EntryAge>,
    cutoff: int,
    i: int,
)
    requires
        ids_differ(rows),
        is_prune_plan(rows, config, now, plan),
        forall|j: int| 0 <= j < left.len() ==> rows.contains(#[trigger] left[j]),
        0 <= i < rows.len(),
        rows[i].pinned,
        !rows[i].ephemeral,
    ensures
        !plan.expired@.contains(rows[i].id),
        !plan.overflow@.contains(rows[i].id),
        !selected_ids(left, stale_rule(cutoff), left.len() as int).contains(rows[i].id),
{
    law_prune_spares_pinned(rows, config, now, plan, i);
    let id = rows[i].id;
    let stale = stale_rule(cutoff);
    lemma_selected_ids(left, stale, left.len() as int, id);
    if selected_ids(left, stale, left.len() as int).contains(id) {
        let j = choose|j: int|
            0 <= j < left.len() && stale(left[j]) && (#[trigger] left[j]).id == id;
        let k = choose|k: int| 0 <= k < rows.len() && rows[k] == left[j];
        assert(k == i);
    }
}

// ---------------------------------------------------------------------------
// Integrity
// ---------------------------------------------------------------------------

/// A reference to a blob, and whether the blob exists.
#[derive(Debug, Clone)]
pub struct BlobReference {
    pub entry_id: EntryId,
    pub mime: String,
    pub path: String,
    pub exists: bool,
}

/// What is said of a reference to a blob that does not exist.
pub open spec fn missing_blob_message(b: BlobReference) -> Seq<char> {
    "missing blob: entry_id="@ + signed_decimal(b.entry_id as int) + " mime="@ + b.mime@ + " path="@
        + b.path@
}

/// What the first `n` messages of the database's own check come to: `ok` is no
/// issue.
pub open spec fn database_issues(messages: Seq<Seq<char>>, n: int) -> Seq<Seq<char>>
    decreases n,
{
    if n <= 0 {
        Seq::<Seq<char>>::empty()
    } else if messages[n - 1] == "ok"@ {
        database_issues(messages, n - 1)
    } else {
        database_issues(messages, n - 1).push("sqlite: "@ + messages[n - 1])
    }
}

/// The issues among the first `n` references.
pub open spec fn blob_issues(refs: Seq<BlobReference>, n: int) -> Seq<Seq<char>>
    decreases n,
{
    if n <= 0 {
        Seq::<Seq<char>>::empty()
    } else if refs[n - 1].exists {
        blob_issues(refs, n - 1)
    } else {
        blob_issues(refs, n - 1).push(missing_blob_message(refs[n - 1]))
    }
}

fn missing_blob(b: &BlobReference) -> (r: String)
    ensures
        r@ == missing_blob_message(*b),
{
    let mut out = "missing blob: entry_id=".to_owned();
    let id = signed_text(b.entry_id);
    out.append(id.as_str());
    out.append(" mime=");
    out.append(b.mime.as_str());
    out.append(" path=");
    out.append(b.path.as_str());
    out
}

/// The issues of a store, given the messages of the database's own integrity
/// check and the references to blobs.
pub fn integrity_check(messages: &Vec<String>, refs: &Vec<BlobReference>) -> (r: Vec<String>)
    ensures
        texts(r@) == database_issues(texts(messages@), messages@.len() as int) + blob_issues(
            refs@,
            refs@.len() as int,
        ),
{
    let ghost all = texts(messages@);
    let mut issues: Vec<String> = Vec::new();
    let mut i: usize = 0;
    assert(texts(issues@) =~= Seq::<Seq<char>>::empty());
    while i < messages.len()
        invariant
            i <= messages@.len(),
            all == texts(messages@),
            texts(issues@) == database_issues(all, i as int),
        decreases messages@.len() - i,
    {
        assert(all[i as int] == messages@[i as int]@);
        if !same_text(messages[i].as_str(), "ok") {
            let ghost before = texts(issues@);
            issues.push(concat2("sqlite: ", messages[i].as_str()));
            assert(texts(issues@) =~= before.push("sqlite: "@ + all[i as int]));
        }
        i += 1;
    }
    let ghost first = texts(issues@);
    let mut k: usize = 0;
    assert(texts(issues@) =~= first + blob_issues(refs@, 0));
    while k < refs.len()
        invariant
            k <= refs@.len(),
            texts(issues@) == first + blob_issues(refs@, k as int),
        decreases refs@.len() - k,
    {
        if !refs[k].exists {
            let ghost before = texts(issues@);
            issues.push(missing_blob(&refs[k]));
            assert(texts(issues@) =~= before.push(missing_blob_message(refs@[k as int])));
            assert(before.push(missing_blob_message(refs@[k as int])) =~= first + blob_issues(
                refs@,
                k + 1,
            ));
        }
        k += 1;
    }
    issues
}

} // verus!
