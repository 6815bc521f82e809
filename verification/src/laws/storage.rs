//! What storing and pruning are for.

use vstd::prelude::*;

use crate::config::GeneralConfig;
use crate::config::Retention;
use crate::digest::blake3_digest;
use crate::laws::text::law_replace;
use crate::storage::blob::hex_text;
use crate::storage::blob::orphan_sum;
use crate::storage::blob::size_sum;
use crate::storage::blob::BlobFile;
use crate::storage::clip_store::blob_issues;
use crate::storage::clip_store::cutoff_of;
use crate::storage::clip_store::database_issues;
use crate::storage::clip_store::excess_of;
use crate::storage::clip_store::expired_rule;
use crate::storage::clip_store::fresh_rule;
use crate::storage::clip_store::ids_at;
use crate::storage::clip_store::ids_differ;
use crate::storage::clip_store::is_oldest;
use crate::storage::clip_store::is_prune_plan;
use crate::storage::clip_store::is_record;
use crate::storage::clip_store::is_stored;
use crate::storage::clip_store::known_sum;
use crate::storage::clip_store::law_clear_keeps_pinned;
use crate::storage::clip_store::law_ephemeral_only;
use crate::storage::clip_store::law_retention_decides;
use crate::storage::clip_store::lemma_partition;
use crate::storage::clip_store::lemma_same_rows;
use crate::storage::clip_store::lemma_selected_ids;
use crate::storage::clip_store::lemma_selected_rows;
use crate::storage::clip_store::missing_blob_message;
use crate::storage::clip_store::older;
use crate::storage::clip_store::placeholder_list;
use crate::storage::clip_store::query_params;
use crate::storage::clip_store::repeats_latest;
use crate::storage::clip_store::selected_ids;
use crate::storage::clip_store::selected_rows;
use crate::storage::clip_store::stale_ids;
use crate::storage::clip_store::unpinned_ids;
use crate::storage::clip_store::unpinned_rule;
use crate::storage::clip_store::where_clause;
use crate::storage::clip_store::BlobReference;
use crate::storage::clip_store::EntryAge;
use crate::storage::clip_store::EntryRecord;
use crate::storage::clip_store::Placement;
use crate::storage::clip_store::PrunePlan;
use crate::storage::clip_store::StoredPayload;
use crate::storage::clip_store::BLOB_THRESHOLD;
use crate::storage::clip_store::DAY_MS;
use crate::storage::clip_store::HOUR_MS;
use crate::storage::migrations::migration_for;
use crate::storage::migrations::missing_statements;
use crate::storage::migrations::VersionWrite;
use crate::text::signed_decimal;
use crate::types::ContentClass;
use crate::types::NewEntry;
use crate::types::PayloadView;
use crate::types::Query;

verus! {

// ---------------------------------------------------------------------------
// Pruning
// ---------------------------------------------------------------------------

/// An hour and a day in milliseconds.
pub proof fn law_units()
    ensures
        HOUR_MS == 60 * 60 * 1000,
        DAY_MS == 24 * 60 * 60 * 1000,
        BLOB_THRESHOLD == 64 * 1024,
{
}

/// How long a retention keeps an entry, in days.
pub open spec fn days_kept(retention: Retention) -> Option<int> {
    match retention {
        Retention::Days7 => Some(7),
        Retention::Days30 => Some(30),
        Retention::Months3 => Some(90),
        Retention::Months6 => Some(180),
        Retention::Year1 => Some(365),
        Retention::Unlimited => None,
    }
}

/// An entry expires exactly where it is not pinned and was last seen longer ago
/// than its retention keeps it. When it was first copied has no influence, and
/// an unlimited retention lets nothing expire.
pub proof fn law_expires_by_last_seen(
    rows: Seq<EntryAge>,
    config: GeneralConfig,
    now: int,
    plan: PrunePlan,
    i: int,
)
    requires
        forall|a: int, b: int|
            0 <= a < b < rows.len() ==> (#[trigger] rows[a]).id != (#[trigger] rows[b]).id,
        is_prune_plan(rows, config, now, plan),
        0 <= i < rows.len(),
    ensures
        match days_kept(config.retention) {
            Some(days) => plan.expired@.contains(rows[i].id) <==> !rows[i].pinned
                && rows[i].last_seen_at < now - days * 86_400_000,
            None => !plan.expired@.contains(rows[i].id),
        },
{
    assert(ids_differ(rows));
    law_retention_decides(rows, config, now, plan, i);
}

/// Only entries of the history are deleted: every identifier that a plan lists
/// is that of an entry, and none is listed both as expired and as too many.
pub proof fn law_prune_deletes_entries(
    rows: Seq<EntryAge>,
    config: GeneralConfig,
    now: int,
    plan: PrunePlan,
    k: int,
)
    requires
        is_prune_plan(rows, config, now, plan),
    ensures
        0 <= k < plan.expired@.len() ==> exists|i: int|
            0 <= i < rows.len() && (#[trigger] rows[i]).id == plan.expired@[k] && !rows[i].pinned,
        0 <= k < plan.overflow@.len() ==> exists|i: int|
            0 <= i < rows.len() && (#[trigger] rows[i]).id == plan.overflow@[k] && !rows[i].pinned,
{
    let cutoff = cutoff_of(config.retention, now);
    let expired = expired_rule(cutoff);
    let fresh = fresh_rule(cutoff);
    let n = rows.len() as int;
    if 0 <= k < plan.expired@.len() {
        lemma_selected_ids(rows, expired, n, plan.expired@[k]);
        assert(plan.expired@.contains(plan.expired@[k]));
        let i = choose|i: int|
            0 <= i < n && expired(rows[i]) && (#[trigger] rows[i]).id == plan.expired@[k];
        assert(!rows[i].pinned);
    }
    if 0 <= k < plan.overflow@.len() {
        let kept = selected_rows(rows, fresh, n);
        let picked = choose|picked: Seq<int>| #[trigger]
            is_oldest(kept, excess_of(kept.len() as int, config.max_entries as int), picked)
                && plan.overflow@ == ids_at(kept, picked);
        let entry = kept[picked[k]];
        assert(!entry.pinned);
        assert(kept.contains(entry));
        lemma_selected_rows(rows, fresh, n, entry);
        let i = choose|i: int| 0 <= i < n && fresh(rows[i]) && #[trigger] rows[i] == entry;
        assert(rows[i].id == plan.overflow@[k]);
    }
}

/// What is deleted as too many was last seen no later than any unpinned entry
/// that stays, and no more is deleted than there is beyond the limit.
pub proof fn law_too_many_are_the_oldest(
    rows: Seq<EntryAge>,
    config: GeneralConfig,
    now: int,
    plan: PrunePlan,
    i: int,
    j: int,
)
    requires
        forall|a: int, b: int|
            0 <= a < b < rows.len() ==> (#[trigger] rows[a]).id != (#[trigger] rows[b]).id,
        is_prune_plan(rows, config, now, plan),
        0 <= i < rows.len(),
        0 <= j < rows.len(),
        plan.overflow@.contains(rows[i].id),
        !rows[j].pinned,
        !plan.expired@.contains(rows[j].id),
        !plan.overflow@.contains(rows[j].id),
    ensures
        rows[i].last_seen_at <= rows[j].last_seen_at,
        !rows[i].pinned,
        !plan.expired@.contains(rows[i].id),
{
    assert(ids_differ(rows));
    let cutoff = cutoff_of(config.retention, now);
    let expired = expired_rule(cutoff);
    let fresh = fresh_rule(cutoff);
    let n = rows.len() as int;
    let kept = selected_rows(rows, fresh, n);
    let excess = excess_of(kept.len() as int, config.max_entries as int);
    let picked = choose|picked: Seq<int>| #[trigger]
        is_oldest(kept, excess, picked) && plan.overflow@ == ids_at(kept, picked);
    let a = choose|a: int| 0 <= a < plan.overflow@.len() && plan.overflow@[a] == rows[i].id;
    let entry = kept[picked[a]];
    assert(kept.contains(entry));
    lemma_selected_rows(rows, fresh, n, entry);
    let w = choose|w: int| 0 <= w < n && fresh(rows[w]) && #[trigger] rows[w] == entry;
    assert(rows[w].id == rows[i].id);
    assert(w == i);
    law_retention_decides(rows, config, now, plan, i);
    law_retention_decides(rows, config, now, plan, j);
    assert(fresh(rows[j]));
    lemma_selected_rows(rows, fresh, n, rows[j]);
    assert(kept.contains(rows[j]));
    let m = choose|m: int| 0 <= m < kept.len() && kept[m] == rows[j];
    assert(!kept[m].pinned);
    if picked.contains(m) {
        let b = choose|b: int| 0 <= b < picked.len() && picked[b] == m;
        assert(plan.overflow@[b] == rows[j].id);
    }
    assert(older(kept, picked[a], m));
}

/// Of two entries exactly one is older: the one that was seen less recently,
/// and the one listed first where both were seen at the same time.
pub proof fn law_older(rows: Seq<EntryAge>, i: int, j: int)
    requires
        i != j,
    ensures
        older(rows, i, j) <==> !older(rows, j, i),
        rows[i].last_seen_at < rows[j].last_seen_at ==> older(rows, i, j),
        rows[i].last_seen_at == rows[j].last_seen_at && i < j ==> older(rows, i, j),
        !older(rows, i, i),
{
}

/// The entries that are too many are listed from the oldest on, each is listed
/// once, and as many are listed as there are too many, unless all but the
/// pinned ones are.
pub proof fn law_oldest_first(rows: Seq<EntryAge>, count: int, picked: Seq<int>, a: int, b: int)
    requires
        is_oldest(rows, count, picked),
        0 <= a < b < picked.len(),
    ensures
        picked.len() <= count,
        picked[a] != picked[b],
        rows[picked[a]].last_seen_at <= rows[picked[b]].last_seen_at,
        rows[picked[a]].last_seen_at == rows[picked[b]].last_seen_at ==> picked[a] < picked[b],
        picked.len() < count ==> forall|j: int|
            0 <= j < rows.len() && !(#[trigger] rows[j]).pinned ==> picked.contains(j),
{
    assert(older(rows, picked[a], picked[b]));
}

/// A prune deletes no more than it has to: beyond what expired, at most as many
/// entries as there are more than the limit allows.
pub proof fn law_prune_deletes_no_more(
    rows: Seq<EntryAge>,
    config: GeneralConfig,
    now: int,
    plan: PrunePlan,
)
    requires
        is_prune_plan(rows, config, now, plan),
    ensures
        plan.expired@.len() <= rows.len(),
        rows.len() - plan.expired@.len() <= config.max_entries ==> plan.overflow@.len() == 0,
        rows.len() - plan.expired@.len() > config.max_entries ==> plan.overflow@.len()
            <= rows.len() - plan.expired@.len() - config.max_entries,
        rows.len() - plan.expired@.len() > config.max_entries ==> rows.len() - plan.expired@.len()
            - plan.overflow@.len() >= config.max_entries,
{
    let cutoff = cutoff_of(config.retention, now);
    let expired = expired_rule(cutoff);
    let fresh = fresh_rule(cutoff);
    let n = rows.len() as int;
    let kept = selected_rows(rows, fresh, n);
    lemma_partition(rows, expired, n);
    lemma_same_rows(rows, |e: EntryAge| !expired(e), fresh, n);
    let excess = excess_of(kept.len() as int, config.max_entries as int);
    let picked = choose|picked: Seq<int>| #[trigger]
        is_oldest(kept, excess, picked) && plan.overflow@ == ids_at(kept, picked);
    assert(picked.len() == plan.overflow@.len());
}

/// An ephemeral entry is deleted exactly where it was first copied more hours
/// ago than it may live, pinned or not and whenever it was last seen.
pub proof fn law_ephemeral_lives_hours(rows: Seq<EntryAge>, ttl_hours: int, now: int, i: int)
    requires
        forall|a: int, b: int|
            0 <= a < b < rows.len() ==> (#[trigger] rows[a]).id != (#[trigger] rows[b]).id,
        0 <= i < rows.len(),
    ensures
        stale_ids(rows, ttl_hours, now).contains(
            rows[i].id,
        ) <==> rows[i].ephemeral && rows[i].created_at < now - ttl_hours * 3_600_000,
{
    assert(ids_differ(rows));
    law_ephemeral_only(rows, now - ttl_hours * HOUR_MS, i);
    assert(ttl_hours * HOUR_MS == ttl_hours * 3_600_000);
}

/// Clearing the history deletes exactly the entries that are not pinned.
pub proof fn law_clear_deletes_the_unpinned(rows: Seq<EntryAge>, i: int)
    requires
        forall|a: int, b: int|
            0 <= a < b < rows.len() ==> (#[trigger] rows[a]).id != (#[trigger] rows[b]).id,
        0 <= i < rows.len(),
    ensures
        unpinned_ids(rows).contains(rows[i].id) <==> !rows[i].pinned,
{
    assert(ids_differ(rows));
    law_clear_keeps_pinned(rows, i);
}

/// What a selection lists: one identifier for each entry that is chosen, in the
/// order of the entries.
pub proof fn law_selection_grows(rows: Seq<EntryAge>, p: spec_fn(EntryAge) -> bool, e: EntryAge)
    ensures
        selected_ids(rows.push(e), p, rows.len() as int + 1) == if p(e) {
            selected_ids(rows, p, rows.len() as int).push(e.id)
        } else {
            selected_ids(rows, p, rows.len() as int)
        },
        selected_ids(Seq::<EntryAge>::empty(), p, 0).len() == 0,
        unpinned_rule()(e) == !e.pinned,
{
    lemma_selection_prefix(rows, e, p, rows.len() as int);
}

proof fn lemma_selection_prefix(
    rows: Seq<EntryAge>,
    e: EntryAge,
    p: spec_fn(EntryAge) -> bool,
    n: int,
)
    requires
        0 <= n <= rows.len(),
    ensures
        selected_ids(rows.push(e), p, n) == selected_ids(rows, p, n),
    decreases n,
{
    if n > 0 {
        lemma_selection_prefix(rows, e, p, n - 1);
        assert(rows.push(e)[n - 1] == rows[n - 1]);
    }
}

// ---------------------------------------------------------------------------
// Storing entries
// ---------------------------------------------------------------------------

/// A new entry is recorded as created and last seen now, unpinned, with the
/// content, the source and the hash that it came with.
pub proof fn law_new_entry_record(record: EntryRecord, entry: NewEntry, now: i64)
    requires
        is_record(record, entry, now),
    ensures
        record.created_at == now,
        record.last_seen_at == now,
        !record.pinned,
        record.ephemeral == entry.ephemeral,
        record.preview_text == entry.preview_text,
        record.source_app == entry.source_app,
        record.canonical_hash == entry.canonical_hash,
        entry.content_class == ContentClass::Text ==> record.content_class@ == "text"@,
        entry.content_class == ContentClass::RichText ==> record.content_class@ == "richtext"@,
        entry.content_class == ContentClass::Image ==> record.content_class@ == "image"@,
        entry.content_class == ContentClass::Files ==> record.content_class@ == "files"@,
        entry.content_class == ContentClass::Url ==> record.content_class@ == "url"@,
        record.representations@.len() == entry.representations@.len(),
{
}

/// Content counts as repeated exactly where the latest entry has its hash.
pub proof fn law_repeated_content(latest: Option<Seq<u8>>, hash: Seq<u8>)
    ensures
        latest matches Some(h) ==> (repeats_latest(latest, hash) <==> h == hash),
        latest is None ==> !repeats_latest(latest, hash),
{
}

/// Data below 65536 bytes is kept in the database, other data as a blob under
/// its hash: a directory named by the first four digits, a file by all.
pub proof fn law_where_data_goes(payload: PayloadView, stored: StoredPayload)
    requires
        is_stored(payload, stored, blake3_digest(payload.data)),
    ensures
        stored.mime@ == payload.mime,
        payload.data.len() < 65_536 <==> stored.placement is Inline,
        stored.placement matches Placement::Inline(data) ==> data@ == payload.data,
        stored.placement matches Placement::Blob { hash, path, data } ==> {
            &&& hash@ == blake3_digest(payload.data)
            &&& data@ == payload.data
            &&& path@ == hex_text(hash@).take(4) + seq!['/'] + hex_text(hash@)
        },
{
    reveal_strlit("/");
    assert("/"@ =~= seq!['/']);
}

/// A byte is two hexadecimal digits, the high one first, in lower case.
pub proof fn law_hex_digits(bytes: Seq<u8>, b: u8)
    ensures
        hex_text(bytes.push(b)).len() == hex_text(bytes).len() + 2,
        hex_text(bytes.push(b)).take(hex_text(bytes).len() as int) == hex_text(bytes),
        ({
            let high = hex_text(bytes.push(b))[hex_text(bytes).len() as int];
            let low = hex_text(bytes.push(b))[hex_text(bytes).len() as int + 1];
            &&& b / 16 < 10 ==> high as int == '0' as int + b / 16
            &&& b / 16 >= 10 ==> high as int == 'a' as int + (b / 16 - 10)
            &&& b % 16 < 10 ==> low as int == '0' as int + b % 16
            &&& b % 16 >= 10 ==> low as int == 'a' as int + (b % 16 - 10)
        }),
{
    assert(bytes.push(b).drop_last() =~= bytes);
    assert(hex_text(bytes.push(b)).take(hex_text(bytes).len() as int) =~= hex_text(bytes));
}

// ---------------------------------------------------------------------------
// Queries and statements
// ---------------------------------------------------------------------------

/// A query looks for its text as one quoted phrase, where it has any, and for
/// its class, where it names one; both have to hold.
pub proof fn law_query_conditions(q: Query)
    ensures
        ({
            let text = q.text is Some && q.text->Some_0@.len() > 0;
            let class = q.content_class is Some;
            &&& !text && !class ==> where_clause(q).len() == 0 && query_params(q).len() == 0
            &&& text && !class ==> where_clause(q)
                == "WHERE e.id IN (SELECT rowid FROM search_idx WHERE search_idx MATCH ?)"@
                && query_params(q).len() == 1
            &&& !text && class ==> where_clause(q) == "WHERE e.content_class = ?"@ && query_params(
                q,
            ).len() == 1
            &&& text && class ==> where_clause(q)
                == "WHERE e.id IN (SELECT rowid FROM search_idx WHERE search_idx MATCH ?) AND e.content_class = ?"@
                && query_params(q).len() == 2
            &&& text && !q.text->Some_0@.contains('"') ==> query_params(q)[0] == seq!['"']
                + q.text->Some_0@ + seq!['"']
            &&& class ==> query_params(q).last() == match q.content_class->Some_0 {
                ContentClass::Text => "text"@,
                ContentClass::RichText => "richtext"@,
                ContentClass::Image => "image"@,
                ContentClass::Files => "files"@,
                ContentClass::Url => "url"@,
            }
        }),
{
    reveal_strlit("\"");
    reveal_strlit("WHERE ");
    reveal_strlit(" AND ");
    reveal_strlit("e.content_class = ?");
    reveal_strlit("WHERE e.content_class = ?");
    reveal_strlit("e.id IN (SELECT rowid FROM search_idx WHERE search_idx MATCH ?)");
    reveal_strlit("WHERE e.id IN (SELECT rowid FROM search_idx WHERE search_idx MATCH ?)");
    reveal_strlit(
        "WHERE e.id IN (SELECT rowid FROM search_idx WHERE search_idx MATCH ?) AND e.content_class = ?",
    );
    let conditions = crate::storage::clip_store::query_conditions(q);
    if q.text is Some {
        law_replace(q.text->Some_0@, Seq::<char>::empty(), '"', "\"\""@);
    }
    if q.text is Some && q.text->Some_0@.len() > 0 {
        if q.content_class is Some {
            assert(conditions.drop_last() =~= seq![conditions[0]]);
            reveal_with_fuel(crate::text::join, 3);
            assert(where_clause(q)
                =~= "WHERE e.id IN (SELECT rowid FROM search_idx WHERE search_idx MATCH ?) AND e.content_class = ?"@);
        } else {
            assert(where_clause(q)
                =~= "WHERE e.id IN (SELECT rowid FROM search_idx WHERE search_idx MATCH ?)"@);
        }
        if !q.text->Some_0@.contains('"') {
            assert(query_params(q)[0] =~= seq!['"'] + q.text->Some_0@ + seq!['"']);
        }
    } else if q.content_class is Some {
        assert(where_clause(q) =~= "WHERE e.content_class = ?"@);
    }
}

/// A quotation mark inside the text of a query is doubled, so that it cannot
/// end the phrase.
pub proof fn law_query_quotes(a: Seq<char>, b: Seq<char>)
    ensures
        crate::text::replace_char(a + seq!['"'] + b, '"', "\"\""@) == crate::text::replace_char(
            a,
            '"',
            "\"\""@,
        ) + seq!['"', '"'] + crate::text::replace_char(b, '"', "\"\""@),
{
    reveal_strlit("\"\"");
    law_replace(a + seq!['"'], b, '"', "\"\""@);
    law_replace(a, seq!['"'], '"', "\"\""@);
    assert("\"\""@ =~= seq!['"', '"']);
}

/// A list of placeholders has one question mark for each value, with a comma
/// and a blank between neighbours.
pub proof fn law_placeholders(n: nat, i: int)
    requires
        n > 0,
    ensures
        placeholder_list(0).len() == 0,
        placeholder_list(n).len() == 3 * n - 2,
        0 <= i < n ==> placeholder_list(n)[3 * i] == '?',
        0 <= i < n - 1 ==> placeholder_list(n)[3 * i + 1] == ',' && placeholder_list(n)[3 * i + 2]
            == ' ',
    decreases n,
{
    reveal_strlit(", ?");
    if n > 1 {
        law_placeholders((n - 1) as nat, i);
    }
}

/// What is freed is the sum of the sizes that are known; a blob that was not
/// found frees nothing.
pub proof fn law_freed_bytes(sizes: Seq<Option<u64>>, size: u64)
    ensures
        known_sum(sizes.push(Some(size)), sizes.len() as int + 1) == known_sum(sizes, sizes.len() as int)
            + size,
        known_sum(sizes.push(None), sizes.len() as int + 1) == known_sum(sizes, sizes.len() as int),
        known_sum(Seq::<Option<u64>>::empty(), 0) == 0,
{
    lemma_known_prefix(sizes, Some(size), sizes.len() as int);
    lemma_known_prefix(sizes, None, sizes.len() as int);
}

proof fn lemma_known_prefix(sizes: Seq<Option<u64>>, more: Option<u64>, n: int)
    requires
        0 <= n <= sizes.len(),
    ensures
        known_sum(sizes.push(more), n) == known_sum(sizes, n),
    decreases n,
{
    if n > 0 {
        lemma_known_prefix(sizes, more, n - 1);
        assert(sizes.push(more)[n - 1] == sizes[n - 1]);
    }
}

/// The size of the blobs is the sum of their sizes; of it, orphans free what
/// they hold and blobs in use nothing.
pub proof fn law_blob_sizes(files: Seq<BlobFile>, valid: Seq<Seq<char>>, file: BlobFile)
    ensures
        size_sum(files.push(file), files.len() as int + 1) == size_sum(files, files.len() as int)
            + file.size,
        size_sum(Seq::<BlobFile>::empty(), 0) == 0,
        valid.contains(file.rel_path@) ==> orphan_sum(files.push(file), valid, files.len() as int + 1)
            == orphan_sum(files, valid, files.len() as int),
        !valid.contains(file.rel_path@) ==> orphan_sum(files.push(file), valid, files.len() as int + 1)
            == orphan_sum(files, valid, files.len() as int) + file.size,
        orphan_sum(Seq::<BlobFile>::empty(), valid, 0) == 0,
{
    lemma_sizes_prefix(files, valid, file, files.len() as int);
}

proof fn lemma_sizes_prefix(files: Seq<BlobFile>, valid: Seq<Seq<char>>, file: BlobFile, n: int)
    requires
        0 <= n <= files.len(),
    ensures
        size_sum(files.push(file), n) == size_sum(files, n),
        orphan_sum(files.push(file), valid, n) == orphan_sum(files, valid, n),
    decreases n,
{
    if n > 0 {
        lemma_sizes_prefix(files, valid, file, n - 1);
        assert(files.push(file)[n - 1] == files[n - 1]);
    }
}

// ---------------------------------------------------------------------------
// Integrity and migrations
// ---------------------------------------------------------------------------

/// Every complaint of the database is reported, and every reference to a blob
/// that is missing; `ok` and a blob that exists are no issue.
pub proof fn law_issues(
    messages: Seq<Seq<char>>,
    message: Seq<char>,
    refs: Seq<BlobReference>,
    b: BlobReference,
)
    ensures
        database_issues(messages.push(message), messages.len() as int + 1) == if message == "ok"@ {
            database_issues(messages, messages.len() as int)
        } else {
            database_issues(messages, messages.len() as int).push("sqlite: "@ + message)
        },
        blob_issues(refs.push(b), refs.len() as int + 1) == if b.exists {
            blob_issues(refs, refs.len() as int)
        } else {
            blob_issues(refs, refs.len() as int).push(missing_blob_message(b))
        },
        database_issues(Seq::<Seq<char>>::empty(), 0).len() == 0,
        blob_issues(Seq::<BlobReference>::empty(), 0).len() == 0,
        missing_blob_message(b) == "missing blob: entry_id="@ + signed_decimal(b.entry_id as int)
            + " mime="@ + b.mime@ + " path="@ + b.path@,
{
    lemma_issues_prefix(messages, message, refs, b, messages.len() as int, refs.len() as int);
}

proof fn lemma_issues_prefix(
    messages: Seq<Seq<char>>,
    message: Seq<char>,
    refs: Seq<BlobReference>,
    b: BlobReference,
    n: int,
    m: int,
)
    requires
        0 <= n <= messages.len(),
        0 <= m <= refs.len(),
    ensures
        database_issues(messages.push(message), n) == database_issues(messages, n),
        blob_issues(refs.push(b), m) == blob_issues(refs, m),
    decreases n + m,
{
    if n > 0 {
        lemma_issues_prefix(messages, message, refs, b, n - 1, m);
        assert(messages.push(message)[n - 1] == messages[n - 1]);
    } else if m > 0 {
        lemma_issues_prefix(messages, message, refs, b, n, m - 1);
        assert(refs.push(b)[m - 1] == refs[m - 1]);
    }
}

/// A database without a version gets the schema and the first version; one of
/// the first version gets its missing columns; a newer one is left alone.
pub proof fn law_migrations(version: u32, entries_exists: bool)
    ensures
        ({
            let fresh = migration_for(None, entries_exists);
            let known = migration_for(Some(version), entries_exists);
            &&& fresh.init_schema
            &&& fresh.ensure_metadata_columns == entries_exists
            &&& fresh.version_write == VersionWrite::Insert(1)
            &&& version == 0 ==> known.init_schema && known.ensure_metadata_columns
                == entries_exists && known.version_write == VersionWrite::Update(1)
            &&& version == 1 ==> !known.init_schema && known.ensure_metadata_columns
                && known.version_write == VersionWrite::Update(1)
            &&& version >= 2 ==> !known.init_schema && !known.ensure_metadata_columns
                && known.version_write == VersionWrite::Keep
        }),
{
}

/// A table gets exactly the metadata columns that it lacks.
pub proof fn law_columns_added(existing: Seq<Seq<char>>)
    ensures
        missing_statements(existing, 4).contains(
            "ALTER TABLE entries ADD COLUMN image_width INTEGER"@,
        ) || existing.contains("image_width"@),
        missing_statements(existing, 4).contains(
            "ALTER TABLE entries ADD COLUMN image_height INTEGER"@,
        ) || existing.contains("image_height"@),
        missing_statements(existing, 4).contains(
            "ALTER TABLE entries ADD COLUMN file_count INTEGER"@,
        ) || existing.contains("file_count"@),
        missing_statements(existing, 4).contains("ALTER TABLE entries ADD COLUMN url_domain TEXT"@)
            || existing.contains("url_domain"@),
        existing.contains("image_width"@) && existing.contains("image_height"@)
            && existing.contains("file_count"@) && existing.contains("url_domain"@)
            ==> missing_statements(existing, 4).len() == 0,
        missing_statements(existing, 4).len() == (if existing.contains("image_width"@) {
            0int
        } else {
            1int
        }) + (if existing.contains("image_height"@) {
            0int
        } else {
            1int
        }) + (if existing.contains("file_count"@) {
            0int
        } else {
            1int
        }) + (if existing.contains("url_domain"@) {
            0int
        } else {
            1int
        }),
{
    reveal_with_fuel(missing_statements, 5);
    let out = missing_statements(existing, 4);
    let n = out.len() as int;
    if !existing.contains("image_width"@) {
        assert(out[0] == "ALTER TABLE entries ADD COLUMN image_width INTEGER"@);
    }
    if !existing.contains("image_height"@) {
        let k = missing_statements(existing, 1).len() as int;
        assert(out[k] == "ALTER TABLE entries ADD COLUMN image_height INTEGER"@);
    }
    if !existing.contains("file_count"@) {
        let k = missing_statements(existing, 2).len() as int;
        assert(out[k] == "ALTER TABLE entries ADD COLUMN file_count INTEGER"@);
    }
    if !existing.contains("url_domain"@) {
        assert(out[n - 1] == "ALTER TABLE entries ADD COLUMN url_domain TEXT"@);
    }
}

} // verus!
