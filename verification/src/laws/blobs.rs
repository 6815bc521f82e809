//! What the blob store is for.

use vstd::prelude::*;

use crate::config::path_join;
use crate::storage::blob::after_step;
use crate::storage::blob::after_steps;
use crate::storage::blob::blob_file;
use crate::storage::blob::blob_path;
use crate::storage::blob::hex_text;
use crate::storage::blob::is_store;
use crate::storage::blob::number_seq;
use crate::storage::blob::orphans;
use crate::storage::blob::temp_file;
use crate::storage::blob::temp_file_name;
use crate::storage::blob::BlobFile;
use crate::storage::blob::BlobStore;
use crate::storage::blob::FileStep;
use crate::storage::clip_store::has_text;
use crate::storage::clip_store::is_latest;
use crate::storage::clip_store::is_source;
use crate::storage::clip_store::read_back;
use crate::storage::clip_store::read_stored;
use crate::storage::clip_store::stored_row;
use crate::storage::clip_store::DataSource;
use crate::storage::clip_store::Placement;
use crate::storage::clip_store::SeenHash;
use crate::storage::clip_store::StoredPayload;
use crate::storage::migrations::recorded;
use crate::storage::migrations::versions_after;
use crate::storage::migrations::VersionWrite;
use crate::types::Query;

verus! {

// ---------------------------------------------------------------------------
// Names
// ---------------------------------------------------------------------------

/// A blob lies in a directory named by the four hexadecimal digits of the
/// first two bytes of its hash, under a name of all the digits.
pub proof fn law_blob_path(hash: Seq<u8>)
    requires
        hash.len() >= 2,
    ensures
        blob_path(hash) == hex_text(hash.take(2)) + seq!['/'] + hex_text(hash),
{
    reveal_strlit("/");
    assert("/"@ =~= seq!['/']);
    lemma_hex_prefix(hash, 2);
}

proof fn lemma_hex_prefix(bytes: Seq<u8>, n: int)
    requires
        0 <= n <= bytes.len(),
    ensures
        hex_text(bytes).len() == 2 * bytes.len(),
        hex_text(bytes).take(2 * n) == hex_text(bytes.take(n)),
    decreases bytes.len(),
{
    if bytes.len() == 0 {
        assert(bytes.take(n) =~= bytes);
        assert(hex_text(bytes).take(0) =~= hex_text(bytes));
    } else if n == bytes.len() {
        lemma_hex_prefix(bytes.drop_last(), 0);
        assert(bytes.take(n) =~= bytes);
        assert(hex_text(bytes).take(2 * n) =~= hex_text(bytes));
    } else {
        let short = bytes.drop_last();
        lemma_hex_prefix(short, n);
        assert(bytes.take(n) =~= short.take(n));
        assert(hex_text(bytes).take(2 * n) =~= hex_text(short).take(2 * n));
    }
}

/// A number becomes eight bytes that stand for it, the most significant first;
/// its temporary file is named by their sixteen digits.
pub proof fn law_temporary_name(n: u64)
    ensures
        ({
            let b = number_seq(n);
            &&& b.len() == 8
            &&& ((((((b[0] * 256 + b[1]) * 256 + b[2]) * 256 + b[3]) * 256 + b[4]) * 256 + b[5])
                * 256 + b[6]) * 256 + b[7] == n
        }),
        temp_file_name(n).len() == 20,
        temp_file_name(n).take(16) == hex_text(number_seq(n)),
        temp_file_name(n).skip(16) == ".tmp"@,
{
    reveal_strlit(".tmp");
    lemma_hex_prefix(number_seq(n), 0);
    assert(temp_file_name(n).take(16) =~= hex_text(number_seq(n)));
    assert(temp_file_name(n).skip(16) =~= ".tmp"@);
}

/// Blobs and temporary files lie below the directory of the store, the latter
/// in a directory of their own.
pub proof fn law_store_places(store: BlobStore, hash: Seq<u8>, number: u64)
    requires
        store.root().len() > 0,
        store.root().last() != '/',
    ensures
        blob_file(store, hash) == store.root() + "/"@ + blob_path(hash),
        temp_file(store, number) == store.root() + "/.tmp/"@ + temp_file_name(number),
{
    reveal_strlit("/");
    reveal_strlit(".tmp");
    reveal_strlit("/.tmp/");
    let dir = path_join(store.root(), ".tmp"@);
    assert(dir.last() == 'p');
    assert("/"@ + ".tmp"@ + "/"@ =~= "/.tmp/"@);
    assert(temp_file(store, number) =~= store.root() + "/.tmp/"@ + temp_file_name(number));
}

// ---------------------------------------------------------------------------
// Steps
// ---------------------------------------------------------------------------

/// Creating a directory changes no file. Writing gives one file the data and
/// changes no other. Renaming moves a file, and the old name is gone.
pub proof fn law_file_steps(
    files: Map<Seq<char>, Seq<u8>>,
    from: String,
    to: String,
    data: Seq<u8>,
    other: Seq<char>,
)
    requires
        files.dom().contains(from@),
        from@ != to@,
        other != from@,
        other != to@,
    ensures
        after_step(files, FileStep::CreateDir { path: to }, data) == files,
        ({
            let written = after_step(files, FileStep::Write { path: to }, data);
            &&& written.dom().contains(to@) && written[to@] == data
            &&& written.dom().contains(from@) && written[from@] == files[from@]
            &&& written.dom().contains(other) <==> files.dom().contains(other)
            &&& files.dom().contains(other) ==> written[other] == files[other]
        }),
        ({
            let moved = after_step(files, FileStep::Rename { from, to }, data);
            &&& moved.dom().contains(to@) && moved[to@] == files[from@]
            &&& !moved.dom().contains(from@)
            &&& moved.dom().contains(other) <==> files.dom().contains(other)
            &&& files.dom().contains(other) ==> moved[other] == files[other]
        }),
{
}

/// Steps are taken one after the other.
pub proof fn law_steps_in_order(
    files: Map<Seq<char>, Seq<u8>>,
    steps: Seq<FileStep>,
    step: FileStep,
    data: Seq<u8>,
)
    ensures
        after_steps(files, steps.push(step), data, steps.len() as int + 1) == after_step(
            after_steps(files, steps, data, steps.len() as int),
            step,
            data,
        ),
        after_steps(files, steps, data, 0) == files,
{
    lemma_same_steps(files, steps, steps.push(step), data, steps.len() as int);
    assert(steps.push(step)[steps.len() as int] == step);
}

proof fn lemma_same_steps(
    files: Map<Seq<char>, Seq<u8>>,
    a: Seq<FileStep>,
    b: Seq<FileStep>,
    data: Seq<u8>,
    n: int,
)
    requires
        n <= a.len(),
        n <= b.len(),
        forall|i: int| 0 <= i < n ==> a[i] == b[i],
    ensures
        after_steps(files, a, data, n) == after_steps(files, b, data, n),
    decreases n,
{
    if n > 0 {
        lemma_same_steps(files, a, b, data, n - 1);
        assert(a[n - 1] == b[n - 1]);
    }
}

/// A blob that is present is not written again; else its directory is created,
/// the data written to a temporary file, and only then is that file given the
/// name of the blob.
pub proof fn law_blob_is_stored_whole(
    store: BlobStore,
    hash: Seq<u8>,
    number: u64,
    steps: Seq<FileStep>,
)
    requires
        store.root().len() > 0,
        store.root().last() != '/',
        hash.len() >= 2,
    ensures
        is_store(store, hash, true, number, steps) ==> steps.len() == 0,
        is_store(store, hash, false, number, steps) ==> {
            &&& steps.len() == 3
            &&& steps[0] matches FileStep::CreateDir { path }
            &&& path@ == store.root() + "/"@ + hex_text(hash.take(2))
            &&& steps[1] matches FileStep::Write { path: temp }
            &&& temp@ == store.root() + "/.tmp/"@ + temp_file_name(number)
            &&& steps[2] matches FileStep::Rename { from, to }
            &&& from@ == temp@
            &&& to@ == store.root() + "/"@ + blob_path(hash)
        },
{
    lemma_hex_prefix(hash, 2);
    law_store_places(store, hash, number);
}

/// The blobs that are deleted are listed in the order in which they were
/// found, each once more where it was found once more.
pub proof fn law_orphans_in_order(files: Seq<BlobFile>, valid: Seq<Seq<char>>, file: BlobFile)
    ensures
        orphans(files.push(file), valid, files.len() as int + 1) == (if valid.contains(
            file.rel_path@,
        ) {
            orphans(files, valid, files.len() as int)
        } else {
            orphans(files, valid, files.len() as int).push(file.rel_path@)
        }),
{
    lemma_same_orphans(files, files.push(file), valid, files.len() as int);
    assert(files.push(file)[files.len() as int] == file);
}

proof fn lemma_same_orphans(a: Seq<BlobFile>, b: Seq<BlobFile>, valid: Seq<Seq<char>>, n: int)
    requires
        n <= a.len(),
        n <= b.len(),
        forall|i: int| 0 <= i < n ==> a[i] == b[i],
    ensures
        orphans(a, valid, n) == orphans(b, valid, n),
    decreases n,
{
    if n > 0 {
        lemma_same_orphans(a, b, valid, n - 1);
        assert(a[n - 1] == b[n - 1]);
    }
}

// ---------------------------------------------------------------------------
// Rows
// ---------------------------------------------------------------------------

/// Inline data is read from its row, whatever lies on disk; other data from
/// the blob whose path is in the row; and a row with neither holds nothing.
pub proof fn law_data_of_a_row(
    data: Seq<u8>,
    path: Seq<char>,
    blob: Option<Seq<char>>,
    blobs: Map<Seq<char>, Seq<u8>>,
    store: BlobStore,
)
    ensures
        read_back((Some(data), blob), blobs) == data,
        read_back((None, Some(path)), blobs) == blobs[path],
        read_back((None, None), blobs).len() == 0,
        read_stored(store, (Some(data), blob), blobs) == data,
        read_stored(store, (None, Some(path)), blobs) == blobs[path_join(store.root(), path)],
        read_stored(store, (None, None), blobs).len() == 0,
{
}

/// What is stored inline has its data in its row and no path; what is stored as
/// a blob has the path and no data.
pub proof fn law_row_of_data(stored: StoredPayload)
    ensures
        match stored.placement {
            Placement::Inline(data) => stored_row(stored).0 == Some(data@) && stored_row(stored).1
                is None,
            Placement::Blob { path, .. } => stored_row(stored).0 is None && stored_row(stored).1
                == Some(path@),
        },
{
}

/// The data of a representation comes out of its row where it is there, else
/// out of the blob where there is a path, and else nothing is there.
pub proof fn law_source_of_data(
    inline_data: Option<Vec<u8>>,
    blob: Option<String>,
    source: DataSource,
)
    requires
        is_source(inline_data, blob, source),
    ensures
        inline_data is Some <==> source is Inline,
        inline_data is None && blob is Some <==> source is Blob,
        inline_data is None && blob is None <==> source is Missing,
        source matches DataSource::Inline(d) ==> inline_data == Some(d),
        source matches DataSource::Blob(p) ==> blob == Some(p),
{
}

/// The latest entry is one that no entry was seen after.
pub proof fn law_latest(rows: Seq<SeenHash>, i: int, j: int)
    requires
        0 <= i < rows.len(),
        0 <= j < rows.len(),
    ensures
        rows[j].last_seen_at > rows[i].last_seen_at ==> !is_latest(rows, i),
        !is_latest(rows, -1) && !is_latest(rows, rows.len() as int),
        (forall|k: int|
            0 <= k < rows.len() ==> (#[trigger] rows[k]).last_seen_at <= rows[i].last_seen_at)
            ==> is_latest(rows, i),
{
}

/// A query without a text, or with an empty one, searches for no text.
pub proof fn law_text_of_a_query(q: Query)
    ensures
        q.text is None ==> !has_text(q),
        q.text matches Some(t) ==> (has_text(q) <==> t@.len() > 0),
{
}

/// Writing a version leaves one that reads back, and no other one beside it
/// where there was no more than one.
pub proof fn law_version_reads_back(rows: Seq<u32>, v: u32)
    requires
        rows.len() <= 1,
    ensures
        versions_after(rows, VersionWrite::Keep) == rows,
        rows.len() == 0 ==> versions_after(rows, VersionWrite::Insert(v)) == seq![v],
        rows.len() == 1 ==> versions_after(rows, VersionWrite::Update(v)) == seq![v],
        recorded(seq![v]) == Some(v),
        recorded(Seq::<u32>::empty()) is None,
{
    if rows.len() == 0 {
        assert(rows.push(v) =~= seq![v]);
    } else {
        assert(versions_after(rows, VersionWrite::Update(v)) =~= seq![v]);
    }
}

} // verus!
