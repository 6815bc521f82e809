//! Content-addressed blobs: their names, and which of them are orphans.

use vstd::prelude::*;

use crate::config::join_path;
use crate::config::path_join;
use crate::text::concat2;
use crate::text::concat3;
use crate::text::from_chars;
use crate::text::lists_text;
use crate::text::same_text;
use crate::text::sub_chars;
use crate::text::texts;
use crate::text::to_chars;

verus! {

// ---------------------------------------------------------------------------
// Hexadecimal
// ---------------------------------------------------------------------------

/// The lowercase hexadecimal digit of a number below 16.
pub open spec fn hex_char(d: int) -> char {
    if d < 10 {
        (48 + d) as char
    } else {
        (87 + d) as char
    }
}

/// Bytes as lowercase hexadecimal, two digits for each.
pub open spec fn hex_text(bytes: Seq<u8>) -> Seq<char>
    decreases bytes.len(),
{
    if bytes.len() == 0 {
        Seq::<char>::empty()
    } else {
        hex_text(bytes.drop_last()) + seq![
            hex_char(bytes.last() as int / 16),
            hex_char(bytes.last() as int % 16),
        ]
    }
}

fn hex_digit_char(d: u8) -> (r: char)
    requires
        d < 16,
    ensures
        r == hex_char(d as int),
{
    if d < 10 {
        (48 + d) as char
    } else {
        (87 + d) as char
    }
}

/// Encode a byte slice as lowercase hexadecimal.
pub fn hex_encode(bytes: &[u8]) -> (r: String)
    ensures
        r@ == hex_text(bytes@),
{
    let mut out = String::new();
    let mut i: usize = 0;
    assert(bytes@.take(0) =~= Seq::<u8>::empty());
    while i < bytes.len()
        invariant
            i <= bytes@.len(),
            out@ == hex_text(bytes@.take(i as int)),
        decreases bytes@.len() - i,
    {
        let b: u8 = bytes[i];
        let ghost before = out@;
        assert(bytes@.take(i + 1).drop_last() =~= bytes@.take(i as int));
        out.push(hex_digit_char(b / 16));
        out.push(hex_digit_char(b % 16));
        assert(out@ =~= before + seq![hex_char(b as int / 16), hex_char(b as int % 16)]);
        i += 1;
    }
    assert(bytes@.take(bytes@.len() as int) =~= bytes@);
    out
}

proof fn lemma_hex_text_len(bytes: Seq<u8>)
    ensures
        hex_text(bytes).len() == 2 * bytes.len(),
    decreases bytes.len(),
{
    if bytes.len() > 0 {
        lemma_hex_text_len(bytes.drop_last());
    }
}

/// Different bytes have different hexadecimal forms.
pub proof fn law_hex_is_injective(a: Seq<u8>, b: Seq<u8>)
    requires
        hex_text(a) == hex_text(b),
    ensures
        a == b,
    decreases a.len(),
{
    lemma_hex_text_len(a);
    lemma_hex_text_len(b);
    if a.len() > 0 {
        let x = hex_text(a.drop_last());
        let y = hex_text(b.drop_last());
        lemma_hex_text_len(a.drop_last());
        lemma_hex_text_len(b.drop_last());
        let n = hex_text(a).len();
        assert(x =~= hex_text(a).take(n - 2));
        assert(y =~= hex_text(b).take(n - 2));
        law_hex_is_injective(a.drop_last(), b.drop_last());
        assert(hex_text(a)[n - 2] == hex_char(a.last() as int / 16));
        assert(hex_text(a)[n - 1] == hex_char(a.last() as int % 16));
        assert(hex_text(b)[n - 2] == hex_char(b.last() as int / 16));
        assert(hex_text(b)[n - 1] == hex_char(b.last() as int % 16));
        assert(a.last() == b.last());
        assert(a =~= a.drop_last().push(a.last()));
        assert(b =~= b.drop_last().push(b.last()));
    } else {
        assert(a =~= b);
    }
}

// ---------------------------------------------------------------------------
// Paths
// ---------------------------------------------------------------------------

/// The path of a blob below the blob directory: a directory named by the first
/// four hexadecimal digits of its hash, and in it a file named by all of them.
pub open spec fn blob_path(hash: Seq<u8>) -> Seq<char> {
    hex_text(hash).take(4) + "/"@ + hex_text(hash)
}

/// The directory of a blob below the blob directory, given its hash.
pub fn blob_prefix(hash: &[u8; 32]) -> (r: String)
    ensures
        r@ == hex_text(hash@).take(4),
{
    let hex = hex_encode(hash);
    proof {
        lemma_hex_text_len(hash@);
    }
    let chars = to_chars(hex.as_str());
    let prefix_chars = sub_chars(&chars, 0, 4);
    assert(prefix_chars@ =~= hex_text(hash@).take(4));
    from_chars(&prefix_chars)
}

/// The path of a blob below the blob directory, given its hash.
pub fn blob_rel_path(hash: &[u8; 32]) -> (r: String)
    ensures
        r@ == blob_path(hash@),
{
    let hex = hex_encode(hash);
    let prefix = blob_prefix(hash);
    concat3(prefix.as_str(), "/", hex.as_str())
}

/// Two blobs share a path only where their hashes are the same.
pub proof fn law_blob_path_is_injective(a: Seq<u8>, b: Seq<u8>)
    requires
        a.len() == 32,
        b.len() == 32,
        blob_path(a) == blob_path(b),
    ensures
        a == b,
{
    reveal_strlit("/");
    lemma_hex_text_len(a);
    lemma_hex_text_len(b);
    assert(hex_text(a) =~= blob_path(a).skip(5));
    assert(hex_text(b) =~= blob_path(b).skip(5));
    law_hex_is_injective(a, b);
}

/// Content-addressed blob storage.
///
/// Blobs are stored in a two-level directory hierarchy derived from the hex
/// encoding of their 32-byte hash. Writes are atomic: data is first written to
/// a temporary file, then renamed to its final location.
#[derive(Debug, Clone)]
pub struct BlobStore {
    base_dir: String,
}

impl BlobStore {
    /// The directory of the store.
    pub closed spec fn root(&self) -> Seq<char> {
        self.base_dir@
    }

    /// The blob store in a directory.
    pub fn new(base_dir: &str) -> (r: BlobStore)
        ensures
            r.root() == base_dir@,
    {
        BlobStore { base_dir: base_dir.to_owned() }
    }

    /// The directory of the store.
    pub fn base_dir(&self) -> (r: &str)
        ensures
            r@ == self.root(),
    {
        self.base_dir.as_str()
    }

    /// Where a blob lies, given its path below the blob directory.
    pub fn full_path(&self, rel_path: &str) -> (r: String)
        ensures
            r@ == path_join(self.root(), rel_path@),
    {
        join_path(self.base_dir.as_str(), rel_path)
    }

    /// The directory of temporary files.
    pub fn temp_dir(&self) -> (r: String)
        ensures
            r@ == path_join(self.root(), ".tmp"@),
    {
        join_path(self.base_dir.as_str(), ".tmp")
    }

    /// A temporary file, named by a number.
    pub fn temp_path(&self, number: u64) -> (r: String)
        ensures
            r@ == path_join(path_join(self.root(), ".tmp"@), temp_file_name(number)),
    {
        let dir = self.temp_dir();
        let hex = hex_encode(&number_bytes(number));
        let name = concat2(hex.as_str(), ".tmp");
        join_path(dir.as_str(), name.as_str())
    }

    /// Store data under the given hash: the path of the blob below the blob
    /// directory, and the steps that write it. Where a blob with that hash is
    /// already present, there is nothing to write.
    ///
    /// `number` names the temporary file.
    pub fn store(&self, hash: &[u8; 32], present: bool, number: u64) -> (r: (String, Vec<FileStep>))
        ensures
            r.0@ == blob_path(hash@),
            is_store(*self, hash@, present, number, r.1@),
    {
        let rel_path = blob_rel_path(hash);
        let mut steps: Vec<FileStep> = Vec::new();
        if !present {
            let prefix = blob_prefix(hash);
            let temp = self.temp_path(number);
            steps.push(FileStep::CreateDir { path: self.full_path(prefix.as_str()) });
            steps.push(FileStep::Write { path: temp.clone() });
            steps.push(FileStep::Rename { from: temp, to: self.full_path(rel_path.as_str()) });
        }
        (rel_path, steps)
    }

    /// Whether a directory entry of the store holds blobs: a directory, but
    /// not that of the temporary files.
    pub fn holds_blobs(name: &str, is_dir: bool) -> (r: bool)
        ensures
            r == (is_dir && name@ != ".tmp"@),
    {
        is_dir && !same_text(name, ".tmp")
    }

    /// The path of a blob below the blob directory, given where it was found.
    pub fn found_path(dir: &str, file: &str) -> (r: String)
        ensures
            r@ == dir@ + "/"@ + file@,
    {
        concat3(dir, "/", file)
    }

    /// The blobs that nothing refers to, in the order in which they were
    /// found, and the sum of their sizes.
    pub fn cleanup_orphans(files: &Vec<BlobFile>, valid_paths: &Vec<String>) -> (r: (
        Vec<String>,
        u64,
    ))
        requires
            size_sum(files@, files@.len() as int) <= u64::MAX,
        ensures
            texts(r.0@) == orphans(files@, texts(valid_paths@), files@.len() as int),
            r.1 == orphan_sum(files@, texts(valid_paths@), files@.len() as int),
    {
        let ghost valid = texts(valid_paths@);
        let mut doomed: Vec<String> = Vec::new();
        let mut freed: u64 = 0;
        let mut i: usize = 0;
        assert(texts(doomed@) =~= Seq::<Seq<char>>::empty());
        while i < files.len()
            invariant
                i <= files@.len(),
                valid == texts(valid_paths@),
                size_sum(files@, files@.len() as int) <= u64::MAX,
                texts(doomed@) == orphans(files@, valid, i as int),
                freed == orphan_sum(files@, valid, i as int),
            decreases files@.len() - i,
        {
            proof {
                lemma_orphan_sum_bound(files@, valid, i as int);
                lemma_size_sum_monotone(files@, i + 1, files@.len() as int);
            }
            let file = &files[i];
            if !lists_text(valid_paths, file.rel_path.as_str()) {
                let ghost before = texts(doomed@);
                doomed.push(file.rel_path.clone());
                assert(texts(doomed@) =~= before.push(file.rel_path@));
                freed = freed + file.size;
            }
            i += 1;
        }
        (doomed, freed)
    }

    /// The sum of the sizes of all blobs.
    pub fn total_size(files: &Vec<BlobFile>) -> (r: u64)
        requires
            size_sum(files@, files@.len() as int) <= u64::MAX,
        ensures
            r == size_sum(files@, files@.len() as int),
    {
        let mut total: u64 = 0;
        let mut i: usize = 0;
        while i < files.len()
            invariant
                i <= files@.len(),
                size_sum(files@, files@.len() as int) <= u64::MAX,
                total == size_sum(files@, i as int),
            decreases files@.len() - i,
        {
            proof {
                lemma_size_sum_monotone(files@, i + 1, files@.len() as int);
            }
            total = total + files[i].size;
            i += 1;
        }
        total
    }
}

// ---------------------------------------------------------------------------
// Writing a blob
// ---------------------------------------------------------------------------

/// A step of writing a blob.
#[derive(Debug, Clone)]
pub enum FileStep {
    /// Create a directory, and those above it.
    CreateDir { path: String },
    /// Write the data of the blob to a new file, and wait until it has reached
    /// the disk.
    Write { path: String },
    /// Give a file another name; a file of that name is replaced.
    Rename { from: String, to: String },
}

/// What files hold after a step, given what they held before and the data of
/// the blob.
pub open spec fn after_step(
    files: Map<Seq<char>, Seq<u8>>,
    step: FileStep,
    data: Seq<u8>,
) -> Map<Seq<char>, Seq<u8>> {
    match step {
        FileStep::CreateDir { .. } => files,
        FileStep::Write { path } => files.insert(path@, data),
        FileStep::Rename { from, to } => files.remove(from@).insert(to@, files[from@]),
    }
}

/// What files hold after the first `n` steps.
pub open spec fn after_steps(
    files: Map<Seq<char>, Seq<u8>>,
    steps: Seq<FileStep>,
    data: Seq<u8>,
    n: int,
) -> Map<Seq<char>, Seq<u8>>
    decreases n,
{
    if n <= 0 {
        files
    } else {
        after_step(after_steps(files, steps, data, n - 1), steps[n - 1], data)
    }
}

/// Where a blob lies.
pub open spec fn blob_file(store: BlobStore, hash: Seq<u8>) -> Seq<char> {
    path_join(store.root(), blob_path(hash))
}

/// Where a temporary file lies.
pub open spec fn temp_file(store: BlobStore, number: u64) -> Seq<char> {
    path_join(path_join(store.root(), ".tmp"@), temp_file_name(number))
}

/// The steps that store a blob: none where it is present; else its directory is
/// created, the data written to a temporary file, and that file renamed.
pub open spec fn is_store(
    store: BlobStore,
    hash: Seq<u8>,
    present: bool,
    number: u64,
    steps: Seq<FileStep>,
) -> bool {
    if present {
        steps.len() == 0
    } else {
        &&& steps.len() == 3
        &&& steps[0] matches FileStep::CreateDir { path }
        &&& path@ == path_join(store.root(), hex_text(hash).take(4))
        &&& steps[1] matches FileStep::Write { path: temp }
        &&& temp@ == temp_file(store, number)
        &&& steps[2] matches FileStep::Rename { from, to }
        &&& from@ == temp_file(store, number)
        &&& to@ == blob_file(store, hash)
    }
}

proof fn lemma_hex_starts_with_no_dot(bytes: Seq<u8>)
    requires
        bytes.len() > 0,
    ensures
        hex_text(bytes).len() > 0,
        hex_text(bytes)[0] != '.',
    decreases bytes.len(),
{
    lemma_hex_text_len(bytes);
    if bytes.len() > 1 {
        lemma_hex_starts_with_no_dot(bytes.drop_last());
    } else {
        assert(hex_text(bytes.drop_last()) =~= Seq::<char>::empty());
    }
}

/// No temporary file is a blob.
pub proof fn lemma_temp_is_no_blob(store: BlobStore, hash: Seq<u8>, number: u64)
    requires
        hash.len() == 32,
    ensures
        temp_file(store, number) != blob_file(store, hash),
{
    reveal_strlit("/");
    reveal_strlit(".tmp");
    lemma_hex_text_len(hash);
    lemma_hex_starts_with_no_dot(hash);
    let root = store.root();
    let at: int = if root.len() == 0 || root.last() == '/' {
        root.len() as int
    } else {
        root.len() as int + 1
    };
    assert(blob_path(hash)[0] == hex_text(hash)[0]);
    assert(blob_file(store, hash)[at] == blob_path(hash)[0]);
    assert(path_join(root, ".tmp"@)[at] == '.');
    assert(temp_file(store, number)[at] == '.');
}

/// Two blobs of a store lie in one file only where their hashes are the same.
pub proof fn lemma_blob_file_is_injective(store: BlobStore, a: Seq<u8>, b: Seq<u8>)
    requires
        a.len() == 32,
        b.len() == 32,
        blob_file(store, a) == blob_file(store, b),
    ensures
        a == b,
{
    reveal_strlit("/");
    let root = store.root();
    let at: int = if root.len() == 0 || root.last() == '/' {
        root.len() as int
    } else {
        root.len() as int + 1
    };
    assert(blob_path(a) =~= blob_file(store, a).skip(at));
    assert(blob_path(b) =~= blob_file(store, b).skip(at));
    law_blob_path_is_injective(a, b);
}

/// A blob that was not there before reads back, once stored, as the data that
/// was stored; one that was there keeps its data. The temporary file is gone
/// after a write, and every other file is as it was.
pub proof fn law_stored_blob_reads_back(
    store: BlobStore,
    hash: Seq<u8>,
    number: u64,
    data: Seq<u8>,
    steps: Seq<FileStep>,
    files: Map<Seq<char>, Seq<u8>>,
    other: Seq<char>,
)
    requires
        hash.len() == 32,
        is_store(store, hash, files.dom().contains(blob_file(store, hash)), number, steps),
        other != blob_file(store, hash),
        other != temp_file(store, number),
    ensures
        ({
            let after = after_steps(files, steps, data, steps.len() as int);
            &&& after.dom().contains(blob_file(store, hash))
            &&& after[blob_file(store, hash)] == if files.dom().contains(blob_file(store, hash)) {
                files[blob_file(store, hash)]
            } else {
                data
            }
            &&& !files.dom().contains(blob_file(store, hash)) ==> !after.dom().contains(
                temp_file(store, number),
            )
            &&& after.dom().contains(other) == files.dom().contains(other)
            &&& files.dom().contains(other) ==> after[other] == files[other]
        }),
{
    reveal_with_fuel(after_steps, 4);
    lemma_temp_is_no_blob(store, hash, number);
}

/// Storing a blob twice writes it once: once the steps of the first time are
/// done it is present, and a second time leaves every file as it is.
pub proof fn law_second_store_writes_nothing(
    store: BlobStore,
    hash: Seq<u8>,
    number: u64,
    data: Seq<u8>,
    steps: Seq<FileStep>,
    files: Map<Seq<char>, Seq<u8>>,
    again: Seq<FileStep>,
    second_number: u64,
    second_data: Seq<u8>,
)
    requires
        hash.len() == 32,
        is_store(store, hash, files.dom().contains(blob_file(store, hash)), number, steps),
        is_store(
            store,
            hash,
            after_steps(files, steps, data, steps.len() as int).dom().contains(
                blob_file(store, hash),
            ),
            second_number,
            again,
        ),
    ensures
        after_steps(
            after_steps(files, steps, data, steps.len() as int),
            again,
            second_data,
            again.len() as int,
        ) == after_steps(files, steps, data, steps.len() as int),
{
    reveal_with_fuel(after_steps, 4);
    lemma_temp_is_no_blob(store, hash, number);
}

/// A number as eight bytes, the most significant first.
pub open spec fn number_seq(n: u64) -> Seq<u8> {
    seq![
        (n / 0x100_0000_0000_0000) as u8,
        ((n / 0x1_0000_0000_0000) % 256) as u8,
        ((n / 0x100_0000_0000) % 256) as u8,
        ((n / 0x1_0000_0000) % 256) as u8,
        ((n / 0x100_0000) % 256) as u8,
        ((n / 0x1_0000) % 256) as u8,
        ((n / 0x100) % 256) as u8,
        (n % 256) as u8,
    ]
}

/// The name of a temporary file: a number as sixteen hexadecimal digits.
pub open spec fn temp_file_name(n: u64) -> Seq<char> {
    hex_text(number_seq(n)) + ".tmp"@
}

fn number_bytes(n: u64) -> (r: Vec<u8>)
    ensures
        r@ == number_seq(n),
{
    let mut out: Vec<u8> = Vec::new();
    out.push((n / 0x100_0000_0000_0000) as u8);
    out.push(((n / 0x1_0000_0000_0000) % 256) as u8);
    out.push(((n / 0x100_0000_0000) % 256) as u8);
    out.push(((n / 0x1_0000_0000) % 256) as u8);
    out.push(((n / 0x100_0000) % 256) as u8);
    out.push(((n / 0x1_0000) % 256) as u8);
    out.push(((n / 0x100) % 256) as u8);
    out.push((n % 256) as u8);
    assert(out@ =~= number_seq(n));
    out
}

// ---------------------------------------------------------------------------
// Orphans
// ---------------------------------------------------------------------------

/// A blob file: its path below the blob directory, and its size in bytes.
#[derive(Debug, Clone)]
pub struct BlobFile {
    pub rel_path: String,
    pub size: u64,
}

/// The sum of the sizes of the first `n` files.
pub open spec fn size_sum(files: Seq<BlobFile>, n: int) -> int
    decreases n,
{
    if n <= 0 {
        0
    } else {
        size_sum(files, n - 1) + files[n - 1].size
    }
}

/// Those of the first `n` files that nothing refers to.
pub open spec fn orphans(files: Seq<BlobFile>, valid: Seq<Seq<char>>, n: int) -> Seq<Seq<char>>
    decreases n,
{
    if n <= 0 {
        Seq::<Seq<char>>::empty()
    } else if valid.contains(files[n - 1].rel_path@) {
        orphans(files, valid, n - 1)
    } else {
        orphans(files, valid, n - 1).push(files[n - 1].rel_path@)
    }
}

/// The sum of the sizes of those of the first `n` files that nothing refers to.
pub open spec fn orphan_sum(files: Seq<BlobFile>, valid: Seq<Seq<char>>, n: int) -> int
    decreases n,
{
    if n <= 0 {
        0
    } else if valid.contains(files[n - 1].rel_path@) {
        orphan_sum(files, valid, n - 1)
    } else {
        orphan_sum(files, valid, n - 1) + files[n - 1].size
    }
}

proof fn lemma_size_sum_monotone(files: Seq<BlobFile>, a: int, b: int)
    requires
        0 <= a <= b <= files.len(),
    ensures
        0 <= size_sum(files, a) <= size_sum(files, b),
    decreases b,
{
    if a < b {
        lemma_size_sum_monotone(files, a, b - 1);
    } else if a > 0 {
        lemma_size_sum_monotone(files, a - 1, a - 1);
    }
}

proof fn lemma_orphan_sum_bound(files: Seq<BlobFile>, valid: Seq<Seq<char>>, n: int)
    requires
        0 <= n <= files.len(),
    ensures
        0 <= orphan_sum(files, valid, n) <= size_sum(files, n),
    decreases n,
{
    if n > 0 {
        lemma_orphan_sum_bound(files, valid, n - 1);
    }
}

proof fn lemma_orphans(files: Seq<BlobFile>, valid: Seq<Seq<char>>, n: int, path: Seq<char>)
    requires
        0 <= n <= files.len(),
    ensures
        orphans(files, valid, n).contains(path) <==> (!valid.contains(path) && exists|i: int|
            0 <= i < n && (#[trigger] files[i]).rel_path@ == path),
    decreases n,
{
    if n > 0 {
        let before = orphans(files, valid, n - 1);
        let now = orphans(files, valid, n);
        lemma_orphans(files, valid, n - 1, path);
        if before.contains(path) {
            let k = choose|k: int| 0 <= k < before.len() && before[k] == path;
            assert(now[k] == path);
        }
        if files[n - 1].rel_path@ == path && !valid.contains(path) {
            assert(now[now.len() - 1] == path);
        }
        if now.contains(path) && !before.contains(path) {
            let k = choose|k: int| 0 <= k < now.len() && now[k] == path;
            assert(k == before.len());
            assert(files[n - 1].rel_path@ == path);
        }
    }
}

/// Cleaning up deletes exactly the blobs that nothing refers to: a blob that
/// is referred to is never deleted, and every other one is.
pub proof fn law_only_orphans_deleted(files: Seq<BlobFile>, valid: Seq<Seq<char>>, path: Seq<char>)
    ensures
        orphans(files, valid, files.len() as int).contains(path) <==> (!valid.contains(path)
            && exists|i: int| 0 <= i < files.len() && (#[trigger] files[i]).rel_path@ == path),
{
    lemma_orphans(files, valid, files.len() as int, path);
}

} // verus!
