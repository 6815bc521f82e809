//! The data that the daemon, the command line and the popup exchange.

use std::str::FromStr;

use vstd::prelude::*;

use crate::error::NixClipError;
use crate::text::concat2;
use crate::text::same_text;

verus! {

/// Identifies a history entry.
pub type EntryId = i64;

// ---------------------------------------------------------------------------
// ContentClass
// ---------------------------------------------------------------------------

/// The kind of content that an entry holds.
#[derive(Debug, Clone, Copy, PartialEq, Eq, Hash, Structural)]
pub enum ContentClass {
    Text,
    RichText,
    Image,
    Files,
    Url,
}

/// The name of a content class, as stored and as sent.
pub open spec fn class_name(class: ContentClass) -> Seq<char> {
    match class {
        ContentClass::Text => "text"@,
        ContentClass::RichText => "richtext"@,
        ContentClass::Image => "image"@,
        ContentClass::Files => "files"@,
        ContentClass::Url => "url"@,
    }
}

/// `name` is the name of some content class.
pub open spec fn names_class(name: Seq<char>) -> bool {
    exists|class: ContentClass| #[trigger] class_name(class) == name
}

/// The names of two different classes differ.
pub proof fn law_class_names_differ(a: ContentClass, b: ContentClass)
    requires
        class_name(a) == class_name(b),
    ensures
        a == b,
{
    lemma_class_names_differ(a, b);
}

proof fn lemma_class_names_differ(a: ContentClass, b: ContentClass)
    ensures
        class_name(a) == class_name(b) ==> a == b,
{
    reveal_strlit("text");
    reveal_strlit("richtext");
    reveal_strlit("image");
    reveal_strlit("files");
    reveal_strlit("url");
    if a != b && class_name(a) == class_name(b) {
        assert(class_name(a).len() == class_name(b).len());
        assert("image"@[0] == 'i');
        assert("files"@[0] == 'f');
    }
}

impl ContentClass {
    /// The name of the class.
    pub fn as_str(&self) -> (r: &'static str)
        ensures
            r@ == class_name(*self),
    {
        match self {
            ContentClass::Text => "text",
            ContentClass::RichText => "richtext",
            ContentClass::Image => "image",
            ContentClass::Files => "files",
            ContentClass::Url => "url",
        }
    }

    /// The class with the given name.
    ///
    /// # Errors
    ///
    /// [`NixClipError::Pipeline`] where no class has that name.
    pub fn parse(s: &str) -> (r: Result<ContentClass, NixClipError>)
        ensures
            match r {
                Ok(class) => class_name(class) == s@,
                Err(e) => {
                    &&& !names_class(s@)
                    &&& e is Pipeline
                    &&& e.cause() == "unknown content class: "@ + s@
                },
            },
    {
        if same_text(s, "text") {
            Ok(ContentClass::Text)
        } else if same_text(s, "richtext") {
            Ok(ContentClass::RichText)
        } else if same_text(s, "image") {
            Ok(ContentClass::Image)
        } else if same_text(s, "files") {
            Ok(ContentClass::Files)
        } else if same_text(s, "url") {
            Ok(ContentClass::Url)
        } else {
            assert(!names_class(s@)) by {
                if names_class(s@) {
                    let class = choose|class: ContentClass| #[trigger] class_name(class) == s@;
                    match class {
                        ContentClass::Text => {},
                        ContentClass::RichText => {},
                        ContentClass::Image => {},
                        ContentClass::Files => {},
                        ContentClass::Url => {},
                    }
                }
            }
            Err(NixClipError::Pipeline(concat2("unknown content class: ", s)))
        }
    }

    /// The class with the given name, or `Text` where no class has it. This is
    /// how a stored class is read back.
    pub fn parse_or_text(s: &str) -> (r: ContentClass)
        ensures
            names_class(s@) ==> class_name(r) == s@,
            !names_class(s@) ==> r == ContentClass::Text,
    {
        match Self::parse(s) {
            Ok(class) => class,
            Err(_) => ContentClass::Text,
        }
    }
}

/// Parsing the name of a class gives the class back: whatever `parse` accepts
/// for that name can only be that class.
pub proof fn law_class_name_round_trip(class: ContentClass, parsed: ContentClass)
    requires
        class_name(parsed) == class_name(class),
    ensures
        parsed == class,
        names_class(class_name(class)),
{
    lemma_class_names_differ(parsed, class);
}

impl FromStr for ContentClass {
    type Err = NixClipError;

    /// [`ContentClass::parse`], for `str::parse`.
    fn from_str(s: &str) -> (r: Result<ContentClass, NixClipError>)
        ensures
            match r {
                Ok(class) => class_name(class) == s@,
                Err(e) => {
                    &&& !names_class(s@)
                    &&& e is Pipeline
                    &&& e.cause() == "unknown content class: "@ + s@
                },
            },
    {
        ContentClass::parse(s)
    }
}

// ---------------------------------------------------------------------------
// RestoreMode
// ---------------------------------------------------------------------------

/// How an entry is put back on the clipboard.
#[derive(Debug, Clone, Copy, PartialEq, Eq, Structural)]
pub enum RestoreMode {
    Original,
    PlainText,
}

// ---------------------------------------------------------------------------
// MimePayload and Representation
// ---------------------------------------------------------------------------

/// Bytes offered under one MIME type.
#[derive(Debug, Clone)]
pub struct MimePayload {
    pub mime: String,
    pub data: Vec<u8>,
}

/// What a payload or a stored representation holds.
pub struct PayloadView {
    pub mime: Seq<char>,
    pub data: Seq<u8>,
}

impl View for MimePayload {
    type V = PayloadView;

    open spec fn view(&self) -> PayloadView {
        PayloadView { mime: self.mime@, data: self.data@ }
    }
}

/// What each payload of a sequence holds.
pub open spec fn payloads(v: Seq<MimePayload>) -> Seq<PayloadView> {
    v.map_values(|p: MimePayload| p@)
}

impl MimePayload {
    /// A payload that holds the same.
    pub(crate) fn duplicate(&self) -> (r: MimePayload)
        ensures
            r@ == self@,
    {
        let data = self.data.clone();
        assert(data@ =~= self.data@);
        MimePayload { mime: self.mime.clone(), data }
    }
}

/// Bytes stored under one MIME type.
#[derive(Debug, Clone)]
pub struct Representation {
    pub mime: String,
    pub data: Vec<u8>,
}

impl View for Representation {
    type V = PayloadView;

    open spec fn view(&self) -> PayloadView {
        PayloadView { mime: self.mime@, data: self.data@ }
    }
}

/// What each representation of a sequence holds.
pub open spec fn representation_views(v: Seq<Representation>) -> Seq<PayloadView> {
    v.map_values(|p: Representation| p@)
}

// ---------------------------------------------------------------------------
// Entries
// ---------------------------------------------------------------------------

/// An entry that is about to be stored.
#[derive(Debug, Clone)]
pub struct NewEntry {
    pub content_class: ContentClass,
    pub preview_text: Option<String>,
    pub canonical_hash: [u8; 32],
    pub representations: Vec<MimePayload>,
    pub source_app: Option<String>,
    pub ephemeral: bool,
}

/// An entry of the history, as listed.
#[derive(Debug, Clone)]
pub struct EntrySummary {
    pub id: EntryId,
    /// Unix timestamp in milliseconds.
    pub created_at: i64,
    /// Unix timestamp in milliseconds.
    pub last_seen_at: i64,
    pub pinned: bool,
    pub ephemeral: bool,
    pub content_class: ContentClass,
    pub preview_text: Option<String>,
    pub source_app: Option<String>,
    pub thumbnail: Option<Vec<u8>>,
    /// Byte ranges in `preview_text` that matched the search query, each as
    /// (first byte, number of bytes). Empty where there is no query.
    pub match_ranges: Vec<(u32, u32)>,
}

/// The text that an optional string holds.
pub open spec fn optional_text(s: Option<String>) -> Option<Seq<char>> {
    match s {
        Some(s) => Some(s@),
        None => None,
    }
}

/// The text that an optional string slice holds.
pub open spec fn optional_str(s: Option<&str>) -> Option<Seq<char>> {
    match s {
        Some(s) => Some(s@),
        None => None,
    }
}

/// What was found out about an entry while it was processed.
#[derive(Debug, Clone)]
pub struct EntryMetadata {
    pub image_dimensions: Option<(u32, u32)>,
    pub file_count: Option<usize>,
    pub url_domain: Option<String>,
}

impl Default for EntryMetadata {
    fn default() -> (r: Self)
        ensures
            r.image_dimensions is None,
            r.file_count is None,
            r.url_domain is None,
    {
        EntryMetadata { image_dimensions: None, file_count: None, url_domain: None }
    }
}

/// The outcome of processing a clipboard offer.
#[derive(Debug, Clone)]
pub struct ProcessedEntry {
    pub content_class: ContentClass,
    pub preview_text: Option<String>,
    pub canonical_hash: [u8; 32],
    pub representations: Vec<MimePayload>,
    pub thumbnail: Option<Vec<u8>>,
    pub metadata: EntryMetadata,
}

// ---------------------------------------------------------------------------
// Queries and statistics
// ---------------------------------------------------------------------------

/// A request for a page of the history.
#[derive(Debug, Clone)]
pub struct Query {
    pub text: Option<String>,
    pub content_class: Option<ContentClass>,
    pub offset: u32,
    pub limit: u32,
}

/// A page of the history, and how many entries there are in all.
#[derive(Debug, Clone)]
pub struct QueryResult {
    pub entries: Vec<EntrySummary>,
    pub total: u32,
}

/// What a prune pass removed.
#[derive(Debug, Clone, Copy, PartialEq, Eq, Structural)]
pub struct PruneStats {
    pub entries_deleted: u32,
    pub blobs_deleted: u32,
    pub bytes_freed: u64,
}

/// The size of the store.
#[derive(Debug, Clone, Copy, PartialEq, Eq, Structural)]
pub struct StoreStats {
    pub entry_count: u64,
    pub blob_size_bytes: u64,
    pub db_size_bytes: u64,
}

} // verus!
