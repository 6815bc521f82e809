//! From a clipboard event to a new entry.

use vstd::prelude::*;

use crate::error::NixClipError;
use crate::error::Result;
use crate::pipeline::privacy::FilterResult;
use crate::pipeline::privacy::PrivacyFilter;
use crate::pipeline::processor::is_processed;
use crate::pipeline::processor::offered_class;
use crate::pipeline::processor::ContentProcessor;
use crate::pipeline::processor::ProcessedView;
use crate::text::texts;
use crate::types::optional_text;
use crate::types::payloads;
use crate::types::MimePayload;
use crate::types::NewEntry;
use crate::types::PayloadView;
use crate::types::ProcessedEntry;
use crate::types::Representation;

verus! {

/// A megabyte, the unit of the size of the largest entry, in bytes.
pub const MEGABYTE: u64 = 1_048_576;

/// A single clipboard selection event received from the backend.
#[derive(Debug, Clone)]
pub struct ClipboardEvent {
    /// MIME types offered by the clipboard source.
    pub offered_mimes: Vec<String>,
    /// Actual data payloads read for relevant MIME types.
    pub payloads: Vec<MimePayload>,
    /// The desktop-entry or app-id of the source application, if available.
    pub source_app: Option<String>,
}

/// An event is looked at: the screen is not locked, and neither the source nor
/// the offered types are ignored.
pub open spec fn is_admitted(locked: bool, filter: PrivacyFilter, event: ClipboardEvent) -> bool {
    !locked && filter.pre_content(optional_text(event.source_app), texts(event.offered_mimes@))
        != FilterResult::Reject
}

/// `entry` is the entry of processed content from a source: content that
/// matches a sensitive pattern makes an ephemeral one.
pub open spec fn is_entry(
    entry: NewEntry,
    processed: ProcessedView,
    source_app: Option<Seq<char>>,
    filter: PrivacyFilter,
) -> bool {
    &&& entry.content_class == processed.content_class
    &&& optional_text(entry.preview_text) == processed.preview
    &&& entry.canonical_hash@ == processed.canonical_hash
    &&& payloads(entry.representations@) == processed.representations
    &&& optional_text(entry.source_app) == source_app
    &&& entry.ephemeral == (filter.by_content(processed.preview) == FilterResult::Ephemeral)
}

/// Whether an event is looked at.
pub fn admits(locked: bool, filter: &PrivacyFilter, event: &ClipboardEvent) -> (r: bool)
    ensures
        r == is_admitted(locked, *filter, *event),
{
    if locked {
        return false;
    }
    let app = match &event.source_app {
        Some(a) => Some(a.as_str()),
        None => None,
    };
    match filter.check_pre_content(app, &event.offered_mimes) {
        FilterResult::Reject => false,
        _ => true,
    }
}

/// The entry of processed content.
pub fn build_entry(
    processed: ProcessedEntry,
    source_app: Option<String>,
    filter: &PrivacyFilter,
) -> (r: NewEntry)
    ensures
        is_entry(r, processed@, optional_text(source_app), *filter),
{
    let preview = match &processed.preview_text {
        Some(p) => Some(p.as_str()),
        None => None,
    };
    let ephemeral = match filter.check_content_patterns(preview) {
        FilterResult::Ephemeral => true,
        _ => false,
    };
    NewEntry {
        content_class: processed.content_class,
        preview_text: processed.preview_text,
        canonical_hash: processed.canonical_hash,
        representations: processed.representations,
        source_app,
        ephemeral,
    }
}

/// How many bytes the first `n` payloads hold.
pub open spec fn payload_bytes(all: Seq<PayloadView>, n: int) -> int
    decreases n,
{
    if n <= 0 {
        0
    } else {
        payload_bytes(all, n - 1) + all[n - 1].data.len()
    }
}

/// The payloads of an entry hold no more than the largest entry may.
pub open spec fn is_small_enough(all: Seq<PayloadView>, max_size_mb: u32) -> bool {
    payload_bytes(all, all.len() as int) <= max_size_mb * MEGABYTE
}

proof fn lemma_payload_bytes_grow(all: Seq<PayloadView>, m: int, n: int)
    requires
        m <= n,
    ensures
        payload_bytes(all, m) <= payload_bytes(all, n),
    decreases n - m,
{
    if m < n {
        lemma_payload_bytes_grow(all, m, n - 1);
    }
}

/// Whether the payloads of an entry hold no more than the largest entry may.
pub fn small_enough(representations: &Vec<MimePayload>, max_size_mb: u32) -> (r: bool)
    ensures
        r == is_small_enough(payloads(representations@), max_size_mb),
{
    let ghost all = payloads(representations@);
    let limit: u64 = max_size_mb as u64 * MEGABYTE;
    let mut total: u64 = 0;
    let mut i: usize = 0;
    while i < representations.len()
        invariant
            i <= representations@.len(),
            all == payloads(representations@),
            limit == max_size_mb * MEGABYTE,
            total <= limit,
            total == payload_bytes(all, i as int),
        decreases representations@.len() - i,
    {
        let size: u64 = representations[i].data.len() as u64;
        assert(all[i as int].data.len() == size);
        if size > limit - total {
            proof {
                lemma_payload_bytes_grow(all, i + 1, all.len() as int);
            }
            return false;
        }
        total = total + size;
        i += 1;
    }
    true
}

/// Process a single clipboard event: nothing where it is not to be looked at or
/// is larger than an entry may be, otherwise the entry to store.
///
/// # Errors
///
/// [`NixClipError::Pipeline`] where no offered payload is of a known type.
pub fn handle_event(
    locked: bool,
    filter: &PrivacyFilter,
    max_size_mb: u32,
    event: ClipboardEvent,
) -> (r: Result<Option<NewEntry>>)
    ensures
        match r {
            Ok(None) => is_admitted(locked, *filter, event) ==> exists|processed: ProcessedView|
                {
                    &&& offered_class(payloads(event.payloads@)) is Some
                    &&& #[trigger] is_processed(
                        offered_class(payloads(event.payloads@))->Some_0,
                        payloads(event.payloads@),
                        processed,
                    )
                    &&& !is_small_enough(processed.representations, max_size_mb)
                },
            Ok(Some(entry)) => {
                &&& is_admitted(locked, *filter, event)
                &&& exists|processed: ProcessedView|
                    {
                        &&& offered_class(payloads(event.payloads@)) is Some
                        &&& #[trigger] is_processed(
                            offered_class(payloads(event.payloads@))->Some_0,
                            payloads(event.payloads@),
                            processed,
                        )
                        &&& is_small_enough(processed.representations, max_size_mb)
                        &&& is_entry(
                            entry,
                            processed,
                            optional_text(event.source_app),
                            *filter,
                        )
                    }
            },
            Err(e) => {
                &&& is_admitted(locked, *filter, event)
                &&& offered_class(payloads(event.payloads@)) is None
                &&& e is Pipeline
                &&& e.cause() == "no recognised MIME type in clipboard offer"@
            },
        },
{
    if !admits(locked, filter, &event) {
        return Ok(None);
    }
    let ghost offers = payloads(event.payloads@);
    match ContentProcessor::process(event.payloads, None) {
        Err(e) => Err(e),
        Ok(processed) => {
            let ghost view = processed@;
            assert(is_processed(offered_class(offers)->Some_0, offers, view));
            if !small_enough(&processed.representations, max_size_mb) {
                return Ok(None);
            }
            Ok(Some(build_entry(processed, event.source_app, filter)))
        },
    }
}

/// While the screen is locked nothing is captured, whatever is offered.
pub proof fn law_locked_screen_captures_nothing(filter: PrivacyFilter, event: ClipboardEvent)
    ensures
        !is_admitted(true, filter, event),
{
}

// ---------------------------------------------------------------------------
// Backend
// ---------------------------------------------------------------------------

/// Wayland-based clipboard backend using ext-data-control or wlr-data-control.
pub struct WaylandBackend {
    _private: (),
}

impl WaylandBackend {
    /// Connect to the Wayland display and locate the data-control manager. No
    /// such connection can be had.
    pub fn connect() -> (r: Result<WaylandBackend>)
        ensures
            r matches Err(e) && e is Wayland && e.cause()
                == "Wayland data-control integration not yet implemented; see TODO comments in watcher.rs"@,
    {
        Err(
            NixClipError::Wayland(
                "Wayland data-control integration not yet implemented; see TODO comments in watcher.rs".to_owned(),
            ),
        )
    }
}

/// The representations to put on the clipboard.
///
/// # Errors
///
/// [`NixClipError::Pipeline`] where there are none.
pub fn restore_to_clipboard(representations: Vec<Representation>) -> (r: Result<
    Vec<Representation>,
>)
    ensures
        match r {
            Ok(reps) => representations@.len() > 0 && reps == representations,
            Err(e) => {
                &&& representations@.len() == 0
                &&& e is Pipeline
                &&& e.cause() == "no representations to restore"@
            },
        },
{
    if representations.len() == 0 {
        return Err(NixClipError::Pipeline("no representations to restore".to_owned()));
    }
    Ok(representations)
}

} // verus!
