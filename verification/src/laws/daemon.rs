//! What the daemon is for: what it captures, gives back and answers.

use vstd::prelude::*;

use crate::daemon::args::read_args;
use crate::daemon::args::task_message;
use crate::daemon::args::ArgsView;
use crate::daemon::args::TaskOutcome;
use crate::daemon::screen_lock::announces_lock;
use crate::daemon::server::is_acknowledgement;
use crate::daemon::server::is_disconnect;
use crate::daemon::server::peer_message;
use crate::daemon::server::plain_representations;
use crate::daemon::server::request_of;
use crate::daemon::server::restored;
use crate::daemon::server::unknown_class_message;
use crate::daemon::server::Request;
use crate::daemon::watcher::is_admitted;
use crate::daemon::watcher::is_entry;
use crate::daemon::watcher::is_small_enough;
use crate::daemon::watcher::payload_bytes;
use crate::daemon::watcher::ClipboardEvent;
use crate::error::NixClipError;
use crate::error::Result;
use crate::ipc::ClientMessage;
use crate::ipc::ServerMessage;
use crate::pipeline::privacy::regex_is_match;
use crate::pipeline::privacy::FilterResult;
use crate::pipeline::privacy::PrivacyFilter;
use crate::pipeline::processor::ProcessedView;
use crate::text::decimal;
use crate::text::substring_at;
use crate::text::texts;
use crate::types::optional_text;
use crate::types::payloads;
use crate::types::NewEntry;
use crate::types::PayloadView;
use crate::types::RestoreMode;

verus! {

// ---------------------------------------------------------------------------
// Capture
// ---------------------------------------------------------------------------

/// With nobody on the list and the hints of password managers not respected,
/// whatever is copied while the screen is unlocked is captured, and nothing
/// while it is locked.
pub proof fn law_open_filter_captures(locked: bool, filter: PrivacyFilter, event: ClipboardEvent)
    requires
        filter.apps().len() == 0,
        !filter.respects_hints(),
    ensures
        is_admitted(locked, filter, event) == !locked,
{
}

/// While the screen is unlocked, what the filter rejects whatever the text says
/// is not captured, and all else is.
pub proof fn law_rejected_is_not_captured(
    filter: PrivacyFilter,
    event: ClipboardEvent,
    text: Option<Seq<char>>,
)
    ensures
        is_admitted(false, filter, event) <==> filter.verdict(
            optional_text(event.source_app),
            texts(event.offered_mimes@),
            text,
        ) != FilterResult::Reject,
{
}

/// A captured entry carries what was found out about the content and where it
/// came from, and lives shortly exactly where the text matches one of the
/// sensitive patterns.
pub proof fn law_captured_entry(
    entry: NewEntry,
    processed: ProcessedView,
    source_app: Option<Seq<char>>,
    filter: PrivacyFilter,
)
    requires
        is_entry(entry, processed, source_app, filter),
    ensures
        entry.content_class == processed.content_class,
        optional_text(entry.preview_text) == processed.preview,
        entry.canonical_hash@ == processed.canonical_hash,
        payloads(entry.representations@) == processed.representations,
        optional_text(entry.source_app) == source_app,
        entry.ephemeral <==> processed.preview is Some && exists|i: int|
            0 <= i < filter.pattern_list().len() && regex_is_match(
                #[trigger] filter.pattern_list()[i],
                processed.preview->Some_0,
            ) == Some(true),
{
}

/// One more payload adds as many bytes as it holds.
pub proof fn law_payload_is_counted(all: Seq<PayloadView>, one: PayloadView, max_size_mb: u32)
    ensures
        payload_bytes(all.push(one), all.len() as int + 1) == payload_bytes(all, all.len() as int)
            + one.data.len(),
        is_small_enough(Seq::<PayloadView>::empty(), max_size_mb),
{
    let more = all.push(one);
    lemma_same_payloads(all, more, all.len() as int);
    assert(more[all.len() as int] == one);
}

proof fn lemma_same_payloads(a: Seq<PayloadView>, b: Seq<PayloadView>, n: int)
    requires
        n <= a.len(),
        n <= b.len(),
        forall|i: int| 0 <= i < n ==> a[i] == b[i],
    ensures
        payload_bytes(a, n) == payload_bytes(b, n),
    decreases n,
{
    if n > 0 {
        lemma_same_payloads(a, b, n - 1);
        assert(a[n - 1] == b[n - 1]);
    }
}

/// A single payload is captured where it holds no more than so many times
/// 1,048,576 bytes, and two where they do so together.
pub proof fn law_largest_entry(a: PayloadView, b: PayloadView, max_size_mb: u32)
    ensures
        is_small_enough(seq![a], max_size_mb) <==> a.data.len() <= max_size_mb * 1_048_576,
        is_small_enough(seq![a, b], max_size_mb) <==> a.data.len() + b.data.len() <= max_size_mb
            * 1_048_576,
{
    let none = Seq::<PayloadView>::empty();
    law_payload_is_counted(none, a, max_size_mb);
    law_payload_is_counted(none.push(a), b, max_size_mb);
    assert(none.push(a) =~= seq![a]);
    assert(none.push(a).push(b) =~= seq![a, b]);
}

// ---------------------------------------------------------------------------
// Restoring
// ---------------------------------------------------------------------------

proof fn lemma_same_plain(a: Seq<PayloadView>, b: Seq<PayloadView>, n: int)
    requires
        n <= a.len(),
        n <= b.len(),
        forall|i: int| 0 <= i < n ==> a[i] == b[i],
    ensures
        plain_representations(a, n) == plain_representations(b, n),
    decreases n,
{
    if n > 0 {
        lemma_same_plain(a, b, n - 1);
        assert(a[n - 1] == b[n - 1]);
    }
}

/// Restoring as plain text gives every representation of that type, unchanged
/// and in order, and none of another; restoring in the original form gives
/// them all.
pub proof fn law_restored(reps: Seq<PayloadView>, one: PayloadView)
    ensures
        restored(reps, RestoreMode::Original) == reps,
        restored(Seq::<PayloadView>::empty(), RestoreMode::PlainText).len() == 0,
        one.mime == "text/plain"@ ==> restored(reps.push(one), RestoreMode::PlainText) == restored(
            reps,
            RestoreMode::PlainText,
        ).push(one),
        one.mime != "text/plain"@ ==> restored(reps.push(one), RestoreMode::PlainText) == restored(
            reps,
            RestoreMode::PlainText,
        ),
{
    let more = reps.push(one);
    lemma_same_plain(reps, more, reps.len() as int);
    assert(more[reps.len() as int] == one);
}

// ---------------------------------------------------------------------------
// Requests and answers
// ---------------------------------------------------------------------------

/// What a client sends is what it asks for, whichever version it speaks.
pub proof fn law_message_is_the_request(message: ClientMessage)
    ensures
        match (message, request_of(message)) {
            (ClientMessage::Subscribe { .. }, Request::Subscribe) => true,
            (
                ClientMessage::Query { text, content_class, offset, limit, .. },
                Request::Query { text: t, content_class: c, offset: o, limit: l },
            ) => text == t && content_class == c && offset == o && limit == l,
            (ClientMessage::Restore { id, mode, .. }, Request::Restore { id: i, mode: m }) => id
                == i && mode == m,
            (ClientMessage::Delete { ids, .. }, Request::Delete { ids: i }) => ids == i,
            (ClientMessage::Pin { id, pinned, .. }, Request::Pin { id: i, pinned: p }) => id == i
                && pinned == p,
            (ClientMessage::ClearUnpinned { .. }, Request::ClearUnpinned) => true,
            (ClientMessage::GetConfig { .. }, Request::GetConfig) => true,
            (ClientMessage::SetConfig { patch, .. }, Request::SetConfig { patch: p }) => patch == p,
            (ClientMessage::GetEntry { id, .. }, Request::GetEntry { id: i }) => id == i,
            _ => false,
        },
{
}

/// A client has gone where, and only where, the error on its connection says
/// somewhere that the connection was closed.
pub proof fn law_closed_connection(before: Seq<char>, after: Seq<char>, e: NixClipError)
    ensures
        e is Ipc && e.cause() == before + "connection closed"@ + after ==> is_disconnect(e),
        is_disconnect(e) ==> e is Ipc,
        is_disconnect(e) ==> exists|k: int|
            0 <= k <= e.cause().len() - "connection closed"@.len()
                && #[trigger] e.cause().subrange(k, k + "connection closed"@.len())
                == "connection closed"@,
{
    let needle = "connection closed"@;
    if e is Ipc && e.cause() == before + needle + after {
        assert(e.cause().subrange(before.len() as int, before.len() as int + needle.len()) =~= needle);
        assert(substring_at(e.cause(), needle, before.len() as int));
    }
    if is_disconnect(e) {
        let k = choose|k: int| #[trigger] substring_at(e.cause(), needle, k);
        assert(e.cause().subrange(k, k + needle.len()) == needle);
    }
}

/// A change that worked is acknowledged, and one that failed is answered by
/// what was tried and why it failed.
pub proof fn law_change_is_answered(reply: ServerMessage, result: Result<()>, what: Seq<char>)
    requires
        is_acknowledgement(reply, result, what),
    ensures
        match (result, reply) {
            (Ok(_), ServerMessage::Acknowledged { version }) => version == 1,
            (Err(e), ServerMessage::Error { version, message }) => version == 1 && message@ == what
                + e.prefix() + e.cause(),
            _ => false,
        },
{
    if let Err(e) = result {
        assert(what + e.text() =~= what + e.prefix() + e.cause());
    }
}

/// What is said of an error is its kind and its cause.
pub proof fn law_error_text(cause: String)
    ensures
        NixClipError::Database(cause).text() == "database error: "@ + cause@,
        NixClipError::Io(cause).text() == "I/O error: "@ + cause@,
        NixClipError::Config(cause).text() == "configuration error: "@ + cause@,
        NixClipError::Ipc(cause).text() == "IPC error: "@ + cause@,
        NixClipError::Pipeline(cause).text() == "pipeline error: "@ + cause@,
        NixClipError::Wayland(cause).text() == "Wayland error: "@ + cause@,
        NixClipError::Image(cause).text() == "image error: "@ + cause@,
        NixClipError::Serialization(cause).text() == "serialization error: "@ + cause@,
{
}

/// A refused peer is told both user numbers, its own first; an unknown class
/// is named as the client named it.
pub proof fn law_refusals(peer_uid: u32, my_uid: u32, name: Seq<char>)
    ensures
        peer_message(peer_uid, my_uid) == "peer UID "@ + decimal(peer_uid as nat)
            + " does not match daemon UID "@ + decimal(my_uid as nat),
        unknown_class_message(name)
            == "invalid content_class: pipeline error: unknown content class: "@ + name,
{
    reveal_strlit("invalid content_class: pipeline error: unknown content class: ");
    reveal_strlit("invalid content_class: ");
    reveal_strlit("pipeline error: ");
    reveal_strlit("unknown content class: ");
    assert("invalid content_class: "@ + ("pipeline error: "@ + "unknown content class: "@)
        =~= "invalid content_class: pipeline error: unknown content class: "@);
    assert(unknown_class_message(name) =~= "invalid content_class: "@ + ("pipeline error: "@
        + "unknown content class: "@) + name);
}

/// Whatever the way in which a critical task ended, its name comes first and
/// the reason, where there is one, last.
pub proof fn law_task_message(task: Seq<char>, why: String)
    ensures
        task_message(task, TaskOutcome::Finished) == task + " exited unexpectedly"@,
        task_message(task, TaskOutcome::Failed(why)) == task + " exited with error: "@ + why@,
        task_message(task, TaskOutcome::Crashed(why)) == task + " task crashed: "@ + why@,
{
}

// ---------------------------------------------------------------------------
// Arguments and signals
// ---------------------------------------------------------------------------

/// The daemon that is told nothing is quiet and looks for its configuration
/// itself.
pub open spec fn told_nothing() -> ArgsView {
    ArgsView { config_path: None, verbose: false }
}

proof fn lemma_read_prefix(
    args: Seq<Seq<char>>,
    more: Seq<Seq<char>>,
    i: int,
    so_far: ArgsView,
    known: ArgsView,
)
    requires
        0 <= i <= args.len(),
        read_args(args, i, so_far) == Ok::<ArgsView, Seq<char>>(known),
        args.len() > 0 ==> args.last() != "--config"@,
    ensures
        read_args(args + more, i, so_far) == read_args(args + more, args.len() as int, known),
    decreases args.len() - i,
{
    let all = args + more;
    if i < args.len() {
        assert(all[i] == args[i]);
        if args[i] == "--config"@ {
            if i + 1 < args.len() {
                assert(all[i + 1] == args[i + 1]);
                lemma_read_prefix(
                    args,
                    more,
                    i + 2,
                    ArgsView { config_path: Some(args[i + 1]), verbose: so_far.verbose },
                    known,
                );
            } else {
                assert(args.last() == args[i]);
            }
        } else {
            lemma_read_prefix(
                args,
                more,
                i + 1,
                ArgsView { config_path: so_far.config_path, verbose: true },
                known,
            );
        }
    }
}

/// After arguments that were understood, of which the last asks for no path: a
/// path behind `--config` replaces an earlier one, either spelling of
/// `--verbose` changes nothing else, `--config` without a path takes an
/// earlier one back, and any other argument is refused by its name.
pub proof fn law_next_argument(args: Seq<Seq<char>>, known: ArgsView, next: Seq<char>, path: Seq<char>)
    requires
        read_args(args, 0, told_nothing()) == Ok::<ArgsView, Seq<char>>(known),
        args.len() > 0 ==> args.last() != "--config"@,
    ensures
        read_args(Seq::<Seq<char>>::empty(), 0, told_nothing()) == Ok::<ArgsView, Seq<char>>(
            told_nothing(),
        ),
        read_args(args + seq!["--config"@, path], 0, told_nothing()) == Ok::<ArgsView, Seq<char>>(
            ArgsView { config_path: Some(path), verbose: known.verbose },
        ),
        read_args(args + seq!["--config"@], 0, told_nothing()) == Ok::<ArgsView, Seq<char>>(
            ArgsView { config_path: None, verbose: known.verbose },
        ),
        next == "-v"@ || next == "--verbose"@ ==> read_args(
            args + seq![next],
            0,
            told_nothing(),
        ) == Ok::<ArgsView, Seq<char>>(
            ArgsView { config_path: known.config_path, verbose: true },
        ),
        next != "-v"@ && next != "--verbose"@ && next != "--config"@ ==> read_args(
            args + seq![next],
            0,
            told_nothing(),
        ) == Err::<ArgsView, Seq<char>>(next),
{
    reveal_strlit("--config");
    reveal_strlit("-v");
    reveal_strlit("--verbose");
    assert("--config"@.len() == 8 && "-v"@.len() == 2 && "--verbose"@.len() == 9);
    let n = args.len() as int;
    lemma_read_prefix(args, seq!["--config"@, path], 0, told_nothing(), known);
    lemma_read_prefix(args, seq!["--config"@], 0, told_nothing(), known);
    lemma_read_prefix(args, seq![next], 0, told_nothing(), known);
    assert((args + seq!["--config"@, path])[n] == "--config"@);
    assert((args + seq!["--config"@, path])[n + 1] == path);
    assert((args + seq!["--config"@])[n] == "--config"@);
    assert((args + seq![next])[n] == next);
    reveal_with_fuel(read_args, 3);
}

/// Only the signal of the screen saver counts, and each of its parts does.
pub proof fn law_lock_signal(interface: Seq<char>, member: Seq<char>, path: Seq<char>)
    ensures
        announces_lock(
            true,
            Some("org.gnome.ScreenSaver"@),
            Some("ActiveChanged"@),
            Some("/org/gnome/ScreenSaver"@),
        ),
        announces_lock(true, Some(interface), Some(member), Some(path)) ==> interface
            == "org.gnome.ScreenSaver"@ && member == "ActiveChanged"@ && path
            == "/org/gnome/ScreenSaver"@,
        !announces_lock(false, Some(interface), Some(member), Some(path)),
        !announces_lock(true, None, Some(member), Some(path)),
        !announces_lock(true, Some(interface), None, Some(path)),
        !announces_lock(true, Some(interface), Some(member), None),
{
}

} // verus!
