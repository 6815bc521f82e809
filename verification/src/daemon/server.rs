//! How the daemon answers its clients.

use vstd::prelude::*;

use crate::config::Config;
use crate::error::NixClipError;
use crate::error::Result;
use crate::ipc::ClientMessage;
use crate::ipc::ServerMessage;
use crate::ipc::PROTOCOL_VERSION;
use crate::pipeline::privacy::first_invalid_pattern;
use crate::pipeline::privacy::invalid_pattern_message;
use crate::pipeline::privacy::regex_compile;
use crate::pipeline::privacy::PrivacyFilter;
use crate::text::concat2;
use crate::text::contains_text;
use crate::text::decimal;
use crate::text::has_substring;
use crate::text::push_decimal;
use crate::text::same_text;
use crate::text::texts;
use crate::toml_value::TomlValue;
use crate::types::class_name;
use crate::types::names_class;
use crate::types::representation_views;
use crate::types::ContentClass;
use crate::types::EntryId;
use crate::types::EntrySummary;
use crate::types::PayloadView;
use crate::types::Query;
use crate::types::QueryResult;
use crate::types::Representation;
use crate::types::RestoreMode;

verus! {

// ---------------------------------------------------------------------------
// Peers
// ---------------------------------------------------------------------------

/// What is said of a peer that runs as another user.
pub open spec fn peer_message(peer_uid: u32, my_uid: u32) -> Seq<char> {
    "peer UID "@ + decimal(peer_uid as nat) + " does not match daemon UID "@ + decimal(
        my_uid as nat,
    )
}

/// Verify that the peer has the same UID as this process.
///
/// # Errors
///
/// [`NixClipError::Ipc`] where it has another.
pub fn verify_peer_credentials(peer_uid: u32, my_uid: u32) -> (r: Result<()>)
    ensures
        match r {
            Ok(_) => peer_uid == my_uid,
            Err(e) => {
                &&& peer_uid != my_uid
                &&& e is Ipc
                &&& e.cause() == peer_message(peer_uid, my_uid)
            },
        },
{
    if peer_uid == my_uid {
        return Ok(());
    }
    let mut message = "peer UID ".to_owned();
    push_decimal(&mut message, peer_uid as u64);
    message.append(" does not match daemon UID ");
    push_decimal(&mut message, my_uid as u64);
    Err(NixClipError::Ipc(message))
}

// ---------------------------------------------------------------------------
// Connections
// ---------------------------------------------------------------------------

/// What a client asks for.
#[derive(Debug)]
pub enum Request {
    Subscribe,
    Query { text: Option<String>, content_class: Option<String>, offset: u32, limit: u32 },
    Restore { id: EntryId, mode: RestoreMode },
    Delete { ids: Vec<EntryId> },
    Pin { id: EntryId, pinned: bool },
    ClearUnpinned,
    GetConfig,
    SetConfig { patch: TomlValue },
    GetEntry { id: EntryId },
}

/// What to do on a connection after a read.
#[derive(Debug)]
pub enum ConnectionStep {
    /// Carry out the request, and answer it.
    Serve(Request),
    /// The client has gone: end the connection.
    End,
    /// End the connection with an error.
    Fail(NixClipError),
}

/// What a message asks for; its version does not matter.
pub open spec fn request_of(message: ClientMessage) -> Request {
    match message {
        ClientMessage::Subscribe { .. } => Request::Subscribe,
        ClientMessage::Query { text, content_class, offset, limit, .. } => Request::Query {
            text,
            content_class,
            offset,
            limit,
        },
        ClientMessage::Restore { id, mode, .. } => Request::Restore { id, mode },
        ClientMessage::Delete { ids, .. } => Request::Delete { ids },
        ClientMessage::Pin { id, pinned, .. } => Request::Pin { id, pinned },
        ClientMessage::ClearUnpinned { .. } => Request::ClearUnpinned,
        ClientMessage::GetConfig { .. } => Request::GetConfig,
        ClientMessage::SetConfig { patch, .. } => Request::SetConfig { patch },
        ClientMessage::GetEntry { id, .. } => Request::GetEntry { id },
    }
}

/// The error that a client which closes its connection leaves behind.
pub open spec fn is_disconnect(e: NixClipError) -> bool {
    e is Ipc && has_substring(e.cause(), "connection closed"@)
}

/// What to do after reading from a client.
pub fn handle_client(received: Result<ClientMessage>) -> (r: ConnectionStep)
    ensures
        r == match received {
            Ok(message) => ConnectionStep::Serve(request_of(message)),
            Err(e) => if is_disconnect(e) {
                ConnectionStep::End
            } else {
                ConnectionStep::Fail(e)
            },
        },
{
    match received {
        Ok(message) => ConnectionStep::Serve(
            match message {
                ClientMessage::Subscribe { .. } => Request::Subscribe,
                ClientMessage::Query { text, content_class, offset, limit, .. } => Request::Query {
                    text,
                    content_class,
                    offset,
                    limit,
                },
                ClientMessage::Restore { id, mode, .. } => Request::Restore { id, mode },
                ClientMessage::Delete { ids, .. } => Request::Delete { ids },
                ClientMessage::Pin { id, pinned, .. } => Request::Pin { id, pinned },
                ClientMessage::ClearUnpinned { .. } => Request::ClearUnpinned,
                ClientMessage::GetConfig { .. } => Request::GetConfig,
                ClientMessage::SetConfig { patch, .. } => Request::SetConfig { patch },
                ClientMessage::GetEntry { id, .. } => Request::GetEntry { id },
            },
        ),
        Err(e) => {
            let gone = match &e {
                NixClipError::Ipc(m) => contains_text(m.as_str(), "connection closed"),
                _ => false,
            };
            if gone {
                ConnectionStep::End
            } else {
                ConnectionStep::Fail(e)
            }
        },
    }
}

/// An error message: what failed, then why.
fn failure(what: &str, e: &NixClipError) -> (r: ServerMessage)
    ensures
        r.is_error(what@ + e.text()),
{
    let why = e.message();
    let message = concat2(what, why.as_str());
    ServerMessage::error(message.as_str())
}

// ---------------------------------------------------------------------------
// Queries
// ---------------------------------------------------------------------------

/// What is said of a content class that is not known.
pub open spec fn unknown_class_message(name: Seq<char>) -> Seq<char> {
    "invalid content_class: "@ + ("pipeline error: "@ + ("unknown content class: "@ + name))
}

/// The query that a client asks for, or the answer where it names a content
/// class that is not known.
pub fn handle_query(
    text: Option<String>,
    content_class: Option<String>,
    offset: u32,
    limit: u32,
) -> (r: std::result::Result<Query, ServerMessage>)
    ensures
        match r {
            Ok(q) => {
                &&& q.text == text
                &&& q.offset == offset
                &&& q.limit == limit
                &&& match (content_class, q.content_class) {
                    (Some(name), Some(class)) => class_name(class) == name@,
                    (None, None) => true,
                    _ => false,
                }
            },
            Err(answer) => {
                &&& content_class is Some
                &&& !names_class(content_class->Some_0@)
                &&& answer.is_error(unknown_class_message(content_class->Some_0@))
            },
        },
{
    let class = match &content_class {
        None => None,
        Some(name) => match ContentClass::parse(name.as_str()) {
            Ok(c) => Some(c),
            Err(e) => {
                return Err(failure("invalid content_class: ", &e));
            },
        },
    };
    Ok(Query { text, content_class: class, offset, limit })
}

/// Whether a query is first tried as a search: it has a text.
pub fn searches_first(query: &Query) -> (r: bool)
    ensures
        r == (query.text is Some),
{
    query.text.is_some()
}

/// The answer to a query.
pub fn query_reply(result: Result<QueryResult>) -> (r: ServerMessage)
    ensures
        match result {
            Ok(page) => r == (ServerMessage::QueryResult {
                version: PROTOCOL_VERSION,
                entries: page.entries,
                total: page.total,
            }),
            Err(e) => r.is_error("query failed: "@ + e.text()),
        },
{
    match result {
        Ok(page) => ServerMessage::query_result(page.entries, page.total),
        Err(e) => failure("query failed: ", &e),
    }
}

// ---------------------------------------------------------------------------
// Restoring
// ---------------------------------------------------------------------------

/// What to do to restore an entry.
#[derive(Debug)]
pub enum RestoreStep {
    /// Put these representations on the clipboard.
    Offer(Vec<Representation>),
    /// Answer at once.
    Reply(ServerMessage),
}

/// Those of the first `n` representations that are plain text.
pub open spec fn plain_representations(reps: Seq<PayloadView>, n: int) -> Seq<PayloadView>
    decreases n,
{
    if n <= 0 {
        Seq::<PayloadView>::empty()
    } else if reps[n - 1].mime == "text/plain"@ {
        plain_representations(reps, n - 1).push(reps[n - 1])
    } else {
        plain_representations(reps, n - 1)
    }
}

/// The representations of an entry that a mode restores.
pub open spec fn restored(reps: Seq<PayloadView>, mode: RestoreMode) -> Seq<PayloadView> {
    match mode {
        RestoreMode::Original => reps,
        RestoreMode::PlainText => plain_representations(reps, reps.len() as int),
    }
}

fn keep_plain(reps: Vec<Representation>) -> (r: Vec<Representation>)
    ensures
        representation_views(r@) == plain_representations(
            representation_views(reps@),
            reps@.len() as int,
        ),
{
    let ghost all = reps@;
    let ghost views = representation_views(all);
    let mut rest = reps;
    let mut kept: Vec<Representation> = Vec::new();
    let ghost mut done: int = 0;
    assert(all.skip(0) =~= all);
    assert(representation_views(kept@) =~= Seq::<PayloadView>::empty());
    while rest.len() > 0
        invariant
            0 <= done <= all.len(),
            views == representation_views(all),
            rest@ == all.skip(done),
            representation_views(kept@) == plain_representations(views, done),
        decreases rest@.len(),
    {
        let rep = rest.remove(0);
        assert(rep == all[done]);
        assert(rest@ =~= all.skip(done + 1));
        assert(views[done] == rep@);
        if same_text(rep.mime.as_str(), "text/plain") {
            let ghost before = representation_views(kept@);
            let ghost view = rep@;
            kept.push(rep);
            assert(representation_views(kept@) =~= before.push(view));
        }
        proof {
            done = done + 1;
        }
    }
    kept
}

/// Restore a clipboard entry, given its representations: offer those that the
/// mode asks for, or say why there is nothing to offer.
pub fn handle_restore(representations: Result<Vec<Representation>>, mode: RestoreMode) -> (r:
    RestoreStep)
    ensures
        match (representations, r) {
            (Err(e), RestoreStep::Reply(m)) => m.is_restore_error(
                "failed to load entry: "@ + e.text(),
            ),
            (Ok(reps), RestoreStep::Reply(m)) => if reps@.len() == 0 {
                m.is_restore_error("entry has no representations"@)
            } else {
                &&& restored(representation_views(reps@), mode).len() == 0
                &&& m.is_restore_error("no suitable representation for requested mode"@)
            },
            (Ok(reps), RestoreStep::Offer(offered)) => {
                &&& offered@.len() > 0
                &&& representation_views(offered@) == restored(representation_views(reps@), mode)
            },
            (Err(_), RestoreStep::Offer(_)) => false,
        },
{
    let reps = match representations {
        Ok(reps) => reps,
        Err(e) => {
            let why = e.message();
            let message = concat2("failed to load entry: ", why.as_str());
            return RestoreStep::Reply(ServerMessage::restore_err(message.as_str()));
        },
    };
    if reps.len() == 0 {
        return RestoreStep::Reply(ServerMessage::restore_err("entry has no representations"));
    }
    let offered = match mode {
        RestoreMode::Original => reps,
        RestoreMode::PlainText => keep_plain(reps),
    };
    assert(representation_views(offered@).len() == offered@.len());
    if offered.len() == 0 {
        return RestoreStep::Reply(
            ServerMessage::restore_err("no suitable representation for requested mode"),
        );
    }
    RestoreStep::Offer(offered)
}

/// The answer to a restore request, given what came of offering the
/// representations.
pub fn restore_reply(result: Result<()>) -> (r: ServerMessage)
    ensures
        match result {
            Ok(_) => r.is_restore_ok(),
            Err(e) => r.is_restore_error("clipboard restore failed: "@ + e.text()),
        },
{
    match result {
        Ok(_) => ServerMessage::restore_ok(),
        Err(e) => {
            let why = e.message();
            let message = concat2("clipboard restore failed: ", why.as_str());
            ServerMessage::restore_err(message.as_str())
        },
    }
}

proof fn lemma_plain_representations(reps: Seq<PayloadView>, n: int)
    requires
        0 <= n <= reps.len(),
    ensures
        forall|i: int|
            0 <= i < plain_representations(reps, n).len() ==> (
            #[trigger] plain_representations(reps, n)[i]).mime == "text/plain"@,
        plain_representations(reps, n).len() == 0 ==> forall|i: int|
            0 <= i < n ==> (#[trigger] reps[i]).mime != "text/plain"@,
    decreases n,
{
    if n > 0 {
        lemma_plain_representations(reps, n - 1);
    }
}

/// Restoring as plain text offers nothing but plain text, and fails only where
/// the entry has none; restoring an entry in its original form never fails for
/// want of a suitable representation.
pub proof fn law_plain_restore_is_plain(reps: Seq<PayloadView>)
    ensures
        forall|i: int|
            0 <= i < restored(reps, RestoreMode::PlainText).len() ==> (#[trigger] restored(
                reps,
                RestoreMode::PlainText,
            )[i]).mime == "text/plain"@,
        restored(reps, RestoreMode::PlainText).len() == 0 ==> forall|i: int|
            0 <= i < reps.len() ==> (#[trigger] reps[i]).mime != "text/plain"@,
        restored(reps, RestoreMode::Original) == reps,
{
    lemma_plain_representations(reps, reps.len() as int);
}

// ---------------------------------------------------------------------------
// Changing entries
// ---------------------------------------------------------------------------

/// The answer to a request that needs no more than an acknowledgement.
pub open spec fn is_acknowledgement(reply: ServerMessage, result: Result<()>, what: Seq<char>) -> bool {
    match result {
        Ok(_) => reply == (ServerMessage::Acknowledged { version: PROTOCOL_VERSION }),
        Err(e) => reply.is_error(what + e.text()),
    }
}

/// The answer to a request to delete entries.
pub fn handle_delete(result: Result<()>) -> (r: ServerMessage)
    ensures
        is_acknowledgement(r, result, "delete failed: "@),
{
    match result {
        Ok(_) => ServerMessage::ok(),
        Err(e) => failure("delete failed: ", &e),
    }
}

/// The answer to a request to pin or unpin an entry.
pub fn handle_pin(result: Result<()>) -> (r: ServerMessage)
    ensures
        is_acknowledgement(r, result, "pin failed: "@),
{
    match result {
        Ok(_) => ServerMessage::ok(),
        Err(e) => failure("pin failed: ", &e),
    }
}

/// The answer to a request to clear all unpinned entries.
pub fn handle_clear_unpinned(result: Result<()>) -> (r: ServerMessage)
    ensures
        is_acknowledgement(r, result, "clear unpinned failed: "@),
{
    match result {
        Ok(_) => ServerMessage::ok(),
        Err(e) => failure("clear unpinned failed: ", &e),
    }
}

/// The answer to a request for a single entry: none where it cannot be found.
pub fn handle_get_entry(found: Result<EntrySummary>) -> (r: ServerMessage)
    ensures
        r == (ServerMessage::EntryDetail {
            version: PROTOCOL_VERSION,
            entry: match found {
                Ok(entry) => Some(entry),
                Err(_) => None,
            },
        }),
{
    match found {
        Ok(entry) => ServerMessage::entry_detail(Some(entry)),
        Err(_) => ServerMessage::entry_detail(None),
    }
}

/// The answer where the store cannot be used.
pub fn store_unavailable(reason: &str) -> (r: ServerMessage)
    ensures
        r.is_error("store lock poisoned: "@ + reason@),
{
    let message = concat2("store lock poisoned: ", reason);
    ServerMessage::error(message.as_str())
}

/// The answer to a restore request where the store cannot be used.
pub fn restore_unavailable(reason: &str) -> (r: ServerMessage)
    ensures
        r.is_restore_error("store lock poisoned: "@ + reason@),
{
    let message = concat2("store lock poisoned: ", reason);
    ServerMessage::restore_err(message.as_str())
}

// ---------------------------------------------------------------------------
// Subscriptions
// ---------------------------------------------------------------------------

/// What a subscription hears of.
#[derive(Debug)]
pub enum FeedEvent {
    /// A new entry.
    Entry(EntrySummary),
    /// Some entries were missed.
    Lagged,
    /// There will be no more entries.
    Closed,
}

/// What a subscription does next.
#[derive(Debug)]
pub enum FeedStep {
    /// Send this to the subscriber; the subscription ends where that fails.
    Send(ServerMessage),
    /// Wait for what comes next.
    Wait,
    /// The subscription ends.
    End,
}

/// What a subscription does on an event: every new entry is sent, and entries
/// that were missed do not end it.
pub fn handle_subscribe(event: FeedEvent) -> (r: FeedStep)
    ensures
        r == match event {
            FeedEvent::Entry(entry) => FeedStep::Send(
                ServerMessage::NewEntry { version: PROTOCOL_VERSION, entry },
            ),
            FeedEvent::Lagged => FeedStep::Wait,
            FeedEvent::Closed => FeedStep::End,
        },
{
    match event {
        FeedEvent::Entry(entry) => FeedStep::Send(ServerMessage::new_entry(entry)),
        FeedEvent::Lagged => FeedStep::Wait,
        FeedEvent::Closed => FeedStep::End,
    }
}

// ---------------------------------------------------------------------------
// Configuration
// ---------------------------------------------------------------------------

/// What came of applying a patch to the configuration, up to the step that
/// failed.
#[derive(Debug)]
pub enum ConfigUpdate {
    /// The current configuration could not be turned into a value.
    NotSerialized(String),
    /// The patched value is no configuration.
    Invalid(String),
    /// The new configuration could not be written.
    NotSaved(NixClipError),
    /// The new configuration was written.
    Saved(Config),
}

/// The privacy filter to use from now on and the answer to a request to change
/// the configuration, or only the answer where the request failed.
pub fn handle_set_config(update: ConfigUpdate) -> (r: (Option<PrivacyFilter>, ServerMessage))
    ensures
        match update {
            ConfigUpdate::NotSerialized(e) => {
                &&& r.0 is None
                &&& r.1.is_error("failed to serialize current config: "@ + e@)
            },
            ConfigUpdate::Invalid(e) => {
                &&& r.0 is None
                &&& r.1.is_error("invalid config after merge: "@ + e@)
            },
            ConfigUpdate::NotSaved(e) => {
                &&& r.0 is None
                &&& r.1.is_error("failed to save config: "@ + e.text())
            },
            ConfigUpdate::Saved(config) => match r.0 {
                Some(filter) => {
                    &&& filter.apps() == texts(config.ignore.apps@)
                    &&& filter.pattern_list() == texts(config.ignore.patterns@)
                    &&& filter.respects_hints() == config.ignore.respect_sensitive_hints
                    &&& forall|i: int|
                        0 <= i < config.ignore.patterns@.len() ==> regex_compile(
                            #[trigger] config.ignore.patterns@[i]@,
                        ) is Ok
                    &&& r.1 == (ServerMessage::ConfigValue { version: PROTOCOL_VERSION, config })
                },
                None => exists|i: int| #[trigger]
                    first_invalid_pattern(texts(config.ignore.patterns@), i) && r.1.is_error(
                        bad_filter_message(texts(config.ignore.patterns@), i),
                    ),
            },
        },
{
    match update {
        ConfigUpdate::NotSerialized(e) => {
            let message = concat2("failed to serialize current config: ", e.as_str());
            (None, ServerMessage::error(message.as_str()))
        },
        ConfigUpdate::Invalid(e) => {
            let message = concat2("invalid config after merge: ", e.as_str());
            (None, ServerMessage::error(message.as_str()))
        },
        ConfigUpdate::NotSaved(e) => (None, failure("failed to save config: ", &e)),
        ConfigUpdate::Saved(config) => match PrivacyFilter::new(&config.ignore) {
            Ok(filter) => (Some(filter), ServerMessage::config_value(config)),
            Err(e) => (None, failure("invalid privacy filter config: ", &e)),
        },
    }
}

/// What is said of a configuration with a pattern that is no regular
/// expression.
pub open spec fn bad_filter_message(patterns: Seq<Seq<char>>, i: int) -> Seq<char> {
    "invalid privacy filter config: "@ + ("configuration error: "@ + invalid_pattern_message(
        patterns,
        i,
    ))
}

/// The answer to a request for the configuration.
pub fn handle_get_config(config: Config) -> (r: ServerMessage)
    ensures
        r == (ServerMessage::ConfigValue { version: PROTOCOL_VERSION, config }),
{
    ServerMessage::config_value(config)
}

} // verus!
