//! IPC message types and frame protocol.
//!
//! All communication between the daemon, CLI, and UI occurs over a Unix domain
//! socket using a simple framed protocol:
//!
//!   [u32 big-endian length][MessagePack-encoded payload]

use vstd::prelude::*;

use crate::config::Config;
use crate::error::NixClipError;
use crate::error::Result;
use crate::text::decimal;
use crate::text::push_decimal;
use crate::toml_value::TomlValue;
use crate::types::optional_text;
use crate::types::EntryId;
use crate::types::EntrySummary;
use crate::types::RestoreMode;

verus! {

/// Wire-protocol version advertised by this build.
pub const PROTOCOL_VERSION: u32 = 1;

/// Maximum allowed frame payload size (64 MiB).
pub const MAX_FRAME_SIZE: u32 = 67_108_864;

// ---------------------------------------------------------------------------
// Client -> Server messages
// ---------------------------------------------------------------------------

/// Messages sent from a CLI / UI client to the daemon.
#[derive(Debug)]
pub enum ClientMessage {
    /// Begin a subscription; the daemon will push `NewEntry` events until the
    /// connection is closed.
    Subscribe { version: u32 },
    /// Full-text / filtered search of the history.
    Query {
        version: u32,
        text: Option<String>,
        content_class: Option<String>,
        offset: u32,
        limit: u32,
    },
    /// Restore a history entry to the clipboard (and optionally paste it).
    Restore { version: u32, id: EntryId, mode: RestoreMode },
    /// Permanently delete one or more history entries.
    Delete { version: u32, ids: Vec<EntryId> },
    /// Pin or unpin a single history entry.
    Pin { version: u32, id: EntryId, pinned: bool },
    /// Remove every unpinned entry from the history.
    ClearUnpinned { version: u32 },
    /// Request the daemon's current configuration.
    GetConfig { version: u32 },
    /// Apply a partial TOML patch to the daemon's configuration.
    SetConfig { version: u32, patch: TomlValue },
    /// Fetch a single entry by ID.
    GetEntry { version: u32, id: EntryId },
}

impl ClientMessage {
    /// The version that a message carries.
    pub open spec fn carried_version(&self) -> u32 {
        match self {
            ClientMessage::Subscribe { version } => *version,
            ClientMessage::Query { version, .. } => *version,
            ClientMessage::Restore { version, .. } => *version,
            ClientMessage::Delete { version, .. } => *version,
            ClientMessage::Pin { version, .. } => *version,
            ClientMessage::ClearUnpinned { version } => *version,
            ClientMessage::GetConfig { version } => *version,
            ClientMessage::SetConfig { version, .. } => *version,
            ClientMessage::GetEntry { version, .. } => *version,
        }
    }

    /// Construct a versioned `Subscribe` message.
    pub fn subscribe() -> (r: ClientMessage)
        ensures
            r == (ClientMessage::Subscribe { version: PROTOCOL_VERSION }),
    {
        ClientMessage::Subscribe { version: PROTOCOL_VERSION }
    }

    /// Construct a versioned `Query` message.
    pub fn query(
        text: Option<String>,
        content_class: Option<String>,
        offset: u32,
        limit: u32,
    ) -> (r: ClientMessage)
        ensures
            r == (ClientMessage::Query {
                version: PROTOCOL_VERSION,
                text,
                content_class,
                offset,
                limit,
            }),
    {
        ClientMessage::Query { version: PROTOCOL_VERSION, text, content_class, offset, limit }
    }

    /// Construct a versioned `Restore` message.
    pub fn restore(id: EntryId, mode: RestoreMode) -> (r: ClientMessage)
        ensures
            r == (ClientMessage::Restore { version: PROTOCOL_VERSION, id, mode }),
    {
        ClientMessage::Restore { version: PROTOCOL_VERSION, id, mode }
    }

    /// Construct a versioned `Delete` message.
    pub fn delete(ids: Vec<EntryId>) -> (r: ClientMessage)
        ensures
            r == (ClientMessage::Delete { version: PROTOCOL_VERSION, ids }),
    {
        ClientMessage::Delete { version: PROTOCOL_VERSION, ids }
    }

    /// Construct a versioned `Pin` message.
    pub fn pin(id: EntryId, pinned: bool) -> (r: ClientMessage)
        ensures
            r == (ClientMessage::Pin { version: PROTOCOL_VERSION, id, pinned }),
    {
        ClientMessage::Pin { version: PROTOCOL_VERSION, id, pinned }
    }

    /// Construct a versioned `ClearUnpinned` message.
    pub fn clear_unpinned() -> (r: ClientMessage)
        ensures
            r == (ClientMessage::ClearUnpinned { version: PROTOCOL_VERSION }),
    {
        ClientMessage::ClearUnpinned { version: PROTOCOL_VERSION }
    }

    /// Construct a versioned `GetConfig` message.
    pub fn get_config() -> (r: ClientMessage)
        ensures
            r == (ClientMessage::GetConfig { version: PROTOCOL_VERSION }),
    {
        ClientMessage::GetConfig { version: PROTOCOL_VERSION }
    }

    /// Construct a versioned `SetConfig` message.
    pub fn set_config(patch: TomlValue) -> (r: ClientMessage)
        ensures
            r == (ClientMessage::SetConfig { version: PROTOCOL_VERSION, patch }),
    {
        ClientMessage::SetConfig { version: PROTOCOL_VERSION, patch }
    }

    /// Construct a versioned `GetEntry` message.
    pub fn get_entry(id: EntryId) -> (r: ClientMessage)
        ensures
            r == (ClientMessage::GetEntry { version: PROTOCOL_VERSION, id }),
    {
        ClientMessage::GetEntry { version: PROTOCOL_VERSION, id }
    }

    /// Return the `version` field regardless of the variant.
    pub fn version(&self) -> (r: u32)
        ensures
            r == self.carried_version(),
    {
        match self {
            ClientMessage::Subscribe { version } => *version,
            ClientMessage::Query { version, .. } => *version,
            ClientMessage::Restore { version, .. } => *version,
            ClientMessage::Delete { version, .. } => *version,
            ClientMessage::Pin { version, .. } => *version,
            ClientMessage::ClearUnpinned { version } => *version,
            ClientMessage::GetConfig { version } => *version,
            ClientMessage::SetConfig { version, .. } => *version,
            ClientMessage::GetEntry { version, .. } => *version,
        }
    }
}

// ---------------------------------------------------------------------------
// Server -> Client messages
// ---------------------------------------------------------------------------

/// Messages sent from the daemon to a connected client.
#[derive(Debug, Clone)]
pub enum ServerMessage {
    /// Push notification for a newly captured clipboard entry (subscribers).
    NewEntry { version: u32, entry: EntrySummary },
    /// Response to a `Query` request.
    QueryResult { version: u32, entries: Vec<EntrySummary>, total: u32 },
    /// Response to a `Restore` request.
    RestoreResult { version: u32, success: bool, error: Option<String> },
    /// Response to a `GetConfig` or `SetConfig` request.
    ConfigValue { version: u32, config: Config },
    /// Response to a `GetEntry` request.
    EntryDetail { version: u32, entry: Option<EntrySummary> },
    /// Generic error response.
    Error { version: u32, message: String },
    /// Generic success acknowledgement (used for `Delete`, `Pin`, etc.).
    Acknowledged { version: u32 },
}

impl ServerMessage {
    /// The version that a message carries.
    pub open spec fn carried_version(&self) -> u32 {
        match self {
            ServerMessage::NewEntry { version, .. } => *version,
            ServerMessage::QueryResult { version, .. } => *version,
            ServerMessage::RestoreResult { version, .. } => *version,
            ServerMessage::ConfigValue { version, .. } => *version,
            ServerMessage::EntryDetail { version, .. } => *version,
            ServerMessage::Error { version, .. } => *version,
            ServerMessage::Acknowledged { version } => *version,
        }
    }

    /// The message reports an error with the given text.
    pub open spec fn is_error(&self, text: Seq<char>) -> bool {
        match self {
            ServerMessage::Error { version, message } => *version == PROTOCOL_VERSION && message@
                == text,
            _ => false,
        }
    }

    /// The message reports that an entry could not be restored, and why.
    pub open spec fn is_restore_error(&self, text: Seq<char>) -> bool {
        match self {
            ServerMessage::RestoreResult { version, success, error } => {
                &&& *version == PROTOCOL_VERSION
                &&& !*success
                &&& optional_text(*error) == Some(text)
            },
            _ => false,
        }
    }

    /// The message reports that an entry was restored.
    pub open spec fn is_restore_ok(&self) -> bool {
        self == (ServerMessage::RestoreResult {
            version: PROTOCOL_VERSION,
            success: true,
            error: None,
        })
    }

    /// Construct a versioned `NewEntry` message.
    pub fn new_entry(entry: EntrySummary) -> (r: ServerMessage)
        ensures
            r == (ServerMessage::NewEntry { version: PROTOCOL_VERSION, entry }),
    {
        ServerMessage::NewEntry { version: PROTOCOL_VERSION, entry }
    }

    /// Construct a versioned `QueryResult` message.
    pub fn query_result(entries: Vec<EntrySummary>, total: u32) -> (r: ServerMessage)
        ensures
            r == (ServerMessage::QueryResult { version: PROTOCOL_VERSION, entries, total }),
    {
        ServerMessage::QueryResult { version: PROTOCOL_VERSION, entries, total }
    }

    /// Construct a versioned `RestoreResult` message indicating success.
    pub fn restore_ok() -> (r: ServerMessage)
        ensures
            r.is_restore_ok(),
    {
        ServerMessage::RestoreResult { version: PROTOCOL_VERSION, success: true, error: None }
    }

    /// Construct a versioned `RestoreResult` message indicating failure.
    pub fn restore_err(message: &str) -> (r: ServerMessage)
        ensures
            r.is_restore_error(message@),
    {
        ServerMessage::RestoreResult {
            version: PROTOCOL_VERSION,
            success: false,
            error: Some(message.to_owned()),
        }
    }

    /// Construct a versioned `ConfigValue` message.
    pub fn config_value(config: Config) -> (r: ServerMessage)
        ensures
            r == (ServerMessage::ConfigValue { version: PROTOCOL_VERSION, config }),
    {
        ServerMessage::ConfigValue { version: PROTOCOL_VERSION, config }
    }

    /// Construct a versioned `EntryDetail` message.
    pub fn entry_detail(entry: Option<EntrySummary>) -> (r: ServerMessage)
        ensures
            r == (ServerMessage::EntryDetail { version: PROTOCOL_VERSION, entry }),
    {
        ServerMessage::EntryDetail { version: PROTOCOL_VERSION, entry }
    }

    /// Construct a versioned `Error` message.
    pub fn error(message: &str) -> (r: ServerMessage)
        ensures
            r.is_error(message@),
    {
        ServerMessage::Error { version: PROTOCOL_VERSION, message: message.to_owned() }
    }

    /// Construct a versioned `Acknowledged` message.
    pub fn ok() -> (r: ServerMessage)
        ensures
            r == (ServerMessage::Acknowledged { version: PROTOCOL_VERSION }),
    {
        ServerMessage::Acknowledged { version: PROTOCOL_VERSION }
    }

    /// Return the `version` field regardless of the variant.
    pub fn version(&self) -> (r: u32)
        ensures
            r == self.carried_version(),
    {
        match self {
            ServerMessage::NewEntry { version, .. } => *version,
            ServerMessage::QueryResult { version, .. } => *version,
            ServerMessage::RestoreResult { version, .. } => *version,
            ServerMessage::ConfigValue { version, .. } => *version,
            ServerMessage::EntryDetail { version, .. } => *version,
            ServerMessage::Error { version, .. } => *version,
            ServerMessage::Acknowledged { version } => *version,
        }
    }
}

// ---------------------------------------------------------------------------
// Frames
// ---------------------------------------------------------------------------

/// A number below 2^32 as four bytes, the most significant first.
pub open spec fn be_bytes(n: int) -> Seq<u8> {
    seq![
        (n / 16_777_216) as u8,
        ((n / 65_536) % 256) as u8,
        ((n / 256) % 256) as u8,
        (n % 256) as u8,
    ]
}

/// The number that four bytes stand for, the most significant first.
pub open spec fn be_value(b: Seq<u8>) -> int {
    b[0] * 16_777_216 + b[1] * 65_536 + b[2] * 256 + b[3]
}

/// The frame of a payload: its length, then the payload.
///
/// ```text
/// +----------------------+-------------------------+
/// |  length (u32, BE)    |  payload (length bytes) |
/// +----------------------+-------------------------+
/// ```
pub open spec fn frame_of(data: Seq<u8>) -> Seq<u8> {
    be_bytes(data.len() as int) + data
}

/// What is said of a payload that is too large for a frame.
pub open spec fn too_large_message(n: int) -> Seq<char> {
    "frame too large: "@ + decimal(n as nat) + " bytes (max "@ + decimal(MAX_FRAME_SIZE as nat)
        + ")"@
}

/// What reading a frame from a stream comes to, given all that the peer sends
/// before it closes the connection.
pub enum FrameOutcome {
    /// The peer closed the connection before sending anything.
    Closed,
    /// The stream ended in the middle of a frame.
    Truncated,
    /// The frame claims a payload of this length, which is too large.
    TooLarge(int),
    /// A payload, and how many bytes of the stream it took.
    Frame(Seq<u8>, int),
}

/// What reading a frame from a stream comes to.
pub open spec fn read_outcome(stream: Seq<u8>) -> FrameOutcome {
    if stream.len() == 0 {
        FrameOutcome::Closed
    } else if stream.len() < 4 {
        FrameOutcome::Truncated
    } else if be_value(stream) > MAX_FRAME_SIZE {
        FrameOutcome::TooLarge(be_value(stream))
    } else if stream.len() < 4 + be_value(stream) {
        FrameOutcome::Truncated
    } else {
        FrameOutcome::Frame(stream.subrange(4, 4 + be_value(stream)), 4 + be_value(stream))
    }
}

fn too_large(n: u64) -> (r: NixClipError)
    ensures
        r is Ipc,
        r.cause() == too_large_message(n as int),
{
    let mut message = "frame too large: ".to_owned();
    push_decimal(&mut message, n);
    message.append(" bytes (max ");
    push_decimal(&mut message, MAX_FRAME_SIZE as u64);
    message.append(")");
    NixClipError::Ipc(message)
}

/// The bytes of a length-prefixed frame.
///
/// # Errors
///
/// [`NixClipError::Ipc`] if `data` exceeds [`MAX_FRAME_SIZE`].
pub fn write_frame(data: &[u8]) -> (r: Result<Vec<u8>>)
    ensures
        match r {
            Ok(frame) => data@.len() <= MAX_FRAME_SIZE && frame@ == frame_of(data@),
            Err(e) => {
                &&& data@.len() > MAX_FRAME_SIZE
                &&& e is Ipc
                &&& e.cause() == too_large_message(data@.len() as int)
            },
        },
{
    let len: usize = data.len();
    if len > MAX_FRAME_SIZE as usize {
        return Err(too_large(len as u64));
    }
    let mut frame: Vec<u8> = Vec::with_capacity(4 + len);
    frame.push((len / 16_777_216) as u8);
    frame.push(((len / 65_536) % 256) as u8);
    frame.push(((len / 256) % 256) as u8);
    frame.push((len % 256) as u8);
    assert(frame@ =~= be_bytes(len as int));
    frame.extend_from_slice(data);
    assert(frame@ =~= frame_of(data@));
    Ok(frame)
}

/// The length of the payload that a frame header announces.
///
/// # Errors
///
/// [`NixClipError::Ipc`] if the length exceeds [`MAX_FRAME_SIZE`].
pub fn frame_length(header: &[u8]) -> (r: Result<u32>)
    requires
        header@.len() >= 4,
    ensures
        match r {
            Ok(n) => n == be_value(header@) && n <= MAX_FRAME_SIZE,
            Err(e) => {
                &&& be_value(header@) > MAX_FRAME_SIZE
                &&& e is Ipc
                &&& e.cause() == too_large_message(be_value(header@))
            },
        },
{
    let n: u32 = header[0] as u32 * 16_777_216 + header[1] as u32 * 65_536 + header[2] as u32 * 256
        + header[3] as u32;
    if n > MAX_FRAME_SIZE {
        return Err(too_large(n as u64));
    }
    Ok(n)
}

/// Read a frame from the bytes that a peer sends until it closes the
/// connection. Returns the payload, and how many bytes the frame took.
///
/// # Errors
///
/// - [`NixClipError::Ipc`] `"connection closed"`: the peer closed the
///   connection before sending any bytes of the length prefix.
/// - [`NixClipError::Ipc`] `"frame too large"`: the advertised length exceeds
///   [`MAX_FRAME_SIZE`].
/// - [`NixClipError::Io`]: the stream ended in the middle of the length prefix
///   or payload.
pub fn read_frame(stream: &[u8]) -> (r: Result<(Vec<u8>, usize)>)
    ensures
        match (read_outcome(stream@), r) {
            (FrameOutcome::Closed, Err(e)) => e is Ipc && e.cause() == "connection closed"@,
            (FrameOutcome::Truncated, Err(e)) => e is Io && e.cause() == "early eof"@,
            (FrameOutcome::TooLarge(n), Err(e)) => e is Ipc && e.cause() == too_large_message(n),
            (FrameOutcome::Frame(payload, taken), Ok((p, t))) => p@ == payload && t == taken,
            _ => false,
        },
{
    let len: usize = stream.len();
    if len == 0 {
        return Err(NixClipError::Ipc("connection closed".to_owned()));
    }
    if len < 4 {
        return Err(NixClipError::Io("early eof".to_owned()));
    }
    let n: usize = match frame_length(stream) {
        Ok(n) => n as usize,
        Err(e) => return Err(e),
    };
    if len - 4 < n {
        return Err(NixClipError::Io("early eof".to_owned()));
    }
    let payload = vstd::slice::slice_subrange(stream, 4, 4 + n);
    let copy = vstd::slice::slice_to_vec(payload);
    Ok((copy, 4 + n))
}

// ---------------------------------------------------------------------------
// Laws of frames
// ---------------------------------------------------------------------------

proof fn lemma_be_round_trip(n: int, tail: Seq<u8>)
    requires
        0 <= n < 4_294_967_296,
    ensures
        be_value(be_bytes(n) + tail) == n,
{
    let s = be_bytes(n) + tail;
    let d3 = n / 16_777_216;
    let d2 = (n / 65_536) % 256;
    let d1 = (n / 256) % 256;
    let d0 = n % 256;
    assert(0 <= d3 < 256);
    assert(s[0] == d3 as u8 && s[1] == d2 as u8 && s[2] == d1 as u8 && s[3] == d0 as u8);
    assert(n == d3 * 16_777_216 + d2 * 65_536 + d1 * 256 + d0);
}

/// What is written as a frame is read back, whatever follows it on the stream.
pub proof fn law_frame_round_trip(data: Seq<u8>, rest: Seq<u8>)
    requires
        data.len() <= MAX_FRAME_SIZE,
    ensures
        read_outcome(frame_of(data) + rest) == FrameOutcome::Frame(data, 4 + data.len() as int),
        (frame_of(data) + rest).skip(4 + data.len() as int) == rest,
{
    let stream = frame_of(data) + rest;
    assert(stream =~= be_bytes(data.len() as int) + (data + rest));
    lemma_be_round_trip(data.len() as int, data + rest);
    assert(stream.subrange(4, 4 + data.len() as int) =~= data);
    assert(stream.skip(4 + data.len() as int) =~= rest);
}

/// The frames of some payloads, one after the other.
pub open spec fn stream_of(payloads: Seq<Seq<u8>>) -> Seq<u8>
    decreases payloads.len(),
{
    if payloads.len() == 0 {
        Seq::<u8>::empty()
    } else {
        frame_of(payloads[0]) + stream_of(payloads.drop_first())
    }
}

/// Payloads that were written one after the other are read in that order: the
/// first read gives the first payload and leaves the stream of the others, and
/// where there is none left the connection is closed.
pub proof fn law_frames_in_sequence(payloads: Seq<Seq<u8>>)
    requires
        payloads.len() > 0 ==> payloads[0].len() <= MAX_FRAME_SIZE,
    ensures
        payloads.len() == 0 ==> read_outcome(stream_of(payloads)) is Closed,
        payloads.len() > 0 ==> {
            let taken = 4 + payloads[0].len() as int;
            &&& read_outcome(stream_of(payloads)) == FrameOutcome::Frame(payloads[0], taken)
            &&& stream_of(payloads).skip(taken) == stream_of(payloads.drop_first())
        },
{
    if payloads.len() > 0 {
        law_frame_round_trip(payloads[0], stream_of(payloads.drop_first()));
    }
}

/// A frame that is cut off anywhere before its end is never read as a frame.
pub proof fn law_cut_frame_is_no_frame(data: Seq<u8>, kept: int)
    requires
        data.len() <= MAX_FRAME_SIZE,
        0 <= kept < frame_of(data).len(),
    ensures
        kept == 0 ==> read_outcome(frame_of(data).take(kept)) is Closed,
        kept > 0 ==> read_outcome(frame_of(data).take(kept)) is Truncated,
{
    let cut = frame_of(data).take(kept);
    if kept >= 4 {
        lemma_be_round_trip(data.len() as int, data);
        assert(cut[0] == frame_of(data)[0] && cut[1] == frame_of(data)[1] && cut[2] == frame_of(
            data,
        )[2] && cut[3] == frame_of(data)[3]);
        assert(be_value(cut) == be_value(frame_of(data)));
    }
}

} // verus!
