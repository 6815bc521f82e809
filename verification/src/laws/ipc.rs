//! What the framing of messages is for.

use vstd::prelude::*;

use crate::ipc::be_bytes;
use crate::ipc::frame_of;
use crate::ipc::read_outcome;
use crate::ipc::stream_of;
use crate::ipc::too_large_message;
use crate::ipc::ClientMessage;
use crate::ipc::FrameOutcome;
use crate::ipc::ServerMessage;
use crate::text::decimal;
use crate::types::optional_text;

verus! {

/// A frame is four bytes that give the length of the payload, the most
/// significant first, and then the payload.
pub proof fn law_frame(data: Seq<u8>)
    requires
        data.len() <= u32::MAX,
    ensures
        frame_of(data).len() == 4 + data.len(),
        frame_of(data).skip(4) == data,
        ((frame_of(data)[0] * 256 + frame_of(data)[1]) * 256 + frame_of(data)[2]) * 256
            + frame_of(data)[3] == data.len(),
{
    let n = data.len() as int;
    assert(be_bytes(n).len() == 4);
    assert(frame_of(data).skip(4) =~= data);
    assert(0 <= n / 16_777_216 < 256);
}

/// Four bytes and as many as they say are read as a frame, whatever follows;
/// it holds those bytes, and nothing of what follows is taken. A payload of
/// 64 MiB is the largest that is read.
pub proof fn law_frame_is_read(a: u8, b: u8, c: u8, d: u8, payload: Seq<u8>, rest: Seq<u8>)
    requires
        payload.len() == ((a * 256 + b) * 256 + c) * 256 + d,
    ensures
        payload.len() <= 64 * 1024 * 1024 ==> read_outcome(seq![a, b, c, d] + payload + rest)
            == FrameOutcome::Frame(payload, 4 + payload.len() as int),
        payload.len() > 64 * 1024 * 1024 ==> read_outcome(seq![a, b, c, d] + payload + rest)
            == FrameOutcome::TooLarge(payload.len() as int),
{
    let stream = seq![a, b, c, d] + payload + rest;
    assert(stream[0] == a && stream[1] == b && stream[2] == c && stream[3] == d);
    assert(stream.subrange(4, 4 + payload.len() as int) =~= payload);
}

/// A length that is too large is refused before any of the payload is read.
pub proof fn law_too_large_is_refused(a: u8, b: u8, c: u8, d: u8, rest: Seq<u8>)
    requires
        ((a * 256 + b) * 256 + c) * 256 + d > 64 * 1024 * 1024,
    ensures
        read_outcome(seq![a, b, c, d] + rest) == FrameOutcome::TooLarge(
            ((a * 256 + b) * 256 + c) * 256 + d,
        ),
{
    let stream = seq![a, b, c, d] + rest;
    assert(stream[0] == a && stream[1] == b && stream[2] == c && stream[3] == d);
}

/// A stream that ends before its frame does gives no frame, and one that has
/// nothing in it was closed.
pub proof fn law_stream_ends_early(a: u8, b: u8, c: u8, d: u8, part: Seq<u8>, kept: int)
    requires
        part.len() < ((a * 256 + b) * 256 + c) * 256 + d <= 64 * 1024 * 1024,
        1 <= kept <= 3,
    ensures
        read_outcome(seq![a, b, c, d] + part) == FrameOutcome::Truncated,
        read_outcome(seq![a, b, c, d].take(kept)) == FrameOutcome::Truncated,
        read_outcome(Seq::<u8>::empty()) == FrameOutcome::Closed,
{
    let stream = seq![a, b, c, d] + part;
    assert(stream[0] == a && stream[1] == b && stream[2] == c && stream[3] == d);
}

/// A stream of payloads holds the frame of each, in order.
pub proof fn law_stream(first: Seq<u8>, payloads: Seq<Seq<u8>>)
    ensures
        stream_of(seq![first] + payloads) == frame_of(first) + stream_of(payloads),
        stream_of(Seq::<Seq<u8>>::empty()).len() == 0,
{
    let all = seq![first] + payloads;
    assert(all.drop_first() =~= payloads);
}

/// What is said of a frame that is too large gives its length and the largest.
pub proof fn law_too_large_message(n: nat)
    ensures
        too_large_message(n as int) == "frame too large: "@ + decimal(n) + " bytes (max "@
            + decimal(64 * 1024 * 1024) + ")"@,
{
}

/// An error and a failed restoring carry the first version of the protocol and
/// the text; a restoring that worked carries no text.
pub proof fn law_server_errors(m: ServerMessage, text: Seq<char>)
    ensures
        m.is_error(text) ==> m is Error && m.carried_version() == 1 && m->message@ == text,
        m.is_restore_error(text) ==> m is RestoreResult && m.carried_version() == 1 && !m->success
            && optional_text(m->error) == Some(text),
        m.is_restore_ok() ==> m is RestoreResult && m.carried_version() == 1 && m->success
            && m->error is None,
{
}

/// A message carries the version that it was made with.
pub proof fn law_carried_version(v: u32, id: i64, pinned: bool)
    ensures
        (ClientMessage::Subscribe { version: v }).carried_version() == v,
        (ClientMessage::ClearUnpinned { version: v }).carried_version() == v,
        (ClientMessage::GetConfig { version: v }).carried_version() == v,
        (ClientMessage::GetEntry { version: v, id }).carried_version() == v,
        (ClientMessage::Pin { version: v, id, pinned }).carried_version() == v,
        (ServerMessage::Acknowledged { version: v }).carried_version() == v,
{
}

} // verus!
