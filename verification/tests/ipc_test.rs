//! Messages and frames.

use nixclip_core::ipc::{
    frame_length, read_frame, write_frame, ClientMessage, ServerMessage, MAX_FRAME_SIZE,
    PROTOCOL_VERSION,
};
use nixclip_core::toml_value::TomlValue;
use nixclip_core::{ContentClass, EntryId, EntrySummary, NixClipError, RestoreMode};

#[test]
fn client_message_version_accessor() {
    assert_eq!(ClientMessage::subscribe().version(), PROTOCOL_VERSION);
    assert_eq!(ClientMessage::clear_unpinned().version(), PROTOCOL_VERSION);
    assert_eq!(ClientMessage::get_config().version(), PROTOCOL_VERSION);
    assert_eq!(ClientMessage::delete(vec![]).version(), PROTOCOL_VERSION);
}

#[test]
fn server_message_version_accessor() {
    assert_eq!(ServerMessage::ok().version(), PROTOCOL_VERSION);
    assert_eq!(ServerMessage::error("x").version(), PROTOCOL_VERSION);
    assert_eq!(ServerMessage::restore_ok().version(), PROTOCOL_VERSION);
    assert_eq!(ServerMessage::restore_err("x").version(), PROTOCOL_VERSION);
}

#[test]
fn restore_result_fields() {
    let ok = ServerMessage::restore_ok();
    match ok {
        ServerMessage::RestoreResult { success, error, .. } => {
            assert!(success);
            assert!(error.is_none());
        }
        _ => panic!("wrong variant"),
    }

    let err = ServerMessage::restore_err("oops");
    match err {
        ServerMessage::RestoreResult { success, error, .. } => {
            assert!(!success);
            assert_eq!(error.as_deref(), Some("oops"));
        }
        _ => panic!("wrong variant"),
    }
}

#[test]
fn client_version_accessor_all_variants() {
    assert_eq!(ClientMessage::subscribe().version(), PROTOCOL_VERSION);
    assert_eq!(ClientMessage::clear_unpinned().version(), PROTOCOL_VERSION);
    assert_eq!(ClientMessage::get_config().version(), PROTOCOL_VERSION);
    assert_eq!(ClientMessage::query(None, None, 0, 10).version(), PROTOCOL_VERSION);
    assert_eq!(ClientMessage::restore(1, RestoreMode::Original).version(), PROTOCOL_VERSION);
    assert_eq!(ClientMessage::delete(vec![]).version(), PROTOCOL_VERSION);
    assert_eq!(ClientMessage::pin(1, true).version(), PROTOCOL_VERSION);
    let patch = TomlValue::Boolean(false);
    assert_eq!(ClientMessage::set_config(patch).version(), PROTOCOL_VERSION);
}

#[test]
fn server_version_accessor_all_variants() {
    assert_eq!(ServerMessage::ok().version(), PROTOCOL_VERSION);
    assert_eq!(ServerMessage::error("x").version(), PROTOCOL_VERSION);
    assert_eq!(ServerMessage::restore_ok().version(), PROTOCOL_VERSION);
    assert_eq!(ServerMessage::restore_err("x").version(), PROTOCOL_VERSION);
    assert_eq!(
        ServerMessage::config_value(nixclip_core::config::Config::default()).version(),
        PROTOCOL_VERSION
    );
}

#[test]
fn all_client_variants_have_version_field() {
    let variants: Vec<ClientMessage> = vec![
        ClientMessage::subscribe(),
        ClientMessage::query(None, None, 0, 10),
        ClientMessage::restore(1 as EntryId, RestoreMode::Original),
        ClientMessage::delete(vec![]),
        ClientMessage::pin(1, true),
        ClientMessage::clear_unpinned(),
        ClientMessage::get_config(),
        ClientMessage::set_config(TomlValue::Boolean(false)),
    ];

    for variant in &variants {
        let v = variant.version();
        assert_eq!(
            v, PROTOCOL_VERSION,
            "variant {:?} has version {v}, expected {PROTOCOL_VERSION}",
            std::mem::discriminant(variant)
        );
    }
}

#[test]
fn all_server_variants_have_version_field() {
    let entry = EntrySummary {
        id: 1,
        created_at: 0,
        last_seen_at: 0,
        pinned: false,
        ephemeral: false,
        content_class: ContentClass::Text,
        preview_text: Some("test".into()),
        source_app: None,
        thumbnail: None,
        match_ranges: vec![],
    };

    let variants: Vec<ServerMessage> = vec![
        ServerMessage::new_entry(entry.clone()),
        ServerMessage::query_result(vec![entry.clone()], 1),
        ServerMessage::restore_ok(),
        ServerMessage::restore_err("oops"),
        ServerMessage::config_value(nixclip_core::config::Config::default()),
        ServerMessage::error("bad"),
        ServerMessage::ok(),
    ];

    for variant in &variants {
        let v = variant.version();
        assert_eq!(
            v, PROTOCOL_VERSION,
            "ServerMessage variant {:?} has version {v}, expected {PROTOCOL_VERSION}",
            std::mem::discriminant(variant)
        );
    }
}

#[test]
fn ipc_write_then_read_frame_round_trip() {
    let payload = b"hello frame";
    let buf = write_frame(payload).expect("write_frame");
    let written_len = u32::from_be_bytes(buf[..4].try_into().unwrap());
    assert_eq!(written_len, payload.len() as u32);
    let (received, used) = read_frame(&buf).expect("read_frame");
    assert_eq!(received.as_slice(), payload);
    assert_eq!(used, buf.len());
}

#[test]
fn ipc_zero_length_frame_is_valid() {
    let buf = write_frame(&[]).expect("write_frame empty");
    let (received, _) = read_frame(&buf).expect("read_frame empty");
    assert!(received.is_empty());
}

#[test]
fn read_frame_detects_clean_eof() {
    let err = read_frame(&[]).expect_err("should be EOF error");
    assert!(matches!(err, NixClipError::Ipc(ref s) if s.contains("connection closed")));
}

#[test]
fn read_frame_rejects_oversized_frame() {
    let oversized_len: u32 = MAX_FRAME_SIZE + 1;
    let buf = oversized_len.to_be_bytes().to_vec();
    let err = read_frame(&buf).expect_err("should be too-large error");
    assert!(matches!(err, NixClipError::Ipc(ref s) if s.contains("frame too large")));
}

#[test]
fn ipc_write_frame_rejects_oversized_payload() {
    let big: Vec<u8> = vec![0u8; (MAX_FRAME_SIZE + 1) as usize];
    let err = write_frame(&big).expect_err("should reject oversized");
    assert!(matches!(err, NixClipError::Ipc(ref s) if s.contains("frame too large")));
}

#[test]
fn ipc_test_write_then_read_frame_round_trip() {
    let payload = b"frame test payload";
    let buf = write_frame(payload).expect("write_frame");
    let written_len = u32::from_be_bytes(buf[..4].try_into().unwrap());
    assert_eq!(written_len, payload.len() as u32);
    let (received, _) = read_frame(&buf).expect("read_frame");
    assert_eq!(received.as_slice(), payload);
}

#[test]
fn ipc_test_zero_length_frame_is_valid() {
    let buf = write_frame(&[]).expect("write empty frame");
    let (received, _) = read_frame(&buf).expect("read empty frame");
    assert!(received.is_empty(), "zero-length frame should return empty vec");
}

#[test]
fn read_frame_clean_eof_returns_ipc_error() {
    let err = read_frame(&[]).expect_err("should fail on EOF");
    assert!(matches!(&err, NixClipError::Ipc(s) if s.contains("connection closed")));
}

#[test]
fn read_frame_rejects_oversized_length_header() {
    let oversized: u32 = 64 * 1024 * 1024 + 1;
    let err = read_frame(&oversized.to_be_bytes()).expect_err("should fail on oversized");
    assert!(matches!(&err, NixClipError::Ipc(s) if s.contains("frame too large")));
}

#[test]
fn ipc_test_write_frame_rejects_oversized_payload() {
    let big: Vec<u8> = vec![0u8; 64 * 1024 * 1024 + 1];
    let err = write_frame(&big).expect_err("should reject big payload");
    assert!(matches!(&err, NixClipError::Ipc(s) if s.contains("frame too large")));
}

#[test]
fn read_frame_truncated_payload_is_io_error() {
    let mut buf: Vec<u8> = 100u32.to_be_bytes().to_vec();
    buf.extend_from_slice(&[0u8; 10]);
    let err = read_frame(&buf).expect_err("truncated payload should error");
    assert!(matches!(err, NixClipError::Io(_)));
}

#[test]
fn multiple_frames_in_sequence() {
    let mut buf: Vec<u8> = Vec::new();
    buf.extend(write_frame(b"first").expect("write 1"));
    buf.extend(write_frame(b"second").expect("write 2"));
    buf.extend(write_frame(b"third").expect("write 3"));

    let (f1, n1) = read_frame(&buf).expect("read 1");
    let (f2, n2) = read_frame(&buf[n1..]).expect("read 2");
    let (f3, n3) = read_frame(&buf[n1 + n2..]).expect("read 3");

    assert_eq!(f1, b"first");
    assert_eq!(f2, b"second");
    assert_eq!(f3, b"third");
    assert_eq!(n1 + n2 + n3, buf.len());
}

#[test]
fn write_frame_exactly_64mib_is_accepted() {
    let exact_size = MAX_FRAME_SIZE as usize;
    let payload = vec![0xABu8; exact_size];
    let buf = write_frame(&payload).expect("write_frame at exactly 64 MiB must succeed");
    let written_len = u32::from_be_bytes(buf[..4].try_into().unwrap());
    assert_eq!(written_len as usize, exact_size);
    assert_eq!(buf.len(), 4 + exact_size);
}

#[test]
fn read_frame_exactly_64mib_is_accepted() {
    const MAX: usize = 64 * 1024 * 1024;
    let payload = vec![0xCDu8; MAX];
    let buf = write_frame(&payload).expect("write 64 MiB");
    let (received, _) = read_frame(&buf).expect("reading exactly 64 MiB must succeed");
    assert_eq!(received.len(), MAX);
    assert_eq!(received[0], 0xCD);
    assert_eq!(received[MAX - 1], 0xCD);
}

#[test]
fn write_frame_64mib_plus_one_is_rejected() {
    let payload = vec![0u8; MAX_FRAME_SIZE as usize + 1];
    let err = write_frame(&payload).expect_err("64 MiB + 1 must be rejected");
    assert!(matches!(&err, NixClipError::Ipc(s) if s.contains("frame too large")));
}

#[test]
fn read_frame_length_of_64mib_plus_one_is_rejected() {
    let header = (MAX_FRAME_SIZE + 1).to_be_bytes();
    let err = read_frame(&header).expect_err("oversized length must be rejected");
    assert!(matches!(&err, NixClipError::Ipc(s) if s.contains("frame too large")));
}

#[test]
fn partial_frame_missing_payload_bytes_is_io_error() {
    let claimed_len: u32 = 200;
    let mut buf = claimed_len.to_be_bytes().to_vec();
    buf.extend_from_slice(&[0xFFu8; 50]);
    let err = read_frame(&buf).expect_err("truncated payload must error");
    assert!(matches!(err, NixClipError::Io(_)));
}

#[test]
fn partial_frame_missing_length_bytes_is_io_error() {
    let err = read_frame(&[0x00, 0x01]).expect_err("truncated length header must error");
    assert!(matches!(err, NixClipError::Io(_)));
}

#[test]
fn clean_eof_before_any_bytes_is_ipc_connection_closed() {
    let err = read_frame(&[]).expect_err("clean EOF must be 'connection closed' error");
    assert!(matches!(&err, NixClipError::Ipc(s) if s.contains("connection closed")));
}

#[test]
fn frame_length_prefix_is_big_endian() {
    let payload = b"be-test";
    let buf = write_frame(payload).expect("write_frame");
    let raw_len_bytes: [u8; 4] = buf[..4].try_into().unwrap();
    assert_eq!(u32::from_be_bytes(raw_len_bytes) as usize, payload.len());
}

#[test]
fn frame_length_reads_the_header() {
    assert_eq!(frame_length(&[0, 0, 1, 2]).expect("length"), 258);
    assert!(frame_length(&(MAX_FRAME_SIZE + 1).to_be_bytes()).is_err());
}

#[test]
fn a_frame_cut_short_is_never_a_frame() {
    let buf = write_frame(b"cut me").expect("write_frame");
    for kept in 0..buf.len() {
        assert!(read_frame(&buf[..kept]).is_err());
    }
}
