use mllp_client::exchange::{
    finish_exchange, read_step, Config, ExchangeError, ReadEvent, ReadStep,
    DEFAULT_TIMEOUT_SECS,
};
use mllp_client::frame::{deframe, ends_with_end_sequence, frame_message};

#[test]
fn frame_message_exact_bytes() {
    let framed = frame_message(b"ACK");
    assert_eq!(framed, vec![0x0B, b'A', b'C', b'K', 0x1C, 0x0D]);
}

#[test]
fn frame_message_empty_payload() {
    let framed = frame_message(b"");
    assert_eq!(framed, vec![0x0B, 0x1C, 0x0D]);
}

#[test]
fn frame_round_trip_is_identity() {
    let payloads: Vec<Vec<u8>> = vec![
        b"".to_vec(),
        b"ACK".to_vec(),
        b"MSH|^~\\&|App|Fac\r".to_vec(),
        // marker bytes inside the payload are not escaped and must survive
        vec![0x0B, b'x', 0x1C, 0x0D, b'y'],
        vec![0x0B],
        vec![0x1C, 0x0D],
    ];
    for payload in payloads {
        let framed = frame_message(&payload);
        let recovered = deframe(&framed);
        assert_eq!(recovered, payload);
    }
}

#[test]
fn deframe_tolerates_missing_start() {
    let reply = vec![b'A', b'C', b'K', 0x1C, 0x0D];
    assert_eq!(deframe(&reply), b"ACK".to_vec());
}

#[test]
fn deframe_tolerates_missing_end() {
    let reply = vec![0x0B, b'A', b'C', b'K'];
    assert_eq!(deframe(&reply), b"ACK".to_vec());
}

#[test]
fn deframe_tolerates_bare_payload() {
    assert_eq!(deframe(b"ACK"), b"ACK".to_vec());
}

#[test]
fn ends_with_end_sequence_cases() {
    assert!(!ends_with_end_sequence(&vec![]));
    assert!(!ends_with_end_sequence(&vec![0x0D]));
    assert!(ends_with_end_sequence(&vec![0x1C, 0x0D]));
    assert!(ends_with_end_sequence(&vec![b'A', 0x1C, 0x0D]));
    assert!(!ends_with_end_sequence(&vec![0x1C, 0x0D, b'A']));
}

#[test]
fn empty_reply_is_timed_out() {
    let reply: Vec<u8> = Vec::new();
    assert_eq!(finish_exchange(&reply), Err(ExchangeError::TimedOut));
}

#[test]
fn framed_ack_reply_decodes_to_ack() {
    let reply = vec![0x0B, b'A', b'C', b'K', 0x1C, 0x0D];
    assert_eq!(finish_exchange(&reply), Ok("ACK".to_string()));
}

#[test]
fn unframed_ack_reply_decodes_to_ack() {
    // a peer that replies with bare text and closes still yields the text
    let reply = b"ACK".to_vec();
    assert_eq!(finish_exchange(&reply), Ok("ACK".to_string()));
}

#[test]
fn reply_without_start_decodes() {
    let reply = vec![b'A', b'C', b'K', 0x1C, 0x0D];
    assert_eq!(finish_exchange(&reply), Ok("ACK".to_string()));
}

#[test]
fn invalid_utf8_reply_is_invalid_data() {
    let reply = vec![0xFF, 0xFE, 0xFD];
    assert_eq!(finish_exchange(&reply), Err(ExchangeError::InvalidData));
}

#[test]
fn multibyte_utf8_reply_decodes() {
    // 0xC3 0xA9 is the two-byte encoding of 'é'; the decoded text must be
    // the one character, not the raw bytes
    let reply = vec![0x0B, 0xC3, 0xA9, 0x1C, 0x0D];
    let text = finish_exchange(&reply).unwrap();
    assert_eq!(text, "\u{e9}");
    assert_eq!(text.chars().count(), 1);
}

#[test]
fn read_step_accumulates_until_end_sequence() {
    let mut buf: Vec<u8> = Vec::new();
    let step = read_step(&mut buf, &ReadEvent::Received(b"AC".to_vec()));
    assert_eq!(step, ReadStep::KeepReading);
    assert_eq!(buf, b"AC".to_vec());
    let step = read_step(&mut buf, &ReadEvent::Received(vec![b'K', 0x1C, 0x0D]));
    assert_eq!(step, ReadStep::Complete);
    assert_eq!(buf, vec![b'A', b'C', b'K', 0x1C, 0x0D]);
}

#[test]
fn read_step_stops_on_close_and_would_block() {
    let mut buf: Vec<u8> = Vec::new();
    assert_eq!(read_step(&mut buf, &ReadEvent::Closed), ReadStep::Complete);
    assert!(buf.is_empty());
    assert_eq!(read_step(&mut buf, &ReadEvent::WouldBlock), ReadStep::Complete);
    assert!(buf.is_empty());
}

#[test]
fn read_step_aborts_on_failure() {
    let mut buf: Vec<u8> = b"partial".to_vec();
    assert_eq!(read_step(&mut buf, &ReadEvent::Failed), ReadStep::Abort);
    assert_eq!(buf, b"partial".to_vec());
}

#[test]
fn end_sequence_split_across_reads_is_found() {
    let mut buf: Vec<u8> = Vec::new();
    assert_eq!(
        read_step(&mut buf, &ReadEvent::Received(vec![b'A', 0x1C])),
        ReadStep::KeepReading
    );
    assert_eq!(
        read_step(&mut buf, &ReadEvent::Received(vec![0x0D])),
        ReadStep::Complete
    );
    assert_eq!(finish_exchange(&buf), Ok("A".to_string()));
}

#[test]
fn config_default_is_thirty_seconds() {
    assert_eq!(DEFAULT_TIMEOUT_SECS, 30);
    assert_eq!(Config::default().timeout_ms, 30_000);
}

#[test]
fn config_from_secs_converts_to_millis() {
    assert_eq!(Config::from_secs(45).timeout_ms, 45_000);
    assert_eq!(Config::from_secs(0).timeout_ms, 0);
}

#[test]
fn whole_exchange_on_collected_events() {
    // the reply of a well-behaved peer, arriving in two reads
    let mut buf: Vec<u8> = Vec::new();
    let events = vec![
        ReadEvent::Received(vec![0x0B, b'A']),
        ReadEvent::Received(vec![b'C', b'K', 0x1C, 0x0D]),
    ];
    let mut last = ReadStep::KeepReading;
    for ev in &events {
        last = read_step(&mut buf, ev);
        if last != ReadStep::KeepReading {
            break;
        }
    }
    assert_eq!(last, ReadStep::Complete);
    assert_eq!(finish_exchange(&buf), Ok("ACK".to_string()));
}
