use voxa_server::frame::{
    apply_mask, close_frame, decode_frame, encode_frame, parse_header, pong_frame, text_frame, Frame,
    OP_CONTINUATION, OP_PING, OP_TEXT,
};
use voxa_server::reader::{CloseCause, MessageReader, ReadStep, PROTOCOL_ERROR};

fn masked(fin: bool, opcode: u8, key: [u8; 4], payload: &[u8]) -> Vec<u8> {
    encode_frame(&Frame { fin, opcode, mask: Some(key), payload: payload.to_vec() })
}

#[test]
fn text_frame_round_trip_masked() {
    let payload: Vec<u8> = (0..300u32).map(|i| (i * 7 % 256) as u8).collect();
    let bytes = masked(true, OP_TEXT, [1, 2, 3, 4], &payload);
    let (f, n) = decode_frame(&bytes).unwrap();
    assert_eq!(n, bytes.len());
    assert!(f.fin);
    assert_eq!(f.opcode, OP_TEXT);
    assert_eq!(f.mask, Some([1, 2, 3, 4]));
    assert_eq!(f.payload, payload);
}

#[test]
fn text_frame_round_trip_unmasked() {
    let bytes = text_frame(b"hello");
    assert_eq!(bytes, vec![0x81, 5, b'h', b'e', b'l', b'l', b'o']);
    let (f, n) = decode_frame(&bytes).unwrap();
    assert_eq!(n, 7);
    assert_eq!(f.payload, b"hello".to_vec());
    assert_eq!(f.mask, None);
}

#[test]
fn round_trip_empty_payload() {
    let bytes = masked(true, OP_TEXT, [9, 9, 9, 9], b"");
    let (f, n) = decode_frame(&bytes).unwrap();
    assert_eq!(n, 6);
    assert!(f.payload.is_empty());
}

#[test]
fn length_125_uses_one_byte() {
    let bytes = text_frame(&vec![b'a'; 125]);
    assert_eq!(bytes[1], 125);
    assert_eq!(bytes.len(), 2 + 125);
}

#[test]
fn length_126_uses_two_extra_bytes() {
    let bytes = text_frame(&vec![b'a'; 126]);
    assert_eq!(&bytes[..4], &[0x81, 126, 0, 126]);
    assert_eq!(bytes.len(), 4 + 126);
}

#[test]
fn length_65535_uses_two_extra_bytes() {
    let bytes = text_frame(&vec![b'a'; 65535]);
    assert_eq!(&bytes[..4], &[0x81, 126, 0xff, 0xff]);
}

#[test]
fn length_65536_uses_eight_extra_bytes() {
    let bytes = text_frame(&vec![b'a'; 65536]);
    assert_eq!(&bytes[..10], &[0x81, 127, 0, 0, 0, 0, 0, 1, 0, 0]);
    assert_eq!(bytes.len(), 10 + 65536);
    let (f, _) = decode_frame(&bytes).unwrap();
    assert_eq!(f.payload.len(), 65536);
}

#[test]
fn masking_is_its_own_inverse() {
    let p = b"The quick brown fox".to_vec();
    let k = [0x37, 0xfa, 0x21, 0x3d];
    let once = apply_mask(&p, &k);
    assert_ne!(once, p);
    assert_eq!(once[0], p[0] ^ 0x37);
    assert_eq!(once[5], p[5] ^ 0xfa);
    assert_eq!(apply_mask(&once, &k), p);
}

#[test]
fn header_incomplete_until_mask_key() {
    let bytes = masked(true, OP_TEXT, [1, 2, 3, 4], b"abc");
    assert!(parse_header(&bytes[..1]).is_none());
    assert!(parse_header(&bytes[..5]).is_none());
    let h = parse_header(&bytes[..6]).unwrap();
    assert_eq!(h.payload_len, 3);
    assert_eq!(h.header_len, 6);
    assert!(decode_frame(&bytes[..8]).is_none());
}

#[test]
fn close_frame_layout() {
    let f = close_frame(1002, b"bye").unwrap();
    assert_eq!(f, vec![0x88, 5, 0x03, 0xea, b'b', b'y', b'e']);
    assert!(close_frame(1000, &vec![b'x'; 124]).is_none());
    assert!(close_frame(1000, &vec![b'x'; 123]).is_some());
}

#[test]
fn pong_frame_limits() {
    assert_eq!(pong_frame(b"hi").unwrap(), vec![0x8A, 2, b'h', b'i']);
    assert!(pong_frame(&vec![0u8; 126]).is_none());
}

#[test]
fn three_fragments_reassemble() {
    let mut r = MessageReader::new();
    let a = masked(false, OP_TEXT, [1, 1, 1, 1], b"Hel");
    let b = masked(false, OP_CONTINUATION, [2, 2, 2, 2], b"lo, ");
    let c = masked(true, OP_CONTINUATION, [3, 3, 3, 3], b"world");
    assert!(matches!(r.next(&a), ReadStep::Fragment { consumed } if consumed == a.len()));
    assert!(matches!(r.next(&b), ReadStep::Fragment { .. }));
    let whole = match r.next(&c) {
        ReadStep::Message { payload, .. } => payload,
        _ => panic!("expected a message"),
    };
    let mut single = MessageReader::new();
    let one = masked(true, OP_TEXT, [4, 5, 6, 7], b"Hello, world");
    let expected = match single.next(&one) {
        ReadStep::Message { payload, .. } => payload,
        _ => panic!("expected a message"),
    };
    assert_eq!(whole, expected);
    assert_eq!(whole, b"Hello, world".to_vec());
}

#[test]
fn ping_between_fragments_is_answered() {
    let mut r = MessageReader::new();
    let a = masked(false, OP_TEXT, [1, 1, 1, 1], b"ab");
    let p = masked(true, OP_PING, [5, 6, 7, 8], b"hb");
    let c = masked(true, OP_CONTINUATION, [3, 3, 3, 3], b"cd");
    assert!(matches!(r.next(&a), ReadStep::Fragment { .. }));
    match r.next(&p) {
        ReadStep::Ping { reply, .. } => assert_eq!(reply.unwrap(), vec![0x8A, 2, b'h', b'b']),
        _ => panic!("expected a ping"),
    }
    match r.next(&c) {
        ReadStep::Message { payload, .. } => assert_eq!(payload, b"abcd".to_vec()),
        _ => panic!("expected a message"),
    }
}

#[test]
fn unmasked_frame_closes_with_1002() {
    let mut r = MessageReader::new();
    let bytes = text_frame(b"hello");
    match r.next(&bytes) {
        ReadStep::Close { cause, .. } => {
            assert!(matches!(cause, CloseCause::Unmasked));
            assert_eq!(cause.code(), PROTOCOL_ERROR);
            let reply = cause.reply_frame().unwrap();
            assert_eq!(&reply[..4], &[0x88, reply[1], 0x03, 0xea]);
            assert_eq!(&reply[4..], b"Client frames must be masked");
        }
        _ => panic!("expected a close"),
    }
    assert!(r.is_closed());
    let later = masked(true, OP_TEXT, [1, 2, 3, 4], b"more");
    assert!(matches!(r.next(&later), ReadStep::Closed));
}

#[test]
fn control_frame_of_126_bytes_closes_with_1002() {
    let mut r = MessageReader::new();
    let bytes = masked(true, OP_PING, [1, 2, 3, 4], &vec![0u8; 126]);
    assert_eq!(bytes[1], 0x80 | 126);
    match r.next(&bytes[..8]) {
        ReadStep::Close { cause, .. } => {
            assert!(matches!(cause, CloseCause::ControlTooLarge));
            assert_eq!(cause.code(), 1002);
        }
        _ => panic!("expected a close"),
    }
    assert!(matches!(r.next(&bytes), ReadStep::Closed));
}

#[test]
fn fragmented_control_frame_closes() {
    let mut r = MessageReader::new();
    let bytes = masked(false, OP_PING, [1, 2, 3, 4], b"x");
    match r.next(&bytes) {
        ReadStep::Close { cause, .. } => {
            assert!(matches!(cause, CloseCause::FragmentedControl));
            assert_eq!(cause.code(), 1002);
        }
        _ => panic!("expected a close"),
    }
}

#[test]
fn unsupported_opcode_closes() {
    let mut r = MessageReader::new();
    let bytes = masked(true, 0x3, [1, 2, 3, 4], b"x");
    match r.next(&bytes) {
        ReadStep::Close { cause, .. } => {
            assert!(matches!(cause, CloseCause::UnsupportedOpcode));
            assert_eq!(cause.reason(), b"Unsupported opcode".to_vec());
        }
        _ => panic!("expected a close"),
    }
}

#[test]
fn peer_close_is_echoed() {
    let mut r = MessageReader::new();
    let bytes = masked(true, 0x8, [1, 2, 3, 4], &[0x0f, 0xa0, b'o', b'k']);
    match r.next(&bytes) {
        ReadStep::Close { cause, consumed } => {
            assert_eq!(consumed, bytes.len());
            assert_eq!(cause.code(), 4000);
            assert_eq!(cause.reason(), b"ok".to_vec());
            assert_eq!(cause.reply_frame().unwrap(), vec![0x88, 4, 0x0f, 0xa0, b'o', b'k']);
        }
        _ => panic!("expected a close"),
    }
}

#[test]
fn peer_close_without_code_is_1000() {
    let mut r = MessageReader::new();
    let bytes = masked(true, 0x8, [1, 2, 3, 4], b"");
    match r.next(&bytes) {
        ReadStep::Close { cause, .. } => {
            assert_eq!(cause.code(), 1000);
            assert_eq!(cause.reply_frame().unwrap(), vec![0x88, 2, 0x03, 0xe8]);
        }
        _ => panic!("expected a close"),
    }
}

#[test]
fn pong_is_ignored_and_incomplete_waits() {
    let mut r = MessageReader::new();
    let bytes = masked(true, 0xA, [1, 2, 3, 4], b"z");
    assert!(matches!(r.next(&bytes[..3]), ReadStep::Incomplete));
    assert!(matches!(r.next(&bytes), ReadStep::Pong { consumed } if consumed == bytes.len()));
    assert!(!r.is_closed());
}
