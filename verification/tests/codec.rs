use tokio_chat::codec::{decode_frame, encode_frame, FrameError, MAX_PAYLOAD_LEN};

#[test]
fn encode_prefixes_big_endian_length() {
    let mut buf: Vec<u8> = Vec::new();
    assert!(encode_frame(b"hi", &mut buf).is_ok());
    assert_eq!(buf, vec![0u8, 2, b'h', b'i']);
}

#[test]
fn encode_long_payload_prefix() {
    let payload = vec![7u8; 300];
    let mut buf: Vec<u8> = vec![9u8];
    assert!(encode_frame(&payload, &mut buf).is_ok());
    assert_eq!(buf.len(), 1 + 2 + 300);
    assert_eq!(&buf[..3], &[9u8, 1, 44]);
    assert!(buf[3..].iter().all(|b| *b == 7));
}

#[test]
fn encode_refuses_oversized_payload() {
    let payload = vec![0u8; MAX_PAYLOAD_LEN + 1];
    let mut buf: Vec<u8> = vec![1u8, 2, 3];
    match encode_frame(&payload, &mut buf) {
        Err(FrameError::PayloadTooLarge) => {}
        Ok(()) => panic!("oversized payload was framed"),
    }
    assert_eq!(buf, vec![1u8, 2, 3]);
}

#[test]
fn encode_accepts_largest_payload() {
    let payload = vec![5u8; MAX_PAYLOAD_LEN];
    let mut buf: Vec<u8> = Vec::new();
    assert!(encode_frame(&payload, &mut buf).is_ok());
    assert_eq!(&buf[..2], &[255u8, 255]);
    assert_eq!(buf.len(), MAX_PAYLOAD_LEN + 2);
}

#[test]
fn decode_waits_for_header() {
    assert!(decode_frame(&[]).is_none());
    assert!(decode_frame(&[0u8]).is_none());
}

#[test]
fn decode_waits_for_payload() {
    assert!(decode_frame(&[0u8, 3, b'a', b'b']).is_none());
    assert!(decode_frame(&[1u8, 0]).is_none());
}

#[test]
fn decode_reads_one_frame_and_leaves_the_rest() {
    let (consumed, payload) = decode_frame(&[0u8, 2, b'o', b'k', 0, 1, b'x']).unwrap();
    assert_eq!(consumed, 4);
    assert_eq!(payload, b"ok".to_vec());
}

#[test]
fn decode_empty_payload() {
    let (consumed, payload) = decode_frame(&[0u8, 0, 42]).unwrap();
    assert_eq!(consumed, 2);
    assert!(payload.is_empty());
}

#[test]
fn encode_then_decode_round_trip() {
    let json = br#"{"name":"alice"}"#;
    let mut buf: Vec<u8> = Vec::new();
    assert!(encode_frame(json, &mut buf).is_ok());
    buf.extend_from_slice(&[0u8, 9, 1]);
    let (consumed, payload) = decode_frame(&buf).unwrap();
    assert_eq!(consumed, json.len() + 2);
    assert_eq!(payload, json.to_vec());
}
