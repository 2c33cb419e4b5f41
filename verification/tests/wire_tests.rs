use phiny::errors::SessionError;
use phiny::framing::{check_handshake, encode_wire_message, handshake_marker, WireDecoder};

#[test]
fn wire_encode_exact_bytes() {
    let bytes = encode_wire_message(&[0xABu8, 0xCD], 100).unwrap();
    assert_eq!(bytes, vec![0u8, 0, 0, 2, 0xAB, 0xCD]);
}

#[test]
fn wire_encode_empty_payload() {
    let bytes = encode_wire_message(&[], 100).unwrap();
    assert_eq!(bytes, vec![0u8, 0, 0, 0]);
}

#[test]
fn wire_encode_over_cap_fails() {
    let payload = vec![0u8; 11];
    assert_eq!(
        encode_wire_message(&payload, 10),
        Err(SessionError::Framing)
    );
    // Exactly at the cap is still fine, on both sides.
    let at_cap = vec![7u8; 10];
    let bytes = encode_wire_message(&at_cap, 10).unwrap();
    let mut d = WireDecoder::new(10);
    d.feed(&bytes);
    assert_eq!(d.next_message().unwrap().unwrap(), at_cap);
}

#[test]
fn three_messages_arrive_in_order() {
    let m1 = b"first message".to_vec();
    let m2 = b"second".to_vec();
    let m3 = b"the third one, a bit longer".to_vec();
    let mut stream: Vec<u8> = Vec::new();
    for m in [&m1, &m2, &m3] {
        stream.extend_from_slice(&encode_wire_message(m, 1024).unwrap());
    }

    // Deliver the stream in chunks that cut through headers and payloads.
    let mut decoder = WireDecoder::new(1024);
    let mut received: Vec<Vec<u8>> = Vec::new();
    for chunk in stream.chunks(5) {
        decoder.feed(chunk);
        while let Some(m) = decoder.next_message().unwrap() {
            received.push(m);
        }
    }
    assert_eq!(received, vec![m1, m2, m3]);
}

#[test]
fn merged_and_split_writes_do_not_change_messages() {
    let m1 = vec![1u8, 2, 3];
    let m2 = vec![4u8];
    let mut stream = encode_wire_message(&m1, 64).unwrap();
    stream.extend_from_slice(&encode_wire_message(&m2, 64).unwrap());

    // All at once.
    let mut d = WireDecoder::new(64);
    d.feed(&stream);
    assert_eq!(d.next_message().unwrap().unwrap(), m1);
    assert_eq!(d.next_message().unwrap().unwrap(), m2);
    assert_eq!(d.next_message().unwrap(), None);

    // One byte at a time.
    let mut d = WireDecoder::new(64);
    let mut received: Vec<Vec<u8>> = Vec::new();
    for b in &stream {
        d.feed(&[*b]);
        while let Some(m) = d.next_message().unwrap() {
            received.push(m);
        }
    }
    assert_eq!(received, vec![m1, m2]);
}

#[test]
fn incomplete_message_yields_none() {
    let mut d = WireDecoder::new(64);
    d.feed(&[0u8, 0, 0]);
    assert_eq!(d.next_message().unwrap(), None);
    d.feed(&[5u8, 1, 2]);
    // Header complete, payload still short.
    assert_eq!(d.next_message().unwrap(), None);
    d.feed(&[3u8, 4, 5]);
    assert_eq!(d.next_message().unwrap().unwrap(), vec![1u8, 2, 3, 4, 5]);
}

#[test]
fn over_cap_length_prefix_fails_before_payload() {
    let mut d = WireDecoder::new(65535);
    // Length prefix 65536, no payload behind it at all.
    d.feed(&[0u8, 1, 0, 0]);
    assert_eq!(d.next_message(), Err(SessionError::Framing));
}

#[test]
fn handshake_marker_is_fixed() {
    assert_eq!(handshake_marker(), b"PHINY_HANDSHAKE_V1".to_vec());
}

#[test]
fn handshake_accepts_exact_marker_only() {
    assert_eq!(check_handshake(b"PHINY_HANDSHAKE_V1"), Ok(()));
    assert_eq!(
        check_handshake(b"PHINY_HANDSHAKE_V2"),
        Err(SessionError::HandshakeFailed)
    );
    assert_eq!(
        check_handshake(b"PHINY_HANDSHAKE_V"),
        Err(SessionError::HandshakeFailed)
    );
    assert_eq!(check_handshake(b""), Err(SessionError::HandshakeFailed));
}
