use phiny::errors::SessionError;
use phiny::ticket::{build_record, parse_record, NodeAddress, Ticket};

fn sample_address() -> NodeAddress {
    NodeAddress {
        node_id: (0u8..32).collect(),
        relay_url: Some(b"https://relay.example.net/".to_vec()),
        direct_addresses: vec![
            b"192.0.2.10:4433".to_vec(),
            b"[2001:db8::1]:4433".to_vec(),
        ],
    }
}

#[test]
fn ticket_round_trip_with_relay() {
    let ticket = Ticket::new(sample_address());
    let text = ticket.encode().unwrap();
    let back = Ticket::decode(&text).unwrap();
    assert_eq!(back.node_addrs, sample_address());
}

#[test]
fn ticket_round_trip_without_relay() {
    let addr = NodeAddress {
        node_id: vec![7u8; 32],
        relay_url: None,
        direct_addresses: Vec::new(),
    };
    let ticket = Ticket::new(addr.clone());
    let text = ticket.encode().unwrap();
    let back = Ticket::decode(&text).unwrap();
    assert_eq!(back.node_addrs, addr);
}

#[test]
fn ticket_text_is_base32_of_the_record() {
    // The record layout is fixed: each field is a four-byte big-endian
    // length followed by the field's bytes; the relay field starts with a
    // marker byte. The ticket text must be exactly the BASE32 encoding of
    // that record — not the record itself, nor anything else.
    let addr = NodeAddress {
        node_id: vec![1u8; 32],
        relay_url: None,
        direct_addresses: vec![b"a".to_vec()],
    };
    let mut record: Vec<u8> = Vec::new();
    record.extend_from_slice(&[0, 0, 0, 32]);
    record.extend_from_slice(&[1u8; 32]);
    record.extend_from_slice(&[0, 0, 0, 1, 0]);
    record.extend_from_slice(&[0, 0, 0, 1]);
    record.push(b'a');

    let text = Ticket::new(addr).encode().unwrap();
    assert_eq!(text, data_encoding::BASE32.encode(&record));
    assert_ne!(text.as_bytes(), record.as_slice());
}

#[test]
fn corrupted_ticket_fails() {
    let text = Ticket::new(sample_address()).encode().unwrap();

    // Not the BASE32 alphabet at all.
    assert_eq!(
        Ticket::decode("@@@not-base32@@@").err(),
        Some(SessionError::InvalidTicket)
    );

    // Valid alphabet, but not the encoding of any address record.
    assert_eq!(
        Ticket::decode("MZXW6YTBOI======").err(),
        Some(SessionError::InvalidTicket)
    );

    // A flip in the record's first length prefix makes the first field
    // claim far more bytes than the record holds. (A flip confined to a
    // field's content instead decodes to a different, equally well-formed
    // address: the alphabet carries no checksum.)
    let mut corrupted: Vec<char> = text.chars().collect();
    assert_eq!(corrupted[0], 'A');
    corrupted[0] = 'Z';
    let corrupted: String = corrupted.into_iter().collect();
    assert_eq!(
        Ticket::decode(&corrupted).err(),
        Some(SessionError::InvalidTicket)
    );

    // Truncation breaks the alphabet's padding.
    assert_eq!(
        Ticket::decode(&text[..text.len() - 1]).err(),
        Some(SessionError::InvalidTicket)
    );
}

#[test]
fn address_with_wrong_identifier_length_is_rejected() {
    let addr = NodeAddress {
        node_id: vec![0u8; 31],
        relay_url: None,
        direct_addresses: Vec::new(),
    };
    assert_eq!(
        Ticket::new(addr).encode().err(),
        Some(SessionError::InvalidTicket)
    );
}

#[test]
fn empty_ticket_text_fails() {
    // Empty text is valid BASE32 for the empty record, which has no fields.
    assert_eq!(
        Ticket::decode("").err(),
        Some(SessionError::InvalidTicket)
    );
}

#[test]
fn record_round_trip_without_the_alphabet() {
    // The record format itself, below the alphabet encoding.
    let addr = sample_address();
    let record = build_record(&addr).unwrap();
    assert_eq!(parse_record(&record).unwrap(), addr);
    // A truncated record no longer parses.
    assert_eq!(
        parse_record(&record[..record.len() - 1]).err(),
        Some(SessionError::InvalidTicket)
    );
}
