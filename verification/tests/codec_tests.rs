use dephy_node::codec::DecodeError;
use dephy_node::message::{RawMessage, SignedMessage};

fn sample_raw() -> RawMessage {
    RawMessage {
        timestamp: 1700000000,
        from_address: vec![0xAA; 20],
        to_address: vec![0u8; 20],
        encrypted: false,
        payload: b"DePHY_TEST,21.5".to_vec(),
        iv: None,
        w3b: None,
    }
}

#[test]
fn raw_message_round_trips() {
    let m = sample_raw();
    let bytes = m.encode_to_vec();
    let back = RawMessage::decode(bytes.as_slice()).unwrap();
    assert_eq!(back.timestamp, 1700000000);
    assert_eq!(back.from_address, vec![0xAA; 20]);
    assert_eq!(back.to_address, vec![0u8; 20]);
    assert!(!back.encrypted);
    assert_eq!(back.payload, b"DePHY_TEST,21.5".to_vec());
    assert_eq!(back.iv, None);
    assert_eq!(back.w3b, None);
}

#[test]
fn raw_message_round_trips_all_fields() {
    let m = RawMessage {
        timestamp: u64::MAX,
        from_address: vec![1, 2, 3],
        to_address: vec![4, 5],
        encrypted: true,
        payload: vec![0; 300],
        iv: Some(vec![]),
        w3b: Some(vec![9, 9, 9]),
    };
    let bytes = m.encode_to_vec();
    let back = RawMessage::decode(bytes.as_slice()).unwrap();
    assert_eq!(back.timestamp, u64::MAX);
    assert_eq!(back.from_address, vec![1, 2, 3]);
    assert_eq!(back.to_address, vec![4, 5]);
    assert!(back.encrypted);
    assert_eq!(back.payload, vec![0; 300]);
    assert_eq!(back.iv, Some(vec![]));
    assert_eq!(back.w3b, Some(vec![9, 9, 9]));
}

#[test]
fn default_raw_message_encodes_to_nothing() {
    let m = RawMessage {
        timestamp: 0,
        from_address: vec![],
        to_address: vec![],
        encrypted: false,
        payload: vec![],
        iv: None,
        w3b: None,
    };
    let bytes = m.encode_to_vec();
    assert!(bytes.is_empty());
    let back = RawMessage::decode(bytes.as_slice()).unwrap();
    assert_eq!(back.timestamp, 0);
    assert!(back.from_address.is_empty());
    assert_eq!(back.iv, None);
}

#[test]
fn raw_encoding_is_canonical_bytes() {
    let m = RawMessage {
        timestamp: 1,
        from_address: vec![0xAA, 0xBB],
        to_address: vec![],
        encrypted: true,
        payload: vec![0x7F],
        iv: None,
        w3b: None,
    };
    let bytes = m.encode_to_vec();
    // field 1 varint 1; field 2 two bytes; field 4 bool true; field 5 one byte
    assert_eq!(
        bytes,
        vec![0x08, 0x01, 0x12, 0x02, 0xAA, 0xBB, 0x20, 0x01, 0x2A, 0x01, 0x7F]
    );
}

#[test]
fn varint_boundaries_survive_the_codec() {
    for ts in [127u64, 128, 16383, 16384, u64::MAX - 1, u64::MAX] {
        let mut m = sample_raw();
        m.timestamp = ts;
        let bytes = m.encode_to_vec();
        let back = RawMessage::decode(bytes.as_slice()).unwrap();
        assert_eq!(back.timestamp, ts);
    }
}

#[test]
fn truncated_input_is_rejected() {
    // field 1, length-delimited, claims five bytes but carries one
    let r = RawMessage::decode(&[0x0A, 0x05, 0x01]);
    assert_eq!(r.unwrap_err(), DecodeError::Malformed);
}

#[test]
fn wrong_wire_type_is_rejected() {
    // field 1 (timestamp) with length-delimited wire type
    let r = RawMessage::decode(&[0x0A, 0x01, 0x00]);
    assert_eq!(r.unwrap_err(), DecodeError::Malformed);
}

#[test]
fn reserved_wire_type_is_rejected() {
    let r = RawMessage::decode(&[0x0F]);
    assert_eq!(r.unwrap_err(), DecodeError::Malformed);
}

#[test]
fn unknown_fields_are_skipped() {
    // field 15 varint 1, then field 5 (payload) of two bytes
    let bytes = vec![0x78, 0x01, 0x2A, 0x02, 0x61, 0x62];
    let back = RawMessage::decode(bytes.as_slice()).unwrap();
    assert_eq!(back.payload, b"ab".to_vec());
    assert_eq!(back.timestamp, 0);
}

#[test]
fn unknown_fixed_width_fields_are_skipped() {
    // field 12 fixed64, field 13 fixed32, then payload
    let mut bytes = vec![0x61];
    bytes.extend_from_slice(&[0; 8]);
    bytes.push(0x6D);
    bytes.extend_from_slice(&[0; 4]);
    bytes.extend_from_slice(&[0x2A, 0x01, 0x7A]);
    let back = RawMessage::decode(bytes.as_slice()).unwrap();
    assert_eq!(back.payload, vec![0x7A]);
}

#[test]
fn oversized_varint_is_rejected() {
    // an eleventh varint byte can never appear in a 64-bit value
    let bytes = vec![0x08, 0xFF, 0xFF, 0xFF, 0xFF, 0xFF, 0xFF, 0xFF, 0xFF, 0xFF, 0xFF, 0x01];
    let r = RawMessage::decode(bytes.as_slice());
    assert_eq!(r.unwrap_err(), DecodeError::Malformed);
}

#[test]
fn signed_message_round_trips() {
    let m = SignedMessage {
        raw: vec![1, 2, 3, 4],
        hash: vec![0x55; 32],
        nonce: 1700000000,
        signature: vec![0x66; 65],
        last_edge_addr: Some(vec![0x77; 20]),
    };
    let bytes = m.encode_to_vec();
    let back = SignedMessage::decode(bytes.as_slice()).unwrap();
    assert_eq!(back.raw, vec![1, 2, 3, 4]);
    assert_eq!(back.hash, vec![0x55; 32]);
    assert_eq!(back.nonce, 1700000000);
    assert_eq!(back.signature, vec![0x66; 65]);
    assert_eq!(back.last_edge_addr, Some(vec![0x77; 20]));
}

#[test]
fn signed_message_round_trips_without_relay() {
    let m = SignedMessage {
        raw: vec![],
        hash: vec![0x01],
        nonce: 0,
        signature: vec![],
        last_edge_addr: None,
    };
    let bytes = m.encode_to_vec();
    let back = SignedMessage::decode(bytes.as_slice()).unwrap();
    assert!(back.raw.is_empty());
    assert_eq!(back.hash, vec![0x01]);
    assert_eq!(back.nonce, 0);
    assert_eq!(back.last_edge_addr, None);
}
