use dephy_node::ble::str_to_uuid;
use dephy_node::identity::{did_str_to_addr_bytes, DidError};
use dephy_node::ntp::{ntp_to_unix, unpack_ntp_data};
use dephy_node::numfmt::{hex_encode, u64_to_decimal};
use dephy_node::policy::{is_publish_ack, make_telemetry_payload, PublishPolicy};

#[test]
fn hex_encoding_matches_reference() {
    let bytes = vec![0x00, 0x01, 0x7F, 0x80, 0xAB, 0xFF];
    assert_eq!(hex_encode(bytes.as_slice()), hex::encode(&bytes));
    assert_eq!(hex_encode(&[]), "");
}

#[test]
fn decimal_rendering_is_exact() {
    assert_eq!(u64_to_decimal(0), b"0".to_vec());
    assert_eq!(u64_to_decimal(9), b"9".to_vec());
    assert_eq!(u64_to_decimal(10), b"10".to_vec());
    assert_eq!(u64_to_decimal(1700000000), b"1700000000".to_vec());
    assert_eq!(u64_to_decimal(u64::MAX), b"18446744073709551615".to_vec());
}

#[test]
fn did_string_parses_to_address_bytes() {
    let did = b"did:dephy:0xaabbccddeeff00112233445566778899AABBCCDD";
    let addr = did_str_to_addr_bytes(did).unwrap();
    assert_eq!(
        addr,
        hex::decode("aabbccddeeff00112233445566778899aabbccdd").unwrap()
    );
}

#[test]
fn did_string_errors_are_precise() {
    assert_eq!(
        did_str_to_addr_bytes(b"dud:dephy:0xaabbccddeeff00112233445566778899aabbccdd")
            .unwrap_err(),
        DidError::BadPrefix
    );
    assert_eq!(did_str_to_addr_bytes(b"did:").unwrap_err(), DidError::BadPrefix);
    assert_eq!(
        did_str_to_addr_bytes(b"did:dephy:0xaabb").unwrap_err(),
        DidError::BadLength
    );
    assert_eq!(
        did_str_to_addr_bytes(b"did:dephy:0xzzbbccddeeff00112233445566778899aabbccdd")
            .unwrap_err(),
        DidError::BadDigit
    );
}

#[test]
fn publish_ack_is_the_exact_body() {
    assert!(is_publish_ack(b"{\"ok\":true}"));
    assert!(!is_publish_ack(b"{\"ok\":false}"));
    assert!(!is_publish_ack(b"{\"ok\":true} "));
    assert!(!is_publish_ack(b""));
}

#[test]
fn telemetry_payload_is_name_comma_reading() {
    assert_eq!(
        make_telemetry_payload(b"DePHY_0a1b", b"21.5"),
        b"DePHY_0a1b,21.5".to_vec()
    );
}

#[test]
fn publish_policy_waits_then_retries_every_cycle() {
    let mut policy = PublishPolicy::new();
    for _ in 0..30 {
        assert!(!policy.should_publish());
        policy.finish_cycle(false);
    }
    // the threshold is reached: attempts happen every cycle until one lands
    assert!(policy.should_publish());
    policy.finish_cycle(false);
    assert!(policy.should_publish());
    policy.finish_cycle(true);
    // an acknowledged delivery starts the count over
    assert!(!policy.should_publish());
    for _ in 0..29 {
        policy.finish_cycle(false);
    }
    assert!(policy.should_publish());
}

#[test]
fn uuid_bytes_pad_and_truncate() {
    assert_eq!(
        str_to_uuid(b"io.dephy.ble"),
        b"io.dephy.ble\0\0\0\0".to_vec()
    );
    assert_eq!(
        str_to_uuid(b"a.name.that.is.far.too.long"),
        b"a.name.that.is.f".to_vec()
    );
}

#[test]
fn ntp_seconds_unpack_from_offset_forty() {
    let mut buf = vec![0u8; 48];
    buf[40] = 0x83;
    buf[41] = 0xAA;
    buf[42] = 0x7E;
    buf[43] = 0x80;
    let secs = unpack_ntp_data(buf.as_slice());
    assert_eq!(secs, 0x83AA7E80);
    // 1970-01-01 in the 1900 epoch maps to Unix zero
    assert_eq!(ntp_to_unix(2208988800), 0);
    assert_eq!(ntp_to_unix(secs), 0x83AA7E80 - 2208988800);
}
