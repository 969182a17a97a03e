use dephy_node::hash::HashChain;
use dephy_node::identity::{get_eth_address, DeviceIdentity};
use dephy_node::message::SignedMessage;
use dephy_node::numfmt::u64_to_decimal;
use dephy_node::protocol::{
    check_message, create_signed_message, create_signed_message_with_secret, CreateError,
    VerifyError,
};
use sha3::Digest;

fn keccak(parts: &[&[u8]]) -> Vec<u8> {
    let mut h = sha3::Keccak256::new();
    for p in parts {
        h.update(p);
    }
    h.finalize().to_vec()
}

fn test_secret(fill: u8) -> Vec<u8> {
    vec![fill; 32]
}

fn identity_of(fill: u8) -> DeviceIdentity {
    DeviceIdentity::from_secret_bytes(test_secret(fill)).unwrap()
}

#[test]
fn keccak_chain_matches_known_vectors() {
    let empty = HashChain::new().finalize();
    assert_eq!(
        empty,
        hex::decode("c5d2460186f7233c927e7db2dcc703c0e500b653ca82273b7bfad8045d85a470").unwrap()
    );
    let mut chain = HashChain::new();
    chain.update(b"a");
    chain.update(b"bc");
    let abc = chain.finalize_reset();
    assert_eq!(
        abc,
        hex::decode("4e03657aea45a94fc7d47ba826c8d667c0d1e6e33a64a036ec44f58fa12d6c45").unwrap()
    );
    // after the reset the chain starts over
    chain.update(b"abc");
    assert_eq!(chain.finalize(), abc);
}

#[test]
fn address_of_scalar_one_matches_known_value() {
    let mut secret = vec![0u8; 32];
    secret[31] = 1;
    let id = DeviceIdentity::from_secret_bytes(secret).unwrap();
    let addr = get_eth_address(id.public_key().as_slice());
    assert_eq!(addr, "0x7e5f4552091a69125d5dfcb7b8c2659029395bdf");
}

#[test]
fn invalid_secret_is_refused() {
    assert!(DeviceIdentity::from_secret_bytes(vec![0u8; 32]).is_none());
    let r = create_signed_message_with_secret(vec![0u8; 32], b"x".to_vec(), None, 1);
    assert_eq!(r.unwrap_err(), CreateError::InvalidKey);
}

#[test]
fn create_then_verify_succeeds() {
    let id = identity_of(0x11);
    let msg = create_signed_message(&id, b"hello".to_vec(), Some(vec![0xCC; 20]), 42).unwrap();
    let bytes = msg.encode_to_vec();
    let (sm, rm) = check_message(bytes.as_slice()).unwrap();
    assert_eq!(rm.payload, b"hello".to_vec());
    assert_eq!(rm.to_address, vec![0xCC; 20]);
    assert_eq!(rm.from_address, id.address().clone());
    assert_eq!(sm.nonce, 42);
}

#[test]
fn concrete_scenario_commits_and_verifies() {
    let secret = test_secret(0x11);
    let msg = create_signed_message_with_secret(
        secret.clone(),
        b"DePHY_TEST,21.5".to_vec(),
        None,
        1700000000,
    )
    .unwrap();
    assert_eq!(msg.nonce, 1700000000);
    assert_eq!(u64_to_decimal(1700000000), b"1700000000".to_vec());
    // the commitment is Keccak-256 over the raw bytes and the decimal timestamp
    let expected_hash = keccak(&[msg.raw.as_slice(), b"1700000000"]);
    assert_eq!(msg.hash, expected_hash);
    // the signature is 65 bytes and the target defaults to broadcast
    assert_eq!(msg.signature.len(), 65);
    let bytes = msg.encode_to_vec();
    let (_, rm) = check_message(bytes.as_slice()).unwrap();
    assert_eq!(rm.payload, b"DePHY_TEST,21.5".to_vec());
    assert_eq!(rm.to_address, vec![0u8; 20]);
    // the sender address matches an independent derivation of the key
    let sk = k256::ecdsa::SigningKey::from_slice(&secret).unwrap();
    let point = sk.verifying_key().to_encoded_point(false);
    let digest = keccak(&[&point.as_bytes()[1..]]);
    assert_eq!(rm.from_address, digest[12..32].to_vec());
}

#[test]
fn creation_is_deterministic() {
    let id = identity_of(0x11);
    let a = create_signed_message(&id, b"t".to_vec(), None, 7).unwrap();
    let b = create_signed_message(&id, b"t".to_vec(), None, 7).unwrap();
    assert_eq!(a.encode_to_vec(), b.encode_to_vec());
}

#[test]
fn any_flipped_bit_in_raw_is_detected() {
    let id = identity_of(0x11);
    let msg = create_signed_message(&id, b"DePHY_TEST,21.5".to_vec(), None, 1700000000).unwrap();
    for i in 0..msg.raw.len() {
        for bit in 0..8 {
            let mut raw = msg.raw.clone();
            raw[i] ^= 1 << bit;
            let tampered = SignedMessage {
                raw,
                hash: msg.hash.clone(),
                nonce: msg.nonce,
                signature: msg.signature.clone(),
                last_edge_addr: None,
            };
            let bytes = tampered.encode_to_vec();
            assert_eq!(
                check_message(bytes.as_slice()).unwrap_err(),
                VerifyError::HashMismatch
            );
        }
    }
}

#[test]
fn altered_nonce_is_detected_by_the_hash() {
    let id = identity_of(0x11);
    let msg = create_signed_message(&id, b"n".to_vec(), None, 1000).unwrap();
    let tampered = SignedMessage {
        raw: msg.raw.clone(),
        hash: msg.hash.clone(),
        nonce: 1001,
        signature: msg.signature.clone(),
        last_edge_addr: None,
    };
    let bytes = tampered.encode_to_vec();
    assert_eq!(
        check_message(bytes.as_slice()).unwrap_err(),
        VerifyError::HashMismatch
    );
}

#[test]
fn nonce_divorced_from_timestamp_is_detected() {
    let id = identity_of(0x11);
    let msg = create_signed_message(&id, b"n".to_vec(), None, 1000).unwrap();
    // recompute a consistent hash for the altered nonce, so only the
    // binding to the inner timestamp can catch it
    let new_nonce: u64 = 1001;
    let hash = keccak(&[msg.raw.as_slice(), b"1001"]);
    let tampered = SignedMessage {
        raw: msg.raw.clone(),
        hash,
        nonce: new_nonce,
        signature: msg.signature.clone(),
        last_edge_addr: None,
    };
    let bytes = tampered.encode_to_vec();
    assert_eq!(
        check_message(bytes.as_slice()).unwrap_err(),
        VerifyError::NonceMismatch
    );
}

#[test]
fn substituted_signer_is_detected() {
    let id1 = identity_of(0x11);
    let id2 = identity_of(0x22);
    // a message that still claims id1 as sender, re-signed by id2
    let msg = create_signed_message(&id1, b"payload".to_vec(), None, 1234).unwrap();
    let digest = keccak(&[msg.hash.as_slice()]);
    let forged_sig = id2.sign(digest.as_slice()).unwrap();
    let forged = SignedMessage {
        raw: msg.raw.clone(),
        hash: msg.hash.clone(),
        nonce: msg.nonce,
        signature: forged_sig,
        last_edge_addr: None,
    };
    let bytes = forged.encode_to_vec();
    assert_eq!(
        check_message(bytes.as_slice()).unwrap_err(),
        VerifyError::SignerMismatch
    );
}

#[test]
fn empty_input_is_rejected() {
    assert_eq!(check_message(&[]).unwrap_err(), VerifyError::Empty);
}

#[test]
fn undecodable_input_is_rejected() {
    assert_eq!(check_message(&[0x0F]).unwrap_err(), VerifyError::DecodeFailed);
}

#[test]
fn wrong_signature_length_is_rejected() {
    let id = identity_of(0x11);
    let msg = create_signed_message(&id, b"s".to_vec(), None, 5).unwrap();
    let mut sig = msg.signature.clone();
    sig.pop();
    let short = SignedMessage {
        raw: msg.raw.clone(),
        hash: msg.hash.clone(),
        nonce: msg.nonce,
        signature: sig,
        last_edge_addr: None,
    };
    let bytes = short.encode_to_vec();
    assert_eq!(
        check_message(bytes.as_slice()).unwrap_err(),
        VerifyError::BadSignatureLength
    );
}

#[test]
fn unrecoverable_signature_is_rejected() {
    let id = identity_of(0x11);
    let msg = create_signed_message(&id, b"s".to_vec(), None, 5).unwrap();
    let garbled = SignedMessage {
        raw: msg.raw.clone(),
        hash: msg.hash.clone(),
        nonce: msg.nonce,
        signature: vec![0xFF; 65],
        last_edge_addr: None,
    };
    let bytes = garbled.encode_to_vec();
    assert_eq!(
        check_message(bytes.as_slice()).unwrap_err(),
        VerifyError::RecoveryFailed
    );
}

#[test]
fn relayed_message_still_verifies() {
    let id = identity_of(0x11);
    let msg = create_signed_message(&id, b"relay".to_vec(), None, 99).unwrap();
    let relayed = SignedMessage {
        raw: msg.raw.clone(),
        hash: msg.hash.clone(),
        nonce: msg.nonce,
        signature: msg.signature.clone(),
        last_edge_addr: Some(vec![0xEE; 20]),
    };
    let bytes = relayed.encode_to_vec();
    let (sm, _) = check_message(bytes.as_slice()).unwrap();
    assert_eq!(sm.last_edge_addr, Some(vec![0xEE; 20]));
}
