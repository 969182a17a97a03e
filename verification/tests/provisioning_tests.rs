use dephy_node::identity::DeviceIdentity;
use dephy_node::provisioning::{
    get_device_secret_key, step, KeyStore, KeyStoreError, ProvisionError, ProvisioningState,
};

fn entropy() -> Vec<u8> {
    vec![0x22; 32]
}

#[test]
fn entropy_window_runs_to_key_generation() {
    let mut store = KeyStore::new_unprovisioned();
    let mut state = ProvisioningState::Init;
    for _ in 0..3601 {
        let (next, _) = step(state, &mut store, entropy()).unwrap();
        state = next;
    }
    assert!(matches!(state, ProvisioningState::ShouldGenerateKey));
    assert!(!store.is_provisioned());
    let (next, _) = step(state, &mut store, entropy()).unwrap();
    match next {
        ProvisioningState::KeyTaken { addr_hex, secs_waited, .. } => {
            assert_eq!(secs_waited, 0);
            assert!(addr_hex.starts_with("0x"));
            assert_eq!(addr_hex.len(), 42);
        }
        _ => panic!("expected KeyTaken"),
    }
    assert!(store.is_provisioned());
    assert_eq!(store.read(), Some(entropy()));
}

#[test]
fn waiting_counts_one_second_per_tick() {
    let mut store = KeyStore::new_unprovisioned();
    let (s1, _) = step(ProvisioningState::Init, &mut store, entropy()).unwrap();
    match s1 {
        ProvisioningState::WaitingForEntropy { secs_waited } => assert_eq!(secs_waited, 1),
        _ => panic!("expected WaitingForEntropy"),
    }
    let (s2, out) = step(s1, &mut store, entropy()).unwrap();
    match s2 {
        ProvisioningState::WaitingForEntropy { secs_waited } => assert_eq!(secs_waited, 2),
        _ => panic!("expected WaitingForEntropy"),
    }
    // even second: first indicator on, second off
    assert_eq!(out.leds, Some((true, false)));
    let (_, out3) = step(s2, &mut store, entropy()).unwrap();
    assert_eq!(out3.leds, Some((false, true)));
}

#[test]
fn provisioned_store_is_never_written_again() {
    let key = vec![0x11; 32];
    let mut store = KeyStore::new_with_key(key.clone());
    // the flow from Init simply adopts the stored key
    let (s1, _) = step(ProvisioningState::Init, &mut store, entropy()).unwrap();
    assert!(matches!(s1, ProvisioningState::KeyTaken { .. }));
    assert_eq!(store.read(), Some(key.clone()));
    // a direct second write is refused and changes nothing
    assert_eq!(
        store.write(vec![0x33; 32]).unwrap_err(),
        KeyStoreError::AlreadyProvisioned
    );
    assert_eq!(store.read(), Some(key.clone()));
    // even a confused machine that asks to generate again is refused
    let r = step(ProvisioningState::ShouldGenerateKey, &mut store, entropy());
    assert_eq!(r.unwrap_err(), ProvisionError::KeyStoreWriteFailed);
    assert_eq!(store.read(), Some(key));
}

#[test]
fn stored_identity_is_stable_across_reads() {
    let key = vec![0x11; 32];
    let mut store = KeyStore::new_with_key(key);
    let (a, _) = step(ProvisioningState::Init, &mut store, entropy()).unwrap();
    let (b, _) = step(ProvisioningState::Init, &mut store, vec![0x77; 32]).unwrap();
    match (a, b) {
        (
            ProvisioningState::KeyTaken { pubkey_hex: p1, addr_hex: a1, .. },
            ProvisioningState::KeyTaken { pubkey_hex: p2, addr_hex: a2, .. },
        ) => {
            assert_eq!(p1, p2);
            assert_eq!(a1, a2);
            assert!(!p1.is_empty());
        }
        _ => panic!("expected KeyTaken twice"),
    }
}

#[test]
fn invalid_stored_key_is_fatal() {
    // an all-zero scalar is not a valid secret key
    let mut store = KeyStore::new_with_key(vec![0u8; 32]);
    let r = step(ProvisioningState::Init, &mut store, entropy());
    assert_eq!(r.unwrap_err(), ProvisionError::InvalidKey);
}

#[test]
fn key_taken_emits_status_every_tenth_second() {
    let key = vec![0x11; 32];
    let mut store = KeyStore::new_with_key(key);
    let (mut state, _) = step(ProvisioningState::Init, &mut store, entropy()).unwrap();
    let mut statuses = 0;
    for tick in 0..20 {
        let (next, out) = step(state, &mut store, entropy()).unwrap();
        // the indicator follows the parity of the settled seconds
        assert_eq!(out.leds, Some((tick % 2 == 1, tick % 2 == 1)));
        if let Some(line) = &out.status {
            assert!(line.addr_hex.starts_with("0x"));
            statuses += 1;
        }
        state = next;
    }
    assert_eq!(statuses, 2);
}

#[test]
fn device_key_comes_from_the_store() {
    let empty = KeyStore::new_unprovisioned();
    assert!(get_device_secret_key(&empty).is_none());
    let bad = KeyStore::new_with_key(vec![0u8; 32]);
    assert!(get_device_secret_key(&bad).is_none());
    let good = KeyStore::new_with_key(vec![0x11; 32]);
    let id = get_device_secret_key(&good).unwrap();
    let direct = DeviceIdentity::from_secret_bytes(vec![0x11; 32]).unwrap();
    assert_eq!(id.address(), direct.address());
    assert_eq!(id.public_key(), direct.public_key());
}
