//! One-time key provisioning. `KeyStore` is the capability object standing
//! for the hardware's write-once slot: it can be read freely, written once,
//! and refuses every later write. The state machine is a pure transition
//! function, externally driven by one-second ticks and externally observed
//! through the returned tick output; once a key exists the machine stays in
//! `KeyTaken` forever.

use vstd::prelude::*;
use crate::identity::{address_of_pubkey, get_eth_address, pubkey_of, sec_key_ok, DeviceIdentity};
use crate::numfmt::{hex_encode, hex_of};

verus! {

/// The one-time slot refused the operation.
#[derive(Clone, Copy, PartialEq, Eq, Structural, Debug)]
pub enum KeyStoreError {
    /// The slot has already been written and is write-protected.
    AlreadyProvisioned,
}

/// Provisioning failed; both cases are fatal to the process.
#[derive(Clone, Copy, PartialEq, Eq, Structural, Debug)]
pub enum ProvisionError {
    /// The one-time write was refused; it must not be retried.
    KeyStoreWriteFailed,
    /// The stored or freshly drawn bytes do not form a valid secret scalar.
    InvalidKey,
}

/// The write-once secure-storage slot: empty until provisioned, then
/// holding the key bytes permanently.
pub struct KeyStore {
    slot: Option<Vec<u8>>,
}

impl View for KeyStore {
    type V = Option<Seq<u8>>;

    closed spec fn view(&self) -> Option<Seq<u8>> {
        match self.slot {
            Some(b) => Some(b@),
            None => None,
        }
    }
}

impl KeyStore {
    /// A slot that has never been written.
    pub fn new_unprovisioned() -> (r: Self)
        ensures
            r@ is None,
    {
        KeyStore { slot: None }
    }

    /// A slot that already holds a key, as on a device provisioned earlier.
    pub fn new_with_key(key: Vec<u8>) -> (r: Self)
        ensures
            r@ == Some(key@),
    {
        KeyStore { slot: Some(key) }
    }

    /// Whether the slot has been written; side-effect-free.
    pub fn is_provisioned(&self) -> (r: bool)
        ensures
            r == (self@ is Some),
    {
        match &self.slot {
            Some(_) => true,
            None => false,
        }
    }

    /// The stored key bytes, or `None` when the slot was never written.
    pub fn read(&self) -> (r: Option<Vec<u8>>)
        ensures
            match r {
                Some(b) => self@ == Some(b@),
                None => self@ is None,
            },
    {
        match &self.slot {
            Some(b) => Some(crate::bytesops::bytes_range(b.as_slice(), 0, b.len())),
            None => None,
        }
    }

    /// Writes the key into the slot and write-protects it. Permitted at
    /// most once: a second write is refused and changes nothing.
    pub fn write(&mut self, key: Vec<u8>) -> (r: Result<(), KeyStoreError>)
        ensures
            match r {
                Ok(()) => old(self)@ is None && final(self)@ == Some(key@),
                Err(e) => old(self)@ is Some && final(self)@ == old(self)@ && e
                    == KeyStoreError::AlreadyProvisioned,
            },
    {
        match &self.slot {
            Some(_) => Err(KeyStoreError::AlreadyProvisioned),
            None => {
                self.slot = Some(key);
                Ok(())
            },
        }
    }
}

/// The provisioning state machine's state.
#[derive(Debug)]
pub enum ProvisioningState {
    /// Process start; the slot has not been consulted yet.
    Init,
    /// No key exists; waiting out the entropy window.
    WaitingForEntropy { secs_waited: u64 },
    /// The entropy window has elapsed; a key is drawn on the next tick.
    ShouldGenerateKey,
    /// A key exists; terminal. The derived renderings are cached.
    KeyTaken { pubkey_hex: String, addr_hex: String, secs_waited: u64 },
}

/// The mathematical value of a provisioning state.
#[verifier::ext_equal]
pub enum ProvStateModel {
    Init,
    WaitingForEntropy { secs_waited: u64 },
    ShouldGenerateKey,
    KeyTaken { pubkey_hex: Seq<char>, addr_hex: Seq<char>, secs_waited: u64 },
}

impl View for ProvisioningState {
    type V = ProvStateModel;

    open spec fn view(&self) -> ProvStateModel {
        match self {
            ProvisioningState::Init => ProvStateModel::Init,
            ProvisioningState::WaitingForEntropy { secs_waited } => {
                ProvStateModel::WaitingForEntropy { secs_waited: *secs_waited }
            },
            ProvisioningState::ShouldGenerateKey => ProvStateModel::ShouldGenerateKey,
            ProvisioningState::KeyTaken { pubkey_hex, addr_hex, secs_waited } => {
                ProvStateModel::KeyTaken {
                    pubkey_hex: pubkey_hex@,
                    addr_hex: addr_hex@,
                    secs_waited: *secs_waited,
                }
            },
        }
    }
}

/// The status line emitted on a fixed cadence once a key exists.
#[derive(Debug)]
pub struct StatusLine {
    pub pubkey_hex: String,
    pub addr_hex: String,
}

/// What one tick asks the environment to display: a two-indicator pattern,
/// where requested, and a status line every tenth settled second.
#[derive(Debug)]
pub struct TickOutput {
    pub leds: Option<(bool, bool)>,
    pub status: Option<StatusLine>,
}

/// The mathematical value of a tick output.
#[verifier::ext_equal]
pub struct TickOutputModel {
    pub leds: Option<(bool, bool)>,
    pub status: Option<(Seq<char>, Seq<char>)>,
}

impl View for TickOutput {
    type V = TickOutputModel;

    open spec fn view(&self) -> TickOutputModel {
        TickOutputModel {
            leds: self.leds,
            status: match &self.status {
                Some(s) => Some((s.pubkey_hex@, s.addr_hex@)),
                None => None,
            },
        }
    }
}

/// A tick output that changes nothing and reports nothing.
pub open spec fn quiet_output() -> TickOutputModel {
    TickOutputModel { leds: None, status: None }
}

/// The terminal state derived from key bytes: the public key rendered as
/// hex and the address rendered as `0x`-prefixed hex.
pub open spec fn key_taken_state(key: Seq<u8>, secs_waited: u64) -> ProvStateModel {
    ProvStateModel::KeyTaken {
        pubkey_hex: hex_of(pubkey_of(key)),
        addr_hex: seq!['0', 'x'] + hex_of(address_of_pubkey(pubkey_of(key))),
        secs_waited,
    }
}

/// One tick of the state machine: the next state and output, and the store
/// it leaves behind. The entropy argument is consulted only in
/// `ShouldGenerateKey`.
pub open spec fn spec_step(s: ProvStateModel, store: Option<Seq<u8>>, entropy: Seq<u8>) -> (Result<
    (ProvStateModel, TickOutputModel),
    ProvisionError,
>, Option<Seq<u8>>) {
    match s {
        ProvStateModel::Init => (
            match store {
                Some(key) => if sec_key_ok(key) {
                    Ok((key_taken_state(key, 0), quiet_output()))
                } else {
                    Err(ProvisionError::InvalidKey)
                },
                None => Ok(
                    (ProvStateModel::WaitingForEntropy { secs_waited: 1 }, quiet_output()),
                ),
            },
            store,
        ),
        ProvStateModel::WaitingForEntropy { secs_waited } => {
            let next = (secs_waited + 1) as u64;
            let out = TickOutputModel {
                leds: Some(
                    if next % 2 == 1 {
                        (false, true)
                    } else {
                        (true, false)
                    },
                ),
                status: None,
            };
            if next > 3600 {
                (Ok((ProvStateModel::ShouldGenerateKey, out)), store)
            } else {
                (Ok((ProvStateModel::WaitingForEntropy { secs_waited: next }, out)), store)
            }
        },
        ProvStateModel::ShouldGenerateKey => match store {
            Some(_) => (Err(ProvisionError::KeyStoreWriteFailed), store),
            None => if sec_key_ok(entropy) {
                (Ok((key_taken_state(entropy, 0), quiet_output())), Some(entropy))
            } else {
                (Err(ProvisionError::InvalidKey), Some(entropy))
            },
        },
        ProvStateModel::KeyTaken { pubkey_hex, addr_hex, secs_waited } => {
            let out = TickOutputModel {
                leds: Some(
                    if secs_waited % 2 == 1 {
                        (true, true)
                    } else {
                        (false, false)
                    },
                ),
                status: if secs_waited % 10 == 0 {
                    Some((pubkey_hex, addr_hex))
                } else {
                    None
                },
            };
            (
                Ok(
                    (
                        ProvStateModel::KeyTaken {
                            pubkey_hex,
                            addr_hex,
                            secs_waited: (secs_waited + 1) as u64,
                        },
                        out,
                    ),
                ),
                store,
            )
        },
    }
}

/// Runs one tick. In `Init` the store is consulted; while waiting, only the
/// indicator toggles; in `ShouldGenerateKey` the entropy bytes are written
/// into the slot once and the identity is derived from what reads back; in
/// `KeyTaken` the settled-seconds counter advances and the status line is
/// emitted every tenth second.
pub fn step(state: ProvisioningState, store: &mut KeyStore, entropy: Vec<u8>) -> (r: Result<
    (ProvisioningState, TickOutput),
    ProvisionError,
>)
    requires
        state@ matches ProvStateModel::WaitingForEntropy { secs_waited } ==> secs_waited
            < u64::MAX,
        state@ matches ProvStateModel::KeyTaken { secs_waited, .. } ==> secs_waited < u64::MAX,
    ensures
        ({
            let (outcome, store2) = spec_step(state@, old(store)@, entropy@);
            &&& final(store)@ == store2
            &&& match r {
                Ok(p) => outcome == Ok::<_, ProvisionError>((p.0@, p.1@)),
                Err(e) => outcome == Err::<(ProvStateModel, TickOutputModel), _>(e),
            }
        }),
{
    match state {
        ProvisioningState::Init => {
            match store.read() {
                Some(buf) => {
                    match DeviceIdentity::from_secret_bytes(buf) {
                        Some(id) => {
                            let pubkey_hex = hex_encode(id.public_key().as_slice());
                            let addr_hex = get_eth_address(id.public_key().as_slice());
                            let next = ProvisioningState::KeyTaken {
                                pubkey_hex,
                                addr_hex,
                                secs_waited: 0,
                            };
                            let out = TickOutput { leds: None, status: None };
                            proof {
                                assert(next@ =~= key_taken_state(id.secret_view(), 0));
                                assert(out@ =~= quiet_output());
                            }
                            Ok((next, out))
                        },
                        None => Err(ProvisionError::InvalidKey),
                    }
                },
                None => {
                    let out = TickOutput { leds: None, status: None };
                    proof {
                        assert(out@ =~= quiet_output());
                    }
                    Ok((ProvisioningState::WaitingForEntropy { secs_waited: 1 }, out))
                },
            }
        },
        ProvisioningState::WaitingForEntropy { secs_waited } => {
            let next: u64 = secs_waited + 1;
            let leds = if next % 2 == 1 {
                (false, true)
            } else {
                (true, false)
            };
            let out = TickOutput { leds: Some(leds), status: None };
            if next > 3600 {
                Ok((ProvisioningState::ShouldGenerateKey, out))
            } else {
                Ok((ProvisioningState::WaitingForEntropy { secs_waited: next }, out))
            }
        },
        ProvisioningState::ShouldGenerateKey => {
            match store.write(entropy) {
                Ok(()) => {},
                Err(_) => {
                    return Err(ProvisionError::KeyStoreWriteFailed);
                },
            }
            let buf = match store.read() {
                Some(b) => b,
                None => {
                    proof {
                        assert(false);
                    }
                    return Err(ProvisionError::InvalidKey);
                },
            };
            match DeviceIdentity::from_secret_bytes(buf) {
                Some(id) => {
                    let pubkey_hex = hex_encode(id.public_key().as_slice());
                    let addr_hex = get_eth_address(id.public_key().as_slice());
                    let next = ProvisioningState::KeyTaken {
                        pubkey_hex,
                        addr_hex,
                        secs_waited: 0,
                    };
                    let out = TickOutput { leds: None, status: None };
                    proof {
                        assert(next@ =~= key_taken_state(id.secret_view(), 0));
                        assert(out@ =~= quiet_output());
                    }
                    Ok((next, out))
                },
                None => Err(ProvisionError::InvalidKey),
            }
        },
        ProvisioningState::KeyTaken { pubkey_hex, addr_hex, secs_waited } => {
            let leds = if secs_waited % 2 == 1 {
                (true, true)
            } else {
                (false, false)
            };
            let status = if secs_waited % 10 == 0 {
                Some(
                    StatusLine {
                        pubkey_hex: pubkey_hex.clone(),
                        addr_hex: addr_hex.clone(),
                    },
                )
            } else {
                None
            };
            let out = TickOutput { leds: Some(leds), status };
            let next = ProvisioningState::KeyTaken {
                pubkey_hex,
                addr_hex,
                secs_waited: secs_waited + 1,
            };
            Ok((next, out))
        },
    }
}

/// Several ticks of the machine in a row, with the same entropy offered at
/// each tick; stops at the first error.
pub open spec fn spec_run(
    s: ProvStateModel,
    store: Option<Seq<u8>>,
    entropy: Seq<u8>,
    ticks: nat,
) -> Result<(ProvStateModel, Option<Seq<u8>>), ProvisionError>
    decreases ticks,
{
    if ticks == 0 {
        Ok((s, store))
    } else {
        let (outcome, store2) = spec_step(s, store, entropy);
        match outcome {
            Ok(p) => spec_run(p.0, store2, entropy, (ticks - 1) as nat),
            Err(e) => Err(e),
        }
    }
}

proof fn lemma_run_add(
    s: ProvStateModel,
    store: Option<Seq<u8>>,
    entropy: Seq<u8>,
    a: nat,
    b: nat,
)
    ensures
        spec_run(s, store, entropy, a + b) == (match spec_run(s, store, entropy, a) {
            Ok(p) => spec_run(p.0, p.1, entropy, b),
            Err(e) => Err(e),
        }),
    decreases a,
{
    if a == 0 {
    } else {
        let (outcome, store2) = spec_step(s, store, entropy);
        match outcome {
            Ok(p) => {
                lemma_run_add(p.0, store2, entropy, (a - 1) as nat, b);
                assert(a + b - 1 == (a - 1) + b);
            },
            Err(e) => {},
        }
    }
}

proof fn lemma_run_wait(n: u64, entropy: Seq<u8>, ticks: nat)
    requires
        1 <= n,
        n + ticks <= 3600,
    ensures
        spec_run(
            ProvStateModel::WaitingForEntropy { secs_waited: n },
            None,
            entropy,
            ticks,
        ) == Ok::<_, ProvisionError>(
            (ProvStateModel::WaitingForEntropy { secs_waited: (n + ticks) as u64 }, None::<Seq<u8>>),
        ),
    decreases ticks,
{
    if ticks == 0 {
    } else {
        lemma_run_wait((n + 1) as u64, entropy, (ticks - 1) as nat);
    }
}

/// The entropy window: from `Init` over an unprovisioned store, the machine
/// reaches `ShouldGenerateKey` exactly when the 3600-second wait has
/// elapsed — one initial tick reads the empty store and 3600 further ticks
/// count the window — and one more tick with accepted entropy writes the
/// key once and settles in `KeyTaken` with a non-empty address rendering.
pub proof fn lemma_entropy_window(entropy: Seq<u8>)
    ensures
        spec_run(ProvStateModel::Init, None, entropy, 3601) == Ok::<_, ProvisionError>(
            (ProvStateModel::ShouldGenerateKey, None::<Seq<u8>>),
        ),
        sec_key_ok(entropy) ==> spec_run(ProvStateModel::Init, None, entropy, 3602)
            == Ok::<_, ProvisionError>((key_taken_state(entropy, 0), Some(entropy))),
        (key_taken_state(entropy, 0) matches ProvStateModel::KeyTaken { addr_hex, .. }
            && addr_hex.len() >= 2),
{
    let w1 = ProvStateModel::WaitingForEntropy { secs_waited: 1 };
    assert(spec_run(w1, None::<Seq<u8>>, entropy, 0) == Ok::<_, ProvisionError>(
        (w1, None::<Seq<u8>>),
    ));
    assert(spec_run(ProvStateModel::Init, None, entropy, 1) == Ok::<_, ProvisionError>(
        (w1, None::<Seq<u8>>),
    ));
    lemma_run_wait(1, entropy, 3599);
    let w3600 = ProvStateModel::WaitingForEntropy { secs_waited: 3600 };
    lemma_run_add(ProvStateModel::Init, None, entropy, 1, 3599);
    assert(spec_run(ProvStateModel::Init, None, entropy, 3600) == Ok::<_, ProvisionError>(
        (w3600, None::<Seq<u8>>),
    ));
    assert(spec_run(ProvStateModel::ShouldGenerateKey, None::<Seq<u8>>, entropy, 0)
        == Ok::<_, ProvisionError>((ProvStateModel::ShouldGenerateKey, None::<Seq<u8>>)));
    assert(spec_run(w3600, None, entropy, 1) == Ok::<_, ProvisionError>(
        (ProvStateModel::ShouldGenerateKey, None::<Seq<u8>>),
    ));
    lemma_run_add(ProvStateModel::Init, None, entropy, 3600, 1);
    lemma_run_add(ProvStateModel::Init, None, entropy, 3601, 1);
    if sec_key_ok(entropy) {
        assert(spec_run(key_taken_state(entropy, 0), Some(entropy), entropy, 0)
            == Ok::<_, ProvisionError>((key_taken_state(entropy, 0), Some(entropy))));
        assert(spec_run(ProvStateModel::ShouldGenerateKey, None, entropy, 1)
            == Ok::<_, ProvisionError>((key_taken_state(entropy, 0), Some(entropy))));
    }
}

/// Idempotent provisioning: a tick in any state leaves a provisioned store
/// exactly as it was — once a key exists the one-time slot is never
/// written again.
pub proof fn lemma_provisioned_store_unchanged(
    s: ProvStateModel,
    store: Option<Seq<u8>>,
    entropy: Seq<u8>,
)
    requires
        store is Some,
    ensures
        spec_step(s, store, entropy).1 == store,
{
}

/// The identity derived from a stored key is stable: starting from `Init`
/// over the same provisioned store always yields the same derived state,
/// whatever entropy the environment happens to offer.
pub proof fn lemma_stored_identity_stable(
    store: Option<Seq<u8>>,
    e1: Seq<u8>,
    e2: Seq<u8>,
)
    requires
        store is Some,
    ensures
        spec_step(ProvStateModel::Init, store, e1).0 == spec_step(ProvStateModel::Init, store, e2).0,
{
}


/// Builds the device identity from the key in the store, as done once at
/// process start: `None` when the store was never provisioned or its
/// contents are not a valid secret scalar.
pub fn get_device_secret_key(store: &KeyStore) -> (r: Option<DeviceIdentity>)
    ensures
        match r {
            Some(id) => store@ == Some(id.secret_view()) && sec_key_ok(id.secret_view())
                && id.wf(),
            None => store@ is None || (store@ matches Some(k) && !sec_key_ok(k)),
        },
{
    match store.read() {
        Some(buf) => DeviceIdentity::from_secret_bytes(buf),
        None => None,
    }
}

} // verus!
