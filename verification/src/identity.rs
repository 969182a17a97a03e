//! The device's cryptographic identity: a secp256k1 secret scalar, the
//! public key derived from it, and the 20-byte account-style address that is
//! the last 20 bytes of Keccak-256 over the uncompressed public key without
//! its leading format byte.

use vstd::prelude::*;
use crate::hash::{keccak256, HashChain};
use crate::numfmt::{hex_of, hex_val, is_hex_digit};
use vstd::slice::slice_subrange;
use vstd::string::StringExecFns;

verus! {

/// Whether k256's SigningKey::from_slice accepts these bytes as a secret
/// scalar; acceptance is a pure function of the bytes.
pub uninterp spec fn sec_key_ok(secret: Seq<u8>) -> bool;

/// The uncompressed SEC1 encoding of the public key that k256 derives from
/// an accepted secret scalar.
pub uninterp spec fn pubkey_of(secret: Seq<u8>) -> Seq<u8>;

/// The 65-byte signature `r ‖ s ‖ recovery-id` that k256's deterministic
/// (RFC6979) recoverable signing produces for a secret scalar and a
/// 32-byte prehashed digest.
pub uninterp spec fn sign_of(secret: Seq<u8>, prehash: Seq<u8>) -> Seq<u8>;

/// Whether k256's recoverable signing succeeds for an accepted secret
/// scalar and a prehashed digest; with deterministic RFC6979 nonces and no
/// added entropy, success is a pure function of the arguments.
pub uninterp spec fn sign_ok(secret: Seq<u8>, prehash: Seq<u8>) -> bool;

/// What k256's public-key recovery returns for a prehashed digest and a
/// 65-byte signature `r ‖ s ‖ recovery-id`: the recovered uncompressed
/// public key, or `None` when the scalars, the recovery byte, or the
/// final verification are rejected.
pub uninterp spec fn recover_of(prehash: Seq<u8>, sig: Seq<u8>) -> Option<Seq<u8>>;

/// Relies on k256's SigningKey::from_slice (which accepts a byte string
/// exactly when it denotes a nonzero scalar below the curve order —
/// slices shorter than 32 bytes are left-padded with zeroes first) and
/// VerifyingKey::to_encoded_point: the 65-byte uncompressed SEC1 encoding
/// of the public key derived from the secret scalar.
#[verifier::external_body]
fn derive_pubkey(secret: &[u8]) -> (r: Option<Vec<u8>>)
    ensures
        match r {
            Some(pk) => sec_key_ok(secret@) && pk@ == pubkey_of(secret@) && pk@.len() == 65,
            None => !sec_key_ok(secret@),
        },
{
    match k256::ecdsa::SigningKey::from_slice(secret) {
        Ok(key) => Some(key.verifying_key().to_encoded_point(false).as_bytes().to_vec()),
        Err(_) => None,
    }
}

/// Relies on k256's SigningKey::sign_prehash_recoverable: deterministic
/// RFC6979 signing with no added entropy, so both whether signing succeeds
/// and the 65-byte signature `r ‖ s ‖ recovery-id` it yields are pure
/// functions of the secret scalar and the prehashed digest, and the
/// recovery id is chosen so that recovering a public key from the same
/// digest and signature returns the signer's public key.
#[verifier::external_body]
fn sign_prehash(secret: &[u8], prehash: &[u8]) -> (r: Option<Vec<u8>>)
    ensures
        match r {
            Some(sig) => sec_key_ok(secret@) && sign_ok(secret@, prehash@) && sig@ == sign_of(
                secret@,
                prehash@,
            ) && sig@.len() == 65 && recover_of(prehash@, sig@) == Some(pubkey_of(secret@)),
            None => !(sec_key_ok(secret@) && sign_ok(secret@, prehash@)),
        },
{
    let key = match k256::ecdsa::SigningKey::from_slice(secret) {
        Ok(k) => k,
        Err(_) => return None,
    };
    let (sig, recid) = match key.sign_prehash_recoverable(prehash) {
        Ok(p) => p,
        Err(_) => return None,
    };
    let mut out = sig.to_bytes().to_vec();
    out.push(recid.to_byte());
    Some(out)
}

/// Relies on k256's Signature::try_from, RecoveryId::try_from and
/// VerifyingKey::recover_from_prehash: the recovered public key, in
/// uncompressed SEC1 form, is a pure function of the digest and the 65-byte
/// signature, and recovery is refused deterministically (malformed scalars,
/// a recovery byte above 3, or a signature the recovered key does not
/// verify).
#[verifier::external_body]
fn recover_pubkey(prehash: &[u8], sig: &[u8]) -> (r: Option<Vec<u8>>)
    requires
        sig@.len() == 65,
    ensures
        match r {
            Some(pk) => recover_of(prehash@, sig@) == Some(pk@) && pk@.len() == 65,
            None => recover_of(prehash@, sig@) is None,
        },
{
    let rs = match k256::ecdsa::Signature::try_from(&sig[0..64]) {
        Ok(s) => s,
        Err(_) => return None,
    };
    let recid = match k256::ecdsa::RecoveryId::try_from(sig[64]) {
        Ok(v) => v,
        Err(_) => return None,
    };
    match k256::ecdsa::VerifyingKey::recover_from_prehash(prehash, &rs, recid) {
        Ok(vk) => Some(vk.to_encoded_point(false).as_bytes().to_vec()),
        Err(_) => None,
    }
}

/// The address derived from an uncompressed public key: the last 20 bytes of
/// Keccak-256 over the key bytes without the leading format byte.
pub open spec fn address_of_pubkey(pk: Seq<u8>) -> Seq<u8> {
    keccak256(pk.drop_first()).subrange(12, 32)
}

/// The address bytes for an uncompressed SEC1 public key.
pub fn get_eth_address_bytes(pk: &[u8]) -> (r: Vec<u8>)
    requires
        pk@.len() >= 1,
    ensures
        r@ == address_of_pubkey(pk@),
        r@.len() == 20,
{
    let mut chain = HashChain::new();
    chain.update(slice_subrange(pk, 1, pk.len()));
    let digest = chain.finalize();
    proof {
        assert(pk@.subrange(1, pk@.len() as int) =~= pk@.drop_first());
        assert(Seq::<u8>::empty() + pk@.drop_first() =~= pk@.drop_first());
    }
    crate::bytesops::bytes_range(digest.as_slice(), 12, 32)
}

/// The address for an uncompressed SEC1 public key, rendered as `0x`
/// followed by lowercase hexadecimal.
pub fn get_eth_address(pk: &[u8]) -> (r: String)
    requires
        pk@.len() >= 1,
    ensures
        r@ == seq!['0', 'x'] + hex_of(address_of_pubkey(pk@)),
{
    let addr = get_eth_address_bytes(pk);
    let hexpart = crate::numfmt::hex_encode(addr.as_slice());
    let mut out = String::from_str("0x");
    proof {
        reveal_strlit("0x");
    }
    out.append(hexpart.as_str());
    proof {
        assert(out@ =~= seq!['0', 'x'] + hex_of(address_of_pubkey(pk@)));
    }
    out
}

/// The device identity: the secret scalar together with the public key and
/// address derived from it. The address is always the pure derivation from
/// the public key, which is itself derived from the secret.
pub struct DeviceIdentity {
    secret: Vec<u8>,
    public_key: Vec<u8>,
    address: Vec<u8>,
}

impl DeviceIdentity {
    /// The secret scalar bytes.
    pub closed spec fn secret_view(&self) -> Seq<u8> {
        self.secret@
    }

    /// The uncompressed SEC1 public key bytes.
    pub closed spec fn pubkey_view(&self) -> Seq<u8> {
        self.public_key@
    }

    /// The 20 address bytes.
    pub closed spec fn address_view(&self) -> Seq<u8> {
        self.address@
    }

    /// The identity is internally consistent: the secret is an accepted
    /// scalar, the public key is derived from it, and the address is
    /// derived from the public key.
    pub open spec fn wf(&self) -> bool {
        &&& sec_key_ok(self.secret_view())
        &&& self.pubkey_view() == pubkey_of(self.secret_view())
        &&& self.pubkey_view().len() == 65
        &&& self.address_view() == address_of_pubkey(self.pubkey_view())
        &&& self.address_view().len() == 20
    }

    /// Builds the identity from stored secret-key bytes, deriving the
    /// public key and address; refuses bytes that do not form a valid
    /// secret scalar.
    pub fn from_secret_bytes(secret: Vec<u8>) -> (r: Option<DeviceIdentity>)
        ensures
            match r {
                Some(id) => sec_key_ok(secret@) && id.wf() && id.secret_view() == secret@,
                None => !sec_key_ok(secret@),
            },
    {
        match derive_pubkey(secret.as_slice()) {
            Some(pk) => {
                let address = get_eth_address_bytes(pk.as_slice());
                Some(DeviceIdentity { secret, public_key: pk, address })
            },
            None => None,
        }
    }

    /// The address bytes of this identity.
    pub fn address(&self) -> (r: &Vec<u8>)
        ensures
            r@ == self.address_view(),
    {
        &self.address
    }

    /// The uncompressed public key bytes of this identity.
    pub fn public_key(&self) -> (r: &Vec<u8>)
        ensures
            r@ == self.pubkey_view(),
    {
        &self.public_key
    }

    /// Signs a prehashed digest with this identity's secret, returning the
    /// 65-byte recoverable signature. Signing succeeds exactly when the
    /// deterministic signing routine accepts this digest for this secret.
    pub fn sign(&self, prehash: &[u8]) -> (r: Option<Vec<u8>>)
        requires
            self.wf(),
        ensures
            (r is Some) <==> sign_ok(self.secret_view(), prehash@),
            match r {
                Some(sig) => sig@ == sign_of(self.secret_view(), prehash@) && sig@.len() == 65
                    && recover_of(prehash@, sig@) == Some(self.pubkey_view()),
                None => true,
            },
    {
        sign_prehash(self.secret.as_slice(), prehash)
    }
}

/// Recovers the uncompressed public key from a prehashed digest and a
/// 65-byte recoverable signature, or reports that recovery is refused.
pub fn recover_public_key(prehash: &[u8], sig: &[u8]) -> (r: Option<Vec<u8>>)
    requires
        sig@.len() == 65,
    ensures
        match r {
            Some(pk) => recover_of(prehash@, sig@) == Some(pk@) && pk@.len() == 65,
            None => recover_of(prehash@, sig@) is None,
        },
{
    recover_pubkey(prehash, sig)
}

/// Why a DID string was rejected.
#[derive(Clone, Copy, PartialEq, Eq, Structural, Debug)]
pub enum DidError {
    /// The string does not begin with the DID scheme prefix.
    BadPrefix,
    /// The part after the prefix is not exactly 40 characters.
    BadLength,
    /// A character after the prefix is not a hexadecimal digit.
    BadDigit,
}

/// The scheme prefix of a device DID string, `did:dephy:0x`, as bytes.
pub open spec fn did_prefix() -> Seq<u8> {
    seq![100u8, 105, 100, 58, 100, 101, 112, 104, 121, 58, 48, 120]
}

/// Whether the string begins with the DID scheme prefix.
pub open spec fn did_has_prefix(s: Seq<u8>) -> bool {
    s.len() >= 12 && s.subrange(0, 12) == did_prefix()
}

/// Whether every byte is a hexadecimal digit.
pub open spec fn all_hex_digits(s: Seq<u8>) -> bool {
    forall|i: int| 0 <= i < s.len() ==> is_hex_digit(#[trigger] s[i])
}

/// The bytes that a string of hexadecimal digit pairs denotes.
pub open spec fn hex_decoded(s: Seq<u8>) -> Seq<u8> {
    Seq::new(s.len() / 2, |i: int| (hex_val(s[2 * i]) * 16 + hex_val(s[2 * i + 1])) as u8)
}

fn did_prefix_byte(i: usize) -> (r: u8)
    requires
        i < 12,
    ensures
        r == did_prefix()[i as int],
{
    if i == 0 { 100 } else if i == 1 { 105 } else if i == 2 { 100 } else if i == 3 { 58 }
    else if i == 4 { 100 } else if i == 5 { 101 } else if i == 6 { 112 } else if i == 7 { 104 }
    else if i == 8 { 121 } else if i == 9 { 58 } else if i == 10 { 48 } else { 120 }
}

/// Parses a device DID string, `did:dephy:0x` followed by 40 hexadecimal
/// digits, into the 20 address bytes it denotes; reports exactly why a
/// string is rejected.
pub fn did_str_to_addr_bytes(did: &[u8]) -> (r: Result<Vec<u8>, DidError>)
    ensures
        match r {
            Ok(a) => did_has_prefix(did@) && did@.len() == 52 && all_hex_digits(did@.skip(12))
                && a@ == hex_decoded(did@.skip(12)) && a@.len() == 20,
            Err(e) => match e {
                DidError::BadPrefix => !did_has_prefix(did@),
                DidError::BadLength => did_has_prefix(did@) && did@.len() != 52,
                DidError::BadDigit => did_has_prefix(did@) && did@.len() == 52 && !all_hex_digits(
                    did@.skip(12),
                ),
            },
        },
{
    if did.len() < 12 {
        return Err(DidError::BadPrefix);
    }
    let mut i: usize = 0;
    while i < 12
        invariant
            i <= 12,
            did@.len() >= 12,
            forall|k: int| 0 <= k < i ==> did@[k] == did_prefix()[k],
        decreases 12 - i,
    {
        if did[i] != did_prefix_byte(i) {
            proof {
                assert(did@.subrange(0, 12)[i as int] != did_prefix()[i as int]);
            }
            return Err(DidError::BadPrefix);
        }
        i = i + 1;
    }
    proof {
        assert(did@.subrange(0, 12) =~= did_prefix());
    }
    if did.len() != 52 {
        return Err(DidError::BadLength);
    }
    let ghost tail = did@.skip(12);
    let mut out: Vec<u8> = Vec::new();
    let mut k: usize = 0;
    while k < 20
        invariant
            k <= 20,
            did@.len() == 52,
            did_has_prefix(did@),
            tail == did@.skip(12),
            out@.len() == k,
            forall|j: int| 0 <= j < k ==> out@[j] == (hex_val(tail[2 * j]) * 16 + hex_val(
                tail[2 * j + 1],
            )) as u8,
            forall|j: int| 0 <= j < 2 * k ==> is_hex_digit(#[trigger] tail[j]),
        decreases 20 - k,
    {
        let hi = did[12 + 2 * k];
        let lo = did[12 + 2 * k + 1];
        proof {
            assert(tail[2 * k as int] == did@[12 + 2 * k as int]);
            assert(tail[2 * k as int + 1] == did@[12 + 2 * k as int + 1]);
        }
        if !crate::numfmt::is_hex_digit_exec(hi) {
            proof {
                assert(!is_hex_digit(tail[2 * k as int]));
                assert(!all_hex_digits(did@.skip(12)));
            }
            return Err(DidError::BadDigit);
        }
        if !crate::numfmt::is_hex_digit_exec(lo) {
            proof {
                assert(!is_hex_digit(tail[2 * k as int + 1]));
                assert(!all_hex_digits(did@.skip(12)));
            }
            return Err(DidError::BadDigit);
        }
        let h = crate::numfmt::hex_val_exec(hi);
        let l = crate::numfmt::hex_val_exec(lo);
        out.push(h * 16 + l);
        k = k + 1;
    }
    proof {
        assert(out@ =~= hex_decoded(tail));
    }
    Ok(out)
}

} // verus!
