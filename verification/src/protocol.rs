//! The signed-message protocol: building a `SignedMessage` from a payload
//! and a device identity, and validating a received message by recomputing
//! the commitment, checking the nonce binding, and recovering the signer.
//!
//! The commitment is Keccak-256 over the encoded raw bytes followed by the
//! decimal digits of the timestamp; the value actually signed is a second
//! Keccak-256 pass over that commitment, which decouples the transmitted
//! hash from the signed digest.

use vstd::prelude::*;
use crate::bytesops::bytes_eq;
use crate::codec::{
    decode_raw, decode_signed, encode_raw, encode_signed, lemma_raw_round_trip,
    lemma_signed_round_trip, raw_wf, signed_fields, signed_wf,
};
use crate::fields::{serialize_fields, FieldModel, FieldVal};
use crate::hash::{keccak256, HashChain};
use crate::identity::{
    address_of_pubkey, get_eth_address_bytes, pubkey_of, recover_of, recover_public_key,
    sec_key_ok, sign_of, sign_ok, DeviceIdentity,
};
use crate::message::{RawMessage, RawMessageModel, SignedMessage, SignedMessageModel};
use crate::numfmt::{dec_of, lemma_dec_of_injective, u64_to_decimal};

verus! {

/// Why a received message was rejected. Every rejection is terminal for
/// that message; nothing is retried.
#[derive(Clone, Copy, PartialEq, Eq, Structural, Debug)]
pub enum VerifyError {
    /// The input was empty.
    Empty,
    /// The outer envelope or the inner raw record failed to decode.
    DecodeFailed,
    /// The recomputed commitment differs from the stored hash.
    HashMismatch,
    /// The outer nonce differs from the raw message's own timestamp.
    NonceMismatch,
    /// The signature is not exactly 65 bytes.
    BadSignatureLength,
    /// No public key could be recovered from the signature.
    RecoveryFailed,
    /// The recovered signer's address differs from the claimed sender.
    SignerMismatch,
}

/// Why building a signed message failed.
#[derive(Clone, Copy, PartialEq, Eq, Structural, Debug)]
pub enum CreateError {
    /// The secret bytes do not form a valid scalar.
    InvalidKey,
    /// The signing routine refused the digest.
    SigningFailed,
}

/// The all-zero target address that denotes broadcast.
pub open spec fn zero_address() -> Seq<u8> {
    Seq::new(20, |i: int| 0u8)
}

/// The integrity commitment: Keccak-256 over the encoded raw bytes followed
/// by the decimal digits of the nonce.
pub open spec fn commitment(raw: Seq<u8>, nonce: u64) -> Seq<u8> {
    keccak256(raw + dec_of(nonce as nat))
}

/// The digest that is signed: a second Keccak-256 pass over the commitment.
pub open spec fn signing_digest(hash: Seq<u8>) -> Seq<u8> {
    keccak256(hash)
}

/// The raw message that `create` builds.
pub open spec fn created_raw(
    from_address: Seq<u8>,
    payload: Seq<u8>,
    to_address: Option<Seq<u8>>,
    timestamp: u64,
) -> RawMessageModel {
    RawMessageModel {
        timestamp,
        from_address,
        to_address: match to_address {
            Some(t) => t,
            None => zero_address(),
        },
        encrypted: false,
        payload,
        iv: None,
        w3b: None,
    }
}

/// The signed message that `create` yields for a secret, its address, a
/// payload, a target address, and a timestamp.
pub open spec fn spec_create(
    secret: Seq<u8>,
    from_address: Seq<u8>,
    payload: Seq<u8>,
    to_address: Option<Seq<u8>>,
    timestamp: u64,
) -> SignedMessageModel {
    let raw_bytes = encode_raw(created_raw(from_address, payload, to_address, timestamp));
    let h = commitment(raw_bytes, timestamp);
    SignedMessageModel {
        raw: raw_bytes,
        hash: h,
        nonce: timestamp,
        signature: sign_of(secret, signing_digest(h)),
        last_edge_addr: None,
    }
}

/// What verification returns for any input bytes: the decoded envelope and
/// raw message, or the exact error, in the order the checks are made.
pub open spec fn spec_check(data: Seq<u8>) -> Result<
    (SignedMessageModel, RawMessageModel),
    VerifyError,
> {
    if data.len() == 0 {
        Err(VerifyError::Empty)
    } else {
        match decode_signed(data) {
            None => Err(VerifyError::DecodeFailed),
            Some(sm) => if commitment(sm.raw, sm.nonce) != sm.hash {
                Err(VerifyError::HashMismatch)
            } else {
                match decode_raw(sm.raw) {
                    None => Err(VerifyError::DecodeFailed),
                    Some(rm) => if sm.nonce != rm.timestamp {
                        Err(VerifyError::NonceMismatch)
                    } else if sm.signature.len() != 65 {
                        Err(VerifyError::BadSignatureLength)
                    } else {
                        match recover_of(signing_digest(sm.hash), sm.signature) {
                            None => Err(VerifyError::RecoveryFailed),
                            Some(pk) => if address_of_pubkey(pk) != rm.from_address {
                                Err(VerifyError::SignerMismatch)
                            } else {
                                Ok((sm, rm))
                            },
                        }
                    },
                }
            },
        }
    }
}

proof fn lemma_serialize_fields_first_nonempty(fs: Seq<FieldModel>)
    requires
        fs.len() > 0,
        fs.first().val is Uint || fs.first().val is Bytes,
    ensures
        serialize_fields(fs).len() > 0,
{
    crate::varint::lemma_varint_len_pos(fs.first().num * 8);
    crate::varint::lemma_varint_len_pos(fs.first().num * 8 + 2);
}

/// The encoding of a signed message whose hash field is present is never
/// empty, so a created message never trips the empty-input check.
proof fn lemma_encode_signed_nonempty(m: SignedMessageModel)
    requires
        m.hash.len() != 0,
    ensures
        encode_signed(m).len() > 0,
{
    let fs = signed_fields(m);
    assert(fs.len() > 0);
    if m.raw.len() != 0 {
        assert(fs.first() == crate::codec::bytes_field(1, m.raw));
    } else {
        assert(crate::codec::bytes_fields(1, m.raw) =~= Seq::<FieldModel>::empty());
        assert(fs.first() == crate::codec::bytes_field(2, m.hash));
    }
    lemma_serialize_fields_first_nonempty(fs);
}

/// Builds a signed message: encodes the raw envelope, commits to the bytes
/// and the timestamp's decimal form, signs the double-hashed commitment,
/// and returns the assembled envelope. Creation succeeds exactly when the
/// deterministic signing routine accepts the digest this input yields, and
/// any returned message passes verification and yields back exactly the
/// payload and sender address it was built from.
pub fn create_signed_message(
    identity: &DeviceIdentity,
    payload: Vec<u8>,
    to_address: Option<Vec<u8>>,
    timestamp: u64,
) -> (r: Result<SignedMessage, CreateError>)
    requires
        identity.wf(),
    ensures
        ({
            let tv = match to_address {
                Some(t) => Some(t@),
                None => None::<Seq<u8>>,
            };
            let rawm = created_raw(identity.address_view(), payload@, tv, timestamp);
            let digest = signing_digest(commitment(encode_raw(rawm), timestamp));
            &&& ((r is Ok) <==> sign_ok(identity.secret_view(), digest))
            &&& match r {
                Ok(sm) => sm@ == spec_create(
                    identity.secret_view(),
                    identity.address_view(),
                    payload@,
                    tv,
                    timestamp,
                ) && spec_check(encode_signed(sm@)) == Ok::<_, VerifyError>((sm@, rawm)),
                Err(e) => e == CreateError::SigningFailed,
            }
        }),
{
    let ghost tv = match &to_address {
        Some(t) => Some(t@),
        None => None::<Seq<u8>>,
    };
    proof {
        vstd::std_specs::vec::axiom_spec_len(&payload);
    }
    let to_vec: Vec<u8> = match to_address {
        Some(t) => t,
        None => {
            let z: Vec<u8> = vec![0u8; 20];
            proof {
                assert(z@ =~= zero_address());
            }
            z
        },
    };
    proof {
        vstd::std_specs::vec::axiom_spec_len(&to_vec);
    }
    let raw = RawMessage {
        timestamp,
        from_address: crate::bytesops::bytes_range(
            identity.address().as_slice(),
            0,
            identity.address().len(),
        ),
        to_address: to_vec,
        encrypted: false,
        payload,
        iv: None,
        w3b: None,
    };
    let ghost rawm = created_raw(identity.address_view(), raw.payload@, tv, timestamp);
    proof {
        assert(identity.address_view().subrange(0, identity.address_view().len() as int) =~= identity.address_view());
        assert(raw@ =~= rawm);
    }
    let raw_bytes = raw.encode_to_vec();
    let mut chain = HashChain::new();
    chain.update(raw_bytes.as_slice());
    let dec = u64_to_decimal(timestamp);
    chain.update(dec.as_slice());
    proof {
        assert(Seq::<u8>::empty() + raw_bytes@ + dec@ =~= raw_bytes@ + dec_of(timestamp as nat));
    }
    let h = chain.finalize_reset();
    chain.update(h.as_slice());
    proof {
        assert(Seq::<u8>::empty() + h@ =~= h@);
    }
    let sd = chain.finalize();
    proof {
        assert(sd@ == signing_digest(commitment(encode_raw(rawm), timestamp)));
    }
    let sig = match identity.sign(sd.as_slice()) {
        Some(s) => s,
        None => {
            return Err(CreateError::SigningFailed);
        },
    };
    let sm = SignedMessage {
        raw: raw_bytes,
        hash: h,
        nonce: timestamp,
        signature: sig,
        last_edge_addr: None,
    };
    proof {
        assert(sm@ =~= spec_create(
            identity.secret_view(),
            identity.address_view(),
            rawm.payload,
            tv,
            timestamp,
        ));
        // The returned message passes every verification step.
        vstd::std_specs::vec::axiom_spec_len(&sm.raw);
        vstd::std_specs::vec::axiom_spec_len(&sm.hash);
        vstd::std_specs::vec::axiom_spec_len(&sm.signature);
        assert(signed_wf(sm@));
        lemma_encode_signed_nonempty(sm@);
        lemma_signed_round_trip(sm@);
        assert(raw_wf(rawm));
        lemma_raw_round_trip(rawm);
        assert(spec_check(encode_signed(sm@)) == Ok::<_, VerifyError>((sm@, rawm)));
    }
    Ok(sm)
}

/// Builds a signed message straight from secret-key bytes, first checking
/// that they form a valid identity. Fails with `InvalidKey` exactly when
/// the bytes are not an accepted secret scalar.
pub fn create_signed_message_with_secret(
    secret: Vec<u8>,
    payload: Vec<u8>,
    to_address: Option<Vec<u8>>,
    timestamp: u64,
) -> (r: Result<SignedMessage, CreateError>)
    ensures
        ({
            let tv = match to_address {
                Some(t) => Some(t@),
                None => None::<Seq<u8>>,
            };
            let from = address_of_pubkey(pubkey_of(secret@));
            let digest = signing_digest(
                commitment(encode_raw(created_raw(from, payload@, tv, timestamp)), timestamp),
            );
            &&& ((r is Ok) <==> sec_key_ok(secret@) && sign_ok(secret@, digest))
            &&& ((r == Err::<SignedMessage, _>(CreateError::InvalidKey)) <==> !sec_key_ok(
                secret@,
            ))
            &&& match r {
                Ok(sm) => sm@ == spec_create(secret@, from, payload@, tv, timestamp)
                    && spec_check(encode_signed(sm@)) == Ok::<_, VerifyError>(
                    (sm@, created_raw(from, payload@, tv, timestamp)),
                ),
                Err(e) => e == CreateError::InvalidKey || e == CreateError::SigningFailed,
            }
        }),
{
    let identity = match DeviceIdentity::from_secret_bytes(secret) {
        Some(id) => id,
        None => {
            return Err(CreateError::InvalidKey);
        },
    };
    match create_signed_message(&identity, payload, to_address, timestamp) {
        Ok(sm) => Ok(sm),
        Err(e) => Err(e),
    }
}

/// Validates a received message: rejects empty input, recomputes and checks
/// the commitment, decodes the inner raw record, checks the nonce binding
/// and the signature length, recovers the signer's public key, and accepts
/// only when the recovered address equals the claimed sender. Returns the
/// decoded envelope and raw message, or the exact error that applies.
pub fn check_message(data: &[u8]) -> (r: Result<(SignedMessage, RawMessage), VerifyError>)
    ensures
        match r {
            Ok(p) => spec_check(data@) == Ok::<_, VerifyError>((p.0@, p.1@)),
            Err(e) => spec_check(data@) == Err::<(SignedMessageModel, RawMessageModel), _>(e),
        },
{
    if data.len() == 0 {
        return Err(VerifyError::Empty);
    }
    let sm = match SignedMessage::decode(data) {
        Ok(m) => m,
        Err(_) => {
            return Err(VerifyError::DecodeFailed);
        },
    };
    let mut chain = HashChain::new();
    chain.update(sm.raw.as_slice());
    let dec = u64_to_decimal(sm.nonce);
    chain.update(dec.as_slice());
    proof {
        assert(Seq::<u8>::empty() + sm.raw@ + dec@ =~= sm.raw@ + dec_of(sm.nonce as nat));
    }
    let curr = chain.finalize_reset();
    if !bytes_eq(curr.as_slice(), sm.hash.as_slice()) {
        return Err(VerifyError::HashMismatch);
    }
    let rm = match RawMessage::decode(sm.raw.as_slice()) {
        Ok(m) => m,
        Err(_) => {
            return Err(VerifyError::DecodeFailed);
        },
    };
    if sm.nonce != rm.timestamp {
        return Err(VerifyError::NonceMismatch);
    }
    if sm.signature.len() != 65 {
        return Err(VerifyError::BadSignatureLength);
    }
    chain.update(sm.hash.as_slice());
    proof {
        assert(Seq::<u8>::empty() + sm.hash@ =~= sm.hash@);
    }
    let sd = chain.finalize();
    let pk = match recover_public_key(sd.as_slice(), sm.signature.as_slice()) {
        Some(k) => k,
        None => {
            return Err(VerifyError::RecoveryFailed);
        },
    };
    let addr = get_eth_address_bytes(pk.as_slice());
    if !bytes_eq(addr.as_slice(), rm.from_address.as_slice()) {
        return Err(VerifyError::SignerMismatch);
    }
    Ok((sm, rm))
}

/// Tampering is detected: whenever the recomputed commitment over a decoded
/// envelope's raw bytes and nonce no longer equals its stored hash — as
/// when bits of `raw` were flipped after creation — verification reports
/// `HashMismatch` and nothing later is consulted.
pub proof fn lemma_tamper_is_detected(data: Seq<u8>, sm: SignedMessageModel)
    requires
        data.len() > 0,
        decode_signed(data) == Some(sm),
        commitment(sm.raw, sm.nonce) != sm.hash,
    ensures
        spec_check(data) == Err::<(SignedMessageModel, RawMessageModel), _>(
            VerifyError::HashMismatch,
        ),
{
}

/// A changed nonce always changes the bytes the commitment hash absorbs:
/// the decimal rendering of a number is injective, so the hashed input for
/// two different nonces over the same raw bytes is never the same.
pub proof fn lemma_nonce_changes_commitment_input(raw: Seq<u8>, n1: u64, n2: u64)
    requires
        n1 != n2,
    ensures
        raw + dec_of(n1 as nat) != raw + dec_of(n2 as nat),
{
    let a = raw + dec_of(n1 as nat);
    let b = raw + dec_of(n2 as nat);
    if a == b {
        lemma_dec_of_injective(n1 as nat, n2 as nat);
        assert(dec_of(n1 as nat) =~= a.skip(raw.len() as int));
        assert(dec_of(n2 as nat) =~= b.skip(raw.len() as int));
        assert(false);
    }
}

/// Nonce binding: when the commitment still matches but the envelope's
/// nonce differs from the timestamp inside the decoded raw message,
/// verification reports `NonceMismatch`.
pub proof fn lemma_nonce_mismatch_is_detected(
    data: Seq<u8>,
    sm: SignedMessageModel,
    rm: RawMessageModel,
)
    requires
        data.len() > 0,
        decode_signed(data) == Some(sm),
        commitment(sm.raw, sm.nonce) == sm.hash,
        decode_raw(sm.raw) == Some(rm),
        sm.nonce != rm.timestamp,
    ensures
        spec_check(data) == Err::<(SignedMessageModel, RawMessageModel), _>(
            VerifyError::NonceMismatch,
        ),
{
}

/// Signer substitution is detected: a message whose signature recovers to
/// some public key — as when a modified raw message was re-signed with a
/// different identity's secret — is rejected with `SignerMismatch` whenever
/// that key's address differs from the `from_address` the raw message still
/// claims.
pub proof fn lemma_signer_substitution_is_detected(
    data: Seq<u8>,
    sm: SignedMessageModel,
    rm: RawMessageModel,
    pk: Seq<u8>,
)
    requires
        data.len() > 0,
        decode_signed(data) == Some(sm),
        commitment(sm.raw, sm.nonce) == sm.hash,
        decode_raw(sm.raw) == Some(rm),
        sm.nonce == rm.timestamp,
        sm.signature.len() == 65,
        recover_of(signing_digest(sm.hash), sm.signature) == Some(pk),
        address_of_pubkey(pk) != rm.from_address,
    ensures
        spec_check(data) == Err::<(SignedMessageModel, RawMessageModel), _>(
            VerifyError::SignerMismatch,
        ),
{
}

} // verus!
