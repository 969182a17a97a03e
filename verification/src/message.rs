//! The two wire records. `RawMessage` is the signed payload envelope; its
//! canonical encoding is hashed and signed, so identical field values must
//! always produce identical bytes. `SignedMessage` is the outer envelope
//! that carries those bytes together with the commitment hash, the nonce,
//! and the recoverable signature.

use vstd::prelude::*;

verus! {

/// The signed payload envelope.
#[derive(Debug)]
pub struct RawMessage {
    /// Unix seconds.
    pub timestamp: u64,
    /// 20 bytes; equals the sender's address when constructed locally.
    pub from_address: Vec<u8>,
    /// 20 bytes; all-zero denotes broadcast.
    pub to_address: Vec<u8>,
    /// Reserved; always false here.
    pub encrypted: bool,
    /// Opaque application telemetry.
    pub payload: Vec<u8>,
    /// Reserved, unused by this core.
    pub iv: Option<Vec<u8>>,
    /// Reserved, unused by this core.
    pub w3b: Option<Vec<u8>>,
}

/// The mathematical value of a `RawMessage`.
#[verifier::ext_equal]
pub struct RawMessageModel {
    pub timestamp: u64,
    pub from_address: Seq<u8>,
    pub to_address: Seq<u8>,
    pub encrypted: bool,
    pub payload: Seq<u8>,
    pub iv: Option<Seq<u8>>,
    pub w3b: Option<Seq<u8>>,
}

impl View for RawMessage {
    type V = RawMessageModel;

    open spec fn view(&self) -> RawMessageModel {
        RawMessageModel {
            timestamp: self.timestamp,
            from_address: self.from_address@,
            to_address: self.to_address@,
            encrypted: self.encrypted,
            payload: self.payload@,
            iv: match self.iv {
                Some(b) => Some(b@),
                None => None,
            },
            w3b: match self.w3b {
                Some(b) => Some(b@),
                None => None,
            },
        }
    }
}

/// The wire envelope that carries an encoded `RawMessage` with its
/// integrity commitment and signature.
#[derive(Debug)]
pub struct SignedMessage {
    /// The exact canonical encoding of a `RawMessage`.
    pub raw: Vec<u8>,
    /// 32-byte integrity commitment over `raw` and the nonce's decimal form.
    pub hash: Vec<u8>,
    /// Copied from the raw message's timestamp at creation.
    pub nonce: u64,
    /// 65 bytes: `r ‖ s ‖ recovery-id`.
    pub signature: Vec<u8>,
    /// Optional 20-byte address of a relaying intermediary.
    pub last_edge_addr: Option<Vec<u8>>,
}

/// The mathematical value of a `SignedMessage`.
#[verifier::ext_equal]
pub struct SignedMessageModel {
    pub raw: Seq<u8>,
    pub hash: Seq<u8>,
    pub nonce: u64,
    pub signature: Seq<u8>,
    pub last_edge_addr: Option<Seq<u8>>,
}

impl View for SignedMessage {
    type V = SignedMessageModel;

    open spec fn view(&self) -> SignedMessageModel {
        SignedMessageModel {
            raw: self.raw@,
            hash: self.hash@,
            nonce: self.nonce,
            signature: self.signature@,
            last_edge_addr: match self.last_edge_addr {
                Some(b) => Some(b@),
                None => None,
            },
        }
    }
}

} // verus!
