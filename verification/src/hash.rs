//! Keccak-256 hashing. `HashChain` accumulates input incrementally and
//! produces a digest either while staying usable (finalize-and-reset) or by
//! being consumed; both the address derivation and the message commitment
//! scheme are built on it.

use vstd::prelude::*;
use sha3::Digest;

verus! {

/// What Keccak-256 returns for a byte string; the digest is a pure function
/// of the input bytes.
pub uninterp spec fn keccak256(data: Seq<u8>) -> Seq<u8>;

/// Relies on sha3::Keccak256 through the Digest trait: the 32-byte
/// Keccak-256 digest of the input, a pure function of the input bytes.
#[verifier::external_body]
fn keccak256_digest(data: &[u8]) -> (r: Vec<u8>)
    ensures
        r@ == keccak256(data@),
        r@.len() == 32,
{
    sha3::Keccak256::digest(data).to_vec()
}

/// An incremental Keccak-256 computation over the bytes absorbed so far.
pub struct HashChain {
    buf: Vec<u8>,
}

impl View for HashChain {
    type V = Seq<u8>;

    closed spec fn view(&self) -> Seq<u8> {
        self.buf@
    }
}

impl HashChain {
    /// A chain that has absorbed nothing.
    pub fn new() -> (r: Self)
        ensures
            r@ == Seq::<u8>::empty(),
    {
        HashChain { buf: Vec::new() }
    }

    /// Absorbs more input bytes.
    pub fn update(&mut self, data: &[u8])
        ensures
            final(self)@ == old(self)@ + data@,
    {
        crate::bytesops::extend_bytes(&mut self.buf, data);
    }

    /// Digest of everything absorbed so far; the chain is reset to empty and
    /// can be reused.
    pub fn finalize_reset(&mut self) -> (r: Vec<u8>)
        ensures
            r@ == keccak256(old(self)@),
            r@.len() == 32,
            final(self)@ == Seq::<u8>::empty(),
    {
        let r = keccak256_digest(self.buf.as_slice());
        self.buf.clear();
        r
    }

    /// Digest of everything absorbed, consuming the chain.
    pub fn finalize(self) -> (r: Vec<u8>)
        ensures
            r@ == keccak256(self@),
            r@.len() == 32,
    {
        keccak256_digest(self.buf.as_slice())
    }
}

} // verus!
