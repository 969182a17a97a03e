//! Core of a self-authenticating telemetry node: a canonical wire codec for
//! the two message records, a Keccak-256 commitment and recoverable-signature
//! protocol for creating and verifying signed messages, a one-time
//! key-provisioning state machine over a write-once key store, and the
//! publish-retry policy.

pub mod ble;
pub mod bytesops;
pub mod hash;
pub mod identity;
pub mod message;
pub mod codec;
pub mod fields;
pub mod varint;
pub mod ntp;
pub mod numfmt;
pub mod policy;
pub mod protocol;
pub mod provisioning;
