//! The publish policy: a cycle counter that triggers a telemetry publish
//! every thirtieth cycle, retries on the very next cycle after a failed
//! delivery, and resets only after an acknowledged delivery. Delivery
//! counts as successful exactly when the transport's response body is the
//! fixed acknowledgment text.

use vstd::prelude::*;
use crate::bytesops::{bytes_eq, extend_bytes};

verus! {

/// Application-level context shared by the telemetry tasks.
#[derive(Clone)]
pub struct AppContext {
    /// The device's display name, also the first component of every
    /// telemetry payload.
    pub name: String,
}

/// The exact response body that acknowledges a delivered message:
/// `{"ok":true}`.
pub open spec fn ack_bytes() -> Seq<u8> {
    seq![123u8, 34, 111, 107, 34, 58, 116, 114, 117, 101, 125]
}

/// Whether a transport response acknowledges the delivery: it must equal
/// the fixed acknowledgment body byte for byte.
pub fn is_publish_ack(resp: &[u8]) -> (r: bool)
    ensures
        r == (resp@ == ack_bytes()),
{
    let expected: Vec<u8> = vec![123u8, 34, 111, 107, 34, 58, 116, 114, 117, 101, 125];
    proof {
        assert(expected@ =~= ack_bytes());
    }
    bytes_eq(resp, expected.as_slice())
}

/// The telemetry payload for a device name and a sensor reading: the name,
/// a comma, and the reading's text.
pub open spec fn telemetry_payload(name: Seq<u8>, reading: Seq<u8>) -> Seq<u8> {
    name + seq![44u8] + reading
}

/// Frames one telemetry payload.
pub fn make_telemetry_payload(name: &[u8], reading: &[u8]) -> (r: Vec<u8>)
    ensures
        r@ == telemetry_payload(name@, reading@),
{
    let mut out: Vec<u8> = Vec::new();
    extend_bytes(&mut out, name);
    out.push(44);
    extend_bytes(&mut out, reading);
    proof {
        assert(out@ =~= telemetry_payload(name@, reading@));
    }
    out
}

/// How many cycles must pass before the first publish attempt; thereafter
/// an attempt is made every cycle until one is acknowledged.
pub open spec fn publish_threshold() -> u64 {
    30
}

/// The next counter value after a cycle: back to one after an acknowledged
/// attempt, otherwise advanced (and held at the top of its range rather
/// than wrapping).
pub open spec fn next_cycle_count(count: u64, delivered: bool) -> u64 {
    if delivered && count >= publish_threshold() {
        1
    } else if count == u64::MAX {
        u64::MAX
    } else {
        (count + 1) as u64
    }
}

/// The publish-retry policy's state: how many cycles have passed since the
/// last acknowledged delivery.
pub struct PublishPolicy {
    cycle_count: u64,
}

impl PublishPolicy {
    /// The current cycle count.
    pub closed spec fn count(&self) -> u64 {
        self.cycle_count
    }

    /// A fresh policy that has never published.
    pub fn new() -> (r: Self)
        ensures
            r.count() == 0,
    {
        PublishPolicy { cycle_count: 0 }
    }

    /// Whether this cycle should attempt a publish: every cycle once the
    /// threshold has been reached, so a failed delivery is retried on the
    /// very next cycle, indefinitely and without backoff.
    pub fn should_publish(&self) -> (r: bool)
        ensures
            r == (self.count() >= publish_threshold()),
    {
        self.cycle_count >= 30
    }

    /// Ends one cycle. `delivered` says whether a publish was attempted
    /// and acknowledged; only then does the counter reset.
    pub fn finish_cycle(&mut self, delivered: bool)
        ensures
            final(self).count() == next_cycle_count(old(self).count(), delivered),
    {
        if delivered && self.cycle_count >= 30 {
            self.cycle_count = 1;
        } else if self.cycle_count < u64::MAX {
            self.cycle_count = self.cycle_count + 1;
        }
    }
}

} // verus!
