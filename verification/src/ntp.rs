//! The compute half of time synchronization: extracting the transmit
//! timestamp from a time-server response and converting it to Unix
//! seconds. The socket work around these lives outside the library.

use vstd::prelude::*;

verus! {

/// Seconds between the time protocol's epoch (1900) and the Unix epoch
/// (1970).
pub open spec fn ntp_unix_offset() -> u64 {
    2208988800
}

/// The 32-bit big-endian seconds field at offset 40 of a 48-byte response.
pub open spec fn ntp_seconds_of(b: Seq<u8>) -> u64
    recommends
        b.len() == 48,
{
    (b[40] * 0x1000000 + b[41] * 0x10000 + b[42] * 0x100 + b[43]) as u64
}

/// Reads the transmit-timestamp seconds out of a 48-byte response packet.
pub fn unpack_ntp_data(buffer: &[u8]) -> (r: u64)
    requires
        buffer@.len() == 48,
    ensures
        r == ntp_seconds_of(buffer@),
{
    (buffer[40] as u64) * 0x1000000 + (buffer[41] as u64) * 0x10000 + (buffer[42] as u64) * 0x100
        + (buffer[43] as u64)
}

/// Converts seconds since 1900 to Unix seconds. Times before the Unix
/// epoch are outside this device's lifetime and are not accepted.
pub fn ntp_to_unix(ntp_seconds: u64) -> (r: u64)
    requires
        ntp_seconds >= ntp_unix_offset(),
    ensures
        r == ntp_seconds - ntp_unix_offset(),
{
    ntp_seconds - 2208988800
}

} // verus!
