//! The compute half of the short-range advertising setup: deriving the
//! 128-bit service identifier payload from a service-name string. The
//! radio itself lives outside the library.

use vstd::prelude::*;

verus! {

/// The sixteen identifier bytes a name denotes: the name's bytes,
/// truncated to sixteen and padded with zeroes.
pub open spec fn uuid_bytes_of(s: Seq<u8>) -> Seq<u8> {
    Seq::new(
        16,
        |i: int|
            if i < s.len() {
                s[i]
            } else {
                0u8
            },
    )
}

/// Derives the 16-byte 128-bit identifier payload from a service-name
/// string's bytes.
pub fn str_to_uuid(s: &[u8]) -> (r: Vec<u8>)
    ensures
        r@ == uuid_bytes_of(s@),
        r@.len() == 16,
{
    let mut out: Vec<u8> = Vec::new();
    let mut i: usize = 0;
    while i < 16
        invariant
            i <= 16,
            out@.len() == i,
            forall|k: int| 0 <= k < i ==> out@[k] == uuid_bytes_of(s@)[k],
        decreases 16 - i,
    {
        if i < s.len() {
            out.push(s[i]);
        } else {
            out.push(0);
        }
        i = i + 1;
    }
    proof {
        assert(out@ =~= uuid_bytes_of(s@));
    }
    out
}

} // verus!
