//! Base-128 variable-length integers, the scalar primitive of the wire
//! format: seven value bits per byte, least-significant group first, and the
//! high bit set on every byte except the last.

use vstd::prelude::*;
use vstd::arithmetic::power2::{
    pow2, lemma_pow2_adds, lemma_pow2_pos, lemma_pow2_strictly_increases, lemma2_to64,
};
use vstd::bits::{lemma_u64_shl_is_mul, lemma_u64_mul_pow2_le_max_iff_max_shr};

verus! {

/// The varint encoding of a number.
pub open spec fn varint(n: nat) -> Seq<u8>
    decreases n,
{
    if n < 128 {
        seq![n as u8]
    } else {
        seq![((n % 128) + 128) as u8] + varint(n / 128)
    }
}

pub proof fn lemma_varint_len_pos(n: nat)
    ensures
        varint(n).len() >= 1,
{
}

/// Appends the varint encoding of `n` to `out`.
pub fn push_varint(out: &mut Vec<u8>, n: u64)
    ensures
        final(out)@ == old(out)@ + varint(n as nat),
    decreases n,
{
    if n < 128 {
        out.push(n as u8);
        proof {
            assert(final(out)@ =~= old(out)@ + varint(n as nat));
        }
    } else {
        out.push(((n % 128) + 128) as u8);
        push_varint(out, n / 128);
        proof {
            assert(final(out)@ =~= old(out)@ + varint(n as nat));
        }
    }
}

/// Parses a varint whose next byte carries value bits scaled by
/// `pow2(shift)`. Parsing is refused on truncated input, on an encoding
/// longer than ten bytes, and on a value that does not fit in 64 bits.
pub open spec fn parse_varint_at(b: Seq<u8>, shift: nat) -> Option<(nat, Seq<u8>)>
    decreases b.len(),
{
    if b.len() == 0 {
        None
    } else if shift > 63 {
        None
    } else {
        let lo = (b.first() % 128) as nat;
        if lo * pow2(shift) > u64::MAX as nat {
            None
        } else if b.first() < 128 {
            Some((lo * pow2(shift), b.drop_first()))
        } else {
            match parse_varint_at(b.drop_first(), shift + 7) {
                Some(p) => Some((lo * pow2(shift) + p.0, p.1)),
                None => None,
            }
        }
    }
}

/// Parses a varint from the front of a byte string.
pub open spec fn parse_varint(b: Seq<u8>) -> Option<(nat, Seq<u8>)> {
    parse_varint_at(b, 0)
}

/// A successful parse always consumes at least one byte.
pub proof fn lemma_parse_varint_consumes(b: Seq<u8>, shift: nat)
    ensures
        match parse_varint_at(b, shift) {
            Some(p) => p.1.len() < b.len(),
            None => true,
        },
    decreases b.len(),
{
    if b.len() == 0 || shift > 63 {
    } else if b.first() >= 128 {
        lemma_parse_varint_consumes(b.drop_first(), shift + 7);
    }
}

/// Parsing is the inverse of encoding: the varint of `n` scaled at `shift`
/// parses back to `n * pow2(shift)`, leaving the rest untouched.
proof fn lemma_parse_varint_at_inverse(n: nat, shift: nat, rest: Seq<u8>)
    requires
        shift <= 63,
        n * pow2(shift) <= u64::MAX as nat,
    ensures
        parse_varint_at(varint(n) + rest, shift) == Some::<(nat, Seq<u8>)>(
            ((n * pow2(shift)) as nat, rest),
        ),
    decreases n,
{
    let b = varint(n) + rest;
    lemma_pow2_pos(shift);
    if n < 128 {
        assert(b.first() == n as u8);
        assert((b.first() % 128) as nat == n);
        assert(b.drop_first() =~= rest);
    } else {
        assert(varint(n) == seq![((n % 128) + 128) as u8] + varint(n / 128));
        assert(b.first() == ((n % 128) + 128) as u8);
        let lo = (b.first() % 128) as nat;
        assert(lo == n % 128);
        assert(lo * pow2(shift) <= n * pow2(shift)) by (nonlinear_arith)
            requires
                lo <= n,
                pow2(shift) > 0,
        ;
        assert(b.first() >= 128);
        assert(b.drop_first() =~= varint(n / 128) + rest);
        // The next group sits seven bits higher and still fits below 2^64.
        lemma_pow2_adds(shift, 7);
        assert(pow2(7) == 128) by {
            lemma2_to64();
        }
        assert((n / 128) * pow2(shift + 7) + (n % 128) * pow2(shift) == n * pow2(shift))
            by (nonlinear_arith)
            requires
                pow2(shift + 7) == pow2(shift) * 128,
                n == 128 * (n / 128) + n % 128,
        ;
        assert((n / 128) * pow2(shift + 7) <= u64::MAX as nat);
        if shift + 7 > 63 {
            // Then pow2(shift + 7) >= 2^64 while a group with n >= 128
            // carries at least 128 * pow2(shift) > u64::MAX: impossible.
            assert(pow2(64) > u64::MAX as nat) by {
                lemma2_to64();
            }
            assert(128 * pow2(shift) <= n * pow2(shift)) by (nonlinear_arith)
                requires
                    128 <= n,
                    pow2(shift) > 0,
            ;
            assert(pow2(shift + 7) == 128 * pow2(shift));
            assert(pow2(shift + 7) > u64::MAX as nat) by {
                if shift + 7 == 64 {
                    lemma2_to64();
                } else {
                    lemma_pow2_strictly_increases(64, shift + 7);
                    lemma2_to64();
                }
            }
            assert(false);
        }
        lemma_parse_varint_at_inverse(n / 128, shift + 7, rest);
    }
}

/// Parsing is the inverse of encoding.
pub proof fn lemma_parse_varint_inverse(n: u64, rest: Seq<u8>)
    ensures
        parse_varint(varint(n as nat) + rest) == Some::<(nat, Seq<u8>)>((n as nat, rest)),
{
    lemma2_to64();
    assert(pow2(0) == 1);
    lemma_parse_varint_at_inverse(n as nat, 0, rest);
}

/// Parses a varint from `data` beginning at index `start`, returning the
/// value and the index just past the encoding.
pub fn parse_varint_exec(data: &[u8], start: usize) -> (r: Option<(u64, usize)>)
    requires
        start <= data@.len(),
    ensures
        match r {
            Some(p) => start < p.1 <= data@.len() && parse_varint(data@.skip(start as int))
                == Some::<(nat, Seq<u8>)>((p.0 as nat, data@.skip(p.1 as int))),
            None => parse_varint(data@.skip(start as int)) is None,
        },
{
    let n: usize = data.len();
    let mut i: usize = start;
    let mut shift: u64 = 0;
    let mut acc: u64 = 0;
    proof {
        lemma2_to64();
    }
    loop
        invariant
            start <= i <= n,
            n == data@.len(),
            shift <= 70,
            shift <= 63 ==> (acc as nat) < pow2(shift as nat),
            match parse_varint_at(data@.skip(i as int), shift as nat) {
                Some(p) => parse_varint(data@.skip(start as int)) == Some::<(nat, Seq<u8>)>(
                    ((acc as nat + p.0) as nat, p.1),
                ),
                None => parse_varint(data@.skip(start as int)) is None,
            },
        decreases n - i,
    {
        if i >= n {
            proof {
                assert(data@.skip(i as int).len() == 0);
            }
            return None;
        }
        let byte = data[i];
        proof {
            assert(data@.skip(i as int).len() > 0);
            assert(data@.skip(i as int).first() == data@[i as int]);
        }
        if shift > 63 {
            return None;
        }
        let lo: u64 = (byte % 128) as u64;
        let ghost p = pow2(shift as nat);
        let ghost q = pow2((64 - shift) as nat);
        proof {
            lemma2_to64();
            lemma_pow2_pos(shift as nat);
            lemma_pow2_adds(shift as nat, (64 - shift) as nat);
            assert(p * q == pow2(64));
            assert((u64::MAX as nat) < pow2(64));
            lemma_u64_mul_pow2_le_max_iff_max_shr(lo, shift, u64::MAX);
        }
        if lo > (u64::MAX >> shift) {
            proof {
                assert((lo as nat) * p > u64::MAX as nat);
                assert((data@.skip(i as int).first() % 128) as nat == lo as nat);
            }
            return None;
        }
        proof {
            assert((lo as nat) * p <= u64::MAX as nat);
            assert((lo as nat) < q) by (nonlinear_arith)
                requires
                    (lo as nat) * p <= u64::MAX as nat,
                    (u64::MAX as nat) < p * q,
                    p > 0,
            ;
            assert(((lo as nat) + 1) * p <= q * p) by (nonlinear_arith)
                requires
                    (lo as nat) + 1 <= q,
                    p > 0,
            ;
            assert((acc as nat) + (lo as nat) * p < ((lo as nat) + 1) * p) by (nonlinear_arith)
                requires
                    (acc as nat) < p,
            ;
            assert(q * p == pow2(64)) by (nonlinear_arith)
                requires
                    p * q == pow2(64),
            ;
            assert((acc as nat) + (lo as nat) * p <= u64::MAX as nat);
            lemma_u64_shl_is_mul(lo, shift);
        }
        let group_val: u64 = lo << shift;
        if byte < 128 {
            let v: u64 = acc + group_val;
            proof {
                assert(data@.skip(i as int).drop_first() =~= data@.skip(i as int + 1));
                assert(parse_varint_at(data@.skip(i as int), shift as nat)
                    == Some::<(nat, Seq<u8>)>(((lo as nat) * p, data@.skip(i as int + 1))));
            }
            return Some((v, i + 1));
        }
        proof {
            assert(data@.skip(i as int).drop_first() =~= data@.skip(i as int + 1));
            // The continuation case of the parser at this byte.
            assert(parse_varint_at(data@.skip(i as int), shift as nat) == (
            match parse_varint_at(data@.skip(i as int + 1), (shift + 7) as nat) {
                Some(pp) => Some::<(nat, Seq<u8>)>(((lo as nat) * p + pp.0, pp.1)),
                None => None,
            }));
            // The new accumulator stays below the next group's scale.
            lemma_pow2_adds(shift as nat, 7);
            assert(pow2(7) == 128);
            assert((acc as nat) + (lo as nat) * p < pow2((shift + 7) as nat)) by (nonlinear_arith)
                requires
                    (acc as nat) < p,
                    (lo as nat) < 128,
                    pow2((shift + 7) as nat) == p * 128,
            ;
        }
        acc = acc + group_val;
        shift = shift + 7;
        i = i + 1;
    }
}

} // verus!
