//! Textual renderings of numbers and byte strings: lowercase hexadecimal
//! (used for addresses and public keys) and decimal digits (used when a
//! timestamp is absorbed into the commitment hash).

use vstd::prelude::*;

verus! {

/// The sixteen lowercase hexadecimal digit characters, in value order.
pub open spec fn hex_digits() -> Seq<char> {
    seq!['0', '1', '2', '3', '4', '5', '6', '7', '8', '9', 'a', 'b', 'c', 'd', 'e', 'f']
}

/// Lowercase hexadecimal digit character for a nibble.
pub open spec fn hex_digit(n: u8) -> char
    recommends
        n < 16,
{
    hex_digits()[n as int]
}

/// Lowercase hexadecimal rendering of a byte string, two digits per byte.
pub open spec fn hex_of(bytes: Seq<u8>) -> Seq<char>
    decreases bytes.len(),
{
    if bytes.len() == 0 {
        Seq::empty()
    } else {
        seq![hex_digit(bytes.first() / 16), hex_digit(bytes.first() % 16)]
            + hex_of(bytes.drop_first())
    }
}

/// Relies on String::push: appends exactly the given character.
#[verifier::external_body]
fn push_char(s: &mut String, c: char)
    ensures
        final(s)@ == old(s)@.push(c),
{
    s.push(c);
}

fn hex_char(n: u8) -> (c: char)
    requires
        n < 16,
    ensures
        c == hex_digit(n),
{
    if n == 0 { '0' } else if n == 1 { '1' } else if n == 2 { '2' } else if n == 3 { '3' }
    else if n == 4 { '4' } else if n == 5 { '5' } else if n == 6 { '6' } else if n == 7 { '7' }
    else if n == 8 { '8' } else if n == 9 { '9' } else if n == 10 { 'a' } else if n == 11 { 'b' }
    else if n == 12 { 'c' } else if n == 13 { 'd' } else if n == 14 { 'e' } else { 'f' }
}

/// Renders a byte string as lowercase hexadecimal, two digits per byte.
pub fn hex_encode(bytes: &[u8]) -> (r: String)
    ensures
        r@ == hex_of(bytes@),
{
    let mut out = String::new();
    let n: usize = bytes.len();
    let mut i: usize = 0;
    proof {
        assert(bytes@.skip(0) =~= bytes@);
        assert(out@ + hex_of(bytes@.skip(0)) =~= hex_of(bytes@));
    }
    while i < n
        invariant
            n == bytes@.len(),
            i <= n,
            out@ + hex_of(bytes@.skip(i as int)) == hex_of(bytes@),
        decreases n - i,
    {
        let b = bytes[i];
        proof {
            assert(bytes@.skip(i as int).first() == bytes@[i as int]);
            assert(bytes@.skip(i as int).drop_first() =~= bytes@.skip(i as int + 1));
        }
        push_char(&mut out, hex_char(b / 16));
        push_char(&mut out, hex_char(b % 16));
        proof {
            assert(out@ + hex_of(bytes@.skip(i as int + 1)) =~= hex_of(bytes@));
        }
        i = i + 1;
    }
    proof {
        assert(bytes@.skip(n as int) =~= Seq::<u8>::empty());
        assert(out@ =~= hex_of(bytes@));
    }
    out
}

/// ASCII decimal digits of a natural number, most significant first.
pub open spec fn dec_of(n: nat) -> Seq<u8>
    decreases n,
{
    if n < 10 {
        seq![(n + 48) as u8]
    } else {
        dec_of(n / 10) + seq![((n % 10) + 48) as u8]
    }
}

pub proof fn lemma_dec_of_len_pos(n: nat)
    ensures
        dec_of(n).len() >= 1,
{
}

/// Distinct numbers have distinct decimal renderings, so a changed nonce
/// always changes the bytes that the commitment hash absorbs.
pub proof fn lemma_dec_of_injective(a: nat, b: nat)
    ensures
        dec_of(a) == dec_of(b) ==> a == b,
    decreases a + b,
{
    if dec_of(a) == dec_of(b) {
        if a < 10 && b < 10 {
            assert(dec_of(a)[0] == dec_of(b)[0]);
        } else if a < 10 && b >= 10 {
            lemma_dec_of_len_pos(b / 10);
            assert(dec_of(b).len() >= 2);
        } else if a >= 10 && b < 10 {
            lemma_dec_of_len_pos(a / 10);
            assert(dec_of(a).len() >= 2);
        } else {
            let la = dec_of(a / 10).len() as int;
            let lb = dec_of(b / 10).len() as int;
            assert(dec_of(a) == dec_of(a / 10) + seq![((a % 10) + 48) as u8]);
            assert(dec_of(b) == dec_of(b / 10) + seq![((b % 10) + 48) as u8]);
            assert(dec_of(a).len() == la + 1);
            assert(dec_of(b).len() == lb + 1);
            assert(la + 1 == lb + 1);
            assert(dec_of(a / 10) =~= dec_of(a).subrange(0, la)) by {
                assert(forall|k: int| 0 <= k < la ==> dec_of(a)[k] == dec_of(a / 10)[k]);
            }
            assert(dec_of(b / 10) =~= dec_of(b).subrange(0, lb)) by {
                assert(forall|k: int| 0 <= k < lb ==> dec_of(b)[k] == dec_of(b / 10)[k]);
            }
            assert(dec_of(a)[la] == dec_of(b)[lb]);
            assert((a % 10 + 48) as u8 == (b % 10 + 48) as u8);
            assert(a % 10 == b % 10);
            lemma_dec_of_injective(a / 10, b / 10);
            assert(a == 10 * (a / 10) + a % 10);
            assert(b == 10 * (b / 10) + b % 10);
        }
    }
}

/// Appends the decimal digits of `n` to `out`.
pub fn push_decimal(out: &mut Vec<u8>, n: u64)
    ensures
        final(out)@ == old(out)@ + dec_of(n as nat),
    decreases n,
{
    if n < 10 {
        out.push((n as u8) + 48);
        proof {
            assert(final(out)@ =~= old(out)@ + dec_of(n as nat));
        }
    } else {
        push_decimal(out, n / 10);
        out.push(((n % 10) as u8) + 48);
        proof {
            assert(final(out)@ =~= old(out)@ + dec_of(n as nat));
        }
    }
}

/// The decimal digits of `n` as a byte string.
pub fn u64_to_decimal(n: u64) -> (r: Vec<u8>)
    ensures
        r@ == dec_of(n as nat),
{
    let mut out: Vec<u8> = Vec::new();
    push_decimal(&mut out, n);
    proof {
        assert(out@ =~= dec_of(n as nat));
    }
    out
}

/// Whether a byte is an ASCII hexadecimal digit, either case.
pub open spec fn is_hex_digit(b: u8) -> bool {
    (48 <= b && b <= 57) || (97 <= b && b <= 102) || (65 <= b && b <= 70)
}

/// Value of an ASCII hexadecimal digit.
pub open spec fn hex_val(b: u8) -> u8
    recommends
        is_hex_digit(b),
{
    if 48 <= b && b <= 57 {
        (b - 48) as u8
    } else if 97 <= b && b <= 102 {
        (b - 87) as u8
    } else {
        (b - 55) as u8
    }
}

pub fn is_hex_digit_exec(b: u8) -> (r: bool)
    ensures
        r == is_hex_digit(b),
{
    (48 <= b && b <= 57) || (97 <= b && b <= 102) || (65 <= b && b <= 70)
}

pub fn hex_val_exec(b: u8) -> (r: u8)
    requires
        is_hex_digit(b),
    ensures
        r == hex_val(b),
{
    if 48 <= b && b <= 57 {
        b - 48
    } else if 97 <= b && b <= 102 {
        b - 87
    } else {
        b - 55
    }
}

} // verus!
