//! Lowercase hexadecimal rendering of byte strings, used for session
//! identifiers and the short authentication string.

use vstd::prelude::*;

verus! {

/// The ASCII code of the lowercase hex digit for `n` (`n < 16`).
pub open spec fn hex_digit_ascii(n: u8) -> u8 {
    if n < 10 {
        (0x30 + n) as u8
    } else {
        (0x61 + (n - 10)) as u8
    }
}

/// The ASCII bytes of the lowercase hex rendering of `s`, two digits per
/// byte, high nibble first.
pub open spec fn hex_ascii(s: Seq<u8>) -> Seq<u8>
    decreases s.len(),
{
    if s.len() == 0 {
        Seq::empty()
    } else {
        hex_ascii(s.drop_last()).push(hex_digit_ascii(s.last() / 16)).push(
            hex_digit_ascii(s.last() % 16),
        )
    }
}

/// The lowercase hex rendering of `s` as characters.
pub open spec fn hex_of(s: Seq<u8>) -> Seq<char> {
    Seq::new(hex_ascii(s).len(), |i: int| hex_ascii(s)[i] as char)
}

pub proof fn lemma_hex_ascii_len(s: Seq<u8>)
    ensures
        hex_ascii(s).len() == 2 * s.len(),
    decreases s.len(),
{
    if s.len() > 0 {
        lemma_hex_ascii_len(s.drop_last());
    }
}

pub proof fn lemma_hex_ascii_is_ascii(s: Seq<u8>)
    ensures
        forall|i: int| 0 <= i < hex_ascii(s).len() ==> #[trigger] hex_ascii(s)[i] < 0x80,
    decreases s.len(),
{
    if s.len() > 0 {
        lemma_hex_ascii_is_ascii(s.drop_last());
        let pre = hex_ascii(s.drop_last());
        assert forall|i: int| 0 <= i < hex_ascii(s).len() implies #[trigger] hex_ascii(s)[i]
            < 0x80 by {
            if i < pre.len() {
                assert(hex_ascii(s)[i] == pre[i]);
            }
        }
    }
}

/// One lowercase hex digit, as an ASCII byte.
pub fn hex_digit(n: u8) -> (r: u8)
    requires
        n < 16,
    ensures
        r == hex_digit_ascii(n),
{
    if n < 10 {
        0x30 + n
    } else {
        0x61 + (n - 10)
    }
}

/// Appends the lowercase hex rendering of `bytes` to `out`.
pub fn push_hex_ascii(out: &mut Vec<u8>, bytes: &[u8])
    ensures
        final(out)@ == old(out)@ + hex_ascii(bytes@),
{
    let ghost base = out@;
    let mut i: usize = 0;
    while i < bytes.len()
        invariant
            i <= bytes@.len(),
            out@ == base + hex_ascii(bytes@.take(i as int)),
        decreases bytes@.len() - i,
    {
        let b = bytes[i];
        out.push(hex_digit(b / 16));
        out.push(hex_digit(b % 16));
        i = i + 1;
        proof {
            let t = bytes@.take(i as int);
            assert(t.drop_last() =~= bytes@.take(i as int - 1));
            assert(t.last() == bytes@[i as int - 1]);
        }
    }
    proof {
        assert(bytes@.take(bytes@.len() as int) =~= bytes@);
    }
}

/// The lowercase hex rendering of `bytes`, as ASCII bytes.
pub fn hex_ascii_of(bytes: &[u8]) -> (r: Vec<u8>)
    ensures
        r@ == hex_ascii(bytes@),
{
    let mut out: Vec<u8> = Vec::new();
    push_hex_ascii(&mut out, bytes);
    out
}

} // verus!
