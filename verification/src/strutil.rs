//! Byte-level string utilities: equality, prefix tests and substring
//! search over the UTF-8 bytes of strings.

use vstd::prelude::*;
use vstd::string::StringSliceAdditionalSpecFns;

verus! {

broadcast use vstd::utf8::encode_utf8_decode_utf8;

/// `pat` occurs as a contiguous subrange of `s`.
pub open spec fn contains_sub(s: Seq<u8>, pat: Seq<u8>) -> bool {
    exists|i: int|
        0 <= i && i + pat.len() <= s.len() && #[trigger] s.subrange(i, i + pat.len() as int)
            == pat
}

/// Byte-slice equality.
pub fn bytes_eq(a: &[u8], b: &[u8]) -> (r: bool)
    ensures
        r == (a@ == b@),
{
    if a.len() != b.len() {
        proof {
            assert(a@ != b@);
        }
        return false;
    }
    let mut i: usize = 0;
    while i < a.len()
        invariant
            i <= a@.len(),
            a@.len() == b@.len(),
            forall|j: int| 0 <= j < i ==> a@[j] == b@[j],
        decreases a@.len() - i,
    {
        if a[i] != b[i] {
            return false;
        }
        i = i + 1;
    }
    proof {
        assert(a@ =~= b@);
    }
    true
}

/// String equality, decided on the UTF-8 bytes.
pub fn str_eq(a: &str, b: &str) -> (r: bool)
    ensures
        r == (a@ == b@),
{
    let r = bytes_eq(a.as_bytes(), b.as_bytes());
    proof {
        if a.spec_bytes() == b.spec_bytes() {
            vstd::utf8::encode_utf8_decode_utf8(a@);
            vstd::utf8::encode_utf8_decode_utf8(b@);
        }
    }
    r
}

/// `s` begins with the bytes of `pat`.
pub fn starts_with_bytes(s: &[u8], pat: &[u8]) -> (r: bool)
    ensures
        r == (pat@.len() <= s@.len() && s@.take(pat@.len() as int) == pat@),
{
    if pat.len() > s.len() {
        return false;
    }
    let mut i: usize = 0;
    while i < pat.len()
        invariant
            i <= pat@.len(),
            pat@.len() <= s@.len(),
            forall|j: int| 0 <= j < i ==> s@[j] == pat@[j],
        decreases pat@.len() - i,
    {
        if s[i] != pat[i] {
            proof {
                assert(s@.take(pat@.len() as int)[i as int] != pat@[i as int]);
            }
            return false;
        }
        i = i + 1;
    }
    proof {
        assert(s@.take(pat@.len() as int) =~= pat@);
    }
    true
}

/// `pat` matches `s` at offset `start`.
pub(crate) fn match_at(s: &[u8], pat: &[u8], start: usize) -> (r: bool)
    requires
        start + pat@.len() <= s@.len(),
    ensures
        r == (s@.subrange(start as int, start + pat@.len() as int) == pat@),
{
    let slen = s.len();
    let mut j: usize = 0;
    while j < pat.len()
        invariant
            j <= pat@.len(),
            start + pat@.len() <= s@.len(),
            s@.len() == slen,
            forall|k: int| 0 <= k < j ==> s@[start + k] == pat@[k],
        decreases pat@.len() - j,
    {
        if s[start + j] != pat[j] {
            proof {
                assert(s@.subrange(start as int, start + pat@.len() as int)[j as int]
                    != pat@[j as int]);
            }
            return false;
        }
        j = j + 1;
    }
    proof {
        assert(s@.subrange(start as int, start + pat@.len() as int) =~= pat@);
    }
    true
}

/// Relies on `String::from_utf8` (std): it succeeds exactly on valid
/// UTF-8 input and then returns the string of the decoded characters.
#[verifier::external_body]
pub fn string_from_utf8(v: Vec<u8>) -> (r: Option<String>)
    ensures
        r matches Some(s) ==> vstd::utf8::valid_utf8(v@) && s@ == vstd::utf8::decode_utf8(v@),
        vstd::utf8::valid_utf8(v@) ==> r is Some,
{
    String::from_utf8(v).ok()
}

/// Turns ASCII bytes into the string of the same characters.
pub fn ascii_to_string(v: Vec<u8>) -> (r: String)
    requires
        forall|i: int| 0 <= i < v@.len() ==> v@[i] < 0x80,
    ensures
        r@ == Seq::new(v@.len(), |i: int| v@[i] as char),
{
    let ghost chars = Seq::new(v@.len(), |i: int| v@[i] as char);
    proof {
        assert(vstd::utf8::is_ascii_chars(chars)) by {
            assert forall|i: int| 0 <= i < chars.len() implies '\0' <= #[trigger] chars[i]
                <= '\u{7f}' by {
                assert(v@[i] < 0x80);
            }
        }
        vstd::utf8::is_ascii_chars_encode_utf8(chars);
        assert(vstd::utf8::encode_utf8(chars) =~= v@);
        vstd::utf8::encode_utf8_valid_utf8(chars);
        vstd::utf8::encode_utf8_decode_utf8(chars);
    }
    match string_from_utf8(v) {
        Some(s) => s,
        None => vstd::pervasive::unreached(),
    }
}

/// Naive substring search for `pat` in `s`.
pub fn contains_bytes(s: &[u8], pat: &[u8]) -> (r: bool)
    ensures
        r == contains_sub(s@, pat@),
{
    if pat.len() > s.len() {
        proof {
            assert(!contains_sub(s@, pat@));
        }
        return false;
    }
    if pat.len() == 0 {
        proof {
            assert(s@.subrange(0, 0 + pat@.len() as int) =~= pat@);
            assert(contains_sub(s@, pat@));
        }
        return true;
    }
    let last = s.len() - pat.len();
    let mut start: usize = 0;
    while start <= last
        invariant
            1 <= pat@.len() <= s@.len(),
            last == s@.len() - pat@.len(),
            last < usize::MAX,
            start <= last + 1,
            forall|i: int|
                0 <= i < start ==> #[trigger] s@.subrange(i, i + pat@.len() as int) != pat@,
        decreases last + 1 - start,
    {
        if match_at(s, pat, start) {
            return true;
        }
        start = start + 1;
    }
    proof {
        assert forall|i: int| 0 <= i && i + pat@.len() <= s@.len() implies #[trigger] s@.subrange(
            i,
            i + pat@.len() as int,
        ) != pat@ by {
            assert(i < start);
        }
    }
    false
}

/// A copy of a byte vector.
pub fn clone_bytes(v: &Vec<u8>) -> (r: Vec<u8>)
    ensures
        r@ == v@,
{
    vstd::slice::slice_to_vec(v.as_slice())
}

} // verus!
