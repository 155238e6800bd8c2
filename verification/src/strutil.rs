//! Byte-level helpers for comparing and dissecting path strings.
//!
//! Paths are ordinary `String`s; all decisions about them are made on
//! their UTF-8 bytes, and the round-trip lemmas of `vstd::utf8` carry the
//! results back to the character-sequence views used in contracts.

use vstd::prelude::*;
use vstd::string::StringSliceAdditionalSpecFns;

verus! {

/// Equality of two byte slices.
pub fn bytes_eq(a: &[u8], b: &[u8]) -> (r: bool)
    ensures
        r == (a@ == b@),
{
    if a.len() != b.len() {
        return false;
    }
    let mut i: usize = 0;
    while i < a.len()
        invariant
            0 <= i <= a@.len(),
            a@.len() == b@.len(),
            forall|j: int| 0 <= j < i ==> a@[j] == b@[j],
        decreases a@.len() - i,
    {
        if *vstd::slice::slice_index_get(a, i) != *vstd::slice::slice_index_get(b, i) {
            return false;
        }
        i += 1;
    }
    proof {
        assert(a@ =~= b@);
    }
    true
}

/// Equality of two string slices, decided on their UTF-8 bytes.
pub fn str_eq(a: &str, b: &str) -> (r: bool)
    ensures
        r == (a@ == b@),
{
    let r = bytes_eq(a.as_bytes(), b.as_bytes());
    proof {
        if a.spec_bytes() == b.spec_bytes() {
            vstd::utf8::encode_utf8_decode_utf8(a@);
            vstd::utf8::encode_utf8_decode_utf8(b@);
        }
    }
    r
}

/// Equality of a string and a string slice.
pub fn string_eq_str(a: &String, b: &str) -> (r: bool)
    ensures
        r == (a@ == b@),
{
    str_eq(a.as_str(), b)
}

/// The UTF-8 bytes that encode a character sequence.
pub open spec fn bytes_of(s: Seq<char>) -> Seq<u8> {
    vstd::utf8::encode_utf8(s)
}

/// Whether `needle` occurs as a contiguous run inside `hay`.
pub open spec fn seq_contains(hay: Seq<u8>, needle: Seq<u8>) -> bool {
    exists|i: int|
        0 <= i <= hay.len() - needle.len() && #[trigger] hay.subrange(i, i + needle.len())
            == needle
}

/// Whether `needle` occurs inside `hay`, decided on UTF-8 bytes.
pub fn str_contains(hay: &str, needle: &str) -> (r: bool)
    ensures
        r == seq_contains(bytes_of(hay@), bytes_of(needle@)),
{
    let h = hay.as_bytes();
    let n = needle.as_bytes();
    if n.len() > h.len() {
        return false;
    }
    if n.len() == 0 {
        proof {
            assert(bytes_of(hay@).subrange(0, 0 + bytes_of(needle@).len() as int) =~= bytes_of(
                needle@,
            ));
        }
        return true;
    }
    let mut i: usize = 0;
    while i <= h.len() - n.len()
        invariant
            0 < n@.len() <= h@.len(),
            h@.len() <= usize::MAX,
            h@ == bytes_of(hay@),
            n@ == bytes_of(needle@),
            0 <= i <= h@.len() - n@.len() + 1,
            forall|k: int| 0 <= k < i ==> #[trigger] h@.subrange(k, k + n@.len()) != n@,
        decreases h@.len() - n@.len() + 1 - i,
    {
        if bytes_eq(vstd::slice::slice_subrange(h, i, i + n.len()), n) {
            proof {
                assert(h@ == bytes_of(hay@) && n@ == bytes_of(needle@));
                assert(bytes_of(hay@).subrange(i as int, i as int + bytes_of(needle@).len() as int)
                    == bytes_of(needle@));
            }
            return true;
        }
        i += 1;
    }
    false
}

/// The trailing component of a path: its UTF-8 bytes after the last
/// slash byte.
pub open spec fn base_name_bytes(s: Seq<u8>) -> Seq<u8>
    decreases s.len(),
{
    if s.len() == 0 {
        Seq::<u8>::empty()
    } else if s.last() == 47u8 {
        Seq::<u8>::empty()
    } else {
        base_name_bytes(s.drop_last()).push(s.last())
    }
}

proof fn lemma_base_name_suffix(s: Seq<u8>, i: int)
    requires
        0 <= i <= s.len(),
        forall|j: int| i <= j < s.len() ==> s[j] != 47u8,
        i > 0 ==> s[i - 1] == 47u8,
    ensures
        base_name_bytes(s) == s.skip(i),
    decreases s.len(),
{
    if i == s.len() {
        assert(s.skip(i) =~= Seq::<u8>::empty());
        if s.len() > 0 {
            assert(s.last() == 47u8);
        }
    } else {
        assert(s.last() != 47u8);
        lemma_base_name_suffix(s.drop_last(), i);
        assert(base_name_bytes(s) =~= s.skip(i));
    }
}

/// The index just after the last slash byte of the slice (0 when there
/// is none): where the path's trailing component starts.
fn after_last_slash(b: &[u8]) -> (i: usize)
    ensures
        0 <= i <= b@.len(),
        forall|j: int| i <= j < b@.len() ==> b@[j] != 47u8,
        i > 0 ==> b@[i - 1] == 47u8,
{
    let mut i = b.len();
    while i > 0
        invariant
            i <= b@.len(),
            forall|j: int| i <= j < b@.len() ==> b@[j] != 47u8,
        decreases i,
    {
        if *vstd::slice::slice_index_get(b, i - 1) == 47u8 {
            return i;
        }
        i -= 1;
    }
    0
}

/// Whether two paths end in the same non-empty trailing component,
/// decided on UTF-8 bytes.
pub fn base_names_match(a: &str, b: &str) -> (r: bool)
    ensures
        r == ({
            let ba = base_name_bytes(bytes_of(a@));
            let bb = base_name_bytes(bytes_of(b@));
            ba.len() > 0 && ba == bb
        }),
{
    let ab = a.as_bytes();
    let bb = b.as_bytes();
    let ia = after_last_slash(ab);
    let ib = after_last_slash(bb);
    proof {
        lemma_base_name_suffix(ab@, ia as int);
        lemma_base_name_suffix(bb@, ib as int);
    }
    if ab.len() - ia == 0 {
        return false;
    }
    bytes_eq(
        vstd::slice::slice_subrange(ab, ia, ab.len()),
        vstd::slice::slice_subrange(bb, ib, bb.len()),
    )
}

/// Whether `prefix` starts `s`, decided on UTF-8 bytes.
pub fn str_starts_with(s: &str, prefix: &str) -> (r: bool)
    ensures
        r == (bytes_of(prefix@).is_prefix_of(bytes_of(s@))),
{
    let sb = s.as_bytes();
    let pb = prefix.as_bytes();
    if pb.len() > sb.len() {
        return false;
    }
    let r = bytes_eq(vstd::slice::slice_subrange(sb, 0, pb.len()), pb);
    proof {
        assert(sb@.subrange(0, pb@.len() as int) =~= sb@.take(pb@.len() as int));
    }
    r
}

} // verus!
