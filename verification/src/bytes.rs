//! Byte-level primitives shared by the parser and the emitters: named byte
//! constants, spec-level predicates over byte sequences, and the scanning
//! helpers the directive parsers are built from.

use vstd::prelude::*;

verus! {

pub const LF: u8 = 10;
pub const NUL: u8 = 0;
pub const SP: u8 = 32;
pub const HASH: u8 = 35;
pub const COLON: u8 = 58;
pub const DOT: u8 = 46;
pub const SLASH: u8 = 47;
pub const ASTERISK: u8 = 42;
pub const AT: u8 = 64;
pub const DQUOTE: u8 = 34;
pub const BACKSLASH: u8 = 92;
pub const LT: u8 = 60;
pub const GT: u8 = 62;
pub const LBRACE: u8 = 123;
pub const DIGIT0: u8 = 48;

/// Whether byte `b` occurs anywhere in `s`.
pub open spec fn contains_byte(s: Seq<u8>, b: u8) -> bool {
    exists|i: int| 0 <= i < s.len() && s[i] == b
}

/// Whether `s` begins with the bytes of `p`.
pub open spec fn starts_with(s: Seq<u8>, p: Seq<u8>) -> bool {
    s.len() >= p.len() && s.subrange(0, p.len() as int) == p
}

/// Whether `s` ends with the bytes of `p`.
pub open spec fn ends_with(s: Seq<u8>, p: Seq<u8>) -> bool {
    s.len() >= p.len() && s.subrange(s.len() - p.len(), s.len() as int) == p
}

/// The first index at or after `i` holding `b`, or the length of `s`.
pub open spec fn find_idx(s: Seq<u8>, i: int, b: u8) -> int
    decreases s.len() - i,
{
    if i < 0 || i >= s.len() {
        s.len() as int
    } else if s[i] == b {
        i
    } else {
        find_idx(s, i + 1, b)
    }
}

pub proof fn lemma_find_idx(s: Seq<u8>, i: int, b: u8)
    requires
        0 <= i <= s.len(),
    ensures
        i <= find_idx(s, i, b) <= s.len(),
        forall|k: int| i <= k < find_idx(s, i, b) ==> s[k] != b,
        find_idx(s, i, b) < s.len() ==> s[find_idx(s, i, b)] == b,
    decreases s.len() - i,
{
    if i < s.len() && s[i] != b {
        lemma_find_idx(s, i + 1, b);
    }
}

pub proof fn lemma_find_idx_at(s: Seq<u8>, i: int, b: u8, e: int)
    requires
        0 <= i <= e <= s.len(),
        forall|k: int| i <= k < e ==> s[k] != b,
        e == s.len() || s[e] == b,
    ensures
        find_idx(s, i, b) == e,
    decreases e - i,
{
    if i < e {
        lemma_find_idx_at(s, i + 1, b, e);
    }
}

/// Relies on memchr::memchr: returns the index of the first occurrence of
/// `needle` in `haystack`, or `None` when it does not occur.
#[verifier::external_body]
pub fn find_byte(haystack: &[u8], needle: u8) -> (r: Option<usize>)
    ensures
        match r {
            Some(i) => i < haystack@.len() && haystack@[i as int] == needle
                && forall|j: int| 0 <= j < i ==> haystack@[j] != needle,
            None => !contains_byte(haystack@, needle),
        },
{
    memchr::memchr(needle, haystack)
}

/// Index of the first occurrence of `b` in `s`, or `None`.
pub fn find_byte_in(s: &Vec<u8>, b: u8) -> (r: Option<usize>)
    ensures
        match r {
            Some(i) => i < s@.len() && s@[i as int] == b
                && forall|j: int| 0 <= j < i ==> s@[j] != b,
            None => !contains_byte(s@, b),
        },
{
    find_byte(s.as_slice(), b)
}

/// Index of the first occurrence of `b` in `s` at or after `from`, or
/// `None` when there is none.
pub fn find_byte_from(s: &Vec<u8>, from: usize, b: u8) -> (r: Option<usize>)
    requires
        from <= s@.len(),
    ensures
        match r {
            Some(i) => from <= i < s@.len() && s@[i as int] == b
                && forall|j: int| from <= j < i ==> s@[j] != b,
            None => forall|j: int| from <= j < s@.len() ==> s@[j] != b,
        },
{
    let tail = vstd::slice::slice_subrange(s.as_slice(), from, s.len());
    match find_byte(tail, b) {
        Some(k) => {
            proof {
                assert(tail@[k as int] == s@[from + k]);
                assert forall|j: int| from <= j < from + k implies s@[j] != b by {
                    assert(tail@[j - from] == s@[j]);
                }
            }
            Some(from + k)
        },
        None => {
            proof {
                assert forall|j: int| from <= j < s@.len() implies s@[j] != b by {
                    assert(tail@[j - from] == s@[j]);
                }
            }
            None
        },
    }
}

/// Whether `b` occurs in `s`.
pub fn vec_contains_byte(s: &Vec<u8>, b: u8) -> (r: bool)
    ensures
        r == contains_byte(s@, b),
{
    find_byte_in(s, b).is_some()
}

/// Byte-wise equality of two vectors.
pub fn bytes_eq(a: &Vec<u8>, b: &Vec<u8>) -> (r: bool)
    ensures
        r == (a@ == b@),
{
    if a.len() != b.len() {
        return false;
    }
    let mut i: usize = 0;
    while i < a.len()
        invariant
            i <= a.len(),
            a.len() == b.len(),
            forall|j: int| 0 <= j < i ==> a@[j] == b@[j],
        decreases a.len() - i,
    {
        if a[i] != b[i] {
            return false;
        }
        i += 1;
    }
    proof {
        assert(a@ =~= b@);
    }
    true
}

/// Whether `s` begins with the bytes of `prefix`.
pub fn has_prefix(s: &Vec<u8>, prefix: &[u8]) -> (r: bool)
    ensures
        r == starts_with(s@, prefix@),
{
    if s.len() < prefix.len() {
        assert(!starts_with(s@, prefix@));
        return false;
    }
    let mut i: usize = 0;
    while i < prefix.len()
        invariant
            i <= prefix.len(),
            prefix.len() <= s.len(),
            forall|j: int| 0 <= j < i ==> s@[j] == prefix@[j],
        decreases prefix.len() - i,
    {
        let pb = *vstd::slice::slice_index_get(prefix, i);
        if s[i] != pb {
            assert(s@.subrange(0, prefix@.len() as int)[i as int] != prefix@[i as int]);
            return false;
        }
        i += 1;
    }
    proof {
        assert(s@.subrange(0, prefix@.len() as int) =~= prefix@);
    }
    true
}

/// If `s` begins with `prefix`, the bytes after it; else `None`.
pub fn strip_prefix(s: &Vec<u8>, prefix: &[u8]) -> (r: Option<Vec<u8>>)
    ensures
        match r {
            Some(rest) => starts_with(s@, prefix@)
                && rest@ == s@.subrange(prefix@.len() as int, s@.len() as int),
            None => !starts_with(s@, prefix@),
        },
{
    if !has_prefix(s, prefix) {
        return None;
    }
    let mut rest: Vec<u8> = Vec::new();
    let mut i: usize = prefix.len();
    while i < s.len()
        invariant
            prefix.len() <= i <= s.len(),
            rest@ == s@.subrange(prefix@.len() as int, i as int),
        decreases s.len() - i,
    {
        rest.push(s[i]);
        proof {
            assert(rest@ =~= s@.subrange(prefix@.len() as int, i + 1 as int));
        }
        i += 1;
    }
    Some(rest)
}

/// Copy of a whole vector.
pub fn clone_vec(s: &Vec<u8>) -> (r: Vec<u8>)
    ensures
        r@ == s@,
{
    let r = subvec(s, 0, s.len());
    proof {
        assert(r@ =~= s@);
    }
    r
}

/// Copy of a byte slice as a fresh vector.
pub fn slice_to_vec(s: &[u8]) -> (r: Vec<u8>)
    ensures
        r@ == s@,
{
    let mut out: Vec<u8> = Vec::new();
    let mut i: usize = 0;
    while i < s.len()
        invariant
            i <= s@.len(),
            out@ == s@.subrange(0, i as int),
        decreases s@.len() - i,
    {
        out.push(*vstd::slice::slice_index_get(s, i));
        proof {
            assert(out@ =~= s@.subrange(0, i + 1 as int));
        }
        i += 1;
    }
    proof {
        assert(s@.subrange(0, s@.len() as int) =~= s@);
    }
    out
}

/// Copy of `s[start..end]` as a fresh vector.
pub fn subvec(s: &Vec<u8>, start: usize, end: usize) -> (r: Vec<u8>)
    requires
        start <= end <= s@.len(),
    ensures
        r@ == s@.subrange(start as int, end as int),
{
    let mut out: Vec<u8> = Vec::new();
    let mut i: usize = start;
    while i < end
        invariant
            start <= i <= end <= s@.len(),
            out@ == s@.subrange(start as int, i as int),
        decreases end - i,
    {
        out.push(s[i]);
        proof {
            assert(out@ =~= s@.subrange(start as int, i + 1 as int));
        }
        i += 1;
    }
    out
}

/// Conversion from raw bytes into an owned byte container.
pub trait FromBytes: Sized {
    fn from_bytes(bytes: &Vec<u8>) -> Self;
}

impl FromBytes for Vec<u8> {
    fn from_bytes(bytes: &Vec<u8>) -> Self {
        bytes.clone()
    }
}

} // verus!
