//! Validation of git reference names, following the rules of
//! `git check-ref-format`: slash-separated components, a set of forbidden
//! bytes and sequences, and two independent relaxations (one-level names,
//! refspec patterns with a single `*`).

use vstd::prelude::*;

use crate::bytes::{contains_byte, AT, ASTERISK, BACKSLASH, DOT, LBRACE, SLASH, SP};

verus! {

/// Flags for checking refnames.
#[derive(Clone, Copy, Debug, PartialEq, Eq)]
pub enum RefnameFlag {
    /// One-level refnames are accepted.
    AllowOneLevel,
    /// Interpret the refname as a pattern, which can contain a single
    /// asterisk `*`.
    RefspecPattern,
}

/// A set of [`RefnameFlag`]s.
#[derive(Clone, Copy, Debug, PartialEq, Eq, Structural)]
pub struct RefnameFlags {
    pub allow_onelevel: bool,
    pub refspec_pattern: bool,
}

impl RefnameFlags {
    /// The empty flag set.
    pub fn none() -> (r: RefnameFlags)
        ensures
            !r.allow_onelevel,
            !r.refspec_pattern,
    {
        RefnameFlags { allow_onelevel: false, refspec_pattern: false }
    }

    /// The set holding exactly `flag`.
    pub fn only(flag: RefnameFlag) -> (r: RefnameFlags)
        ensures
            r.allow_onelevel == (flag is AllowOneLevel),
            r.refspec_pattern == (flag is RefspecPattern),
    {
        match flag {
            RefnameFlag::AllowOneLevel => RefnameFlags {
                allow_onelevel: true,
                refspec_pattern: false,
            },
            RefnameFlag::RefspecPattern => RefnameFlags {
                allow_onelevel: false,
                refspec_pattern: true,
            },
        }
    }

    /// This set with `flag` added.
    pub fn with(self, flag: RefnameFlag) -> (r: RefnameFlags)
        ensures
            r.allow_onelevel == (self.allow_onelevel || flag is AllowOneLevel),
            r.refspec_pattern == (self.refspec_pattern || flag is RefspecPattern),
    {
        match flag {
            RefnameFlag::AllowOneLevel => RefnameFlags { allow_onelevel: true, ..self },
            RefnameFlag::RefspecPattern => RefnameFlags { refspec_pattern: true, ..self },
        }
    }

    /// Whether every flag of `self` is also in `other`.
    pub open spec fn le(self, other: RefnameFlags) -> bool {
        (self.allow_onelevel ==> other.allow_onelevel) && (self.refspec_pattern
            ==> other.refspec_pattern)
    }
}

/// A violation of how references are named in git.
#[derive(Clone, Copy, Debug, PartialEq, Eq)]
pub enum RefnameError {
    Empty,
    StartsWithSlash,
    EndsWithSlash,
    SlashSlash,
    OnlyOneLevel,
    ComponentIsDot,
    ComponentStartsWithDot,
    EndsWithDot,
    DotDot,
    Asterisk,
    MultipleAsterisks,
    ControlChar,
    Space,
    Colon,
    Question,
    OpenBracket,
    Backslash,
    Caret,
    Tilde,
    IsAt,
    AtBrace,
    ComponentEndsWithDotLock,
}

/// Bytes that may not appear anywhere in a refname (`*` aside).
pub open spec fn forbidden_refname_byte(b: u8) -> bool {
    b <= 31 || b == 127 || b == SP || b == 58 || b == 63 || b == 91 || b == BACKSLASH || b == 94
        || b == 126
}

/// The number of occurrences of `b` in `s`.
pub open spec fn count_byte(s: Seq<u8>, b: u8) -> int
    decreases s.len(),
{
    if s.len() == 0 {
        0
    } else {
        count_byte(s.drop_last(), b) + if s.last() == b {
            1int
        } else {
            0int
        }
    }
}

/// The bytes of `.lock`.
pub open spec fn lock_suffix() -> Seq<u8> {
    seq![DOT, 108u8, 111u8, 99u8, 107u8]
}

/// Whether position `i` starts a slash-separated component of `s`.
pub open spec fn component_start(s: Seq<u8>, i: int) -> bool {
    0 <= i < s.len() && (i == 0 || s[i - 1] == SLASH)
}

/// Whether position `j` (exclusive) ends a slash-separated component of `s`.
pub open spec fn component_end(s: Seq<u8>, j: int) -> bool {
    0 < j <= s.len() && (j == s.len() || s[j] == SLASH)
}

/// The accept-set of `git check-ref-format` under the given flags.
pub open spec fn refname_valid(s: Seq<u8>, flags: RefnameFlags) -> bool {
    &&& s.len() > 0
    &&& s != seq![AT]
    &&& (forall|i: int| 0 <= i < s.len() ==> !forbidden_refname_byte(#[trigger] s[i]))
    &&& (count_byte(s, ASTERISK) == 0 || (flags.refspec_pattern && count_byte(s, ASTERISK) == 1))
    &&& s[0] != SLASH
    &&& s[s.len() - 1] != SLASH
    &&& (forall|i: int| 0 <= i < s.len() - 1 ==> !(#[trigger] s[i] == SLASH && s[i + 1] == SLASH))
    &&& (forall|i: int| 0 <= i < s.len() - 1 ==> !(#[trigger] s[i] == DOT && s[i + 1] == DOT))
    &&& (forall|i: int| 0 <= i < s.len() - 1 ==> !(#[trigger] s[i] == AT && s[i + 1] == LBRACE))
    &&& s[s.len() - 1] != DOT
    &&& (forall|i: int| component_start(s, i) ==> s[i] != DOT)
    &&& (forall|j: int|
        #[trigger] component_end(s, j) ==> !(j >= 5 && s.subrange(j - 5, j) == lock_suffix()))
    &&& (flags.allow_onelevel || contains_byte(s, SLASH))
}

/// The error raised for a completed non-empty component `s[start..end]`:
/// a leading dot, or a `.lock` suffix.
pub open spec fn component_error(s: Seq<u8>, start: int, end: int) -> Option<RefnameError> {
    if s[start] == DOT {
        if end - start == 1 {
            Some(RefnameError::ComponentIsDot)
        } else {
            Some(RefnameError::ComponentStartsWithDot)
        }
    } else if end - start >= 5 && s.subrange(end - 5, end) == lock_suffix() {
        Some(RefnameError::ComponentEndsWithDotLock)
    } else {
        None
    }
}

/// The first violation found by the left-to-right scan from position `i`,
/// with the scan's carried state: the start of the current component, the
/// number of completed components, whether one more `*` is allowed, and the
/// previous byte of the component (0 at its start).
pub open spec fn scan_refname(
    s: Seq<u8>,
    flags: RefnameFlags,
    i: int,
    comp_start: int,
    count: int,
    allow_ast: bool,
    last: u8,
) -> Option<RefnameError>
    decreases s.len() - i,
    when 0 <= i <= s.len()
{
    if i >= s.len() {
        if comp_start == i {
            if s.len() == 0 {
                Some(RefnameError::Empty)
            } else {
                Some(RefnameError::EndsWithSlash)
            }
        } else {
            match component_error(s, comp_start, i) {
                Some(e) => Some(e),
                None => if s[s.len() - 1] == DOT {
                    Some(RefnameError::EndsWithDot)
                } else if !flags.allow_onelevel && count < 1 {
                    Some(RefnameError::OnlyOneLevel)
                } else {
                    None
                },
            }
        }
    } else {
        let b = s[i];
        if b <= 31 || b == 127 {
            Some(RefnameError::ControlChar)
        } else if b == SP {
            Some(RefnameError::Space)
        } else if b == 58 {
            Some(RefnameError::Colon)
        } else if b == 63 {
            Some(RefnameError::Question)
        } else if b == 91 {
            Some(RefnameError::OpenBracket)
        } else if b == BACKSLASH {
            Some(RefnameError::Backslash)
        } else if b == 94 {
            Some(RefnameError::Caret)
        } else if b == 126 {
            Some(RefnameError::Tilde)
        } else if b == ASTERISK && !allow_ast {
            if flags.refspec_pattern {
                Some(RefnameError::MultipleAsterisks)
            } else {
                Some(RefnameError::Asterisk)
            }
        } else if b == DOT && last == DOT {
            Some(RefnameError::DotDot)
        } else if b == LBRACE && last == AT {
            Some(RefnameError::AtBrace)
        } else if b == SLASH {
            if i == comp_start {
                if count == 0 {
                    Some(RefnameError::StartsWithSlash)
                } else {
                    Some(RefnameError::SlashSlash)
                }
            } else {
                match component_error(s, comp_start, i) {
                    Some(e) => Some(e),
                    None => scan_refname(s, flags, i + 1, i + 1, count + 1, allow_ast, 0),
                }
            }
        } else if b == ASTERISK {
            scan_refname(s, flags, i + 1, comp_start, count, false, b)
        } else {
            scan_refname(s, flags, i + 1, comp_start, count, allow_ast, b)
        }
    }
}

/// The exact result of `git check-ref-format`: the lone `@` is rejected
/// outright, else the first violation of the scan decides the error.
pub open spec fn check_format_spec(s: Seq<u8>, flags: RefnameFlags) -> Result<(), RefnameError> {
    if s == seq![AT] {
        Err(RefnameError::IsAt)
    } else {
        match scan_refname(s, flags, 0, 0, 0, flags.refspec_pattern, 0) {
            Some(e) => Err(e),
            None => Ok(()),
        }
    }
}

proof fn lemma_count_byte_step(s: Seq<u8>, b: u8, i: int)
    requires
        0 <= i < s.len(),
    ensures
        count_byte(s.subrange(0, i + 1), b) == count_byte(s.subrange(0, i), b) + if s[i] == b {
            1int
        } else {
            0int
        },
{
    let t = s.subrange(0, i + 1);
    assert(t.drop_last() =~= s.subrange(0, i));
    assert(t.last() == s[i]);
}

proof fn lemma_count_byte_skip(s: Seq<u8>, b: u8, i: int, j: int)
    requires
        0 <= i <= j <= s.len(),
        forall|k: int| i <= k < j ==> s[k] != b,
    ensures
        count_byte(s.subrange(0, j), b) == count_byte(s.subrange(0, i), b),
    decreases j - i,
{
    if i < j {
        lemma_count_byte_skip(s, b, i, j - 1);
        lemma_count_byte_step(s, b, j - 1);
    }
}

proof fn lemma_count_byte_mono(s: Seq<u8>, b: u8, i: int)
    requires
        0 <= i <= s.len(),
    ensures
        count_byte(s, b) >= count_byte(s.subrange(0, i), b),
    decreases s.len() - i,
{
    if i < s.len() {
        lemma_count_byte_step(s, b, i);
        lemma_count_byte_mono(s, b, i + 1);
    } else {
        assert(s.subrange(0, s.len() as int) =~= s);
    }
}

proof fn lemma_count_byte_zero(s: Seq<u8>, b: u8)
    ensures
        (count_byte(s, b) == 0) <==> !contains_byte(s, b),
    decreases s.len(),
{
    if s.len() > 0 {
        lemma_count_byte_zero(s.drop_last(), b);
        assert(count_byte(s.drop_last(), b) >= 0) by {
            lemma_count_byte_nonneg(s.drop_last(), b);
        }
        if s.last() == b {
            assert(contains_byte(s, b));
        } else {
            if contains_byte(s, b) {
                let i = choose|i: int| 0 <= i < s.len() && s[i] == b;
                assert(i < s.len() - 1);
                assert(s.drop_last()[i] == b);
                assert(contains_byte(s.drop_last(), b));
            }
            if contains_byte(s.drop_last(), b) {
                let i = choose|i: int| 0 <= i < s.drop_last().len() && s.drop_last()[i] == b;
                assert(s[i] == b);
                assert(contains_byte(s, b));
            }
        }
    }
}

proof fn lemma_count_byte_nonneg(s: Seq<u8>, b: u8)
    ensures
        count_byte(s, b) >= 0,
    decreases s.len(),
{
    if s.len() > 0 {
        lemma_count_byte_nonneg(s.drop_last(), b);
    }
}

/// The checks applied to a completed component `s[start..end]` after its
/// bytes were scanned: it may not begin with a dot and may not end with
/// `.lock`.
fn end_component_checks(s: &Vec<u8>, start: usize, end: usize) -> (r: Result<(), RefnameError>)
    requires
        start < end <= s@.len(),
    ensures
        r == match component_error(s@, start as int, end as int) {
            Some(e) => Err::<(), RefnameError>(e),
            None => Ok::<(), RefnameError>(()),
        },
        match r {
            Ok(()) => s@[start as int] != DOT && !(end - start >= 5 && s@.subrange(
                end - 5,
                end as int,
            ) == lock_suffix()),
            Err(e) => s@[start as int] == DOT || (end - start >= 5 && s@.subrange(
                end - 5,
                end as int,
            ) == lock_suffix()),
        },
{
    if s[start] == DOT {
        if end - start == 1 {
            return Err(RefnameError::ComponentIsDot);
        } else {
            return Err(RefnameError::ComponentStartsWithDot);
        }
    }
    if end - start >= 5 && s[end - 5] == DOT && s[end - 4] == 108 && s[end - 3] == 111 && s[end
        - 2] == 99 && s[end - 1] == 107 {
        proof {
            assert(s@.subrange(end - 5, end as int) =~= lock_suffix());
        }
        return Err(RefnameError::ComponentEndsWithDotLock);
    }
    proof {
        if end - start >= 5 && s@.subrange(end - 5, end as int) == lock_suffix() {
            assert(s@[end - 5] == lock_suffix()[0]);
            assert(s@[end - 4] == lock_suffix()[1]);
            assert(s@[end - 3] == lock_suffix()[2]);
            assert(s@[end - 2] == lock_suffix()[3]);
            assert(s@[end - 1] == lock_suffix()[4]);
        }
    }
    Ok(())
}

/// A git reference name, known to be well-formed.
pub struct Refname {
    refname: Vec<u8>,
}

impl Refname {
    /// The name's bytes are valid for the most permissive flag set; by
    /// monotonicity this follows from validity under any flags.
    pub closed spec fn wf(&self) -> bool {
        refname_valid(
            self.refname@,
            RefnameFlags { allow_onelevel: true, refspec_pattern: true },
        )
    }

    pub closed spec fn view(&self) -> Seq<u8> {
        self.refname@
    }

    /// Creates a new `Refname`, checking that it has a valid format under
    /// `flags`.
    pub fn new(refname: &Vec<u8>, flags: RefnameFlags) -> (r: Result<Refname, RefnameError>)
        ensures
            match r {
                Ok(name) => refname_valid(refname@, flags) && name@ == refname@ && name.wf(),
                Err(e) => !refname_valid(refname@, flags) && check_format_spec(refname@, flags)
                    == Err::<(), RefnameError>(e),
            },
    {
        match Refname::check_format(refname, flags) {
            Ok(()) => {
                proof {
                    lemma_refname_valid_monotone(
                        refname@,
                        flags,
                        RefnameFlags { allow_onelevel: true, refspec_pattern: true },
                    );
                }
                Ok(Refname { refname: crate::bytes::subvec(refname, 0, refname.len()) })
            },
            Err(e) => Err(e),
        }
    }

    /// The name's bytes.
    pub fn as_bytes(&self) -> (r: &Vec<u8>)
        ensures
            r@ == self@,
    {
        &self.refname
    }

    /// Checks that the refname has a valid format according to the rules of
    /// `git check-ref-format`: it is accepted exactly when it lies in the
    /// accept-set [`refname_valid`] for `flags`.
    #[verifier::rlimit(100)]
    pub fn check_format(refname: &Vec<u8>, flags: RefnameFlags) -> (r: Result<(), RefnameError>)
        ensures
            r == check_format_spec(refname@, flags),
            r is Ok <==> refname_valid(refname@, flags),
    {
        let n = refname.len();
        let ghost sv = refname@;
        if n == 1 && refname[0] == AT {
            proof {
                assert(sv =~= seq![AT]);
            }
            return Err(RefnameError::IsAt);
        }
        proof {
            if sv == seq![AT] {
                assert(sv.len() == 1 && sv[0] == AT);
            }
        }

        let mut i: usize = 0;
        let mut comp_start: usize = 0;
        let mut count: usize = 0;
        let mut last: u8 = 0;
        let mut allow_ast: bool = flags.refspec_pattern;

        while i < n
            invariant
                n == sv.len(),
                sv == refname@,
                sv != seq![AT],
                scan_refname(
                    sv,
                    flags,
                    i as int,
                    comp_start as int,
                    count as int,
                    allow_ast,
                    last,
                ) == scan_refname(sv, flags, 0, 0, 0, flags.refspec_pattern, 0),
                0 <= comp_start <= i <= n,
                count <= i,
                comp_start == 0 || sv[comp_start - 1] == SLASH,
                i > 0 ==> sv[0] != SLASH,
                forall|k: int| comp_start <= k < i ==> sv[k] != SLASH,
                last == if i > comp_start {
                    sv[i - 1]
                } else {
                    0u8
                },
                forall|k: int| 0 <= k < i ==> !forbidden_refname_byte(#[trigger] sv[k]),
                forall|k: int| 0 <= k < i - 1 ==> !(#[trigger] sv[k] == SLASH && sv[k + 1] == SLASH),
                forall|k: int| 0 <= k < i - 1 ==> !(#[trigger] sv[k] == DOT && sv[k + 1] == DOT),
                forall|k: int| 0 <= k < i - 1 ==> !(#[trigger] sv[k] == AT && sv[k + 1] == LBRACE),
                forall|k: int| 0 <= k < comp_start && component_start(sv, k) ==> sv[k] != DOT,
                forall|j: int|
                    0 <= j < comp_start && sv[j] == SLASH ==> !(j >= 5 && sv.subrange(j - 5, j)
                        == lock_suffix()),
                flags.refspec_pattern ==> (allow_ast <==> count_byte(
                    sv.subrange(0, i as int),
                    ASTERISK,
                ) == 0),
                flags.refspec_pattern ==> count_byte(sv.subrange(0, i as int), ASTERISK) <= 1,
                !flags.refspec_pattern ==> count_byte(sv.subrange(0, i as int), ASTERISK) == 0
                    && !allow_ast,
                count == count_byte(sv.subrange(0, comp_start as int), SLASH),
            decreases n - i,
        {
            let b = refname[i];
            proof {
                lemma_count_byte_step(sv, ASTERISK, i as int);
            }
            proof {
                if forbidden_refname_byte(sv[i as int]) {
                    assert(!refname_valid(sv, flags));
                }
            }
            if b <= 31 || b == 127 {
                return Err(RefnameError::ControlChar);
            }
            if b == SP {
                return Err(RefnameError::Space);
            }
            if b == 58 {
                return Err(RefnameError::Colon);
            }
            if b == 63 {
                return Err(RefnameError::Question);
            }
            if b == 91 {
                return Err(RefnameError::OpenBracket);
            }
            if b == BACKSLASH {
                return Err(RefnameError::Backslash);
            }
            if b == 94 {
                return Err(RefnameError::Caret);
            }
            if b == 126 {
                return Err(RefnameError::Tilde);
            }
            if b == ASTERISK {
                if allow_ast {
                    allow_ast = false;
                } else if flags.refspec_pattern {
                    proof {
                        lemma_count_byte_nonneg(sv.subrange(0, i as int), ASTERISK);
                        lemma_count_byte_mono(sv, ASTERISK, i + 1);
                        assert(count_byte(sv, ASTERISK) >= 2);
                    }
                    return Err(RefnameError::MultipleAsterisks);
                } else {
                    proof {
                        lemma_count_byte_mono(sv, ASTERISK, i + 1);
                        assert(count_byte(sv, ASTERISK) >= 1);
                    }
                    return Err(RefnameError::Asterisk);
                }
            }
            if b == DOT && last == DOT {
                assert(sv[i - 1] == DOT && sv[i as int] == DOT);
                assert(!refname_valid(sv, flags));
                return Err(RefnameError::DotDot);
            }
            if b == LBRACE && last == AT {
                assert(sv[i - 1] == AT && sv[i as int] == LBRACE);
                assert(!refname_valid(sv, flags));
                return Err(RefnameError::AtBrace);
            }
            if b == SLASH {
                if i == comp_start {
                    if count == 0 {
                        proof {
                            if comp_start > 0 {
                                lemma_count_byte_nonneg(
                                    sv.subrange(0, comp_start - 1),
                                    SLASH,
                                );
                                lemma_count_byte_step(sv, SLASH, comp_start - 1);
                                assert(count_byte(sv.subrange(0, comp_start as int), SLASH) >= 1);
                            }
                        }
                        assert(comp_start == 0);
                        assert(sv[0] == SLASH);
                        assert(!refname_valid(sv, flags));
                        return Err(RefnameError::StartsWithSlash);
                    } else {
                        assert(comp_start > 0 && sv[comp_start - 1] == SLASH && sv[comp_start as int]
                            == SLASH);
                        assert(!refname_valid(sv, flags));
                        return Err(RefnameError::SlashSlash);
                    }
                }
                match end_component_checks(refname, comp_start, i) {
                    Ok(()) => {},
                    Err(e) => {
                        proof {
                            if sv[comp_start as int] == DOT {
                                assert(component_start(sv, comp_start as int));
                                assert(!refname_valid(sv, flags));
                            } else {
                                assert(component_end(sv, i as int));
                                assert(!refname_valid(sv, flags));
                            }
                        }
                        return Err(e);
                    },
                }
                proof {
                    lemma_count_byte_skip(sv, SLASH, comp_start as int, i as int);
                    lemma_count_byte_step(sv, SLASH, i as int);
                    lemma_count_byte_nonneg(sv.subrange(0, i as int), SLASH);
                }
                count = count + 1;
                comp_start = i + 1;
                last = 0;
            } else {
                last = b;
            }
            i += 1;
        }

        proof {
            assert(sv.subrange(0, n as int) =~= sv);
        }

        if comp_start == n {
            if n == 0 {
                assert(!refname_valid(sv, flags));
                return Err(RefnameError::Empty);
            } else {
                assert(sv[n - 1] == SLASH);
                assert(!refname_valid(sv, flags));
                return Err(RefnameError::EndsWithSlash);
            }
        }
        match end_component_checks(refname, comp_start, n) {
            Ok(()) => {},
            Err(e) => {
                proof {
                    if sv[comp_start as int] == DOT {
                        assert(component_start(sv, comp_start as int));
                        assert(!refname_valid(sv, flags));
                    } else {
                        assert(component_end(sv, n as int));
                        assert(!refname_valid(sv, flags));
                    }
                }
                return Err(e);
            },
        }
        if refname[n - 1] == DOT {
            assert(!refname_valid(sv, flags));
            return Err(RefnameError::EndsWithDot);
        }
        proof {
            lemma_count_byte_skip(sv, SLASH, comp_start as int, n as int);
            lemma_count_byte_zero(sv, SLASH);
            lemma_count_byte_nonneg(sv.subrange(0, comp_start as int), SLASH);
        }
        if !flags.allow_onelevel && count < 1 {
            assert(!contains_byte(sv, SLASH));
            assert(!refname_valid(sv, flags));
            return Err(RefnameError::OnlyOneLevel);
        }

        proof {
            assert forall|k: int| component_start(sv, k) implies sv[k] != DOT by {
                if k > comp_start {
                    assert(sv[k - 1] != SLASH);
                    assert(false);
                } else if k < comp_start {
                } else {
                    assert(sv[comp_start as int] != DOT);
                }
            }
            assert forall|j: int| #[trigger] component_end(sv, j) implies !(j >= 5 && sv.subrange(
                j - 5,
                j,
            ) == lock_suffix()) by {
                if j >= 5 && sv.subrange(j - 5, j) == lock_suffix() {
                    if j < n {
                        assert(sv[j] == SLASH);
                        assert(j < comp_start || j >= comp_start);
                        assert(j < comp_start);
                        assert(false);
                    } else {
                        // j == n: the final component check rules this out
                        // unless the suffix would cross the last slash, which
                        // is impossible because `.lock` contains no slash.
                        if n - comp_start >= 5 {
                            assert(false);
                        } else {
                            assert(comp_start >= 1);
                            assert(n - 5 <= comp_start - 1 < n);
                            assert(sv[comp_start - 1] == SLASH);
                            assert(sv.subrange(j - 5, j)[comp_start - 1 - (n - 5)] == SLASH);
                            assert(false);
                        }
                    }
                }
            }
            if !flags.allow_onelevel {
                assert(count >= 1);
                assert(count_byte(sv, SLASH) >= 1);
                assert(contains_byte(sv, SLASH));
            }
            lemma_count_byte_nonneg(sv, ASTERISK);
            assert(count_byte(sv, ASTERISK) == 0 || (flags.refspec_pattern && count_byte(
                sv,
                ASTERISK,
            ) == 1));
            assert(sv[n - 1] != SLASH);
            assert(refname_valid(sv, flags));
        }
        Ok(())
    }
}

/// Monotonicity of the accept-set in the flags: a refname accepted under a
/// flag set is accepted under every larger flag set.
pub proof fn lemma_refname_valid_monotone(s: Seq<u8>, f: RefnameFlags, g: RefnameFlags)
    requires
        refname_valid(s, f),
        f.le(g),
    ensures
        refname_valid(s, g),
{
}


impl RefnameError {
    /// The stable human-readable message naming the violated rule.
    pub fn message(&self) -> String {
        match self {
            RefnameError::Empty => "refname is empty".to_string(),
            RefnameError::StartsWithSlash => "refname starts with slash '/'".to_string(),
            RefnameError::EndsWithSlash => "refname ends with slash '/'".to_string(),
            RefnameError::SlashSlash => "refname contains consecutive slashes '//'".to_string(),
            RefnameError::OnlyOneLevel => {
                "refname has only one level (must contain slash '/')".to_string()
            },
            RefnameError::ComponentIsDot => "refname component is dot '.'".to_string(),
            RefnameError::ComponentStartsWithDot => {
                "refname component starts with dot '.'".to_string()
            },
            RefnameError::EndsWithDot => "refname ends with dot '.'".to_string(),
            RefnameError::DotDot => "refname contains consecutive dots '..'".to_string(),
            RefnameError::Asterisk => "refname contains asterisk '*'".to_string(),
            RefnameError::MultipleAsterisks => {
                "refname pattern contains multiple asterisks '*'".to_string()
            },
            RefnameError::ControlChar => "refname contains ASCII control character".to_string(),
            RefnameError::Space => "refname contains space ' '".to_string(),
            RefnameError::Colon => "refname contains colon ':'".to_string(),
            RefnameError::Question => "refname contains question mark '?'".to_string(),
            RefnameError::OpenBracket => "refname contains open bracket '['".to_string(),
            RefnameError::Backslash => "refname contains backslash".to_string(),
            RefnameError::Caret => "refname contains caret '^'".to_string(),
            RefnameError::Tilde => "refname contains tilde '~'".to_string(),
            RefnameError::IsAt => "refname is the single character '@'".to_string(),
            RefnameError::AtBrace => "refname contains the sequence '@{'".to_string(),
            RefnameError::ComponentEndsWithDotLock => {
                "refname component ends with the sequence '.lock'".to_string()
            },
        }
    }
}


} // verus!
