//! C-style string unquoting, as used for quoted paths in commit file changes
//! and `ls` directives: a `"..."` literal with the escapes
//! `\a \b \f \n \r \t \v \\ \"` and three-digit octal escapes whose leading
//! digit is `0..=3`.

use vstd::prelude::*;

use crate::bytes::{BACKSLASH, DQUOTE};

verus! {

/// An error from unquoting a C-style string literal.
#[derive(Clone, Copy, Debug, PartialEq, Eq, Hash)]
pub enum ParseStringError {
    /// The closing `"` is missing.
    Unterminated,
    /// An escape sequence other than the recognized ones.
    InvalidEscape,
    /// An octal escape whose second or third digit is not in `0..=7`.
    InvalidOctalDigit,
    /// An octal escape whose leading digit is `4..=7`, which would exceed one
    /// byte.
    OctalOverflow,
}

/// The byte denoted by the single-character escape `\c`, if `c` is one.
pub open spec fn escape_value(c: u8) -> Option<u8> {
    if c == 97 {
        Some(7u8)  // \a
    } else if c == 98 {
        Some(8u8)  // \b
    } else if c == 102 {
        Some(12u8)  // \f
    } else if c == 110 {
        Some(10u8)  // \n
    } else if c == 114 {
        Some(13u8)  // \r
    } else if c == 116 {
        Some(9u8)  // \t
    } else if c == 118 {
        Some(11u8)  // \v
    } else if c == BACKSLASH || c == DQUOTE {
        Some(c)
    } else {
        None
    }
}

/// What unquoting yields from position `i` of `s`, with `acc` the bytes
/// already produced: the unquoted bytes and the input after the closing `"`.
pub open spec fn unquote_rec(s: Seq<u8>, i: int, acc: Seq<u8>) -> Result<
    (Seq<u8>, Seq<u8>),
    ParseStringError,
>
    decreases s.len() - i,
{
    if i < 0 || i >= s.len() {
        Err(ParseStringError::Unterminated)
    } else if s[i] == DQUOTE {
        Ok((acc, s.subrange(i + 1, s.len() as int)))
    } else if s[i] == BACKSLASH {
        if i + 1 >= s.len() {
            Err(ParseStringError::Unterminated)
        } else {
            let c = s[i + 1];
            if escape_value(c) is Some {
                unquote_rec(s, i + 2, acc.push(escape_value(c)->Some_0))
            } else if 48 <= c <= 51 {
                if i + 3 >= s.len() {
                    Err(ParseStringError::Unterminated)
                } else {
                    let o2 = s[i + 2];
                    let o3 = s[i + 3];
                    if 48 <= o2 <= 55 && 48 <= o3 <= 55 {
                        unquote_rec(
                            s,
                            i + 4,
                            acc.push(((c - 48) * 64 + (o2 - 48) * 8 + (o3 - 48)) as u8),
                        )
                    } else {
                        Err(ParseStringError::InvalidOctalDigit)
                    }
                }
            } else if 52 <= c <= 55 {
                Err(ParseStringError::OctalOverflow)
            } else {
                Err(ParseStringError::InvalidEscape)
            }
        }
    } else {
        unquote_rec(s, i + 1, acc.push(s[i]))
    }
}

/// What unquoting the literal `s` (which must start with `"`) yields.
pub open spec fn unquote_spec(s: Seq<u8>) -> Result<(Seq<u8>, Seq<u8>), ParseStringError> {
    unquote_rec(s, 1, Seq::empty())
}

/// The byte denoted by the single-character escape `\c`, if `c` is one.
fn escape_byte(c: u8) -> (r: Option<u8>)
    ensures
        r == escape_value(c),
{
    if c == 97 {
        Some(7)
    } else if c == 98 {
        Some(8)
    } else if c == 102 {
        Some(12)
    } else if c == 110 {
        Some(10)
    } else if c == 114 {
        Some(13)
    } else if c == 116 {
        Some(9)
    } else if c == 118 {
        Some(11)
    } else if c == BACKSLASH || c == DQUOTE {
        Some(c)
    } else {
        None
    }
}

/// Unquotes a C-style string literal. Returns the string with escape
/// sequences translated, and the remainder of the input after the closing
/// quote.
pub fn unquote_c_style_string(s: &Vec<u8>) -> (r: Result<
    (Vec<u8>, Vec<u8>),
    ParseStringError,
>)
    requires
        s@.len() > 0,
        s@[0] == DQUOTE,
    ensures
        match r {
            Ok((u, rest)) => unquote_spec(s@) == Ok::<_, ParseStringError>((u@, rest@)),
            Err(e) => unquote_spec(s@) == Err::<(Seq<u8>, Seq<u8>), _>(e),
        },
{
    let mut acc: Vec<u8> = Vec::new();
    let mut i: usize = 1;
    while i < s.len()
        invariant
            1 <= i,
            s@.len() > 0,
            unquote_spec(s@) == unquote_rec(s@, i as int, acc@),
        decreases s.len() - i,
    {
        let b = s[i];
        if b == DQUOTE {
            let rest = crate::bytes::subvec(s, i + 1, s.len());
            return Ok((acc, rest));
        } else if b == BACKSLASH {
            if i + 1 >= s.len() {
                return Err(ParseStringError::Unterminated);
            }
            let c = s[i + 1];
            match escape_byte(c) {
                Some(m) => {
                    acc.push(m);
                    i += 2;
                },
                None => {
                    if 48 <= c && c <= 51 {
                        if s.len() - i < 4 {
                            return Err(ParseStringError::Unterminated);
                        }
                        let o2 = s[i + 2];
                        let o3 = s[i + 3];
                        if 48 <= o2 && o2 <= 55 && 48 <= o3 && o3 <= 55 {
                            acc.push((c - 48) * 64 + (o2 - 48) * 8 + (o3 - 48));
                            i += 4;
                        } else {
                            return Err(ParseStringError::InvalidOctalDigit);
                        }
                    } else if 52 <= c && c <= 55 {
                        return Err(ParseStringError::OctalOverflow);
                    } else {
                        return Err(ParseStringError::InvalidEscape);
                    }
                },
            }
        } else {
            acc.push(b);
            i += 1;
        }
    }
    Err(ParseStringError::Unterminated)
}

/// Unquoting a quoted string with no `"` or `\` bytes inside yields exactly
/// those bytes, with nothing left over.
pub proof fn lemma_unquote_plain(s: Seq<u8>)
    requires
        forall|i: int| 0 <= i < s.len() ==> #[trigger] s[i] != DQUOTE && s[i] != BACKSLASH,
    ensures
        unquote_spec(seq![DQUOTE] + s + seq![DQUOTE]) == Ok::<_, ParseStringError>(
            (s, Seq::<u8>::empty()),
        ),
{
    lemma_unquote_plain_rec(s, 0, Seq::empty());
    assert(Seq::<u8>::empty() + s.subrange(0, s.len() as int) =~= s);
}

proof fn lemma_unquote_plain_rec(s: Seq<u8>, k: int, acc: Seq<u8>)
    requires
        0 <= k <= s.len(),
        forall|i: int| 0 <= i < s.len() ==> #[trigger] s[i] != DQUOTE && s[i] != BACKSLASH,
    ensures
        unquote_rec(seq![DQUOTE] + s + seq![DQUOTE], k + 1, acc) == Ok::<_, ParseStringError>(
            (acc + s.subrange(k, s.len() as int), Seq::<u8>::empty()),
        ),
    decreases s.len() - k,
{
    let q = seq![DQUOTE] + s + seq![DQUOTE];
    assert(q.len() == s.len() + 2);
    if k == s.len() {
        assert(q[k + 1] == DQUOTE);
        assert(q.subrange(k + 2, q.len() as int) =~= Seq::<u8>::empty());
        assert(acc + s.subrange(k, s.len() as int) =~= acc);
    } else {
        assert(q[k + 1] == s[k]);
        lemma_unquote_plain_rec(s, k + 1, acc.push(s[k]));
        assert(acc.push(s[k]) + s.subrange(k + 1, s.len() as int) =~= acc + s.subrange(
            k,
            s.len() as int,
        ));
    }
}

/// Unquoting the two-character escape form of a quotable byte yields that
/// byte: `unquote("\"\\c\"") == (escape_value(c), "")`.
pub proof fn lemma_unquote_escape(c: u8)
    requires
        escape_value(c) is Some,
    ensures
        unquote_spec(seq![DQUOTE, BACKSLASH, c, DQUOTE]) == Ok::<_, ParseStringError>(
            (seq![escape_value(c)->Some_0], Seq::<u8>::empty()),
        ),
{
    let q = seq![DQUOTE, BACKSLASH, c, DQUOTE];
    let acc1 = Seq::<u8>::empty().push(escape_value(c)->Some_0);
    assert(unquote_rec(q, 1, Seq::empty()) == unquote_rec(q, 3, acc1));
    assert(q[3] == DQUOTE);
    assert(q.subrange(4, 4) =~= Seq::<u8>::empty());
    assert(acc1 =~= seq![escape_value(c)->Some_0]);
}

/// Unquoting the three-digit octal escape of any byte yields that byte:
/// for every byte `b`, `unquote("\"\\" + octal(b) + "\"") == (b, "")`.
pub proof fn lemma_unquote_octal(b: u8)
    ensures
        unquote_spec(
            seq![
                DQUOTE,
                BACKSLASH,
                (48 + b / 64) as u8,
                (48 + (b / 8) % 8) as u8,
                (48 + b % 8) as u8,
                DQUOTE,
            ],
        ) == Ok::<_, ParseStringError>((seq![b], Seq::<u8>::empty())),
{
    let d1 = (48 + b / 64) as u8;
    let d2 = (48 + (b / 8) % 8) as u8;
    let d3 = (48 + b % 8) as u8;
    let q = seq![DQUOTE, BACKSLASH, d1, d2, d3, DQUOTE];
    assert(48 <= d1 <= 51);
    assert(48 <= d2 <= 55);
    assert(48 <= d3 <= 55);
    assert(escape_value(d1) is None);
    assert((d1 - 48) * 64 + (d2 - 48) * 8 + (d3 - 48) == b) by (nonlinear_arith)
        requires
            d1 == 48 + b / 64,
            d2 == 48 + (b / 8) % 8,
            d3 == 48 + b % 8,
    ;
    let acc1 = Seq::<u8>::empty().push(((d1 - 48) * 64 + (d2 - 48) * 8 + (d3 - 48)) as u8);
    assert(unquote_rec(q, 1, Seq::empty()) == unquote_rec(q, 5, acc1));
    assert(q[5] == DQUOTE);
    assert(q.subrange(6, 6) =~= Seq::<u8>::empty());
    assert(acc1 =~= seq![b]);
}


impl ParseStringError {
    /// The stable human-readable message naming the violated contract.
    pub fn message(&self) -> String {
        match self {
            ParseStringError::Unterminated => "string not terminated".to_string(),
            ParseStringError::InvalidEscape => "invalid escape sequence".to_string(),
            ParseStringError::InvalidOctalDigit => {
                "invalid digit in octal escape sequence".to_string()
            },
            ParseStringError::OctalOverflow => "octal escape sequence overflows".to_string(),
        }
    }
}


} // verus!
