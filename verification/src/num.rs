//! Integer grammar of the wire format: decimal and octal parsing, and the
//! decimal rendering the emitters use, with the round-trip between them.

use vstd::prelude::*;

use crate::bytes::DIGIT0;

verus! {

pub open spec fn is_dec_digit(b: u8) -> bool {
    48 <= b <= 57
}

pub open spec fn is_oct_digit(b: u8) -> bool {
    48 <= b <= 55
}

pub open spec fn all_dec_digits(s: Seq<u8>) -> bool {
    forall|i: int| 0 <= i < s.len() ==> is_dec_digit(#[trigger] s[i])
}

pub open spec fn all_oct_digits(s: Seq<u8>) -> bool {
    forall|i: int| 0 <= i < s.len() ==> is_oct_digit(#[trigger] s[i])
}

/// The value of `s` read as a big-endian decimal numeral.
pub open spec fn dec_value(s: Seq<u8>) -> int
    decreases s.len(),
{
    if s.len() == 0 {
        0
    } else {
        dec_value(s.drop_last()) * 10 + (s.last() - DIGIT0)
    }
}

/// The value of `s` read as a big-endian octal numeral.
pub open spec fn oct_value(s: Seq<u8>) -> int
    decreases s.len(),
{
    if s.len() == 0 {
        0
    } else {
        oct_value(s.drop_last()) * 8 + (s.last() - DIGIT0)
    }
}

/// The canonical decimal numeral for `n`: no sign, no leading zeros.
pub open spec fn dec_repr(n: int) -> Seq<u8>
    decreases n,
{
    if n < 10 {
        seq![(DIGIT0 + if n >= 0 { n } else { 0 }) as u8]
    } else {
        dec_repr(n / 10).push((DIGIT0 + n % 10) as u8)
    }
}

/// Whether `s` is a numeral that `parse_u64` accepts with value `v`.
pub open spec fn dec_parses_to(s: Seq<u8>, v: int) -> bool {
    s.len() > 0 && all_dec_digits(s) && dec_value(s) == v && 0 <= v <= u64::MAX
}

proof fn lemma_dec_value_nonneg(s: Seq<u8>)
    requires
        all_dec_digits(s),
    ensures
        dec_value(s) >= 0,
    decreases s.len(),
{
    if s.len() > 0 {
        assert(all_dec_digits(s.drop_last())) by {
            assert(forall|i: int| 0 <= i < s.len() - 1 ==> s.drop_last()[i] == #[trigger] s[i]);
        }
        lemma_dec_value_nonneg(s.drop_last());
    }
}

proof fn lemma_oct_value_nonneg(s: Seq<u8>)
    requires
        all_oct_digits(s),
    ensures
        oct_value(s) >= 0,
    decreases s.len(),
{
    if s.len() > 0 {
        assert(all_oct_digits(s.drop_last())) by {
            assert(forall|i: int| 0 <= i < s.len() - 1 ==> s.drop_last()[i] == #[trigger] s[i]);
        }
        lemma_oct_value_nonneg(s.drop_last());
    }
}

/// Appending digits to a digit string never decreases its value.
proof fn lemma_dec_value_extend_ge(s: Seq<u8>, i: int)
    requires
        all_dec_digits(s),
        0 <= i <= s.len(),
    ensures
        dec_value(s) >= dec_value(s.subrange(0, i)),
    decreases s.len() - i,
{
    if i < s.len() {
        let t = s.subrange(0, i + 1);
        assert(t.drop_last() =~= s.subrange(0, i));
        assert(dec_value(t) == dec_value(s.subrange(0, i)) * 10 + (s[i] - DIGIT0));
        assert(all_dec_digits(s.subrange(0, i)));
        lemma_dec_value_nonneg(s.subrange(0, i));
        assert(dec_value(t) >= dec_value(s.subrange(0, i))) by (nonlinear_arith)
            requires
                dec_value(t) == dec_value(s.subrange(0, i)) * 10 + (s[i] - DIGIT0),
                dec_value(s.subrange(0, i)) >= 0,
                s[i] >= DIGIT0,
        ;
        lemma_dec_value_extend_ge(s, i + 1);
        assert(s.subrange(0, s.len() as int) =~= s);
    } else {
        assert(s.subrange(0, s.len() as int) =~= s);
    }
}

proof fn lemma_oct_value_extend_ge(s: Seq<u8>, i: int)
    requires
        all_oct_digits(s),
        0 <= i <= s.len(),
    ensures
        oct_value(s) >= oct_value(s.subrange(0, i)),
    decreases s.len() - i,
{
    if i < s.len() {
        let t = s.subrange(0, i + 1);
        assert(t.drop_last() =~= s.subrange(0, i));
        assert(oct_value(t) == oct_value(s.subrange(0, i)) * 8 + (s[i] - DIGIT0));
        assert(all_oct_digits(s.subrange(0, i)));
        lemma_oct_value_nonneg(s.subrange(0, i));
        assert(oct_value(t) >= oct_value(s.subrange(0, i))) by (nonlinear_arith)
            requires
                oct_value(t) == oct_value(s.subrange(0, i)) * 8 + (s[i] - DIGIT0),
                oct_value(s.subrange(0, i)) >= 0,
                s[i] >= DIGIT0,
        ;
        lemma_oct_value_extend_ge(s, i + 1);
        assert(s.subrange(0, s.len() as int) =~= s);
    } else {
        assert(s.subrange(0, s.len() as int) =~= s);
    }
}

/// Parses an unsigned decimal numeral. Accepts exactly the strings of one or
/// more ASCII digits whose value fits in a `u64`; in particular a leading `+`
/// or `-` is rejected.
pub fn parse_u64(s: &Vec<u8>) -> (r: Option<u64>)
    ensures
        match r {
            Some(v) => dec_parses_to(s@, v as int),
            None => !(s@.len() > 0 && all_dec_digits(s@) && dec_value(s@) <= u64::MAX),
        },
{
    if s.len() == 0 {
        return None;
    }
    let mut val: u64 = 0;
    let mut i: usize = 0;
    while i < s.len()
        invariant
            0 < s.len(),
            i <= s.len(),
            all_dec_digits(s@.subrange(0, i as int)),
            val == dec_value(s@.subrange(0, i as int)),
        decreases s.len() - i,
    {
        let b = s[i];
        if b < 48 || b > 57 {
            assert(!all_dec_digits(s@));
            return None;
        }
        let d: u64 = (b - 48) as u64;
        proof {
            lemma_dec_value_nonneg(s@.subrange(0, i as int));
            assert(s@.subrange(0, i + 1 as int).drop_last() =~= s@.subrange(0, i as int));
        }
        if val > (u64::MAX - d) / 10 {
            proof {
                let t = s@.subrange(0, i + 1 as int);
                assert(dec_value(t) == val * 10 + d);
                assert(dec_value(t) > u64::MAX) by (nonlinear_arith)
                    requires
                        dec_value(t) == val * 10 + d,
                        val > (u64::MAX - d) / 10,
                        0 <= d <= 9,
                        val <= u64::MAX,
                ;
                if all_dec_digits(s@) {
                    lemma_dec_value_extend_ge(s@, i + 1);
                }
            }
            return None;
        }
        assert(val * 10 + d <= u64::MAX) by (nonlinear_arith)
            requires
                val <= (u64::MAX - d) / 10,
                0 <= d <= 9,
        ;
        val = val * 10 + d;
        i += 1;
    }
    proof {
        assert(s@.subrange(0, s@.len() as int) =~= s@);
    }
    Some(val)
}

/// Parses an unsigned decimal numeral into a `u32`.
pub fn parse_u32(s: &Vec<u8>) -> (r: Option<u32>)
    ensures
        match r {
            Some(v) => s@.len() > 0 && all_dec_digits(s@) && dec_value(s@) == v,
            None => !(s@.len() > 0 && all_dec_digits(s@) && dec_value(s@) <= u32::MAX),
        },
{
    match parse_u64(s) {
        Some(v) => if v <= u32::MAX as u64 {
            Some(v as u32)
        } else {
            proof {
                lemma_dec_value_nonneg(s@);
            }
            None
        },
        None => {
            proof {
                if s@.len() > 0 && all_dec_digits(s@) && dec_value(s@) <= u32::MAX {
                    lemma_dec_value_nonneg(s@);
                }
            }
            None
        },
    }
}

/// Parses an unsigned octal numeral into a `u16`.
pub fn parse_u16_octal(s: &Vec<u8>) -> (r: Option<u16>)
    ensures
        match r {
            Some(v) => s@.len() > 0 && all_oct_digits(s@) && oct_value(s@) == v,
            None => !(s@.len() > 0 && all_oct_digits(s@) && oct_value(s@) <= u16::MAX),
        },
{
    if s.len() == 0 {
        return None;
    }
    let mut val: u16 = 0;
    let mut i: usize = 0;
    while i < s.len()
        invariant
            0 < s.len(),
            i <= s.len(),
            all_oct_digits(s@.subrange(0, i as int)),
            val == oct_value(s@.subrange(0, i as int)),
        decreases s.len() - i,
    {
        let b = s[i];
        if b < 48 || b > 55 {
            assert(!all_oct_digits(s@));
            return None;
        }
        let d: u16 = (b - 48) as u16;
        proof {
            lemma_oct_value_nonneg(s@.subrange(0, i as int));
            assert(s@.subrange(0, i + 1 as int).drop_last() =~= s@.subrange(0, i as int));
        }
        if val > (u16::MAX - d) / 8 {
            proof {
                let t = s@.subrange(0, i + 1 as int);
                assert(oct_value(t) == val * 8 + d);
                assert(oct_value(t) > u16::MAX) by (nonlinear_arith)
                    requires
                        oct_value(t) == val * 8 + d,
                        val > (u16::MAX - d) / 8,
                        0 <= d <= 7,
                        val <= u16::MAX,
                ;
                if all_oct_digits(s@) {
                    lemma_oct_value_extend_ge(s@, i + 1);
                }
            }
            return None;
        }
        assert(val * 8 + d <= u16::MAX) by (nonlinear_arith)
            requires
                val <= (u16::MAX - d) / 8,
                0 <= d <= 7,
        ;
        val = val * 8 + d;
        i += 1;
    }
    proof {
        assert(s@.subrange(0, s@.len() as int) =~= s@);
    }
    Some(val)
}

/// Renders `n` as its canonical decimal numeral.
pub fn u64_to_dec(n: u64) -> (r: Vec<u8>)
    ensures
        r@ == dec_repr(n as int),
    decreases n,
{
    if n < 10 {
        let mut v: Vec<u8> = Vec::new();
        v.push(DIGIT0 + n as u8);
        proof {
            assert(v@ =~= dec_repr(n as int));
        }
        v
    } else {
        let mut v = u64_to_dec(n / 10);
        v.push(DIGIT0 + (n % 10) as u8);
        v
    }
}

/// Renders `n` as its canonical decimal numeral.
pub fn u32_to_dec(n: u32) -> (r: Vec<u8>)
    ensures
        r@ == dec_repr(n as int),
{
    u64_to_dec(n as u64)
}

/// The canonical decimal numeral of `n` is made of digits and reads back as
/// `n`: rendering then parsing an integer is the identity.
pub proof fn lemma_dec_repr_value(n: int)
    requires
        n >= 0,
    ensures
        dec_repr(n).len() > 0,
        all_dec_digits(dec_repr(n)),
        dec_value(dec_repr(n)) == n,
    decreases n,
{
    if n < 10 {
        let s = dec_repr(n);
        assert(s =~= seq![(DIGIT0 + n) as u8]);
        assert(s.drop_last() =~= Seq::<u8>::empty());
        assert(dec_value(Seq::<u8>::empty()) == 0);
        assert(dec_value(s) == dec_value(s.drop_last()) * 10 + (s.last() - DIGIT0));
    } else {
        lemma_dec_repr_value(n / 10);
        let s = dec_repr(n);
        let p = dec_repr(n / 10);
        assert(s == p.push((DIGIT0 + n % 10) as u8));
        assert(s.drop_last() =~= p);
        assert(dec_value(s) == dec_value(p) * 10 + ((DIGIT0 + n % 10) - DIGIT0));
        assert((n / 10) * 10 + n % 10 == n) by (nonlinear_arith)
            requires
                n >= 0,
        ;
        assert(all_dec_digits(s)) by {
            assert(forall|i: int| 0 <= i < p.len() ==> s[i] == #[trigger] p[i]);
            assert(is_dec_digit(s[s.len() - 1]));
        }
    }
}

} // verus!
