//! The emitter over the parser's data model: serializes values back to the
//! wire format, preferring delimited `data` framing only when it is safe.
//! Every emitted byte is pinned by a spec-level rendering function.

use vstd::prelude::*;

use crate::bytes::LF;
use crate::command::{delim_ok, DataBuf, FileSize, Mark, OptionGit, OptionOther, OriginalOid,
    UnitFactor};
use crate::keywords::{KW_LTLT, KW_ACTIVE_BRANCHES_EQ, KW_ALLOW_UNSAFE_FEATURES, KW_BIG_FILE_THRESHOLD_EQ,
    KW_DATA_LTLT, KW_DATA_SP, KW_DEPTH_EQ, KW_EXPORT_PACK_EDGES_EQ, KW_MARK_COLON,
    KW_MAX_PACK_SIZE_EQ, KW_OPTION_GIT_SP, KW_OPTION_SP, KW_ORIGINAL_OID_SP, KW_QUIET, KW_STATS};
use crate::num::dec_repr;

verus! {

/// Appends a byte-string literal.
pub fn push_bytes(w: &mut Vec<u8>, s: &[u8])
    ensures
        final(w)@ == old(w)@ + s@,
{
    w.extend_from_slice(s);
}

/// Appends a byte vector.
pub fn push_vec(w: &mut Vec<u8>, s: &Vec<u8>)
    ensures
        final(w)@ == old(w)@ + s@,
{
    w.extend_from_slice(s.as_slice());
}

/// Appends one byte.
pub fn push_byte(w: &mut Vec<u8>, b: u8)
    ensures
        final(w)@ == old(w)@ + seq![b],
{
    w.push(b);
    proof {
        assert(w@ =~= old(w)@ + seq![b]);
    }
}

/// Appends the canonical decimal numeral of `n`.
pub fn push_u64_dec(w: &mut Vec<u8>, n: u64)
    ensures
        final(w)@ == old(w)@ + dec_repr(n as int),
{
    let digits = crate::num::u64_to_dec(n);
    push_vec(w, &digits);
}

/// The wire form of a `mark` sub-directive: `mark :N` and LF.
pub open spec fn dump_mark_spec(value: u64) -> Seq<u8> {
    KW_MARK_COLON@ + dec_repr(value as int) + seq![LF]
}

/// The wire form of an `original-oid` sub-directive.
pub open spec fn dump_original_oid_spec(oid: Seq<u8>) -> Seq<u8> {
    KW_ORIGINAL_OID_SP@ + oid + seq![LF]
}

/// The wire form of a file size: the value with a lower-case unit suffix.
pub open spec fn dump_file_size_spec(f: FileSize) -> Seq<u8> {
    dec_repr(f.value as int) + match f.unit {
        UnitFactor::B => Seq::<u8>::empty(),
        UnitFactor::K => seq![107u8],
        UnitFactor::M => seq![109u8],
        UnitFactor::G => seq![103u8],
    }
}

/// The wire form of a data section: delimited framing when the delimiter is
/// present and all delimited-form preconditions hold, else counted framing.
/// The optional LF after the payload is always written (twice-over LF for
/// delimited form: the delimiter line's own LF and the optional one).
pub open spec fn dump_data_spec(data: Seq<u8>, delim: Option<Seq<u8>>) -> Seq<u8> {
    match delim {
        Some(d) if delim_ok(data, d) => KW_DATA_LTLT@ + d + seq![LF] + data + d + seq![LF, LF],
        _ => KW_DATA_SP@ + dec_repr(data.len() as int) + seq![LF] + data + seq![LF],
    }
}

/// The wire form of an `option git` command.
pub open spec fn dump_option_git_spec(o: OptionGit) -> Seq<u8> {
    KW_OPTION_GIT_SP@ + match o {
        OptionGit::MaxPackSize { size } => KW_MAX_PACK_SIZE_EQ@ + dump_file_size_spec(size),
        OptionGit::BigFileThreshold { size } => KW_BIG_FILE_THRESHOLD_EQ@ + dump_file_size_spec(
            size,
        ),
        OptionGit::Depth { depth } => KW_DEPTH_EQ@ + dec_repr(depth as int),
        OptionGit::ActiveBranches { count } => KW_ACTIVE_BRANCHES_EQ@ + dec_repr(count as int),
        OptionGit::ExportPackEdges { path } => KW_EXPORT_PACK_EDGES_EQ@ + path@,
        OptionGit::Quiet => KW_QUIET@,
        OptionGit::Stats => KW_STATS@,
        OptionGit::AllowUnsafeFeatures => KW_ALLOW_UNSAFE_FEATURES@,
    } + seq![LF]
}

/// The wire form of an `option` command for another tool.
pub open spec fn dump_option_other_spec(option: Seq<u8>) -> Seq<u8> {
    KW_OPTION_SP@ + option + seq![LF]
}

/// Serialization back to the wire format, byte-for-byte as `dump_spec`
/// renders the value.
pub trait Dump {
    /// The exact bytes this value serializes to.
    spec fn dump_spec(&self) -> Seq<u8>;

    /// Appends the wire form of this value to `w`.
    fn dump(&self, w: &mut Vec<u8>)
        ensures
            final(w)@ == old(w)@ + self.dump_spec(),
    ;
}

impl Dump for Mark {
    open spec fn dump_spec(&self) -> Seq<u8> {
        dump_mark_spec(self.value())
    }

    fn dump(&self, w: &mut Vec<u8>) {
        push_bytes(w, &KW_MARK_COLON);
        push_u64_dec(w, self.get());
        push_byte(w, LF);
        proof {
            assert(w@ =~= old(w)@ + self.dump_spec());
        }
    }
}

impl Dump for OriginalOid {
    open spec fn dump_spec(&self) -> Seq<u8> {
        dump_original_oid_spec(self.oid@)
    }

    fn dump(&self, w: &mut Vec<u8>) {
        push_bytes(w, &KW_ORIGINAL_OID_SP);
        push_vec(w, &self.oid);
        push_byte(w, LF);
        proof {
            assert(w@ =~= old(w)@ + self.dump_spec());
        }
    }
}

impl Dump for FileSize {
    open spec fn dump_spec(&self) -> Seq<u8> {
        dump_file_size_spec(*self)
    }

    fn dump(&self, w: &mut Vec<u8>) {
        let digits = crate::num::u32_to_dec(self.value);
        push_vec(w, &digits);
        match self.unit {
            UnitFactor::B => {},
            UnitFactor::K => push_byte(w, 107),
            UnitFactor::M => push_byte(w, 109),
            UnitFactor::G => push_byte(w, 103),
        }
        proof {
            if self.unit is B {
                assert(w@ =~= old(w)@ + self.dump_spec());
            } else {
                assert(w@ =~= old(w)@ + self.dump_spec());
            }
        }
    }
}

impl Dump for DataBuf {
    open spec fn dump_spec(&self) -> Seq<u8> {
        dump_data_spec(self.data@, match self.delim {
            Some(d) => Some(d@),
            None => None,
        })
    }

    /// Emits in the delimited style only when it would parse back with the
    /// same payload; else falls back to the counted style.
    fn dump(&self, w: &mut Vec<u8>) {
        let mut delimited = false;
        match &self.delim {
            Some(delim) => {
                match self.validate_delim() {
                    Ok(()) => {
                        push_bytes(w, &KW_DATA_LTLT);
                        push_vec(w, delim);
                        push_byte(w, LF);
                        push_vec(w, &self.data);
                        push_vec(w, delim);
                        push_byte(w, LF);
                        push_byte(w, LF);
                        delimited = true;
                        proof {
                            assert(seq![LF] + seq![LF] =~= seq![LF, LF]);
                            assert(w@ =~= old(w)@ + self.dump_spec());
                        }
                    },
                    Err(_) => {},
                }
            },
            None => {},
        }
        if !delimited {
            push_bytes(w, &KW_DATA_SP);
            push_u64_dec(w, self.data.len() as u64);
            push_byte(w, LF);
            push_vec(w, &self.data);
            push_byte(w, LF);
            proof {
                assert(w@ =~= old(w)@ + self.dump_spec());
            }
        }
    }
}

impl Dump for OptionGit {
    open spec fn dump_spec(&self) -> Seq<u8> {
        dump_option_git_spec(*self)
    }

    fn dump(&self, w: &mut Vec<u8>) {
        push_bytes(w, &KW_OPTION_GIT_SP);
        match self {
            OptionGit::MaxPackSize { size } => {
                push_bytes(w, &KW_MAX_PACK_SIZE_EQ);
                size.dump(w);
            },
            OptionGit::BigFileThreshold { size } => {
                push_bytes(w, &KW_BIG_FILE_THRESHOLD_EQ);
                size.dump(w);
            },
            OptionGit::Depth { depth } => {
                push_bytes(w, &KW_DEPTH_EQ);
                let digits = crate::num::u32_to_dec(*depth);
                push_vec(w, &digits);
            },
            OptionGit::ActiveBranches { count } => {
                push_bytes(w, &KW_ACTIVE_BRANCHES_EQ);
                let digits = crate::num::u32_to_dec(*count);
                push_vec(w, &digits);
            },
            OptionGit::ExportPackEdges { path } => {
                push_bytes(w, &KW_EXPORT_PACK_EDGES_EQ);
                push_vec(w, path);
            },
            OptionGit::Quiet => push_bytes(w, &KW_QUIET),
            OptionGit::Stats => push_bytes(w, &KW_STATS),
            OptionGit::AllowUnsafeFeatures => push_bytes(w, &KW_ALLOW_UNSAFE_FEATURES),
        }
        push_byte(w, LF);
        proof {
            assert(w@ =~= old(w)@ + self.dump_spec());
        }
    }
}

impl Dump for OptionOther {
    open spec fn dump_spec(&self) -> Seq<u8> {
        dump_option_other_spec(self.option@)
    }

    fn dump(&self, w: &mut Vec<u8>) {
        push_bytes(w, &KW_OPTION_SP);
        push_vec(w, &self.option);
        push_byte(w, LF);
        proof {
            assert(w@ =~= old(w)@ + self.dump_spec());
        }
    }
}

impl<T: Dump> Dump for Option<T> {
    open spec fn dump_spec(&self) -> Seq<u8> {
        match self {
            Some(v) => v.dump_spec(),
            None => Seq::empty(),
        }
    }

    fn dump(&self, w: &mut Vec<u8>) {
        match self {
            Some(v) => v.dump(w),
            None => {
                proof {
                    assert(w@ =~= old(w)@ + self.dump_spec());
                }
            },
        }
    }
}

/// Scanning an emitted delimited body finds exactly the payload again: for
/// a payload that ends with LF (or is empty), has no line equal to the
/// delimiter, and an LF-free delimiter laid out as `payload delim LF`, the
/// scan returns the payload and stops just after the delimiter line.
proof fn lemma_delim_scan_emitted(s: Seq<u8>, pos: int, data: Seq<u8>, delim: Seq<u8>)
    requires
        0 <= pos,
        pos + data.len() + delim.len() + 1 <= s.len(),
        s.subrange(pos, pos + data.len()) == data,
        s.subrange(pos + data.len(), pos + data.len() + delim.len() + 1) == delim + seq![LF],
        data.len() == 0 || data[data.len() - 1] == LF,
        !crate::command::has_line(data, delim),
        !crate::bytes::contains_byte(delim, LF),
    ensures
        crate::input::delim_scan(s, pos, delim) == Some(
            (data, pos + data.len() + delim.len() + 1),
        ),
    decreases data.len(),
{
    let dl = delim.len() as int;
    let n = data.len() as int;
    if n == 0 {
        assert forall|k: int| pos <= k < pos + dl implies s[k] != LF by {
            assert(s[k] == (delim + seq![LF])[k - pos]);
        }
        assert(s[pos + dl] == (delim + seq![LF])[dl]);
        crate::input::lemma_line_end_at(s, pos, pos + dl);
        assert(s.subrange(pos, pos + dl) =~= delim);
        assert(Seq::<u8>::empty() =~= data);
    } else {
        let k = crate::bytes::find_idx(data, 0, LF);
        crate::bytes::lemma_find_idx(data, 0, LF);
        assert(k < n) by {
            if k == n {
                assert(data[n - 1] != LF);
            }
        }
        // The first line of the emitted bytes is the first line of the
        // payload, which is not the delimiter.
        assert forall|j: int| pos <= j < pos + k implies s[j] != LF by {
            assert(s[j] == data[j - pos]);
        }
        assert(s[pos + k] == data[k]);
        crate::input::lemma_line_end_at(s, pos, pos + k);
        assert(s.subrange(pos, pos + k) =~= data.subrange(0, k));
        assert(crate::command::is_line_at(data, 0, k));
        assert(data.subrange(0, k) != delim) by {
            if data.subrange(0, k) == delim {
                assert(crate::command::has_line(data, delim));
            }
        }
        // Recurse on the payload after its first line.
        let tail = data.subrange(k + 1, n);
        assert(s.subrange(pos + k + 1, pos + k + 1 + tail.len()) =~= tail);
        assert(s.subrange(
            pos + k + 1 + tail.len(),
            pos + k + 1 + tail.len() + dl + 1,
        ) =~= delim + seq![LF]) by {
            assert(pos + k + 1 + tail.len() == pos + n);
            assert(s.subrange(pos + n, pos + n + dl + 1) == delim + seq![LF]);
        }
        assert(tail.len() == 0 || tail[tail.len() - 1] == LF);
        assert(!crate::command::has_line(tail, delim)) by {
            if crate::command::has_line(tail, delim) {
                let (i, j) = choose|i: int, j: int|
                    crate::command::is_line_at(tail, i, j) && tail.subrange(i, j) == delim;
                assert(crate::command::is_line_at(data, k + 1 + i, k + 1 + j)) by {
                    assert(data[k] == LF);
                    assert forall|m: int| k + 1 + i <= m < k + 1 + j implies data[m] != LF by {
                        assert(tail[m - (k + 1)] != LF);
                    }
                    if k + 1 + j < n {
                        assert(data[k + 1 + j] == tail[j]);
                    }
                }
                assert(data.subrange(k + 1 + i, k + 1 + j) =~= tail.subrange(i, j));
                assert(crate::command::has_line(data, delim));
            }
        }
        lemma_delim_scan_emitted(s, pos + k + 1, tail, delim);
        assert(s.subrange(pos, pos + k + 1) + tail =~= data);
    }
}

/// Counted data sections round-trip exactly: the emitted bytes begin with a
/// `data N` directive whose header parses back as `Counted(N)`, the next
/// `N` bytes are the payload unchanged, and consuming the optional LF after
/// them ends exactly at the end of the emitted bytes.
pub proof fn lemma_counted_round_trip(data: Seq<u8>)
    requires
        data.len() <= u64::MAX,
    ensures
        ({
            let out = dump_data_spec(data, None);
            let digits = dec_repr(data.len() as int);
            let hdr = KW_DATA_SP@ + digits;
            &&& crate::input::line_end(out, 0) == hdr.len()
            &&& out.subrange(0, hdr.len() as int) == hdr
            &&& crate::bytes::starts_with(hdr, KW_DATA_SP@)
            &&& crate::parser::parse_data_header_spec(
                hdr.subrange(KW_DATA_SP@.len() as int, hdr.len() as int),
            ) == Ok::<crate::parser::DataHeaderV, crate::parser::ParseError>(
                crate::parser::DataHeaderV::Counted { len: data.len() as u64 },
            )
            &&& out.subrange(hdr.len() as int + 1, hdr.len() + 1 + data.len() as int) == data
            &&& crate::input::skip_lf(out, hdr.len() + 1 + data.len() as int) == out.len()
        }),
{
    let out = dump_data_spec(data, None);
    let digits = dec_repr(data.len() as int);
    let hdr = KW_DATA_SP@ + digits;
    crate::num::lemma_dec_repr_value(data.len() as int);
    assert forall|k: int| 0 <= k < hdr.len() implies hdr[k] != LF by {
        if k >= KW_DATA_SP@.len() {
            assert(crate::num::is_dec_digit(digits[k - KW_DATA_SP@.len()]));
        }
    }
    assert forall|k: int| 0 <= k < hdr.len() implies out[k] != LF by {
        assert(out[k] == hdr[k]);
    }
    assert(out[hdr.len() as int] == LF);
    crate::input::lemma_line_end_at(out, 0, hdr.len() as int);
    assert(out.subrange(0, hdr.len() as int) =~= hdr);
    assert(hdr.subrange(0, KW_DATA_SP@.len() as int) =~= KW_DATA_SP@);
    let arg = hdr.subrange(KW_DATA_SP@.len() as int, hdr.len() as int);
    assert(arg =~= digits);
    assert(!crate::bytes::starts_with(arg, KW_LTLT@)) by {
        if crate::bytes::starts_with(arg, KW_LTLT@) {
            assert(arg.subrange(0, 2)[0] == KW_LTLT@[0]);
            assert(crate::num::is_dec_digit(digits[0]));
        }
    }
    assert(out.subrange(hdr.len() as int + 1, hdr.len() + 1 + data.len() as int) =~= data);
    assert(out[hdr.len() + 1 + data.len() as int] == LF);
}

/// Delimited data sections round-trip exactly under the delimited-form
/// preconditions (and an LF-free delimiter): the emitted bytes begin with a
/// `data <<DELIM` directive whose header parses back as `Delimited(DELIM)`,
/// scanning for the delimiter yields the payload unchanged, and consuming
/// the optional LF after the delimiter line ends exactly at the end of the
/// emitted bytes.
pub proof fn lemma_delimited_round_trip(data: Seq<u8>, delim: Seq<u8>)
    requires
        delim_ok(data, delim),
        !crate::bytes::contains_byte(delim, LF),
    ensures
        ({
            let out = dump_data_spec(data, Some(delim));
            let hdr = KW_DATA_LTLT@ + delim;
            &&& crate::input::line_end(out, 0) == hdr.len()
            &&& out.subrange(0, hdr.len() as int) == hdr
            &&& crate::bytes::starts_with(hdr, KW_DATA_SP@)
            &&& crate::parser::parse_data_header_spec(
                hdr.subrange(KW_DATA_SP@.len() as int, hdr.len() as int),
            ) == Ok::<crate::parser::DataHeaderV, crate::parser::ParseError>(
                crate::parser::DataHeaderV::Delimited { delim },
            )
            &&& crate::input::delim_scan(out, hdr.len() as int + 1, delim) == Some(
                (data, out.len() - 1),
            )
            &&& crate::input::skip_lf(out, out.len() as int - 1) == out.len()
        }),
{
    let out = dump_data_spec(data, Some(delim));
    let hdr = KW_DATA_LTLT@ + delim;
    assert forall|k: int| 0 <= k < hdr.len() implies out[k] != LF by {
        assert(out[k] == hdr[k]);
        if k >= KW_DATA_LTLT@.len() {
            assert(hdr[k] == delim[k - KW_DATA_LTLT@.len()]);
        }
    }
    assert(out[hdr.len() as int] == LF);
    crate::input::lemma_line_end_at(out, 0, hdr.len() as int);
    assert(out.subrange(0, hdr.len() as int) =~= hdr);
    assert(hdr.subrange(0, KW_DATA_SP@.len() as int) =~= KW_DATA_SP@);
    let arg = hdr.subrange(KW_DATA_SP@.len() as int, hdr.len() as int);
    assert(crate::bytes::starts_with(arg, KW_LTLT@)) by {
        assert(arg.subrange(0, 2) =~= KW_LTLT@);
    }
    assert(arg.subrange(2, arg.len() as int) =~= delim);
    let pos = hdr.len() as int + 1;
    assert(out.subrange(pos, pos + data.len()) =~= data);
    assert(out.subrange(pos + data.len(), pos + data.len() + delim.len() + 1) =~= delim + seq![
        LF,
    ]);
    lemma_delim_scan_emitted(out, pos, data, delim);
    assert(pos + data.len() + delim.len() + 1 == out.len() - 1);
    assert(out[out.len() as int - 1] == LF);
}

/// Marks round-trip: the emitted `mark :N` line parses back to `N`.
pub proof fn lemma_mark_round_trip(value: u64)
    requires
        value > 0,
    ensures
        ({
            let whole = dump_mark_spec(value);
            let line = whole.subrange(0, whole.len() - 1);
            &&& whole.last() == LF
            &&& crate::bytes::starts_with(line, crate::keywords::KW_MARK_SP@)
            &&& crate::parser::parse_mark_spec(
                line.subrange(crate::keywords::KW_MARK_SP@.len() as int, line.len() as int),
            ) == Ok::<u64, crate::parser::ParseError>(value)
        }),
{
    let whole = dump_mark_spec(value);
    let line = whole.subrange(0, whole.len() - 1);
    crate::num::lemma_dec_repr_value(value as int);
    assert(line =~= crate::keywords::KW_MARK_COLON@ + dec_repr(value as int));
    assert(line.subrange(0, crate::keywords::KW_MARK_SP@.len() as int)
        =~= crate::keywords::KW_MARK_SP@);
    let arg = line.subrange(crate::keywords::KW_MARK_SP@.len() as int, line.len() as int);
    assert(arg[0] == crate::bytes::COLON);
    assert(arg.subrange(1, arg.len() as int) =~= dec_repr(value as int));
}

/// File sizes round-trip: the emitted size with its lower-case unit suffix
/// parses back to the same value and unit.
pub proof fn lemma_file_size_round_trip(f: FileSize)
    ensures
        crate::parser::parse_file_size_spec(dump_file_size_spec(f)) == Ok::<
            FileSize,
            crate::parser::ParseError,
        >(f),
{
    let out = dump_file_size_spec(f);
    crate::num::lemma_dec_repr_value(f.value as int);
    let digits = dec_repr(f.value as int);
    assert(crate::num::is_dec_digit(digits[digits.len() - 1]));
    match f.unit {
        UnitFactor::B => {
            assert(out =~= digits);
        },
        UnitFactor::K => {
            assert(out.last() == 107u8);
            assert(out.subrange(0, out.len() - 1) =~= digits);
        },
        UnitFactor::M => {
            assert(out.last() == 109u8);
            assert(out.subrange(0, out.len() - 1) =~= digits);
        },
        UnitFactor::G => {
            assert(out.last() == 103u8);
            assert(out.subrange(0, out.len() - 1) =~= digits);
        },
    }
}

/// `option git` commands round-trip: the emitted line parses back to the
/// same option.
pub proof fn lemma_option_git_round_trip(o: OptionGit)
    ensures
        ({
            let whole = dump_option_git_spec(o);
            let line = whole.subrange(0, whole.len() - 1);
            &&& whole.last() == LF
            &&& crate::bytes::starts_with(line, crate::keywords::KW_OPTION_SP@)
            &&& ({
                let tail = line.subrange(
                    crate::keywords::KW_OPTION_SP@.len() as int,
                    line.len() as int,
                );
                crate::bytes::starts_with(tail, crate::keywords::KW_GIT_SP@)
                    && crate::parser::parse_option_git_spec(
                    tail.subrange(crate::keywords::KW_GIT_SP@.len() as int, tail.len() as int),
                ) == Ok::<crate::parser::OptionGitV, crate::parser::ParseError>(
                    crate::parser::option_git_view(o),
                )
            })
        }),
{
    let whole = dump_option_git_spec(o);
    let line = whole.subrange(0, whole.len() - 1);
    let body = match o {
        OptionGit::MaxPackSize { size } => KW_MAX_PACK_SIZE_EQ@ + dump_file_size_spec(size),
        OptionGit::BigFileThreshold { size } => KW_BIG_FILE_THRESHOLD_EQ@ + dump_file_size_spec(
            size,
        ),
        OptionGit::Depth { depth } => KW_DEPTH_EQ@ + dec_repr(depth as int),
        OptionGit::ActiveBranches { count } => KW_ACTIVE_BRANCHES_EQ@ + dec_repr(count as int),
        OptionGit::ExportPackEdges { path } => KW_EXPORT_PACK_EDGES_EQ@ + path@,
        OptionGit::Quiet => KW_QUIET@,
        OptionGit::Stats => KW_STATS@,
        OptionGit::AllowUnsafeFeatures => KW_ALLOW_UNSAFE_FEATURES@,
    };
    assert(line =~= KW_OPTION_GIT_SP@ + body);
    assert(line.subrange(0, crate::keywords::KW_OPTION_SP@.len() as int)
        =~= crate::keywords::KW_OPTION_SP@);
    let tail = line.subrange(crate::keywords::KW_OPTION_SP@.len() as int, line.len() as int);
    assert(tail =~= crate::keywords::KW_GIT_SP@ + body);
    assert(tail.subrange(0, crate::keywords::KW_GIT_SP@.len() as int)
        =~= crate::keywords::KW_GIT_SP@);
    assert(tail.subrange(crate::keywords::KW_GIT_SP@.len() as int, tail.len() as int) =~= body);
    match o {
        OptionGit::MaxPackSize { size } => {
            assert(body.subrange(0, KW_MAX_PACK_SIZE_EQ@.len() as int) =~= KW_MAX_PACK_SIZE_EQ@);
            assert(body.subrange(KW_MAX_PACK_SIZE_EQ@.len() as int, body.len() as int)
                =~= dump_file_size_spec(size));
            lemma_file_size_round_trip(size);
        },
        OptionGit::BigFileThreshold { size } => {
            assert(body.subrange(0, KW_BIG_FILE_THRESHOLD_EQ@.len() as int)
                =~= KW_BIG_FILE_THRESHOLD_EQ@);
            assert(body.subrange(KW_BIG_FILE_THRESHOLD_EQ@.len() as int, body.len() as int)
                =~= dump_file_size_spec(size));
            lemma_file_size_round_trip(size);
        },
        OptionGit::Depth { depth } => {
            assert(body.subrange(0, KW_DEPTH_EQ@.len() as int) =~= KW_DEPTH_EQ@);
            assert(body.subrange(KW_DEPTH_EQ@.len() as int, body.len() as int) =~= dec_repr(
                depth as int,
            ));
            crate::num::lemma_dec_repr_value(depth as int);
        },
        OptionGit::ActiveBranches { count } => {
            assert(body.subrange(0, KW_ACTIVE_BRANCHES_EQ@.len() as int)
                =~= KW_ACTIVE_BRANCHES_EQ@);
            assert(body.subrange(KW_ACTIVE_BRANCHES_EQ@.len() as int, body.len() as int)
                =~= dec_repr(count as int));
            crate::num::lemma_dec_repr_value(count as int);
        },
        OptionGit::ExportPackEdges { path } => {
            assert(body.subrange(0, KW_EXPORT_PACK_EDGES_EQ@.len() as int)
                =~= KW_EXPORT_PACK_EDGES_EQ@);
            assert(body.subrange(KW_EXPORT_PACK_EDGES_EQ@.len() as int, body.len() as int)
                =~= path@);
        },
        OptionGit::Quiet => {},
        OptionGit::Stats => {},
        OptionGit::AllowUnsafeFeatures => {},
    }
}

/// `option` commands for other tools round-trip: unless the payload would
/// itself select the git dispatch, the emitted line parses back unchanged.
pub proof fn lemma_option_other_round_trip(option: Seq<u8>)
    requires
        !crate::bytes::starts_with(option, crate::keywords::KW_GIT_SP@),
    ensures
        ({
            let whole = dump_option_other_spec(option);
            let line = whole.subrange(0, whole.len() - 1);
            &&& whole.last() == LF
            &&& crate::bytes::starts_with(line, crate::keywords::KW_OPTION_SP@)
            &&& line.subrange(crate::keywords::KW_OPTION_SP@.len() as int, line.len() as int)
                == option
        }),
{
    let whole = dump_option_other_spec(option);
    let line = whole.subrange(0, whole.len() - 1);
    assert(line =~= KW_OPTION_SP@ + option);
    assert(line.subrange(0, crate::keywords::KW_OPTION_SP@.len() as int) =~= KW_OPTION_SP@);
    assert(line.subrange(crate::keywords::KW_OPTION_SP@.len() as int, line.len() as int)
        =~= option);
}

/// The directive at `pos` of a stream that continues `line LF ...`, for a
/// non-comment line without LF, is that line.
proof fn lemma_directive_at(s: Seq<u8>, pos: int, line: Seq<u8>)
    requires
        0 <= pos,
        pos + line.len() < s.len(),
        s.subrange(pos, pos + line.len() as int) == line,
        s[pos + line.len()] == LF,
        !crate::bytes::contains_byte(line, LF),
        line.len() == 0 || line[0] != crate::bytes::HASH,
    ensures
        crate::input::next_directive_at(s, pos) == Some((line, pos + line.len() + 1)),
{
    assert forall|k: int| pos <= k < pos + line.len() implies s[k] != LF by {
        assert(s[k] == line[k - pos]);
    }
    crate::input::lemma_line_end_at(s, pos, pos + line.len() as int);
}

/// A counted data section embedded at `pos` of a larger stream round-trips:
/// its `data N` header line parses back as `Counted(N)`, the `N` bytes after
/// it are the payload unchanged, and consuming the optional LF ends exactly
/// at the end of the section.
pub proof fn lemma_counted_round_trip_at(s: Seq<u8>, pos: int, data: Seq<u8>)
    requires
        data.len() <= u64::MAX,
        0 <= pos,
        pos + dump_data_spec(data, None).len() <= s.len(),
        s.subrange(pos, pos + dump_data_spec(data, None).len() as int) == dump_data_spec(
            data,
            None,
        ),
    ensures
        ({
            let out = dump_data_spec(data, None);
            let hdr = KW_DATA_SP@ + dec_repr(data.len() as int);
            &&& crate::input::next_directive_at(s, pos) == Some(
                (hdr, pos + hdr.len() as int + 1),
            )
            &&& crate::bytes::starts_with(hdr, KW_DATA_SP@)
            &&& crate::parser::parse_data_header_spec(
                hdr.subrange(KW_DATA_SP@.len() as int, hdr.len() as int),
            ) == Ok::<crate::parser::DataHeaderV, crate::parser::ParseError>(
                crate::parser::DataHeaderV::Counted { len: data.len() as u64 },
            )
            &&& s.subrange(
                pos + hdr.len() + 1,
                pos + hdr.len() + 1 + data.len() as int,
            ) == data
            &&& crate::input::skip_lf(s, pos + hdr.len() + 1 + data.len() as int) == pos
                + out.len()
        }),
{
    let out = dump_data_spec(data, None);
    let digits = dec_repr(data.len() as int);
    let hdr = KW_DATA_SP@ + digits;
    crate::num::lemma_dec_repr_value(data.len() as int);
    assert(!crate::bytes::contains_byte(hdr, LF)) by {
        if crate::bytes::contains_byte(hdr, LF) {
            let k = choose|k: int| 0 <= k < hdr.len() && hdr[k] == LF;
            if k >= KW_DATA_SP@.len() {
                assert(crate::num::is_dec_digit(digits[k - KW_DATA_SP@.len()]));
            }
        }
    }
    assert(s.subrange(pos, pos + hdr.len() as int) =~= hdr) by {
        assert forall|k: int| 0 <= k < hdr.len() implies s[pos + k] == hdr[k] by {
            assert(s[pos + k] == out[k]);
        }
    }
    assert(s[pos + hdr.len()] == out[hdr.len() as int]);
    lemma_directive_at(s, pos, hdr);
    assert(hdr.subrange(0, KW_DATA_SP@.len() as int) =~= KW_DATA_SP@);
    let arg = hdr.subrange(KW_DATA_SP@.len() as int, hdr.len() as int);
    assert(arg =~= digits);
    assert(!crate::bytes::starts_with(arg, KW_LTLT@)) by {
        if crate::bytes::starts_with(arg, KW_LTLT@) {
            assert(arg.subrange(0, 2)[0] == KW_LTLT@[0]);
            assert(crate::num::is_dec_digit(digits[0]));
        }
    }
    assert(s.subrange(pos + hdr.len() + 1, pos + hdr.len() + 1 + data.len() as int)
        =~= data) by {
        assert forall|k: int| 0 <= k < data.len() implies s[pos + hdr.len() + 1 + k] == data[k] by {
            assert(s[pos + hdr.len() + 1 + k] == out[hdr.len() + 1 + k]);
        }
    }
    assert(s[pos + hdr.len() + 1 + data.len()] == out[hdr.len() + 1 + data.len() as int]);
}

/// A delimited data section embedded at `pos` of a larger stream
/// round-trips under the delimited-form preconditions (and an LF-free
/// delimiter): its `data <<DELIM` header parses back as `Delimited(DELIM)`,
/// scanning for the delimiter yields the payload unchanged, and consuming
/// the optional LF ends exactly at the end of the section.
pub proof fn lemma_delimited_round_trip_at(s: Seq<u8>, pos: int, data: Seq<u8>, delim: Seq<u8>)
    requires
        delim_ok(data, delim),
        !crate::bytes::contains_byte(delim, LF),
        0 <= pos,
        pos + dump_data_spec(data, Some(delim)).len() <= s.len(),
        s.subrange(pos, pos + dump_data_spec(data, Some(delim)).len() as int) == dump_data_spec(
            data,
            Some(delim),
        ),
    ensures
        ({
            let out = dump_data_spec(data, Some(delim));
            let hdr = KW_DATA_LTLT@ + delim;
            &&& crate::input::next_directive_at(s, pos) == Some(
                (hdr, pos + hdr.len() as int + 1),
            )
            &&& crate::bytes::starts_with(hdr, KW_DATA_SP@)
            &&& crate::parser::parse_data_header_spec(
                hdr.subrange(KW_DATA_SP@.len() as int, hdr.len() as int),
            ) == Ok::<crate::parser::DataHeaderV, crate::parser::ParseError>(
                crate::parser::DataHeaderV::Delimited { delim },
            )
            &&& crate::input::delim_scan(s, pos + hdr.len() as int + 1, delim) == Some(
                (data, pos + out.len() - 1),
            )
            &&& crate::input::skip_lf(s, pos + out.len() - 1) == pos + out.len()
        }),
{
    let out = dump_data_spec(data, Some(delim));
    let hdr = KW_DATA_LTLT@ + delim;
    assert(!crate::bytes::contains_byte(hdr, LF)) by {
        if crate::bytes::contains_byte(hdr, LF) {
            let k = choose|k: int| 0 <= k < hdr.len() && hdr[k] == LF;
            if k >= KW_DATA_LTLT@.len() {
                assert(delim[k - KW_DATA_LTLT@.len()] == LF);
            }
        }
    }
    assert(s.subrange(pos, pos + hdr.len() as int) =~= hdr) by {
        assert forall|k: int| 0 <= k < hdr.len() implies s[pos + k] == hdr[k] by {
            assert(s[pos + k] == out[k]);
        }
    }
    assert(s[pos + hdr.len()] == out[hdr.len() as int]);
    lemma_directive_at(s, pos, hdr);
    assert(hdr.subrange(0, KW_DATA_SP@.len() as int) =~= KW_DATA_SP@);
    let arg = hdr.subrange(KW_DATA_SP@.len() as int, hdr.len() as int);
    assert(crate::bytes::starts_with(arg, KW_LTLT@)) by {
        assert(arg.subrange(0, 2) =~= KW_LTLT@);
    }
    assert(arg.subrange(2, arg.len() as int) =~= delim);
    let p2 = pos + hdr.len() as int + 1;
    assert(s.subrange(p2, p2 + data.len() as int) =~= data) by {
        assert forall|k: int| 0 <= k < data.len() implies s[p2 + k] == data[k] by {
            assert(s[p2 + k] == out[hdr.len() + 1 + k]);
        }
    }
    assert(s.subrange(p2 + data.len(), p2 + data.len() + delim.len() + 1) =~= delim + seq![
        LF,
    ]) by {
        assert forall|k: int| 0 <= k < delim.len() + 1 implies s[p2 + data.len() + k] == (delim
            + seq![LF])[k] by {
            assert(s[p2 + data.len() + k] == out[hdr.len() + 1 + data.len() + k]);
        }
    }
    lemma_delim_scan_emitted(s, p2, data, delim);
    assert(p2 + data.len() + delim.len() + 1 == pos + out.len() - 1);
    assert(s[pos + out.len() - 1] == out[out.len() as int - 1]);
}

/// The wire form of a whole blob command with an optional mark and an
/// optional original-oid.
pub open spec fn dump_blob_spec(
    mark: Option<u64>,
    oid: Option<Seq<u8>>,
    data: Seq<u8>,
    delim: Option<Seq<u8>>,
) -> Seq<u8> {
    crate::keywords::KW_BLOB_LF@ + (match mark {
        Some(v) => dump_mark_spec(v),
        None => Seq::<u8>::empty(),
    }) + (match oid {
        Some(o) => dump_original_oid_spec(o),
        None => Seq::<u8>::empty(),
    }) + dump_data_spec(data, delim)
}

/// Blob commands round-trip: in the emitted bytes of a blob, the directives
/// read back in order as `blob`, the mark line (parsing to the same mark),
/// the original-oid line (carrying the same oid), and a data section that
/// round-trips to the same payload ([`lemma_counted_round_trip_at`],
/// [`lemma_delimited_round_trip_at`] at the data position below).
pub proof fn lemma_blob_round_trip(mark: u64, oid: Seq<u8>, data: Seq<u8>, delim: Option<Seq<u8>>)
    requires
        mark > 0,
        !crate::bytes::contains_byte(oid, LF),
        data.len() <= u64::MAX,
        match delim {
            Some(d) => delim_ok(data, d) && !crate::bytes::contains_byte(d, LF),
            None => true,
        },
    ensures
        ({
            let out = dump_blob_spec(Some(mark), Some(oid), data, delim);
            let mark_line_len = dump_mark_spec(mark).len() as int;
            let oid_line_len = dump_original_oid_spec(oid).len() as int;
            let mark_pos = crate::keywords::KW_BLOB@.len() as int + 1;
            let oid_pos = mark_pos + mark_line_len;
            let data_pos = oid_pos + oid_line_len;
            &&& crate::input::next_directive_at(out, 0) == Some(
                (crate::keywords::KW_BLOB@, mark_pos),
            )
            &&& crate::input::next_directive_at(out, mark_pos) == Some(
                ((KW_MARK_COLON@ + dec_repr(mark as int)), oid_pos),
            )
            &&& crate::parser::parse_mark_spec(
                (KW_MARK_COLON@ + dec_repr(mark as int)).subrange(
                    crate::keywords::KW_MARK_SP@.len() as int,
                    (KW_MARK_COLON@ + dec_repr(mark as int)).len() as int,
                ),
            ) == Ok::<u64, crate::parser::ParseError>(mark)
            &&& crate::input::next_directive_at(out, oid_pos) == Some(
                ((KW_ORIGINAL_OID_SP@ + oid), data_pos),
            )
            &&& out.subrange(data_pos, out.len() as int) == dump_data_spec(data, delim)
        }),
{
    let out = dump_blob_spec(Some(mark), Some(oid), data, delim);
    let mark_line = KW_MARK_COLON@ + dec_repr(mark as int);
    let oid_line = KW_ORIGINAL_OID_SP@ + oid;
    let mark_pos = crate::keywords::KW_BLOB@.len() as int + 1;
    let oid_pos = mark_pos + mark_line.len() as int + 1;
    let data_pos = oid_pos + oid_line.len() as int + 1;
    crate::num::lemma_dec_repr_value(mark as int);

    assert(out.subrange(0, crate::keywords::KW_BLOB@.len() as int)
        =~= crate::keywords::KW_BLOB@);
    assert(out[crate::keywords::KW_BLOB@.len() as int] == LF) by {
        assert(out[4] == crate::keywords::KW_BLOB_LF@[4]);
    }
    lemma_directive_at(out, 0, crate::keywords::KW_BLOB@);

    assert(!crate::bytes::contains_byte(mark_line, LF)) by {
        if crate::bytes::contains_byte(mark_line, LF) {
            let k = choose|k: int| 0 <= k < mark_line.len() && mark_line[k] == LF;
            if k >= KW_MARK_COLON@.len() {
                assert(crate::num::is_dec_digit(dec_repr(mark as int)[k - KW_MARK_COLON@.len()]));
            }
        }
    }
    assert(out.subrange(mark_pos, mark_pos + mark_line.len() as int) =~= mark_line) by {
        assert forall|k: int| 0 <= k < mark_line.len() implies out[mark_pos + k]
            == mark_line[k] by {
            assert(out[mark_pos + k] == dump_mark_spec(mark)[k]);
        }
    }
    assert(out[mark_pos + mark_line.len()] == dump_mark_spec(mark)[mark_line.len() as int]);
    lemma_directive_at(out, mark_pos, mark_line);
    lemma_mark_round_trip(mark);
    assert(mark_line =~= dump_mark_spec(mark).subrange(0, dump_mark_spec(mark).len() - 1));

    assert(!crate::bytes::contains_byte(oid_line, LF)) by {
        if crate::bytes::contains_byte(oid_line, LF) {
            let k = choose|k: int| 0 <= k < oid_line.len() && oid_line[k] == LF;
            if k >= KW_ORIGINAL_OID_SP@.len() {
                assert(oid[k - KW_ORIGINAL_OID_SP@.len()] == LF);
                assert(crate::bytes::contains_byte(oid, LF));
            }
        }
    }
    assert(out.subrange(oid_pos, oid_pos + oid_line.len() as int) =~= oid_line) by {
        assert forall|k: int| 0 <= k < oid_line.len() implies out[oid_pos + k] == oid_line[k] by {
            assert(out[oid_pos + k] == dump_original_oid_spec(oid)[k]);
        }
    }
    assert(out[oid_pos + oid_line.len()] == dump_original_oid_spec(oid)[oid_line.len() as int]);
    lemma_directive_at(out, oid_pos, oid_line);

    assert(out.subrange(data_pos, out.len() as int) =~= dump_data_spec(data, delim));
}

} // verus!
