//! The emitter over the owned representation: serializes values (with their
//! comments) back to the wire format. Every emitted byte is pinned by a
//! spec-level rendering function.

use vstd::prelude::*;

use crate::ast::{Blob, BString, Commented, Comments, CountedData, Data, DelimitedData, Mark,
    OriginalOid};
use crate::bytes::{HASH, LF};
use crate::command::{DataBuf, FileSize, OptionGit, OptionOther};
use crate::dump::{push_byte, push_bytes, push_u64_dec, push_vec, Dump};
use crate::input::{line_end, lemma_line_end};
use crate::keywords::{KW_BLOB_LF, KW_DATA_LTLT, KW_DATA_SP, KW_MARK_COLON, KW_ORIGINAL_OID_SP};
use crate::num::dec_repr;

verus! {

/// The wire form of comment text: each LF-separated line prefixed with `#`,
/// with a final LF supplied when the text does not end in one.
pub open spec fn pretty_comments_spec(text: Seq<u8>) -> Seq<u8>
    decreases text.len(),
    via pretty_comments_spec_dec
{
    if text.len() == 0 {
        Seq::empty()
    } else {
        let e = line_end(text, 0);
        if e < text.len() {
            seq![HASH] + text.subrange(0, e + 1) + pretty_comments_spec(
                text.subrange(e + 1, text.len() as int),
            )
        } else {
            seq![HASH] + text + seq![LF]
        }
    }
}

#[via_fn]
proof fn pretty_comments_spec_dec(text: Seq<u8>) {
    if text.len() > 0 {
        lemma_line_end(text, 0);
    }
}

/// The wire form of a counted data section of the owned representation.
pub open spec fn pretty_counted_spec(d: CountedData) -> Seq<u8> {
    KW_DATA_SP@ + dec_repr(d.data@.len() as int) + seq![LF] + d.data@ + if d.optional_lf {
        seq![LF]
    } else {
        Seq::<u8>::empty()
    }
}

/// The wire form of a delimited data section of the owned representation.
pub open spec fn pretty_delimited_spec(d: DelimitedData) -> Seq<u8> {
    KW_DATA_LTLT@ + d.delim_view() + seq![LF] + d.data_view() + d.delim_view() + seq![LF]
        + if d.lf_view() {
        seq![LF]
    } else {
        Seq::<u8>::empty()
    }
}

/// Serialization back to the wire format, byte-for-byte as `pretty_spec`
/// renders the value.
pub trait Pretty {
    /// The exact bytes this value serializes to.
    spec fn pretty_spec(&self) -> Seq<u8>;

    /// Appends the wire form of this value to `w`.
    fn pretty(&self, w: &mut Vec<u8>)
        ensures
            final(w)@ == old(w)@ + self.pretty_spec(),
    ;
}

impl Pretty for Comments {
    open spec fn pretty_spec(&self) -> Seq<u8> {
        pretty_comments_spec(self@)
    }

    fn pretty(&self, w: &mut Vec<u8>) {
        let text = self.text();
        let ghost w0 = w@;
        proof {
            assert(text@.subrange(0, text@.len() as int) =~= text@);
        }
        let mut start: usize = 0;
        while start < text.len()
            invariant
                start <= text@.len(),
                w@ + pretty_comments_spec(text@.subrange(start as int, text@.len() as int)) == w0
                    + pretty_comments_spec(text@),
            decreases text@.len() - start,
        {
            let ghost rem = text@.subrange(start as int, text@.len() as int);
            proof {
                lemma_line_end(text@, start as int);
            }
            match crate::bytes::find_byte_from(text, start, LF) {
                Some(e) => {
                    proof {
                        crate::input::lemma_line_end_at(text@, start as int, e as int);
                        crate::input::lemma_line_end_at(rem, 0, e - start);
                    }
                    push_byte(w, HASH);
                    let chunk = crate::bytes::subvec(text, start, e + 1);
                    push_vec(w, &chunk);
                    proof {
                        assert(rem.subrange(0, e - start + 1) =~= text@.subrange(
                            start as int,
                            e + 1,
                        ));
                        assert(rem.subrange(e - start + 1, rem.len() as int) =~= text@.subrange(
                            e + 1,
                            text@.len() as int,
                        ));
                    }
                    start = e + 1;
                },
                None => {
                    proof {
                        crate::input::lemma_line_end_at(text@, start as int, text@.len() as int);
                        crate::input::lemma_line_end_at(rem, 0, rem.len() as int);
                    }
                    push_byte(w, HASH);
                    let chunk = crate::bytes::subvec(text, start, text.len());
                    push_vec(w, &chunk);
                    push_byte(w, LF);
                    proof {
                        assert(text@.subrange(text@.len() as int, text@.len() as int)
                            =~= Seq::<u8>::empty());
                    }
                    start = text.len();
                },
            }
        }
        proof {
            assert(text@.subrange(text@.len() as int, text@.len() as int) =~= Seq::<u8>::empty());
        }
    }
}

impl<T: Pretty> Pretty for Commented<T> {
    open spec fn pretty_spec(&self) -> Seq<u8> {
        pretty_comments_spec(self.comments@) + self.value.pretty_spec()
    }

    fn pretty(&self, w: &mut Vec<u8>) {
        self.comments.pretty(w);
        self.value.pretty(w);
        proof {
            assert(w@ =~= old(w)@ + self.pretty_spec());
        }
    }
}

impl<T: Pretty> Pretty for Option<T> {
    open spec fn pretty_spec(&self) -> Seq<u8> {
        match self {
            Some(v) => v.pretty_spec(),
            None => Seq::empty(),
        }
    }

    fn pretty(&self, w: &mut Vec<u8>) {
        match self {
            Some(v) => v.pretty(w),
            None => {
                proof {
                    assert(w@ =~= old(w)@ + self.pretty_spec());
                }
            },
        }
    }
}

impl Pretty for Mark {
    open spec fn pretty_spec(&self) -> Seq<u8> {
        KW_MARK_COLON@ + dec_repr(self.mark as int) + seq![LF]
    }

    fn pretty(&self, w: &mut Vec<u8>) {
        push_bytes(w, &KW_MARK_COLON);
        push_u64_dec(w, self.mark);
        push_byte(w, LF);
        proof {
            assert(w@ =~= old(w)@ + self.pretty_spec());
        }
    }
}

impl Pretty for OriginalOid {
    open spec fn pretty_spec(&self) -> Seq<u8> {
        KW_ORIGINAL_OID_SP@ + self.oid@ + seq![LF]
    }

    fn pretty(&self, w: &mut Vec<u8>) {
        push_bytes(w, &KW_ORIGINAL_OID_SP);
        push_vec(w, self.oid.as_bytes());
        push_byte(w, LF);
        proof {
            assert(w@ =~= old(w)@ + self.pretty_spec());
        }
    }
}

impl Pretty for CountedData {
    open spec fn pretty_spec(&self) -> Seq<u8> {
        pretty_counted_spec(*self)
    }

    fn pretty(&self, w: &mut Vec<u8>) {
        push_bytes(w, &KW_DATA_SP);
        push_u64_dec(w, self.data.len() as u64);
        push_byte(w, LF);
        push_vec(w, &self.data);
        if self.optional_lf {
            push_byte(w, LF);
        }
        proof {
            assert(w@ =~= old(w)@ + self.pretty_spec());
        }
    }
}

impl Pretty for DelimitedData {
    open spec fn pretty_spec(&self) -> Seq<u8> {
        pretty_delimited_spec(*self)
    }

    fn pretty(&self, w: &mut Vec<u8>) {
        push_bytes(w, &KW_DATA_LTLT);
        push_vec(w, self.delim());
        push_byte(w, LF);
        push_vec(w, self.data());
        push_vec(w, self.delim());
        push_byte(w, LF);
        if self.has_optional_lf() {
            push_byte(w, LF);
        }
        proof {
            assert(w@ =~= old(w)@ + self.pretty_spec());
        }
    }
}

impl Pretty for Data {
    open spec fn pretty_spec(&self) -> Seq<u8> {
        match self {
            Data::Counted(d) => pretty_counted_spec(*d),
            Data::Delimited(d) => pretty_delimited_spec(*d),
        }
    }

    fn pretty(&self, w: &mut Vec<u8>) {
        match self {
            Data::Counted(d) => d.pretty(w),
            Data::Delimited(d) => d.pretty(w),
        }
    }
}

impl Pretty for BString {
    open spec fn pretty_spec(&self) -> Seq<u8> {
        self@
    }

    fn pretty(&self, w: &mut Vec<u8>) {
        push_vec(w, self.as_bytes());
    }
}

impl Pretty for Blob {
    open spec fn pretty_spec(&self) -> Seq<u8> {
        KW_BLOB_LF@ + self.mark.pretty_spec() + self.original_oid.pretty_spec()
            + self.data.pretty_spec()
    }

    fn pretty(&self, w: &mut Vec<u8>) {
        push_bytes(w, &KW_BLOB_LF);
        self.mark.pretty(w);
        self.original_oid.pretty(w);
        self.data.pretty(w);
        proof {
            assert(w@ =~= old(w)@ + self.pretty_spec());
        }
    }
}

impl Pretty for DataBuf {
    open spec fn pretty_spec(&self) -> Seq<u8> {
        self.dump_spec()
    }

    fn pretty(&self, w: &mut Vec<u8>) {
        self.dump(w);
    }
}

impl Pretty for OptionGit {
    open spec fn pretty_spec(&self) -> Seq<u8> {
        self.dump_spec()
    }

    fn pretty(&self, w: &mut Vec<u8>) {
        self.dump(w);
    }
}

impl Pretty for OptionOther {
    open spec fn pretty_spec(&self) -> Seq<u8> {
        self.dump_spec()
    }

    fn pretty(&self, w: &mut Vec<u8>) {
        self.dump(w);
    }
}

impl Pretty for FileSize {
    open spec fn pretty_spec(&self) -> Seq<u8> {
        self.dump_spec()
    }

    fn pretty(&self, w: &mut Vec<u8>) {
        self.dump(w);
    }
}

impl Pretty for crate::command::Mark {
    open spec fn pretty_spec(&self) -> Seq<u8> {
        self.dump_spec()
    }

    fn pretty(&self, w: &mut Vec<u8>) {
        self.dump(w);
    }
}

impl Pretty for crate::command::OriginalOid {
    open spec fn pretty_spec(&self) -> Seq<u8> {
        self.dump_spec()
    }

    fn pretty(&self, w: &mut Vec<u8>) {
        self.dump(w);
    }
}

} // verus!
