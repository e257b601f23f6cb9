//! The input layer: a line-oriented reader over the stream bytes with EOF
//! tracking, the data-section readers (counted and delimited, complete and
//! partial), and the buffered directive layer with one-directive lookahead.

use vstd::prelude::*;

use crate::bytes::{HASH, LF};
use crate::data::{DataReaderError, DataState};
use crate::parser::{ParseError, StreamError};
use crate::pool::BufPool;

verus! {

/// The index of the LF ending the line that starts at `pos`, or the length
/// of `s` when no LF follows.
pub open spec fn line_end(s: Seq<u8>, pos: int) -> int
    decreases s.len() - pos,
{
    if pos < 0 || pos >= s.len() {
        s.len() as int
    } else if s[pos] == LF {
        pos
    } else {
        line_end(s, pos + 1)
    }
}

/// `pos` advanced past one optional LF.
pub open spec fn skip_lf(s: Seq<u8>, pos: int) -> int {
    if 0 <= pos < s.len() && s[pos] == LF {
        pos + 1
    } else {
        pos
    }
}

pub proof fn lemma_line_end(s: Seq<u8>, pos: int)
    requires
        0 <= pos <= s.len(),
    ensures
        pos <= line_end(s, pos) <= s.len(),
        forall|k: int| pos <= k < line_end(s, pos) ==> s[k] != LF,
        line_end(s, pos) < s.len() ==> s[line_end(s, pos)] == LF,
    decreases s.len() - pos,
{
    if pos < s.len() && s[pos] != LF {
        lemma_line_end(s, pos + 1);
    }
}

pub proof fn lemma_line_end_at(s: Seq<u8>, pos: int, e: int)
    requires
        0 <= pos <= e <= s.len(),
        forall|k: int| pos <= k < e ==> s[k] != LF,
        e == s.len() || s[e] == LF,
    ensures
        line_end(s, pos) == e,
    decreases e - pos,
{
    if pos < e {
        lemma_line_end_at(s, pos + 1, e);
    }
}

/// Scanning for a delimiter line from `pos`: on success, the payload (the
/// non-delimiter lines, LF included) and the position just after the
/// delimiter line; `None` when the stream ends first.
pub open spec fn delim_scan(s: Seq<u8>, pos: int, delim: Seq<u8>) -> Option<(Seq<u8>, int)>
    decreases s.len() - pos,
    when 0 <= pos
    via delim_scan_dec
{
    if pos >= s.len() {
        None
    } else {
        let e = line_end(s, pos);
        if s.subrange(pos, e) == delim {
            Some((Seq::empty(), if e < s.len() { e + 1 } else { e }))
        } else if e >= s.len() {
            None
        } else {
            match delim_scan(s, e + 1, delim) {
                Some(r) => Some((s.subrange(pos, e + 1) + r.0, r.1)),
                None => None,
            }
        }
    }
}

#[via_fn]
proof fn delim_scan_dec(s: Seq<u8>, pos: int, delim: Seq<u8>) {
    if 0 <= pos && pos < s.len() {
        lemma_line_end(s, pos);
    }
}

pub proof fn lemma_delim_scan_bounds(s: Seq<u8>, pos: int, delim: Seq<u8>)
    requires
        0 <= pos <= s.len(),
    ensures
        match delim_scan(s, pos, delim) {
            Some(r) => pos <= r.1 <= s.len() && r.0.len() + pos <= r.1,
            None => true,
        },
    decreases s.len() - pos,
{
    if pos < s.len() {
        lemma_line_end(s, pos);
        let e = line_end(s, pos);
        if s.subrange(pos, e) == delim {
        } else if e < s.len() {
            lemma_delim_scan_bounds(s, e + 1, delim);
        }
    }
}

/// Input for a fast-export stream, held wholly in memory: the stream bytes
/// and a cursor.
pub struct Input {
    /// The stream bytes.
    pub src: Vec<u8>,
    /// The cursor: everything before it has been consumed.
    pub pos: usize,
    /// Whether the end of the stream has been reached by a read.
    pub eof: bool,
}

impl Input {
    pub open spec fn wf(&self) -> bool {
        self.pos <= self.src@.len() && (self.eof ==> self.pos == self.src@.len())
    }

    /// Creates input over the given stream bytes.
    pub fn new(src: Vec<u8>) -> (r: Input)
        ensures
            r.wf(),
            r.src@ == src@,
            r.pos == 0,
            !r.eof,
    {
        Input { src, pos: 0, eof: false }
    }

    /// Whether the end of the stream has been reached.
    pub fn eof(&self) -> (r: bool)
        ensures
            r == self.eof,
    {
        self.eof
    }

    /// Reads a line, stripping the LF delimiter. Lines may contain any byte
    /// except LF (NUL included). At the end of the stream, returns `None`
    /// and records EOF; a final line without LF is returned and records EOF.
    pub fn read_line(&mut self) -> (r: Option<Vec<u8>>)
        requires
            old(self).wf(),
            !old(self).eof,
        ensures
            final(self).wf(),
            final(self).src@ == old(self).src@,
            ({
                let s = old(self).src@;
                let e = line_end(s, old(self).pos as int);
                if old(self).pos == s.len() {
                    r is None && final(self).eof && final(self).pos == old(self).pos
                } else if e < s.len() {
                    match r {
                        Some(line) => line@ == s.subrange(old(self).pos as int, e)
                            && final(self).pos == e + 1 && !final(self).eof,
                        None => false,
                    }
                } else {
                    match r {
                        Some(line) => line@ == s.subrange(old(self).pos as int, e)
                            && final(self).pos == s.len() && final(self).eof,
                        None => false,
                    }
                }
            }),
    {
        if self.pos == self.src.len() {
            self.eof = true;
            return None;
        }
        match crate::bytes::find_byte_from(&self.src, self.pos, LF) {
            Some(e) => {
                proof {
                    lemma_line_end_at(self.src@, self.pos as int, e as int);
                }
                let line = crate::bytes::subvec(&self.src, self.pos, e);
                self.pos = e + 1;
                Some(line)
            },
            None => {
                proof {
                    lemma_line_end_at(self.src@, self.pos as int, self.src@.len() as int);
                }
                let line = crate::bytes::subvec(&self.src, self.pos, self.src.len());
                self.pos = self.src.len();
                self.eof = true;
                Some(line)
            },
        }
    }

    /// Skips a trailing LF, if one is next.
    pub fn skip_optional_lf(&mut self) -> (r: bool)
        requires
            old(self).wf(),
        ensures
            final(self).wf(),
            final(self).src@ == old(self).src@,
            final(self).eof == old(self).eof,
            final(self).pos == skip_lf(old(self).src@, old(self).pos as int),
            r == (final(self).pos != old(self).pos),
    {
        if self.pos < self.src.len() && self.src[self.pos] == LF {
            self.pos = self.pos + 1;
            true
        } else {
            false
        }
    }

    /// Reads a whole counted data section of `len` bytes and acknowledges
    /// the optional LF after it; fails when the stream ends first.
    pub fn read_counted_data_to_end(&mut self, len: u64) -> (r: Result<Vec<u8>, StreamError>)
        requires
            old(self).wf(),
        ensures
            final(self).wf(),
            final(self).src@ == old(self).src@,
            ({
                let s = old(self).src@;
                if old(self).pos + len <= s.len() {
                    match r {
                        Ok(v) => v@ == s.subrange(
                            old(self).pos as int,
                            old(self).pos + len,
                        ) && final(self).pos == skip_lf(s, old(self).pos + len) && final(self).eof
                            == old(self).eof,
                        Err(_) => false,
                    }
                } else {
                    r == Err::<Vec<u8>, StreamError>(
                        StreamError::Parse(ParseError::DataUnexpectedEof),
                    ) && final(self).pos == s.len() && final(self).eof
                }
            }),
    {
        let avail = self.src.len() - self.pos;
        if len > avail as u64 {
            self.pos = self.src.len();
            self.eof = true;
            return Err(StreamError::Parse(ParseError::DataUnexpectedEof));
        }
        let n = len as usize;
        let v = crate::bytes::subvec(&self.src, self.pos, self.pos + n);
        self.pos = self.pos + n;
        self.skip_optional_lf();
        Ok(v)
    }

    /// Reads a whole delimited data section: lines up to (and discarding)
    /// the delimiter line, acknowledging the optional LF after it; fails
    /// when the stream ends before the delimiter.
    pub fn read_delimited_data_to_end(&mut self, delim: &Vec<u8>) -> (r: Result<
        Vec<u8>,
        StreamError,
    >)
        requires
            old(self).wf(),
        ensures
            final(self).wf(),
            final(self).src@ == old(self).src@,
            ({
                let s = old(self).src@;
                match delim_scan(s, old(self).pos as int, delim@) {
                    Some(payload_end) => match r {
                        Ok(v) => v@ == payload_end.0 && final(self).pos == skip_lf(
                            s,
                            payload_end.1,
                        ),
                        Err(_) => false,
                    },
                    None => r == Err::<Vec<u8>, StreamError>(
                        StreamError::Parse(ParseError::UnterminatedData),
                    ) && final(self).pos == s.len() && final(self).eof,
                }
            }),
    {
        let ghost s = self.src@;
        let ghost pos0 = self.pos as int;
        let mut buf: Vec<u8> = Vec::new();
        loop
            invariant
                self.wf(),
                self.src@ == s,
                s == old(self).src@,
                pos0 == old(self).pos as int,
                pos0 <= self.pos as int,
                delim_scan(s, pos0, delim@) == match delim_scan(s, self.pos as int, delim@) {
                    Some(r_) => Some::<(Seq<u8>, int)>((buf@ + r_.0, r_.1)),
                    None => None::<(Seq<u8>, int)>,
                },
            decreases s.len() - self.pos,
        {
            if self.eof {
                return Err(StreamError::Parse(ParseError::UnterminatedData));
            }
            let ghost pos_it = self.pos as int;
            let ghost prev_buf = buf@;
            match self.read_line() {
                None => {
                    return Err(StreamError::Parse(ParseError::UnterminatedData));
                },
                Some(line) => {
                    let ghost e = line_end(s, pos_it);
                    let ghost line0 = line@;
                    proof {
                        lemma_line_end(s, pos_it);
                    }
                    if crate::bytes::bytes_eq(&line, delim) {
                        self.skip_optional_lf();
                        proof {
                            assert(delim_scan(s, pos_it, delim@) == Some::<(Seq<u8>, int)>(
                                (Seq::<u8>::empty(), if e < s.len() { e + 1 } else { e }),
                            ));
                            assert(prev_buf + Seq::<u8>::empty() =~= prev_buf);
                        }
                        return Ok(buf);
                    }
                    // Append the line, LF included, to the payload.
                    let mut line2 = line;
                    if !self.eof {
                        line2.push(LF);
                    }
                    proof {
                        if e < s.len() {
                            assert(line2@ == line0.push(LF));
                            assert(line2@ =~= s.subrange(pos_it, e + 1));
                        }
                    }
                    let ghost lv = line2@;
                    buf.append(&mut line2);
                    proof {
                        if e < s.len() {
                            assert(buf@ == prev_buf + lv);
                            assert(buf@ == prev_buf + s.subrange(pos_it, e + 1));
                            assert(delim_scan(s, pos_it, delim@) == match delim_scan(
                                s,
                                e + 1,
                                delim@,
                            ) {
                                Some(r_) => Some::<(Seq<u8>, int)>(
                                    (s.subrange(pos_it, e + 1) + r_.0, r_.1),
                                ),
                                None => None::<(Seq<u8>, int)>,
                            });
                            let scan_next = delim_scan(s, e + 1, delim@);
                            if scan_next is Some {
                                let p = scan_next->Some_0.0;
                                assert(prev_buf + (s.subrange(pos_it, e + 1) + p) =~= buf@ + p);
                            }
                        } else {
                            // Final line without LF and not the delimiter:
                            // the scan fails.
                            assert(delim_scan(s, pos_it, delim@) is None);
                        }
                    }
                },
            }
        }
    }
}

/// The exact behavior of [`Input::read_data`], relating the states before
/// and after to the result.
pub open spec fn read_data_post(
    pre_in: Input,
    pre_s: DataState,
    post_in: Input,
    post_s: DataState,
    max: usize,
    r: Result<Vec<u8>, StreamError>,
) -> bool {

                let src = pre_in.src@;
                let pos = pre_in.pos as int;
                if pre_s.closed {
                    &&& r == Err::<Vec<u8>, StreamError>(
                        StreamError::DataReader(DataReaderError::Closed),
                    )
                    &&& post_in == pre_in
                    &&& post_s == pre_s
                } else if max == 0 || pre_s.finished {
                    &&& (r matches Ok(v) && v@ == Seq::<u8>::empty())
                    &&& post_in == pre_in
                    &&& post_s == pre_s
                } else if pre_s.is_counted {
                    if pre_in.eof {
                        &&& r == Err::<Vec<u8>, StreamError>(
                            StreamError::Parse(ParseError::DataUnexpectedEof),
                        )
                        &&& post_in == pre_in
                        &&& post_s == pre_s
                    } else if pos == src.len() {
                        &&& r == Err::<Vec<u8>, StreamError>(
                            StreamError::Parse(ParseError::DataUnexpectedEof),
                        )
                        &&& post_in.pos == pre_in.pos
                        &&& post_in.eof
                        &&& post_s == pre_s
                    } else {
                        let n = vstd::math::min(
                            vstd::math::min(
                                pre_s.len - pre_s.len_read,
                                max as int,
                            ),
                            src.len() - pos,
                        );
                        let done = pre_s.len_read + n == pre_s.len;
                        &&& (r matches Ok(v) && v@ == src.subrange(pos, pos + n))
                        &&& post_s.len_read == pre_s.len_read + n
                        &&& post_s.finished == done
                        &&& post_s.closed == false
                        &&& post_s.is_counted
                        &&& post_s.len == pre_s.len
                        &&& post_in.pos == if done {
                            skip_lf(src, pos + n)
                        } else {
                            pos + n
                        }
                        &&& post_in.eof == pre_in.eof
                    }
                } else {
                    if pre_s.line_offset < pre_s.line_buf@.len() {
                        let n = vstd::math::min(
                            pre_s.line_buf@.len() - pre_s.line_offset,
                            max as int,
                        );
                        &&& (r matches Ok(v) && v@ == pre_s.line_buf@.subrange(
                            pre_s.line_offset as int,
                            pre_s.line_offset + n,
                        ))
                        &&& post_s.line_offset == pre_s.line_offset + n
                        &&& post_s.len_read == pre_s.len_read + n
                        &&& post_s.line_buf@ == pre_s.line_buf@
                        &&& post_s.finished == pre_s.finished
                        &&& post_s.closed == pre_s.closed
                        &&& post_s.is_counted == pre_s.is_counted
                        &&& post_s.delim@ == pre_s.delim@
                        &&& post_in == pre_in
                    } else if pre_in.eof || pos == src.len() {
                        &&& r == Err::<Vec<u8>, StreamError>(
                            StreamError::Parse(ParseError::UnterminatedData),
                        )
                        &&& post_in.eof
                        &&& post_in.pos == pre_in.pos
                        &&& post_s == pre_s
                    } else {
                        let e = line_end(src, pos);
                        let line = src.subrange(pos, e);
                        if line == pre_s.delim@ {
                            &&& (r matches Ok(v) && v@ == Seq::<u8>::empty())
                            &&& post_s.finished
                            &&& post_s.closed == pre_s.closed
                            &&& post_s.len_read == pre_s.len_read
                            &&& post_s.len == pre_s.len
                            &&& post_s.is_counted == pre_s.is_counted
                            &&& post_s.delim@ == pre_s.delim@
                            &&& post_s.line_buf@ == pre_s.line_buf@
                            &&& post_s.line_offset == pre_s.line_offset
                            &&& post_in.pos == skip_lf(
                                src,
                                if e < src.len() {
                                    e + 1
                                } else {
                                    e
                                },
                            )
                        } else {
                            let lbuf = if e < src.len() {
                                src.subrange(pos, e + 1)
                            } else {
                                line
                            };
                            let n = vstd::math::min(lbuf.len() as int, max as int);
                            &&& (r matches Ok(v) && v@ == lbuf.subrange(0, n))
                            &&& post_s.line_buf@ == lbuf
                            &&& post_s.line_offset == n
                            &&& post_s.len_read == pre_s.len_read + n
                            &&& post_s.finished == pre_s.finished
                            &&& post_s.closed == pre_s.closed
                            &&& post_s.delim@ == pre_s.delim@
                            &&& post_s.is_counted == pre_s.is_counted
                            &&& post_in.pos == if e < src.len() {
                                e + 1
                            } else {
                                src.len() as int
                            }
                        }
                    }
                }
            
}

/// The exact behavior of [`Input::skip_data`], relating the states before
/// and after to the result.
pub open spec fn skip_data_post(
    pre_in: Input,
    pre_s: DataState,
    post_in: Input,
    post_s: DataState,
    r: Result<u64, StreamError>,
) -> bool {

                let src = pre_in.src@;
                let pos = pre_in.pos as int;
                if pre_s.closed {
                    &&& r == Err::<u64, StreamError>(
                        StreamError::DataReader(DataReaderError::Closed),
                    )
                    &&& post_in == pre_in
                    &&& post_s == pre_s
                } else if pre_s.finished {
                    &&& r == Ok::<u64, StreamError>(0)
                    &&& post_in == pre_in
                    &&& post_s == pre_s
                } else if pre_s.is_counted {
                    let need = pre_s.len - pre_s.len_read;
                    if pos + need <= src.len() {
                        &&& r == Ok::<u64, StreamError>(need as u64)
                        &&& post_s.finished
                        &&& post_s.closed == pre_s.closed
                        &&& post_s.len_read == pre_s.len
                        &&& post_in.pos == skip_lf(src, pos + need)
                        &&& post_in.eof == pre_in.eof
                    } else {
                        &&& r == Err::<u64, StreamError>(
                            StreamError::Parse(ParseError::DataUnexpectedEof),
                        )
                        &&& post_in.pos == src.len()
                        &&& post_in.eof
                        &&& post_s == pre_s
                    }
                } else {
                    let pending = pre_s.line_buf@.len() - pre_s.line_offset;
                    match delim_scan(src, pos, pre_s.delim@) {
                        Some(payload_end) => {
                            &&& r == Ok::<u64, StreamError>((pending + payload_end.0.len()) as u64)
                            &&& post_s.finished
                            &&& post_s.closed == pre_s.closed
                            &&& post_in.pos == skip_lf(src, payload_end.1)
                        },
                        None => {
                            &&& r == Err::<u64, StreamError>(
                                StreamError::Parse(ParseError::UnterminatedData),
                            )
                            &&& post_in.eof
                            &&& post_in.pos == src.len()
                            &&& post_s.finished == pre_s.finished
                            &&& post_s.closed == pre_s.closed
                        },
                    }
                }
            
}

/// Well-formedness of a data-reading session: the look-ahead offset is in
/// bounds, counted progress never exceeds the length, and for delimited
/// streams everything counted so far came from consumed input (which bounds
/// the counters).
pub open spec fn data_wf(inp: Input, s: DataState) -> bool {
    &&& inp.wf()
    &&& s.line_offset <= s.line_buf@.len()
    &&& (s.is_counted ==> s.len_read <= s.len && (!s.finished ==> s.len_read < s.len))
    &&& (!s.is_counted ==> s.len_read + (s.line_buf@.len() - s.line_offset) <= inp.pos)
}

impl Input {
    /// Reads up to `max` bytes from the data stream governed by `s`,
    /// returning an empty vector only when `max` is zero or the stream is
    /// finished. When the read completes the stream, the optional LF after
    /// it is acknowledged.
    pub fn read_data(&mut self, s: &mut DataState, max: usize) -> (r: Result<Vec<u8>, StreamError>)
        requires
            data_wf(*old(self), *old(s)),
        ensures
            data_wf(*final(self), *final(s)),
            final(self).src@ == old(self).src@,
            read_data_post(*old(self), *old(s), *final(self), *final(s), max, r),
    {
        if s.closed {
            return Err(StreamError::DataReader(DataReaderError::Closed));
        }
        if max == 0 || s.finished {
            return Ok(Vec::new());
        }
        if s.is_counted {
            if self.eof {
                return Err(StreamError::Parse(ParseError::DataUnexpectedEof));
            }
            if self.pos == self.src.len() {
                self.eof = true;
                return Err(StreamError::Parse(ParseError::DataUnexpectedEof));
            }
            let need = s.len - s.len_read;
            let avail = self.src.len() - self.pos;
            let mut n: usize = if need > avail as u64 {
                avail
            } else {
                need as usize
            };
            if n > max {
                n = max;
            }
            let v = crate::bytes::subvec(&self.src, self.pos, self.pos + n);
            self.pos = self.pos + n;
            s.len_read = s.len_read + n as u64;
            if s.len_read == s.len {
                s.finished = true;
                self.skip_optional_lf();
            }
            Ok(v)
        } else {
            if s.line_offset < s.line_buf.len() {
                let rem = s.line_buf.len() - s.line_offset;
                let n: usize = if rem > max {
                    max
                } else {
                    rem
                };
                let v = crate::bytes::subvec(&s.line_buf, s.line_offset, s.line_offset + n);
                s.line_offset = s.line_offset + n;
                s.len_read = s.len_read + n as u64;
                return Ok(v);
            }
            if self.eof {
                return Err(StreamError::Parse(ParseError::UnterminatedData));
            }
            if self.pos == self.src.len() {
                self.eof = true;
                return Err(StreamError::Parse(ParseError::UnterminatedData));
            }
            let ghost src = self.src@;
            let ghost pos0 = self.pos as int;
            proof {
                lemma_line_end(src, pos0);
            }
            let line = match self.read_line() {
                Some(line) => line,
                None => {
                    return Err(StreamError::Parse(ParseError::UnterminatedData));
                },
            };
            if crate::bytes::bytes_eq(&line, &s.delim) {
                s.finished = true;
                self.skip_optional_lf();
                return Ok(Vec::new());
            }
            let mut lbuf = line;
            if !self.eof {
                lbuf.push(LF);
            }
            proof {
                lemma_line_end(src, pos0);
                if line_end(src, pos0) < src.len() {
                    assert(lbuf@ =~= src.subrange(pos0, line_end(src, pos0) + 1));
                }
            }
            let n: usize = if lbuf.len() > max {
                max
            } else {
                lbuf.len()
            };
            let v = crate::bytes::subvec(&lbuf, 0, n);
            s.line_buf = lbuf;
            s.line_offset = n;
            s.len_read = s.len_read + n as u64;
            Ok(v)
        }
    }

    /// Reads to the end of the data stream governed by `s`, returning how
    /// many bytes were skipped, and acknowledges the optional LF after it.
    pub fn skip_data(&mut self, s: &mut DataState) -> (r: Result<u64, StreamError>)
        requires
            data_wf(*old(self), *old(s)),
        ensures
            data_wf(*final(self), *final(s)),
            final(self).src@ == old(self).src@,
            skip_data_post(*old(self), *old(s), *final(self), *final(s), r),
    {
        if s.closed {
            return Err(StreamError::DataReader(DataReaderError::Closed));
        }
        if s.finished {
            return Ok(0);
        }
        if s.is_counted {
            let need = s.len - s.len_read;
            let avail = self.src.len() - self.pos;
            if need > avail as u64 {
                self.pos = self.src.len();
                self.eof = true;
                return Err(StreamError::Parse(ParseError::DataUnexpectedEof));
            }
            self.pos = self.pos + need as usize;
            s.len_read = s.len;
            s.finished = true;
            self.skip_optional_lf();
            Ok(need)
        } else {
            let pending = s.line_buf.len() - s.line_offset;
            s.line_offset = s.line_buf.len();
            proof {
                lemma_delim_scan_bounds(self.src@, self.pos as int, s.delim@);
            }
            match self.read_delimited_data_to_end(&s.delim) {
                Ok(payload) => {
                    s.len_read = s.len_read + pending as u64 + payload.len() as u64;
                    s.finished = true;
                    Ok(pending as u64 + payload.len() as u64)
                },
                Err(e) => Err(e),
            }
        }
    }
}

/// The next non-comment line at or after `pos`, with the position just
/// after it: comment lines start with `#` at column zero and are skipped.
/// `None` when the stream ends first (a trailing comment without LF is
/// swallowed).
pub open spec fn next_directive_at(s: Seq<u8>, pos: int) -> Option<(Seq<u8>, int)>
    decreases s.len() - pos,
    when 0 <= pos
    via next_directive_at_dec
{
    if pos >= s.len() {
        None
    } else {
        let e = line_end(s, pos);
        let line = s.subrange(pos, e);
        if line.len() > 0 && line[0] == HASH {
            if e >= s.len() {
                None
            } else {
                next_directive_at(s, e + 1)
            }
        } else {
            Some((line, if e < s.len() {
                e + 1
            } else {
                e
            }))
        }
    }
}

#[via_fn]
proof fn next_directive_at_dec(s: Seq<u8>, pos: int) {
    if 0 <= pos && pos < s.len() {
        lemma_line_end(s, pos);
    }
}

pub proof fn lemma_next_directive_bounds(s: Seq<u8>, pos: int)
    requires
        0 <= pos <= s.len(),
    ensures
        match next_directive_at(s, pos) {
            Some(ld) => pos < ld.1 <= s.len(),
            None => true,
        },
    decreases s.len() - pos,
{
    if pos < s.len() {
        lemma_line_end(s, pos);
        let e = line_end(s, pos);
        let line = s.subrange(pos, e);
        if line.len() > 0 && line[0] == HASH && e < s.len() {
            lemma_next_directive_bounds(s, e + 1);
        }
    }
}

/// The maximal run of consecutive directives at `pos` that begin with
/// `prefix`: their remainders after the prefix, and the position from which
/// the first non-matching directive (or the end) is read.
pub open spec fn prefixed_run(s: Seq<u8>, pos: int, prefix: Seq<u8>) -> (Seq<Seq<u8>>, int)
    decreases s.len() - pos,
    when 0 <= pos <= s.len()
    via prefixed_run_dec
{
    match next_directive_at(s, pos) {
        None => (Seq::empty(), pos),
        Some(ld) => if crate::bytes::starts_with(ld.0, prefix) {
            let rec = prefixed_run(s, ld.1, prefix);
            (seq![ld.0.subrange(prefix.len() as int, ld.0.len() as int)] + rec.0, rec.1)
        } else {
            (Seq::empty(), pos)
        },
    }
}

#[via_fn]
proof fn prefixed_run_dec(s: Seq<u8>, pos: int, prefix: Seq<u8>) {
    if 0 <= pos <= s.len() {
        lemma_next_directive_bounds(s, pos);
    }
}

/// The number of lines (excluding data streams) from before the current
/// command that are kept for diagnostic context.
pub const CONTEXT_LINES_BEFORE: usize = 20;

/// The buffered directive layer: the input, the pool of recent lines, and
/// the one-directive lookahead flag.
pub struct BufInput {
    pub input: Input,
    pub lines: BufPool,
    /// Whether the newest pooled line was peeked but not yet consumed.
    pub unread: bool,
}

impl BufInput {
    pub open spec fn wf(&self) -> bool {
        self.input.wf() && self.lines.wf() && (self.unread ==> self.lines@.len() > 0)
    }

    /// The directive the next consumption will yield: the unread peeked
    /// line, or the next directive of the input.
    pub open spec fn cur(&self) -> Option<Seq<u8>> {
        if self.unread {
            Some(self.lines@.last())
        } else {
            match next_directive_at(self.input.src@, self.input.pos as int) {
                Some(ld) => Some(ld.0),
                None => None,
            }
        }
    }

    /// The input position once the current directive has been peeked.
    pub open spec fn peeked_pos(&self) -> int {
        if self.unread {
            self.input.pos as int
        } else {
            match next_directive_at(self.input.src@, self.input.pos as int) {
                Some(ld) => ld.1,
                None => self.input.src@.len() as int,
            }
        }
    }

    /// Creates a buffered layer over `input`.
    pub fn new(input: Input) -> (r: BufInput)
        requires
            input.wf(),
        ensures
            r.wf(),
            r.input == input,
            r.lines@ == Seq::<Seq<u8>>::empty(),
            !r.unread,
    {
        BufInput { input, lines: BufPool::new(), unread: false }
    }

    /// Truncates the contextual lines kept for diagnostics to a fixed
    /// amount, keeping an unread peeked line alive.
    pub fn truncate_context(&mut self)
        requires
            old(self).wf(),
        ensures
            final(self).wf(),
            final(self).input == old(self).input,
            final(self).unread == old(self).unread,
            final(self).cur() == old(self).cur(),
    {
        let keep = if self.unread {
            CONTEXT_LINES_BEFORE + 1
        } else {
            CONTEXT_LINES_BEFORE
        };
        let ghost pre = self.lines@;
        self.lines.truncate_back(keep);
        proof {
            if pre.len() > keep {
                assert(self.lines@.len() == keep);
                if self.unread {
                    assert(self.lines@.last() == pre.last());
                }
            }
        }
    }

    /// Reads the next directive line from the input, pooling every line read
    /// and discarding comments.
    fn read_directive(&mut self) -> (r: Option<Vec<u8>>)
        requires
            old(self).wf(),
            !old(self).unread,
        ensures
            final(self).wf(),
            !final(self).unread,
            final(self).input.src@ == old(self).input.src@,
            old(self).input.pos <= final(self).input.pos,
            ({
                let s = old(self).input.src@;
                match next_directive_at(s, old(self).input.pos as int) {
                    Some(ld) => match r {
                        Some(line) => line@ == ld.0 && final(self).input.pos == ld.1 && final(self).lines@.len() > 0 && final(self).lines@.last() == ld.0,
                        None => false,
                    },
                    None => r is None && final(self).input.pos == s.len() && final(self).input.eof,
                }
            }),
    {
        let ghost s = self.input.src@;
        let ghost pos0 = self.input.pos as int;
        loop
            invariant
                self.wf(),
                !self.unread,
                self.input.src@ == s,
                s == old(self).input.src@,
                pos0 == old(self).input.pos as int,
                pos0 <= self.input.pos as int,
                next_directive_at(s, self.input.pos as int) == next_directive_at(s, pos0),
                self.input.eof ==> next_directive_at(s, pos0) is None,
            decreases s.len() - self.input.pos,
        {
            if self.input.eof() {
                return None;
            }
            let ghost pos_it = self.input.pos as int;
            proof {
                lemma_line_end(s, pos_it);
            }
            match self.input.read_line() {
                None => {
                    return None;
                },
                Some(line) => {
                    self.lines.push_back(crate::bytes::subvec(&line, 0, line.len()));
                    proof {
                        assert(self.lines@.last() =~= line@);
                    }
                    if line.len() == 0 || line[0] != HASH {
                        return Some(line);
                    }
                },
            }
        }
    }

    /// Reads the next directive without consuming it.
    pub fn peek_directive(&mut self) -> (r: Option<Vec<u8>>)
        requires
            old(self).wf(),
        ensures
            final(self).wf(),
            final(self).input.src@ == old(self).input.src@,
            old(self).input.pos <= final(self).input.pos,
            ({
                match old(self).cur() {
                    Some(line) => (r matches Some(v) && v@ == line) && final(self).unread && final(self).lines@.len() > 0 && final(self).lines@.last() == line && final(self).input.pos
                        == old(self).peeked_pos(),
                    None => r is None && !final(self).unread && final(self).input.pos == old(self).peeked_pos() && final(self).input.eof,
                }
            }),
            final(self).cur() == old(self).cur(),
    {
        if self.unread {
            match self.lines.back() {
                Some(b) => {
                    let line = crate::bytes::subvec(b, 0, b.len());
                    proof {
                        assert(line@ =~= self.lines@.last());
                    }
                    Some(line)
                },
                None => {
                    proof {
                        assert(false);
                    }
                    None
                },
            }
        } else {
            match self.read_directive() {
                Some(line) => {
                    self.unread = true;
                    Some(line)
                },
                None => None,
            }
        }
    }

    /// Consumes the previously peeked directive.
    pub fn bump_directive(&mut self)
        requires
            old(self).wf(),
        ensures
            final(self).wf(),
            !final(self).unread,
            final(self).input == old(self).input,
            final(self).lines@ == old(self).lines@,
    {
        self.unread = false;
    }

    /// Reads the next directive and consumes it.
    pub fn next_directive(&mut self) -> (r: Option<Vec<u8>>)
        requires
            old(self).wf(),
        ensures
            final(self).wf(),
            final(self).input.src@ == old(self).input.src@,
            old(self).input.pos <= final(self).input.pos,
            !final(self).unread,
            ({
                match old(self).cur() {
                    Some(line) => (r matches Some(v) && v@ == line) && final(self).lines@.len() > 0
                        && final(self).lines@.last() == line && final(self).input.pos == old(self).peeked_pos(),
                    None => r is None && final(self).input.pos == old(self).peeked_pos() && final(self).input.eof,
                }
            }),
    {
        let r = self.peek_directive();
        self.bump_directive();
        r
    }

    /// Marks the just-consumed directive as unread, so the next peek yields
    /// it again.
    pub fn unread_directive(&mut self)
        requires
            old(self).wf(),
            !old(self).unread,
            old(self).lines@.len() > 0,
        ensures
            final(self).wf(),
            final(self).unread,
            final(self).input == old(self).input,
            final(self).lines@ == old(self).lines@,
            final(self).cur() == Some(old(self).lines@.last()),
    {
        self.unread = true;
    }

    /// Peeks the next directive; if it begins with `prefix`, consumes it and
    /// returns the remainder after the prefix, else consumes nothing.
    pub fn parse_directive(&mut self, prefix: &[u8]) -> (r: Option<Vec<u8>>)
        requires
            old(self).wf(),
        ensures
            final(self).wf(),
            final(self).input.src@ == old(self).input.src@,
            old(self).input.pos <= final(self).input.pos,
            ({
                match old(self).cur() {
                    Some(line) => {
                        if crate::bytes::starts_with(line, prefix@) {
                            (r matches Some(v) && v@ == line.subrange(
                                prefix@.len() as int,
                                line.len() as int,
                            )) && !final(self).unread && final(self).input.pos == old(self).peeked_pos() && final(self).lines@.len() > 0 && final(self).lines@.last() == line
                        } else {
                            r is None && final(self).unread && final(self).input.pos == old(self).peeked_pos() && final(self).cur() == old(self).cur() && final(self).lines@.len() > 0 && final(self).lines@.last() == line
                        }
                    },
                    None => r is None && !final(self).unread && final(self).cur() == old(self).cur() && final(self).input.pos == old(self).peeked_pos() && final(self).input.eof,
                }
            }),
    {
        match self.peek_directive() {
            Some(line) => {
                match crate::bytes::strip_prefix(&line, prefix) {
                    Some(rest) => {
                        self.bump_directive();
                        Some(rest)
                    },
                    None => None,
                }
            },
            None => None,
        }
    }

    /// Collects the remainders of as many consecutive directives beginning
    /// with `prefix` as exist.
    pub fn parse_directive_many(&mut self, prefix: &[u8]) -> (r: Vec<Vec<u8>>)
        requires
            old(self).wf(),
        ensures
            final(self).wf(),
            final(self).input.src@ == old(self).input.src@,
            old(self).input.pos <= final(self).input.pos,
            ({
                let s = old(self).input.src@;
                let head = old(self).cur();
                if old(self).unread {
                    let line = old(self).lines@.last();
                    if crate::bytes::starts_with(line, prefix@) {
                        crate::pool::views_of(r@) == seq![
                            line.subrange(prefix@.len() as int, line.len() as int),
                        ] + prefixed_run(s, old(self).input.pos as int, prefix@).0
                    } else {
                        crate::pool::views_of(r@) == Seq::<Seq<u8>>::empty()
                    }
                } else {
                    crate::pool::views_of(r@) == prefixed_run(
                        s,
                        old(self).input.pos as int,
                        prefix@,
                    ).0
                }
            }),
            match final(self).cur() {
                Some(l) => !crate::bytes::starts_with(l, prefix@),
                None => true,
            },
    {
        let mut out: Vec<Vec<u8>> = Vec::new();
        let ghost s = self.input.src@;
        loop
            invariant
                self.wf(),
                self.input.src@ == s,
                s == old(self).input.src@,
                old(self).input.pos <= self.input.pos,
                0 <= self.input.pos as int <= s.len(),
                ({
                    let whole = if old(self).unread {
                        let line = old(self).lines@.last();
                        if crate::bytes::starts_with(line, prefix@) {
                            seq![line.subrange(prefix@.len() as int, line.len() as int)]
                                + prefixed_run(s, old(self).input.pos as int, prefix@).0
                        } else {
                            Seq::<Seq<u8>>::empty()
                        }
                    } else {
                        prefixed_run(s, old(self).input.pos as int, prefix@).0
                    };
                    let here = if self.unread {
                        let line = self.lines@.last();
                        if crate::bytes::starts_with(line, prefix@) {
                            seq![line.subrange(prefix@.len() as int, line.len() as int)]
                                + prefixed_run(s, self.input.pos as int, prefix@).0
                        } else {
                            Seq::<Seq<u8>>::empty()
                        }
                    } else {
                        prefixed_run(s, self.input.pos as int, prefix@).0
                    };
                    whole == crate::pool::views_of(out@) + here
                }),
            decreases s.len() - self.input.pos + if self.unread {
                1int
            } else {
                0int
            },
        {
            let ghost pre = *self;
            let ghost pre_out = out@;
            proof {
                lemma_next_directive_bounds(s, self.input.pos as int);
            }
            match self.parse_directive(prefix) {
                Some(rest) => {
                    out.push(rest);
                    proof {
                        crate::pool::lemma_views_of_push(pre_out, out@[out@.len() - 1]);
                        let line = pre.cur()->Some_0;
                        let stripped = line.subrange(prefix@.len() as int, line.len() as int);
                        if pre.unread {
                            // Consumed the unread head; the run continues
                            // from the unchanged input position.
                            assert(crate::pool::views_of(pre_out) + (seq![stripped]
                                + prefixed_run(s, pre.input.pos as int, prefix@).0) =~= (
                            crate::pool::views_of(pre_out) + seq![stripped]) + prefixed_run(
                                s,
                                self.input.pos as int,
                                prefix@,
                            ).0);
                        } else {
                            let ld = next_directive_at(s, pre.input.pos as int)->Some_0;
                            assert(prefixed_run(s, pre.input.pos as int, prefix@).0 == seq![
                                stripped,
                            ] + prefixed_run(s, ld.1, prefix@).0);
                            assert(crate::pool::views_of(pre_out) + (seq![stripped]
                                + prefixed_run(s, self.input.pos as int, prefix@).0) =~= (
                            crate::pool::views_of(pre_out) + seq![stripped]) + prefixed_run(
                                s,
                                self.input.pos as int,
                                prefix@,
                            ).0);
                        }
                    }
                },
                None => {
                    proof {
                        if pre.cur() is Some {
                            let line = pre.cur()->Some_0;
                            assert(!crate::bytes::starts_with(line, prefix@));
                            if !self.unread {
                                assert(false);
                            }
                            if !pre.unread {
                                assert(prefixed_run(s, pre.input.pos as int, prefix@).0
                                    =~= Seq::<Seq<u8>>::empty());
                            }
                        } else {
                            if !pre.unread {
                                assert(prefixed_run(s, pre.input.pos as int, prefix@).0
                                    =~= Seq::<Seq<u8>>::empty());
                            }
                        }
                        assert(crate::pool::views_of(out@) + Seq::<Seq<u8>>::empty() =~= crate::pool::views_of(out@));
                    }
                    return out;
                },
            }
        }
    }

    /// Skips a trailing LF, if one is next, pooling a blank line for
    /// context when it does.
    pub fn skip_optional_lf(&mut self)
        requires
            old(self).wf(),
            !old(self).unread,
        ensures
            final(self).wf(),
            !final(self).unread,
            final(self).input.src@ == old(self).input.src@,
            final(self).input.eof == old(self).input.eof,
            old(self).input.pos <= final(self).input.pos,
            final(self).input.pos == skip_lf(old(self).input.src@, old(self).input.pos as int),
    {
        if self.input.skip_optional_lf() {
            self.lines.push_back(Vec::new());
        }
    }
}

} // verus!
