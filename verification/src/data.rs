//! The state block for reading one data section: counted or delimited
//! framing, progress and termination flags, and the one-line look-ahead
//! buffer that lets delimited payloads be read less than one line at a time.

use vstd::prelude::*;

use crate::command::DataHeader;

verus! {

/// An error from the data-stream reader.
#[derive(Clone, Copy, Debug, PartialEq, Eq, Hash, Structural)]
pub enum DataReaderError {
    /// A data stream can only be opened once.
    AlreadyOpened,
    /// The data stream was not read to completion before the next command
    /// was parsed. To close it early, use `skip_rest`.
    Unfinished,
    /// The data reader has already been closed.
    Closed,
}

/// The state for reading a data stream. The header is stored here, instead
/// of using the one in the blob, so that the stream can be skipped when the
/// caller does not finish reading it.
#[derive(Clone, Debug, PartialEq, Eq)]
pub struct DataState {
    /// Whether the data stream has been read to completion.
    pub finished: bool,
    /// Whether the data reader has been closed.
    pub closed: bool,
    /// Whether the data stream is counted or delimited.
    pub is_counted: bool,
    /// The number of bytes read from the data stream.
    pub len_read: u64,
    /// The total number of bytes for counted data.
    pub len: u64,
    /// The delimiter for delimited data.
    pub delim: Vec<u8>,
    /// A buffer holding the rest of the current line in delimited data.
    pub line_buf: Vec<u8>,
    /// The offset into `line_buf` at which reading resumes.
    pub line_offset: usize,
}

impl DataState {
    /// Creates the state for before any data section: finished and closed.
    pub fn new() -> (r: DataState)
        ensures
            r.finished,
            r.closed,
            !r.is_counted,
            r.len_read == 0,
            r.len == 0,
            r.delim@.len() == 0,
            r.line_buf@.len() == 0,
            r.line_offset == 0,
    {
        DataState {
            finished: true,
            closed: true,
            is_counted: false,
            len_read: 0,
            len: 0,
            delim: Vec::new(),
            line_buf: Vec::new(),
            line_offset: 0,
        }
    }

    /// Initializes the state for the data section described by `header`. An
    /// empty counted section begins finished.
    pub fn init(&mut self, header: &DataHeader)
        ensures
            final(self).closed == false,
            final(self).len_read == 0,
            final(self).line_buf@.len() == 0,
            final(self).line_offset == 0,
            match header {
                DataHeader::Counted { len } => final(self).is_counted && final(self).len == len
                    && final(self).finished == (*len == 0u64),
                DataHeader::Delimited { delim } => !final(self).is_counted && final(self).delim@
                    == delim@ && !final(self).finished,
            },
    {
        self.closed = false;
        self.len_read = 0;
        self.line_buf = Vec::new();
        self.line_offset = 0;
        match header {
            DataHeader::Counted { len } => {
                self.is_counted = true;
                self.len = *len;
                self.finished = *len == 0;
            },
            DataHeader::Delimited { delim } => {
                self.is_counted = false;
                self.delim = crate::bytes::subvec(delim, 0, delim.len());
                proof {
                    assert(self.delim@ =~= delim@);
                }
                self.finished = false;
            },
        }
    }

    /// The header this state was initialized from.
    pub fn as_header(&self) -> (r: DataHeader)
        ensures
            if self.is_counted {
                r == (DataHeader::Counted { len: self.len })
            } else {
                match r {
                    DataHeader::Delimited { delim } => delim@ == self.delim@,
                    _ => false,
                }
            },
    {
        if self.is_counted {
            DataHeader::Counted { len: self.len }
        } else {
            let d = crate::bytes::subvec(&self.delim, 0, self.delim.len());
            proof {
                assert(d@ =~= self.delim@);
            }
            DataHeader::Delimited { delim: d }
        }
    }

    /// Whether the data stream has been read to completion.
    pub fn finished(&self) -> (r: bool)
        ensures
            r == self.finished,
    {
        self.finished
    }
}


impl DataReaderError {
    /// The stable human-readable message naming the violated contract.
    pub fn message(&self) -> String {
        match self {
            DataReaderError::AlreadyOpened => "data stream already opened for reading".to_string(),
            DataReaderError::Unfinished => "data stream was not read to the end".to_string(),
            DataReaderError::Closed => "data reader is closed".to_string(),
        }
    }
}


} // verus!
