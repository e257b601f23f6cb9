//! An owned, validated representation of commands for in-memory use and
//! re-emission: data sections that remember their framing, NUL- and LF-free
//! byte strings, and values carrying the comment lines seen before them.

use vstd::prelude::*;

use crate::bytes::{contains_byte, LF, NUL};
use crate::command::has_line;

verus! {

/// A command with the comments that preceded it.
#[derive(Clone, Debug, PartialEq, Eq)]
pub enum Command {
    Blob(Commented<Blob>),
    Commit(Commented<Commit>),
    Tag(Commented<Tag>),
    Reset(Commented<Reset>),
    Ls(Commented<Ls>),
    CatBlob(Commented<CatBlob>),
    GetMark(Commented<GetMark>),
    Checkpoint(Commented<Checkpoint>),
    Done(Commented<Done>),
    Alias(Commented<Alias>),
    Progress(Commented<Progress>),
    Feature(Commented<Feature>),
    OptionGit(Commented<OptionGit>),
    OptionOther(Commented<OptionOther>),
}

/// A `blob` command with its data section held in memory.
#[derive(Clone, Debug, PartialEq, Eq)]
pub struct Blob {
    pub mark: Option<Commented<Mark>>,
    pub original_oid: Option<Commented<OriginalOid>>,
    pub data: Commented<Data>,
}

#[derive(Clone, Debug, PartialEq, Eq)]
pub struct Commit;

#[derive(Clone, Debug, PartialEq, Eq)]
pub struct Tag;

#[derive(Clone, Debug, PartialEq, Eq)]
pub struct Reset;

#[derive(Clone, Debug, PartialEq, Eq)]
pub struct Ls;

#[derive(Clone, Debug, PartialEq, Eq)]
pub struct CatBlob;

#[derive(Clone, Debug, PartialEq, Eq)]
pub struct GetMark;

#[derive(Clone, Debug, PartialEq, Eq)]
pub struct Checkpoint;

#[derive(Clone, Debug, PartialEq, Eq)]
pub struct Done;

#[derive(Clone, Debug, PartialEq, Eq)]
pub struct Alias;

#[derive(Clone, Debug, PartialEq, Eq)]
pub struct Progress;

#[derive(Clone, Debug, PartialEq, Eq)]
pub struct Feature;

#[derive(Clone, Debug, PartialEq, Eq)]
pub struct OptionGit;

#[derive(Clone, Debug, PartialEq, Eq)]
pub struct OptionOther;

/// A `mark` sub-directive value.
#[derive(Clone, Debug, PartialEq, Eq, Structural)]
pub struct Mark {
    pub mark: u64,
}

/// An `original-oid` sub-directive value.
#[derive(Clone, Debug, PartialEq, Eq)]
pub struct OriginalOid {
    pub oid: BString,
}

/// A data section that remembers its framing.
#[derive(Clone, Debug, PartialEq, Eq)]
pub enum Data {
    Counted(CountedData),
    Delimited(DelimitedData),
}

/// A counted data section.
#[derive(Clone, Debug, PartialEq, Eq)]
pub struct CountedData {
    pub data: Vec<u8>,
    pub optional_lf: bool,
}

/// A delimited data section, validated at construction so that it can
/// always be re-emitted in delimited form.
#[derive(Clone, Debug, PartialEq, Eq)]
pub struct DelimitedData {
    data: Vec<u8>,
    delim: Vec<u8>,
    pub optional_lf: bool,
}

/// Why data cannot be framed by the given delimiter.
#[derive(Clone, Copy, Debug, PartialEq, Eq, Structural)]
pub enum DelimitedError {
    /// A payload line equals the delimiter and would end the data early.
    ContainsDelim,
    /// The payload contains NUL.
    ContainsNul,
    /// The payload does not end with LF, so the closing delimiter line
    /// could not start at a line boundary.
    NoFinalLf,
}

impl CountedData {
    /// Wraps a payload for counted framing; always succeeds.
    pub fn new(data: Vec<u8>) -> (r: CountedData)
        ensures
            r.data@ == data@,
            r.optional_lf,
    {
        CountedData { data, optional_lf: true }
    }
}

/// Which framing condition fails first, in the order the constructor
/// checks them: the final LF, payload NUL, then a payload line equal to the
/// delimiter.
pub open spec fn delimited_new_spec(data: Seq<u8>, delim: Seq<u8>) -> Result<(), DelimitedError> {
    if data.len() > 0 && data[data.len() - 1] != LF {
        Err(DelimitedError::NoFinalLf)
    } else if contains_byte(data, NUL) {
        Err(DelimitedError::ContainsNul)
    } else if has_line(data, delim) {
        Err(DelimitedError::ContainsDelim)
    } else {
        Ok(())
    }
}

/// The payload/delimiter conditions a delimited section upholds: the data
/// is empty or ends with LF, contains no NUL, and no line equals the
/// delimiter.
pub open spec fn delimited_data_ok(data: Seq<u8>, delim: Seq<u8>) -> bool {
    &&& (data.len() == 0 || data[data.len() - 1] == LF)
    &&& !contains_byte(data, NUL)
    &&& !has_line(data, delim)
}

impl DelimitedData {
    /// The invariant established at construction.
    pub closed spec fn wf(&self) -> bool {
        delimited_data_ok(self.data@, self.delim@)
    }

    pub closed spec fn data_view(&self) -> Seq<u8> {
        self.data@
    }

    pub closed spec fn delim_view(&self) -> Seq<u8> {
        self.delim@
    }

    /// Whether the optional LF after the payload is written on emission.
    pub closed spec fn lf_view(&self) -> bool {
        self.optional_lf
    }

    /// Wraps a payload for delimited framing, accepting exactly the
    /// payloads that can be terminated by the delimiter: the data must end
    /// with LF (or be empty), contain no NUL, and contain no line equal to
    /// the delimiter.
    pub fn new(data: Vec<u8>, delim: BString) -> (r: Result<DelimitedData, DelimitedError>)
        ensures
            match r {
                Ok(d) => delimited_data_ok(data@, delim@) && d.wf() && d.data_view() == data@
                    && d.delim_view() == delim@ && d.lf_view(),
                Err(e) => !delimited_data_ok(data@, delim@) && delimited_new_spec(data@, delim@)
                    == Err::<(), DelimitedError>(e),
            },
    {
        if data.len() > 0 && data[data.len() - 1] != LF {
            Err(DelimitedError::NoFinalLf)
        } else if crate::bytes::vec_contains_byte(&data, NUL) {
            Err(DelimitedError::ContainsNul)
        } else if crate::command::find_line(&data, delim.as_bytes()) {
            Err(DelimitedError::ContainsDelim)
        } else {
            Ok(DelimitedData { data, delim: delim.into_bytes(), optional_lf: true })
        }
    }

    /// The payload bytes.
    pub fn data(&self) -> (r: &Vec<u8>)
        ensures
            r@ == self.data_view(),
    {
        &self.data
    }

    /// The payload bytes, consuming the section.
    pub fn into_data(self) -> (r: Vec<u8>)
        ensures
            r@ == self.data_view(),
    {
        self.data
    }

    /// Whether the optional LF after the payload is written on emission.
    pub fn has_optional_lf(&self) -> (r: bool)
        ensures
            r == self.lf_view(),
    {
        self.optional_lf
    }

    /// The delimiter bytes.
    pub fn delim(&self) -> (r: &Vec<u8>)
        ensures
            r@ == self.delim_view(),
    {
        &self.delim
    }
}

/// A byte string that contains neither NUL nor LF, as required of the
/// one-line fields of the wire format.
#[derive(Clone, Debug, PartialEq, Eq)]
pub struct BString {
    bytes: Vec<u8>,
}

/// Why bytes cannot form a [`BString`].
#[derive(Clone, Copy, Debug, PartialEq, Eq, Structural)]
pub enum BStringError {
    ContainsNul,
    ContainsLf,
}

impl BString {
    /// The invariant established at construction.
    pub closed spec fn wf(&self) -> bool {
        !contains_byte(self.bytes@, NUL) && !contains_byte(self.bytes@, LF)
    }

    pub closed spec fn view(&self) -> Seq<u8> {
        self.bytes@
    }

    /// Wraps bytes, accepting exactly the NUL-free and LF-free strings; the
    /// first offending byte decides the error.
    pub fn new(bytes: Vec<u8>) -> (r: Result<BString, BStringError>)
        ensures
            match r {
                Ok(b) => b.wf() && b@ == bytes@ && !contains_byte(bytes@, NUL) && !contains_byte(
                    bytes@,
                    LF,
                ),
                Err(e) => {
                    let i = crate::parser::first_of2(bytes@, 0, NUL, LF);
                    &&& i < bytes@.len()
                    &&& e == if bytes@[i] == NUL {
                        BStringError::ContainsNul
                    } else {
                        BStringError::ContainsLf
                    }
                },
            },
    {
        let mut i: usize = 0;
        while i < bytes.len()
            invariant
                i <= bytes@.len(),
                forall|j: int| 0 <= j < i ==> bytes@[j] != NUL && bytes@[j] != LF,
            decreases bytes@.len() - i,
        {
            if bytes[i] == NUL {
                proof {
                    crate::parser::lemma_first_of2_at(bytes@, 0, NUL, LF, i as int);
                }
                return Err(BStringError::ContainsNul);
            }
            if bytes[i] == LF {
                proof {
                    crate::parser::lemma_first_of2_at(bytes@, 0, NUL, LF, i as int);
                }
                return Err(BStringError::ContainsLf);
            }
            i += 1;
        }
        Ok(BString { bytes })
    }

    /// The string's bytes.
    pub fn as_bytes(&self) -> (r: &Vec<u8>)
        ensures
            r@ == self@,
    {
        &self.bytes
    }

    /// The string's bytes, consuming it.
    pub fn into_bytes(self) -> (r: Vec<u8>)
        ensures
            r@ == self@,
    {
        self.bytes
    }
}

/// The comment lines seen before a value, without their leading `#`.
#[derive(Clone, Debug, PartialEq, Eq)]
pub struct Comments {
    text: Vec<u8>,
}

impl Comments {
    pub closed spec fn view(&self) -> Seq<u8> {
        self.text@
    }

    /// Wraps comment text; lines are separated by LF.
    pub fn new(text: Vec<u8>) -> (r: Comments)
        ensures
            r@ == text@,
    {
        Comments { text }
    }

    /// The comment text.
    pub fn text(&self) -> (r: &Vec<u8>)
        ensures
            r@ == self@,
    {
        &self.text
    }
}

impl Default for Comments {
    /// Empty comments.
    fn default() -> (r: Comments)
        ensures
            r@ == Seq::<u8>::empty(),
    {
        Comments { text: Vec::new() }
    }
}

/// A value together with the comments that preceded it.
#[derive(Clone, Debug, PartialEq, Eq)]
pub struct Commented<T> {
    pub comments: Comments,
    pub value: T,
}

impl<T> Commented<T> {
    /// Pairs a value with comments.
    pub fn new(comments: Comments, value: T) -> (r: Commented<T>)
        ensures
            r.comments@ == comments@,
            r.value == value,
    {
        Commented { comments, value }
    }

    /// Wraps a value with no comments.
    pub fn wrap(value: T) -> (r: Commented<T>)
        ensures
            r.comments@ == Seq::<u8>::empty(),
            r.value == value,
    {
        Commented { comments: Comments { text: Vec::new() }, value }
    }
}


impl DelimitedError {
    /// The stable human-readable message naming the violated condition.
    pub fn message(&self) -> String {
        match self {
            DelimitedError::ContainsDelim => "data contains delimiter".to_string(),
            DelimitedError::ContainsNul => "data contains NUL".to_string(),
            DelimitedError::NoFinalLf => "data does not end with LF".to_string(),
        }
    }
}

impl BStringError {
    /// The stable human-readable message naming the offending byte.
    pub fn message(&self) -> String {
        match self {
            BStringError::ContainsNul => "byte string contains NUL".to_string(),
            BStringError::ContainsLf => "byte string contains LF".to_string(),
        }
    }
}


} // verus!
