//! The data model for fast-import streams: the commands, their constituent
//! value types, and the validation the model itself guarantees (positive
//! marks, NUL-free delimiters, canonical file modes, re-emittable data
//! sections).

use vstd::prelude::*;

use crate::bytes::{contains_byte, LF, NUL};
use crate::refs::{self, RefnameError, RefnameFlags};

verus! {

/// A command of a fast-import stream.
#[derive(Clone, Debug, PartialEq, Eq)]
pub enum Command {
    Blob(Blob),
    Commit(Commit),
    Tag(Tag),
    Reset(Reset),
    Ls(Ls),
    CatBlob(CatBlob),
    GetMark(GetMark),
    Checkpoint,
    Done(Done),
    Alias(Alias),
    Progress(Progress),
    Feature(Feature),
    OptionCmd(OptionCommand),
}

/// A `blob` command: the data header is parsed, the payload itself is read
/// through the data reader opened from it.
#[derive(Clone, Debug, PartialEq, Eq)]
pub struct Blob {
    pub mark: Option<Mark>,
    pub original_oid: Option<OriginalOid>,
    pub data_header: DataHeader,
}

/// A `commit` command. The message is read eagerly; the file changes follow
/// as a separate sub-iteration.
#[derive(Clone, Debug, PartialEq, Eq)]
pub struct Commit {
    pub branch: Branch,
    pub mark: Option<Mark>,
    pub original_oid: Option<OriginalOid>,
    pub author: Option<PersonIdent>,
    pub committer: PersonIdent,
    pub encoding: Option<Encoding>,
    pub message: Vec<u8>,
    pub from: Option<Commitish>,
    pub merge: Vec<Commitish>,
}

/// A `tag` command.
#[derive(Clone, Debug, PartialEq, Eq)]
pub struct Tag {
    pub name: TagName,
    pub mark: Option<Mark>,
    pub from: Objectish,
    pub original_oid: Option<OriginalOid>,
    pub tagger: Option<PersonIdent>,
    pub message: Vec<u8>,
}

/// A `reset` command.
#[derive(Clone, Debug, PartialEq, Eq)]
pub struct Reset {
    pub branch: Branch,
    pub from: Option<Commitish>,
}

/// An `ls` command outside a commit.
#[derive(Clone, Debug, PartialEq, Eq)]
pub struct Ls {
    pub root: Treeish,
    pub path: Vec<u8>,
}

/// A `cat-blob` command.
#[derive(Clone, Debug, PartialEq, Eq)]
pub struct CatBlob {
    pub blob: Blobish,
}

/// A `get-mark` command.
#[derive(Clone, Debug, PartialEq, Eq)]
pub struct GetMark {
    pub mark: Mark,
}

/// How a stream was terminated.
#[derive(Clone, Copy, Debug, PartialEq, Eq, Hash, Structural)]
pub enum Done {
    /// The stream was explicitly terminated with a `done` command.
    Explicit,
    /// The stream was terminated with EOF.
    Eof,
}

/// An `alias` command.
#[derive(Clone, Debug, PartialEq, Eq)]
pub struct Alias {
    pub mark: Mark,
    pub to: Commitish,
}

/// A `progress` command.
#[derive(Clone, Debug, PartialEq, Eq)]
pub struct Progress {
    pub message: Vec<u8>,
}

/// A `feature` command.
#[derive(Clone, Debug, PartialEq, Eq)]
pub enum Feature {
    DateFormat { format: DateFormat },
    ImportMarks { path: FastImportPath, ignore_missing: bool },
    ExportMarks { path: FastImportPath },
    Alias,
    RewriteSubmodulesTo { submodule_name: Vec<u8>, marks_path: Vec<u8> },
    RewriteSubmodulesFrom { submodule_name: Vec<u8>, marks_path: Vec<u8> },
    GetMark,
    CatBlob,
    RelativeMarks { relative: bool },
    Done,
    Force,
    Notes,
    Ls,
    Other { feature: Vec<u8> },
}

impl Feature {
    /// Whether this feature requires explicit authorization when requested in
    /// a stream: exactly the mark import/export features, which touch the
    /// filesystem.
    pub fn is_unsafe(&self) -> (r: bool)
        ensures
            r == (self is ImportMarks || self is ExportMarks),
    {
        match self {
            Feature::ImportMarks { .. } => true,
            Feature::ExportMarks { .. } => true,
            _ => false,
        }
    }
}

/// The date formats a stream can select.
#[derive(Clone, Copy, Debug, PartialEq, Eq, Structural)]
pub enum DateFormat {
    Raw,
    RawPermissive,
    Rfc2822,
    Now,
}

/// A path argument of a marks feature.
#[derive(Clone, Debug, PartialEq, Eq)]
pub struct FastImportPath {
    pub path: Vec<u8>,
}

/// An `option` command.
#[derive(Clone, Debug, PartialEq, Eq)]
pub enum OptionCommand {
    Git(OptionGit),
    Other(OptionOther),
}

/// An `option git` command, from the closed set git understands.
#[derive(Clone, Debug, PartialEq, Eq)]
pub enum OptionGit {
    MaxPackSize { size: FileSize },
    BigFileThreshold { size: FileSize },
    Depth { depth: u32 },
    ActiveBranches { count: u32 },
    ExportPackEdges { path: Vec<u8> },
    Quiet,
    Stats,
    AllowUnsafeFeatures,
}

/// An `option` command for another tool, carried opaquely.
#[derive(Clone, Debug, PartialEq, Eq)]
pub struct OptionOther {
    pub option: Vec<u8>,
}

/// A branch name; NUL-free by construction of the parser.
#[derive(Clone, Debug, PartialEq, Eq)]
pub struct Branch {
    pub branch: Vec<u8>,
}

/// A tag name; NUL-free by construction of the parser.
#[derive(Clone, Debug, PartialEq, Eq)]
pub struct TagName {
    pub name: Vec<u8>,
}

/// An error from validating a branch name against the git rules.
#[derive(Clone, Copy, Debug, PartialEq, Eq)]
pub struct GitBranchNameError {
    pub refname_error: RefnameError,
}

impl Branch {
    /// Validates the branch name the way git does when creating a branch:
    /// `check-ref-format` with one-level names allowed.
    pub fn validate_git(&self) -> (r: Result<(), GitBranchNameError>)
        ensures
            r is Ok <==> refs::refname_valid(
                self.branch@,
                RefnameFlags { allow_onelevel: true, refspec_pattern: false },
            ),
    {
        let flags = RefnameFlags { allow_onelevel: true, refspec_pattern: false };
        match refs::Refname::check_format(&self.branch, flags) {
            Ok(()) => Ok(()),
            Err(e) => Err(GitBranchNameError { refname_error: e }),
        }
    }
}

/// A reference to an object by a positive integer, which allows the
/// front-end to recall it later without knowing its hash. The value `:0` is
/// reserved and cannot be used as a mark.
#[derive(Clone, Copy, Debug, PartialEq, Eq)]
pub struct Mark {
    mark: u64,
}

impl Mark {
    /// Every mark holds a strictly positive integer.
    #[verifier::type_invariant]
    pub closed spec fn inv(&self) -> bool {
        self.mark > 0
    }

    /// The integer this mark holds.
    pub closed spec fn value(&self) -> u64 {
        self.mark
    }

    /// Accepts every integer in `1..=u64::MAX` and rejects `0`.
    pub fn new(mark: u64) -> (r: Option<Mark>)
        ensures
            match r {
                Some(m) => mark > 0 && m.value() == mark,
                None => mark == 0,
            },
    {
        if mark > 0 {
            Some(Mark { mark })
        } else {
            None
        }
    }

    /// The integer this mark holds; always positive.
    pub fn get(&self) -> (r: u64)
        ensures
            r == self.value(),
            r > 0,
    {
        proof {
            use_type_invariant(self);
        }
        self.mark
    }
}

/// An `original-oid` sub-directive.
#[derive(Clone, Debug, PartialEq, Eq)]
pub struct OriginalOid {
    pub oid: Vec<u8>,
}

/// A file mode of a change, restricted to the canonical git modes.
#[derive(Clone, Copy, Debug, PartialEq, Eq, Structural)]
pub enum Mode {
    File,
    Exe,
    SymLink,
    GitLink,
    Dir,
}

/// The numeric (octal) value of a mode on the wire.
pub open spec fn mode_value(m: Mode) -> u16 {
    match m {
        Mode::File => 0o100644,
        Mode::Exe => 0o100755,
        Mode::SymLink => 0o120000,
        Mode::GitLink => 0o160000,
        Mode::Dir => 0o040000,
    }
}

/// The canonical mode for a raw mode word, keyed by its format bits.
pub open spec fn canon_mode(mode: u16) -> Mode {
    if mode & 0o170000 == 0o100000 {
        if mode & 0o100 != 0 {
            Mode::Exe
        } else {
            Mode::File
        }
    } else if mode & 0o170000 == 0o120000 {
        Mode::SymLink
    } else if mode & 0o170000 == 0o040000 {
        Mode::Dir
    } else {
        Mode::GitLink
    }
}

impl Mode {
    /// The numeric (octal) value of this mode on the wire.
    pub fn value(&self) -> (r: u16)
        ensures
            r == mode_value(*self),
    {
        match self {
            Mode::File => 0o100644,
            Mode::Exe => 0o100755,
            Mode::SymLink => 0o120000,
            Mode::GitLink => 0o160000,
            Mode::Dir => 0o040000,
        }
    }

    /// Maps a raw mode word to its canonical mode, keyed by its format bits.
    pub fn canonicalize(mode: u16) -> (r: Mode)
        ensures
            r == canon_mode(mode),
    {
        let fmt = mode & 0o170000;
        if fmt == 0o100000 {
            if mode & 0o100 != 0 {
                Mode::Exe
            } else {
                Mode::File
            }
        } else if fmt == 0o120000 {
            Mode::SymLink
        } else if fmt == 0o040000 {
            Mode::Dir
        } else {
            Mode::GitLink
        }
    }

    /// Whether `mode` is already a canonical mode word.
    pub fn is_canon(mode: u16) -> (r: bool)
        ensures
            r == (mode_value(canon_mode(mode)) == mode),
    {
        Mode::canonicalize(mode).value() == mode
    }
}

/// A reference to an object: a mark, or a raw branch name or object id.
#[derive(Clone, Debug, PartialEq, Eq)]
pub enum Objectish {
    Mark(Mark),
    BranchOrOid(Vec<u8>),
}

/// A reference to a commit.
#[derive(Clone, Debug, PartialEq, Eq)]
pub struct Commitish {
    pub commit: Objectish,
}

/// A reference to a blob: a mark or a raw object id.
#[derive(Clone, Debug, PartialEq, Eq)]
pub enum Blobish {
    Mark(Mark),
    Oid(Vec<u8>),
}

/// A reference to a tree: a mark or a raw object id.
#[derive(Clone, Debug, PartialEq, Eq)]
pub enum Treeish {
    Mark(Mark),
    Oid(Vec<u8>),
}

/// A person identity: name, email, and the date as raw bytes (date-format
/// dispatch is not performed at this layer).
#[derive(Clone, Debug, PartialEq, Eq)]
pub struct PersonIdent {
    pub name: Vec<u8>,
    pub email: Vec<u8>,
    pub date: Vec<u8>,
}

/// An `encoding` sub-directive.
#[derive(Clone, Debug, PartialEq, Eq)]
pub struct Encoding {
    pub encoding: Vec<u8>,
}

/// The header of a `data` sub-directive: counted or delimited framing.
#[derive(Clone, Debug, PartialEq, Eq)]
pub enum DataHeader {
    Counted { len: u64 },
    Delimited { delim: Vec<u8> },
}

/// An owned data section, for emitting: the payload and an optional
/// preferred delimiter.
#[derive(Clone, Debug, PartialEq, Eq)]
pub struct DataBuf {
    pub data: Vec<u8>,
    pub delim: Option<Vec<u8>>,
}

/// Why a data section cannot be emitted in delimited form.
#[derive(Clone, Copy, Debug, PartialEq, Eq, Structural)]
pub enum DelimitedError {
    /// The delimiter is empty; such data could never be terminated.
    EmptyDelim,
    /// The delimiter contains NUL; a closing line could never match it.
    DelimContainsNul,
    /// The payload does not end with LF, so a closing delimiter line could
    /// not start at a line boundary.
    NoFinalLf,
    /// The payload contains NUL.
    DataContainsNul,
    /// A payload line equals the delimiter and would end the data early.
    DataContainsDelim,
}

/// Whether positions `i..j` of `s` are exactly one LF-separated line.
pub open spec fn is_line_at(s: Seq<u8>, i: int, j: int) -> bool {
    &&& 0 <= i <= j <= s.len()
    &&& (i == 0 || s[i - 1] == LF)
    &&& (j == s.len() || s[j] == LF)
    &&& (forall|k: int| i <= k < j ==> s[k] != LF)
}

/// Whether some LF-separated line of `s` equals `t`.
pub open spec fn has_line(s: Seq<u8>, t: Seq<u8>) -> bool {
    exists|i: int, j: int| is_line_at(s, i, j) && s.subrange(i, j) == t
}

/// Which delimited-form precondition fails first, in the order the checks
/// are made: delimiter emptiness, delimiter NUL, the final LF, payload NUL,
/// then a payload line equal to the delimiter.
pub open spec fn validate_delim_spec(data: Seq<u8>, delim: Option<Seq<u8>>) -> Result<
    (),
    DelimitedError,
> {
    match delim {
        None => Ok(()),
        Some(d) => if d.len() == 0 {
            Err(DelimitedError::EmptyDelim)
        } else if contains_byte(d, NUL) {
            Err(DelimitedError::DelimContainsNul)
        } else if !(data.len() > 0 && data[data.len() - 1] == LF) {
            Err(DelimitedError::NoFinalLf)
        } else if contains_byte(data, NUL) {
            Err(DelimitedError::DataContainsNul)
        } else if has_line(data, d) {
            Err(DelimitedError::DataContainsDelim)
        } else {
            Ok(())
        },
    }
}

/// The preconditions for emitting `data` with delimiter `delim` in delimited
/// form: the delimiter is non-empty and NUL-free, the payload ends with LF,
/// contains no NUL, and no payload line equals the delimiter.
pub open spec fn delim_ok(data: Seq<u8>, delim: Seq<u8>) -> bool {
    &&& delim.len() > 0
    &&& !contains_byte(delim, NUL)
    &&& data.len() > 0 && data[data.len() - 1] == LF
    &&& !contains_byte(data, NUL)
    &&& !has_line(data, delim)
}

/// Whether some LF-separated line of `s` equals `t`.
pub fn find_line(s: &Vec<u8>, t: &Vec<u8>) -> (r: bool)
    ensures
        r == has_line(s@, t@),
{
    let mut start: usize = 0;
    loop
        invariant
            0 <= start <= s@.len(),
            start == 0 || s@[start - 1] == LF,
            forall|i: int, j: int| is_line_at(s@, i, j) && i < start ==> s@.subrange(i, j) != t@,
        decreases s@.len() - start,
    {
        let e = match crate::bytes::find_byte_from(s, start, LF) {
            Some(e) => e,
            None => s.len(),
        };
        let line = crate::bytes::subvec(s, start, e);
        if crate::bytes::bytes_eq(&line, t) {
            proof {
                assert(is_line_at(s@, start as int, e as int));
            }
            return true;
        }
        proof {
            // The line starting at `start` ends exactly at `e`.
            assert forall|i: int, j: int|
                is_line_at(s@, i, j) && i < e + 1 implies s@.subrange(i, j) != t@ by {
                if i >= start {
                    assert(i == start) by {
                        if i > start {
                            assert(s@[i - 1] == LF);
                        }
                    }
                    assert(j == e) by {
                        if j < e {
                            assert(s@[j] == LF);
                        }
                        if j > e {
                            assert(e < s@.len());
                            assert(s@[e as int] == LF);
                        }
                    }
                }
            }
        }
        if e == s.len() {
            proof {
                assert forall|i: int, j: int| is_line_at(s@, i, j) implies s@.subrange(i, j)
                    != t@ by {
                    assert(i < e + 1);
                }
            }
            return false;
        }
        start = e + 1;
    }
}

impl DataBuf {
    /// Whether this data section may be emitted in delimited form: accepts
    /// exactly when no delimiter is present or [`delim_ok`] holds of payload
    /// and delimiter, and names the first violated precondition otherwise.
    pub fn validate_delim(&self) -> (r: Result<(), DelimitedError>)
        ensures
            r == validate_delim_spec(self.data@, match self.delim {
                Some(d) => Some(d@),
                None => None,
            }),
            r is Ok <==> match self.delim {
                Some(delim) => delim_ok(self.data@, delim@),
                None => true,
            },
    {
        match &self.delim {
            Some(delim) => {
                if delim.len() == 0 {
                    Err(DelimitedError::EmptyDelim)
                } else if crate::bytes::vec_contains_byte(delim, NUL) {
                    Err(DelimitedError::DelimContainsNul)
                } else if self.data.len() == 0 || self.data[self.data.len() - 1] != LF {
                    Err(DelimitedError::NoFinalLf)
                } else if crate::bytes::vec_contains_byte(&self.data, NUL) {
                    Err(DelimitedError::DataContainsNul)
                } else if find_line(&self.data, delim) {
                    Err(DelimitedError::DataContainsDelim)
                } else {
                    Ok(())
                }
            },
            None => Ok(()),
        }
    }
}

/// A size argument of an `option git` command.
#[derive(Clone, Copy, Debug, PartialEq, Eq, Structural)]
pub struct FileSize {
    pub value: u32,
    pub unit: UnitFactor,
}

/// The unit suffix of a [`FileSize`].
#[derive(Clone, Copy, Debug, PartialEq, Eq, Structural)]
pub enum UnitFactor {
    B,
    K,
    M,
    G,
}


impl DelimitedError {
    /// The stable human-readable message naming the violated precondition.
    pub fn message(&self) -> String {
        match self {
            DelimitedError::EmptyDelim => "delimiter is empty".to_string(),
            DelimitedError::DelimContainsNul => "delimiter contains NUL".to_string(),
            DelimitedError::NoFinalLf => "data does not end with LF".to_string(),
            DelimitedError::DataContainsNul => "data contains NUL".to_string(),
            DelimitedError::DataContainsDelim => "data contains delimiter".to_string(),
        }
    }
}

impl GitBranchNameError {
    /// The stable human-readable message of the refname rule violated.
    pub fn message(&self) -> String {
        self.refname_error.message()
    }
}


} // verus!
