//! The directive parser: consumes one command at a time from the buffered
//! input, recognizes its keyword, parses its sub-directives, and hands back
//! the parsed command. Data payloads are read separately through the data
//! reader.

use vstd::prelude::*;

use crate::bytes::{contains_byte, starts_with, COLON, GT, LT, NUL, SP};
use crate::command::{Alias, Blob, Blobish, Branch, CatBlob, Command, Commit, Commitish,
    DataHeader, DateFormat, Done, Encoding, FastImportPath, Feature, FileSize, GetMark, Ls, Mark,
    Objectish, OptionCommand, OptionGit, OptionOther, OriginalOid, PersonIdent, Progress, Reset,
    Tag, TagName, Treeish, UnitFactor};
use crate::data::DataState;
use crate::data::DataReaderError;
use crate::keywords::{KW_ACTIVE_BRANCHES_EQ, KW_AUTHOR_SP, KW_BLOB, KW_CHECKPOINT,
    KW_COMMIT_SP, KW_COMMITTER_SP, KW_DATA_SP, KW_ENCODING_SP, KW_FEATURE_SP, KW_FROM_SP,
    KW_GET_MARK_SP, KW_GIT_SP, KW_LS_SP, KW_MARK_SP, KW_MERGE_SP, KW_OPTION_SP,
    KW_ORIGINAL_OID_SP, KW_PROGRESS_SP, KW_RESET_SP, KW_TAG_SP, KW_TAGGER_SP, KW_TO_SP,
    KW_CAT_BLOB_SP, KW_ALIAS, KW_ALLOW_UNSAFE_FEATURES,
    KW_BIG_FILE_THRESHOLD_EQ, KW_CAT_BLOB, KW_DATE_FORMAT_EQ, KW_DEPTH_EQ, KW_DONE,
    KW_EXPORT_MARKS_EQ, KW_EXPORT_PACK_EDGES_EQ, KW_FORCE, KW_GET_MARK,
    KW_IMPORT_MARKS_EQ, KW_IMPORT_MARKS_IF_EXISTS_EQ, KW_LS, KW_LTLT,
    KW_MAX_PACK_SIZE_EQ, KW_NOTES, KW_NO_RELATIVE_MARKS, KW_NOW, KW_QUIET, KW_RAW,
    KW_RAW_PERMISSIVE, KW_RELATIVE_MARKS, KW_REWRITE_SUBMODULES_FROM_EQ,
    KW_REWRITE_SUBMODULES_TO_EQ, KW_RFC2822, KW_STATS};
use crate::num::{all_dec_digits, dec_value};
use crate::quote::ParseStringError;

verus! {

/// An error from parsing a fast-export stream.
#[derive(Clone, Copy, Debug, PartialEq, Eq)]
pub enum StreamError {
    Parse(ParseError),
    DataReader(DataReaderError),
}

/// A kind of error from parsing a command in a fast-export stream.
#[derive(Clone, Copy, Debug, PartialEq, Eq)]
pub enum ParseError {
    ExpectedBlobData,
    ExpectedCommitCommitter,
    ExpectedCommitMessage,
    ExpectedTagFrom,
    ExpectedTagMessage,
    ExpectedAliasMark,
    ExpectedAliasTo,

    BranchContainsNul,
    IdentContainsNul,
    EncodingContainsNul,
    /// A data delimiter containing NUL could never match a closing
    /// delimiter line, always leaving its data unterminated.
    DataDelimContainsNul,
    TagContainsNul,
    PathContainsNul,
    RewriteSubmodulesContainsNul,

    InvalidModeInt,
    InvalidMode,
    NoSpaceAfterMode,
    NoSpaceAfterDataRef,
    JunkAfterFileModifyPath,
    JunkAfterFileDeletePath,
    NoSpaceAfterSource,
    MissingDest,
    JunkAfterDest,

    IdentNoLtOrGt,
    IdentNoLtBeforeGt,
    IdentNoGtAfterLt,
    IdentNoSpaceBeforeLt,
    IdentNoSpaceAfterGt,

    /// A mark must start with `:`.
    MarkMissingColon,
    /// The mark is not a valid integer.
    InvalidMark,
    /// `mark :0` is rejected: 0 stands for "no mark set".
    ZeroMark,

    /// The length of a counted `data` directive is not a valid integer.
    InvalidDataLength,
    /// EOF was reached before the complete counted data stream.
    DataUnexpectedEof,
    /// An empty delimiter could never terminate its data meaningfully.
    EmptyDelim,
    /// EOF was reached before the data delimiter.
    UnterminatedData,

    MissingLsRoot,
    MissingLsPath,
    LsPathString(ParseStringError),
    JunkAfterLsPath,

    InvalidDateFormat,
    /// The rewrite-submodules feature expects `name:path`.
    RewriteSubmodulesNoColon,

    UnsupportedGitOption,
    InvalidOptionFileSize,
    InvalidOptionInt,

    /// The command is not recognized.
    UnrecognizedCommand,
    /// Unexpected blank line instead of a command.
    UnexpectedBlank,
}

/// View of an object reference: a mark value or raw bytes.
pub enum ObjectishV {
    Mark(u64),
    BranchOrOid(Seq<u8>),
}

/// View of a data header.
pub enum DataHeaderV {
    Counted { len: u64 },
    Delimited { delim: Seq<u8> },
}

/// View of a feature command.
pub enum FeatureV {
    DateFormat { format: DateFormat },
    ImportMarks { path: Seq<u8>, ignore_missing: bool },
    ExportMarks { path: Seq<u8> },
    Alias,
    RewriteSubmodulesTo { submodule_name: Seq<u8>, marks_path: Seq<u8> },
    RewriteSubmodulesFrom { submodule_name: Seq<u8>, marks_path: Seq<u8> },
    GetMark,
    CatBlob,
    RelativeMarks { relative: bool },
    Done,
    Force,
    Notes,
    Ls,
    Other { feature: Seq<u8> },
}

/// View of an `option git` command.
pub enum OptionGitV {
    MaxPackSize { size: FileSize },
    BigFileThreshold { size: FileSize },
    Depth { depth: u32 },
    ActiveBranches { count: u32 },
    ExportPackEdges { path: Seq<u8> },
    Quiet,
    Stats,
    AllowUnsafeFeatures,
}

pub open spec fn objectish_view(o: Objectish) -> ObjectishV {
    match o {
        Objectish::Mark(m) => ObjectishV::Mark(m.value()),
        Objectish::BranchOrOid(b) => ObjectishV::BranchOrOid(b@),
    }
}

pub open spec fn data_header_view(h: DataHeader) -> DataHeaderV {
    match h {
        DataHeader::Counted { len } => DataHeaderV::Counted { len },
        DataHeader::Delimited { delim } => DataHeaderV::Delimited { delim: delim@ },
    }
}

pub open spec fn feature_view(f: Feature) -> FeatureV {
    match f {
        Feature::DateFormat { format } => FeatureV::DateFormat { format },
        Feature::ImportMarks { path, ignore_missing } => FeatureV::ImportMarks {
            path: path.path@,
            ignore_missing,
        },
        Feature::ExportMarks { path } => FeatureV::ExportMarks { path: path.path@ },
        Feature::Alias => FeatureV::Alias,
        Feature::RewriteSubmodulesTo { submodule_name, marks_path } => FeatureV::RewriteSubmodulesTo {
            submodule_name: submodule_name@,
            marks_path: marks_path@,
        },
        Feature::RewriteSubmodulesFrom { submodule_name, marks_path } => FeatureV::RewriteSubmodulesFrom {
            submodule_name: submodule_name@,
            marks_path: marks_path@,
        },
        Feature::GetMark => FeatureV::GetMark,
        Feature::CatBlob => FeatureV::CatBlob,
        Feature::RelativeMarks { relative } => FeatureV::RelativeMarks { relative },
        Feature::Done => FeatureV::Done,
        Feature::Force => FeatureV::Force,
        Feature::Notes => FeatureV::Notes,
        Feature::Ls => FeatureV::Ls,
        Feature::Other { feature } => FeatureV::Other { feature: feature@ },
    }
}

pub open spec fn option_git_view(o: OptionGit) -> OptionGitV {
    match o {
        OptionGit::MaxPackSize { size } => OptionGitV::MaxPackSize { size },
        OptionGit::BigFileThreshold { size } => OptionGitV::BigFileThreshold { size },
        OptionGit::Depth { depth } => OptionGitV::Depth { depth },
        OptionGit::ActiveBranches { count } => OptionGitV::ActiveBranches { count },
        OptionGit::ExportPackEdges { path } => OptionGitV::ExportPackEdges { path: path@ },
        OptionGit::Quiet => OptionGitV::Quiet,
        OptionGit::Stats => OptionGitV::Stats,
        OptionGit::AllowUnsafeFeatures => OptionGitV::AllowUnsafeFeatures,
    }
}

/// What parsing `mark :N` yields from the argument bytes: the integer, with
/// `:0` and ill-formed integers rejected.
pub open spec fn parse_mark_spec(s: Seq<u8>) -> Result<u64, ParseError> {
    if s.len() == 0 || s[0] != COLON {
        Err(ParseError::MarkMissingColon)
    } else {
        let num = s.subrange(1, s.len() as int);
        if num.len() > 0 && all_dec_digits(num) && dec_value(num) <= u64::MAX {
            if dec_value(num) == 0 {
                Err(ParseError::ZeroMark)
            } else {
                Ok(dec_value(num) as u64)
            }
        } else {
            Err(ParseError::InvalidMark)
        }
    }
}

/// A branch name is accepted exactly when it contains no NUL.
pub open spec fn parse_branch_spec(s: Seq<u8>) -> Result<Seq<u8>, ParseError> {
    if contains_byte(s, NUL) {
        Err(ParseError::BranchContainsNul)
    } else {
        Ok(s)
    }
}

/// A tag name is accepted exactly when it contains no NUL.
pub open spec fn parse_tag_name_spec(s: Seq<u8>) -> Result<Seq<u8>, ParseError> {
    if contains_byte(s, NUL) {
        Err(ParseError::TagContainsNul)
    } else {
        Ok(s)
    }
}

/// An object reference: a mark when it starts with `:`, else raw bytes.
pub open spec fn parse_objectish_spec(s: Seq<u8>) -> Result<ObjectishV, ParseError> {
    if s.len() > 0 && s[0] == COLON {
        match parse_mark_spec(s) {
            Ok(m) => Ok(ObjectishV::Mark(m)),
            Err(e) => Err(e),
        }
    } else {
        Ok(ObjectishV::BranchOrOid(s))
    }
}

/// An encoding is accepted exactly when it contains no NUL.
pub open spec fn parse_encoding_spec(s: Seq<u8>) -> Result<Seq<u8>, ParseError> {
    if contains_byte(s, NUL) {
        Err(ParseError::EncodingContainsNul)
    } else {
        Ok(s)
    }
}

/// A marks-file path is accepted exactly when it contains no NUL.
pub open spec fn parse_path_spec(s: Seq<u8>) -> Result<Seq<u8>, ParseError> {
    if contains_byte(s, NUL) {
        Err(ParseError::PathContainsNul)
    } else {
        Ok(s)
    }
}

/// The first index at or after `i` holding `b1` or `b2`, or the length.
pub open spec fn first_of2(s: Seq<u8>, i: int, b1: u8, b2: u8) -> int
    decreases s.len() - i,
{
    if i < 0 || i >= s.len() {
        s.len() as int
    } else if s[i] == b1 || s[i] == b2 {
        i
    } else {
        first_of2(s, i + 1, b1, b2)
    }
}

pub proof fn lemma_first_of2(s: Seq<u8>, i: int, b1: u8, b2: u8)
    requires
        0 <= i <= s.len(),
    ensures
        i <= first_of2(s, i, b1, b2) <= s.len(),
        forall|k: int| i <= k < first_of2(s, i, b1, b2) ==> s[k] != b1 && s[k] != b2,
        first_of2(s, i, b1, b2) < s.len() ==> s[first_of2(s, i, b1, b2)] == b1 || s[first_of2(
            s,
            i,
            b1,
            b2,
        )] == b2,
    decreases s.len() - i,
{
    if i < s.len() && s[i] != b1 && s[i] != b2 {
        lemma_first_of2(s, i + 1, b1, b2);
    }
}

/// What parsing a person identity yields: `NAME <EMAIL> DATE`, with `<`/`>`
/// bracketing the email and bordered by single spaces on the outside, and
/// no NUL anywhere.
pub open spec fn parse_person_ident_spec(s: Seq<u8>) -> Result<
    (Seq<u8>, Seq<u8>, Seq<u8>),
    ParseError,
> {
    if contains_byte(s, NUL) {
        Err(ParseError::IdentContainsNul)
    } else {
        let lt = first_of2(s, 0, LT, GT);
        if lt == s.len() {
            Err(ParseError::IdentNoLtOrGt)
        } else if s[lt] != LT {
            Err(ParseError::IdentNoLtBeforeGt)
        } else if lt != 0 && s[lt - 1] != SP {
            Err(ParseError::IdentNoSpaceBeforeLt)
        } else {
            let gt = first_of2(s, lt + 1, LT, GT);
            if gt == s.len() || s[gt] != GT {
                Err(ParseError::IdentNoGtAfterLt)
            } else if gt + 1 >= s.len() || s[gt + 1] != SP {
                Err(ParseError::IdentNoSpaceAfterGt)
            } else {
                let name = s.subrange(0, if lt >= 1 { lt - 1 } else { 0 });
                let email = s.subrange(lt + 1, gt);
                let date = s.subrange(gt + 2, s.len() as int);
                Ok((name, email, date))
            }
        }
    }
}

/// What parsing a `data` header argument yields: `<<DELIM` for delimited
/// framing (the delimiter non-empty and NUL-free), else a counted length.
pub open spec fn parse_data_header_spec(s: Seq<u8>) -> Result<DataHeaderV, ParseError> {
    if starts_with(s, KW_LTLT@) {
        let delim = s.subrange(2, s.len() as int);
        if delim.len() == 0 {
            Err(ParseError::EmptyDelim)
        } else if contains_byte(delim, NUL) {
            Err(ParseError::DataDelimContainsNul)
        } else {
            Ok(DataHeaderV::Delimited { delim })
        }
    } else {
        if s.len() > 0 && all_dec_digits(s) && dec_value(s) <= u64::MAX {
            Ok(DataHeaderV::Counted { len: dec_value(s) as u64 })
        } else {
            Err(ParseError::InvalidDataLength)
        }
    }
}

/// What parsing a date-format token yields.
pub open spec fn parse_date_format_spec(s: Seq<u8>) -> Result<DateFormat, ParseError> {
    if s == KW_RAW@ {
        Ok(DateFormat::Raw)
    } else if s == KW_RAW_PERMISSIVE@ {
        Ok(DateFormat::RawPermissive)
    } else if s == KW_RFC2822@ {
        Ok(DateFormat::Rfc2822)
    } else if s == KW_NOW@ {
        Ok(DateFormat::Now)
    } else {
        Err(ParseError::InvalidDateFormat)
    }
}

/// What parsing a `rewrite-submodules-*` argument yields: `NAME:PATH` split
/// on the first colon, NUL-free.
pub open spec fn parse_rewrite_submodules_spec(s: Seq<u8>) -> Result<(Seq<u8>, Seq<u8>), ParseError> {
    if contains_byte(s, NUL) {
        Err(ParseError::RewriteSubmodulesContainsNul)
    } else {
        let c = crate::bytes::find_idx(s, 0, COLON);
        if c == s.len() {
            Err(ParseError::RewriteSubmodulesNoColon)
        } else {
            Ok((s.subrange(0, c), s.subrange(c + 1, s.len() as int)))
        }
    }
}

/// What parsing a feature token yields: the closed feature set, with
/// anything unrecognized carried opaquely.
pub open spec fn parse_feature_spec(s: Seq<u8>) -> Result<FeatureV, ParseError> {
    if starts_with(s, KW_DATE_FORMAT_EQ@) {
        match parse_date_format_spec(s.subrange(KW_DATE_FORMAT_EQ@.len() as int, s.len() as int)) {
            Ok(format) => Ok(FeatureV::DateFormat { format }),
            Err(e) => Err(e),
        }
    } else if starts_with(s, KW_IMPORT_MARKS_IF_EXISTS_EQ@) {
        match parse_path_spec(
            s.subrange(KW_IMPORT_MARKS_IF_EXISTS_EQ@.len() as int, s.len() as int),
        ) {
            Ok(path) => Ok(FeatureV::ImportMarks { path, ignore_missing: true }),
            Err(e) => Err(e),
        }
    } else if starts_with(s, KW_IMPORT_MARKS_EQ@) {
        match parse_path_spec(s.subrange(KW_IMPORT_MARKS_EQ@.len() as int, s.len() as int)) {
            Ok(path) => Ok(FeatureV::ImportMarks { path, ignore_missing: false }),
            Err(e) => Err(e),
        }
    } else if starts_with(s, KW_EXPORT_MARKS_EQ@) {
        match parse_path_spec(s.subrange(KW_EXPORT_MARKS_EQ@.len() as int, s.len() as int)) {
            Ok(path) => Ok(FeatureV::ExportMarks { path }),
            Err(e) => Err(e),
        }
    } else if s == KW_ALIAS@ {
        Ok(FeatureV::Alias)
    } else if starts_with(s, KW_REWRITE_SUBMODULES_TO_EQ@) {
        match parse_rewrite_submodules_spec(
            s.subrange(KW_REWRITE_SUBMODULES_TO_EQ@.len() as int, s.len() as int),
        ) {
            Ok(np) => Ok(FeatureV::RewriteSubmodulesTo { submodule_name: np.0, marks_path: np.1 }),
            Err(e) => Err(e),
        }
    } else if starts_with(s, KW_REWRITE_SUBMODULES_FROM_EQ@) {
        match parse_rewrite_submodules_spec(
            s.subrange(KW_REWRITE_SUBMODULES_FROM_EQ@.len() as int, s.len() as int),
        ) {
            Ok(np) => Ok(
                FeatureV::RewriteSubmodulesFrom { submodule_name: np.0, marks_path: np.1 },
            ),
            Err(e) => Err(e),
        }
    } else if s == KW_GET_MARK@ {
        Ok(FeatureV::GetMark)
    } else if s == KW_CAT_BLOB@ {
        Ok(FeatureV::CatBlob)
    } else if s == KW_RELATIVE_MARKS@ {
        Ok(FeatureV::RelativeMarks { relative: true })
    } else if s == KW_NO_RELATIVE_MARKS@ {
        Ok(FeatureV::RelativeMarks { relative: false })
    } else if s == KW_DONE@ {
        Ok(FeatureV::Done)
    } else if s == KW_FORCE@ {
        Ok(FeatureV::Force)
    } else if s == KW_NOTES@ {
        Ok(FeatureV::Notes)
    } else if s == KW_LS@ {
        Ok(FeatureV::Ls)
    } else {
        Ok(FeatureV::Other { feature: s })
    }
}

/// What parsing a file-size argument yields: a decimal value with an
/// optional case-insensitive `k`/`m`/`g` suffix.
pub open spec fn parse_file_size_spec(s: Seq<u8>) -> Result<FileSize, ParseError> {
    let unit = if s.len() > 0 && (s.last() == 107 || s.last() == 75) {
        UnitFactor::K
    } else if s.len() > 0 && (s.last() == 109 || s.last() == 77) {
        UnitFactor::M
    } else if s.len() > 0 && (s.last() == 103 || s.last() == 71) {
        UnitFactor::G
    } else {
        UnitFactor::B
    };
    let num = if unit is B {
        s
    } else {
        s.subrange(0, s.len() - 1)
    };
    if num.len() > 0 && all_dec_digits(num) && dec_value(num) <= u32::MAX {
        Ok(FileSize { value: dec_value(num) as u32, unit })
    } else {
        Err(ParseError::InvalidOptionFileSize)
    }
}

/// What parsing an `option git` argument yields.
pub open spec fn parse_option_git_spec(s: Seq<u8>) -> Result<OptionGitV, ParseError> {
    if starts_with(s, KW_MAX_PACK_SIZE_EQ@) {
        match parse_file_size_spec(s.subrange(KW_MAX_PACK_SIZE_EQ@.len() as int, s.len() as int)) {
            Ok(size) => Ok(OptionGitV::MaxPackSize { size }),
            Err(e) => Err(e),
        }
    } else if starts_with(s, KW_BIG_FILE_THRESHOLD_EQ@) {
        match parse_file_size_spec(
            s.subrange(KW_BIG_FILE_THRESHOLD_EQ@.len() as int, s.len() as int),
        ) {
            Ok(size) => Ok(OptionGitV::BigFileThreshold { size }),
            Err(e) => Err(e),
        }
    } else if starts_with(s, KW_DEPTH_EQ@) {
        let num = s.subrange(KW_DEPTH_EQ@.len() as int, s.len() as int);
        if num.len() > 0 && all_dec_digits(num) && dec_value(num) <= u32::MAX {
            Ok(OptionGitV::Depth { depth: dec_value(num) as u32 })
        } else {
            Err(ParseError::InvalidOptionInt)
        }
    } else if starts_with(s, KW_ACTIVE_BRANCHES_EQ@) {
        let num = s.subrange(KW_ACTIVE_BRANCHES_EQ@.len() as int, s.len() as int);
        if num.len() > 0 && all_dec_digits(num) && dec_value(num) <= u32::MAX {
            Ok(OptionGitV::ActiveBranches { count: dec_value(num) as u32 })
        } else {
            Err(ParseError::InvalidOptionInt)
        }
    } else if starts_with(s, KW_EXPORT_PACK_EDGES_EQ@) {
        Ok(
            OptionGitV::ExportPackEdges {
                path: s.subrange(KW_EXPORT_PACK_EDGES_EQ@.len() as int, s.len() as int),
            },
        )
    } else if s == KW_QUIET@ {
        Ok(OptionGitV::Quiet)
    } else if s == KW_STATS@ {
        Ok(OptionGitV::Stats)
    } else if s == KW_ALLOW_UNSAFE_FEATURES@ {
        Ok(OptionGitV::AllowUnsafeFeatures)
    } else {
        Err(ParseError::UnsupportedGitOption)
    }
}

impl Mark {
    /// Parses `:N`. Accepts exactly a `:` followed by a decimal numeral
    /// whose value is in `1..=u64::MAX`; `:0` is rejected as reserved.
    pub fn parse(mark: &Vec<u8>) -> (r: Result<Mark, StreamError>)
        ensures
            match r {
                Ok(m) => parse_mark_spec(mark@) == Ok::<u64, ParseError>(m.value()),
                Err(e) => match e {
                    StreamError::Parse(pe) => parse_mark_spec(mark@) == Err::<u64, ParseError>(pe),
                    _ => false,
                },
            },
    {
        if mark.len() == 0 || mark[0] != COLON {
            return Err(StreamError::Parse(ParseError::MarkMissingColon));
        }
        let num = crate::bytes::subvec(mark, 1, mark.len());
        let v = match crate::num::parse_u64(&num) {
            Some(v) => v,
            None => {
                return Err(StreamError::Parse(ParseError::InvalidMark));
            },
        };
        match Mark::new(v) {
            Some(m) => Ok(m),
            None => Err(StreamError::Parse(ParseError::ZeroMark)),
        }
    }
}

impl Branch {
    /// Parses a branch name: any NUL-free bytes.
    pub fn parse(branch: &Vec<u8>) -> (r: Result<Branch, StreamError>)
        ensures
            match r {
                Ok(b) => parse_branch_spec(branch@) == Ok::<Seq<u8>, ParseError>(b.branch@),
                Err(e) => match e {
                    StreamError::Parse(pe) => parse_branch_spec(branch@) == Err::<
                        Seq<u8>,
                        ParseError,
                    >(pe),
                    _ => false,
                },
            },
    {
        if crate::bytes::vec_contains_byte(branch, NUL) {
            Err(StreamError::Parse(ParseError::BranchContainsNul))
        } else {
            Ok(Branch { branch: crate::bytes::clone_vec(branch) })
        }
    }
}

impl TagName {
    /// Parses a tag name: any NUL-free bytes.
    pub fn parse(name: &Vec<u8>) -> (r: Result<TagName, StreamError>)
        ensures
            match r {
                Ok(t) => parse_tag_name_spec(name@) == Ok::<Seq<u8>, ParseError>(t.name@),
                Err(e) => match e {
                    StreamError::Parse(pe) => parse_tag_name_spec(name@) == Err::<
                        Seq<u8>,
                        ParseError,
                    >(pe),
                    _ => false,
                },
            },
    {
        if crate::bytes::vec_contains_byte(name, NUL) {
            Err(StreamError::Parse(ParseError::TagContainsNul))
        } else {
            Ok(TagName { name: crate::bytes::clone_vec(name) })
        }
    }
}

impl OriginalOid {
    /// Parses an `original-oid` argument: carried through unvalidated.
    pub fn parse(oid: &Vec<u8>) -> (r: OriginalOid)
        ensures
            r.oid@ == oid@,
    {
        OriginalOid { oid: crate::bytes::clone_vec(oid) }
    }
}

impl Objectish {
    /// Parses an object reference: a mark when it starts with `:`, else a
    /// raw branch name or object id.
    pub fn parse(objectish: &Vec<u8>) -> (r: Result<Objectish, StreamError>)
        ensures
            match r {
                Ok(o) => parse_objectish_spec(objectish@) == Ok::<ObjectishV, ParseError>(
                    objectish_view(o),
                ),
                Err(e) => match e {
                    StreamError::Parse(pe) => parse_objectish_spec(objectish@) == Err::<
                        ObjectishV,
                        ParseError,
                    >(pe),
                    _ => false,
                },
            },
    {
        if objectish.len() > 0 && objectish[0] == COLON {
            match Mark::parse(objectish) {
                Ok(m) => Ok(Objectish::Mark(m)),
                Err(e) => Err(e),
            }
        } else {
            Ok(Objectish::BranchOrOid(crate::bytes::clone_vec(objectish)))
        }
    }
}

impl Commitish {
    /// Parses a commit reference.
    pub fn parse(commitish: &Vec<u8>) -> (r: Result<Commitish, StreamError>)
        ensures
            match r {
                Ok(c) => parse_objectish_spec(commitish@) == Ok::<ObjectishV, ParseError>(
                    objectish_view(c.commit),
                ),
                Err(e) => match e {
                    StreamError::Parse(pe) => parse_objectish_spec(commitish@) == Err::<
                        ObjectishV,
                        ParseError,
                    >(pe),
                    _ => false,
                },
            },
    {
        match Objectish::parse(commitish) {
            Ok(o) => Ok(Commitish { commit: o }),
            Err(e) => Err(e),
        }
    }
}

/// View of a blob or tree reference.
pub open spec fn blobish_view(b: Blobish) -> ObjectishV {
    match b {
        Blobish::Mark(m) => ObjectishV::Mark(m.value()),
        Blobish::Oid(o) => ObjectishV::BranchOrOid(o@),
    }
}

pub open spec fn treeish_view(t: Treeish) -> ObjectishV {
    match t {
        Treeish::Mark(m) => ObjectishV::Mark(m.value()),
        Treeish::Oid(o) => ObjectishV::BranchOrOid(o@),
    }
}

impl Blobish {
    /// Parses a blob reference: a mark when it starts with `:`, else an id.
    pub fn parse(blobish: &Vec<u8>) -> (r: Result<Blobish, StreamError>)
        ensures
            match r {
                Ok(b) => parse_objectish_spec(blobish@) == Ok::<ObjectishV, ParseError>(
                    blobish_view(b),
                ),
                Err(e) => match e {
                    StreamError::Parse(pe) => parse_objectish_spec(blobish@) == Err::<
                        ObjectishV,
                        ParseError,
                    >(pe),
                    _ => false,
                },
            },
    {
        if blobish.len() > 0 && blobish[0] == COLON {
            match Mark::parse(blobish) {
                Ok(m) => Ok(Blobish::Mark(m)),
                Err(e) => Err(e),
            }
        } else {
            Ok(Blobish::Oid(crate::bytes::clone_vec(blobish)))
        }
    }
}

impl Treeish {
    /// Parses a tree reference: a mark when it starts with `:`, else an id.
    pub fn parse(treeish: &Vec<u8>) -> (r: Result<Treeish, StreamError>)
        ensures
            match r {
                Ok(t) => parse_objectish_spec(treeish@) == Ok::<ObjectishV, ParseError>(
                    treeish_view(t),
                ),
                Err(e) => match e {
                    StreamError::Parse(pe) => parse_objectish_spec(treeish@) == Err::<
                        ObjectishV,
                        ParseError,
                    >(pe),
                    _ => false,
                },
            },
    {
        if treeish.len() > 0 && treeish[0] == COLON {
            match Mark::parse(treeish) {
                Ok(m) => Ok(Treeish::Mark(m)),
                Err(e) => Err(e),
            }
        } else {
            Ok(Treeish::Oid(crate::bytes::clone_vec(treeish)))
        }
    }
}

/// The first index at or after `from` holding `b1` or `b2`, or the length.
fn find_first_of2(s: &Vec<u8>, from: usize, b1: u8, b2: u8) -> (r: usize)
    requires
        from <= s@.len(),
    ensures
        r == first_of2(s@, from as int, b1, b2),
{
    let mut i: usize = from;
    while i < s.len()
        invariant
            from <= i <= s@.len(),
            forall|k: int| from <= k < i ==> s@[k] != b1 && s@[k] != b2,
        decreases s@.len() - i,
    {
        if s[i] == b1 || s[i] == b2 {
            proof {
                lemma_first_of2_at(s@, from as int, b1, b2, i as int);
            }
            return i;
        }
        i += 1;
    }
    proof {
        lemma_first_of2_at(s@, from as int, b1, b2, s@.len() as int);
    }
    s.len()
}

pub proof fn lemma_first_of2_at(s: Seq<u8>, i: int, b1: u8, b2: u8, e: int)
    requires
        0 <= i <= e <= s.len(),
        forall|k: int| i <= k < e ==> s[k] != b1 && s[k] != b2,
        e == s.len() || s[e] == b1 || s[e] == b2,
    ensures
        first_of2(s, i, b1, b2) == e,
    decreases e - i,
{
    if i < e {
        lemma_first_of2_at(s, i + 1, b1, b2, e);
    }
}

impl PersonIdent {
    /// Parses `NAME <EMAIL> DATE`: `<` and `>` must bracket the email and be
    /// bordered by single spaces on the outside (`<` may start the string);
    /// the date is carried as raw bytes.
    pub fn parse(ident: &Vec<u8>) -> (r: Result<PersonIdent, StreamError>)
        ensures
            match r {
                Ok(p) => parse_person_ident_spec(ident@) == Ok::<
                    (Seq<u8>, Seq<u8>, Seq<u8>),
                    ParseError,
                >((p.name@, p.email@, p.date@)) && ident_ok(p),
                Err(e) => match e {
                    StreamError::Parse(pe) => parse_person_ident_spec(ident@) == Err::<
                        (Seq<u8>, Seq<u8>, Seq<u8>),
                        ParseError,
                    >(pe),
                    _ => false,
                },
            },
    {
        if crate::bytes::vec_contains_byte(ident, NUL) {
            return Err(StreamError::Parse(ParseError::IdentContainsNul));
        }
        let lt = find_first_of2(ident, 0, LT, GT);
        proof {
            lemma_first_of2(ident@, 0, LT, GT);
        }
        if lt == ident.len() {
            return Err(StreamError::Parse(ParseError::IdentNoLtOrGt));
        }
        if ident[lt] != LT {
            return Err(StreamError::Parse(ParseError::IdentNoLtBeforeGt));
        }
        if lt != 0 && ident[lt - 1] != SP {
            return Err(StreamError::Parse(ParseError::IdentNoSpaceBeforeLt));
        }
        let gt = find_first_of2(ident, lt + 1, LT, GT);
        proof {
            lemma_first_of2(ident@, lt + 1, LT, GT);
        }
        if gt == ident.len() || ident[gt] != GT {
            return Err(StreamError::Parse(ParseError::IdentNoGtAfterLt));
        }
        if gt + 1 >= ident.len() || ident[gt + 1] != SP {
            return Err(StreamError::Parse(ParseError::IdentNoSpaceAfterGt));
        }
        let name_end = if lt >= 1 {
            lt - 1
        } else {
            0
        };
        proof {
            lemma_subrange_no_byte(ident@, 0, name_end as int, NUL);
            lemma_subrange_no_byte(ident@, lt + 1, gt as int, NUL);
            lemma_subrange_no_byte(ident@, gt + 2, ident@.len() as int, NUL);
        }
        Ok(
            PersonIdent {
                name: crate::bytes::subvec(ident, 0, name_end),
                email: crate::bytes::subvec(ident, lt + 1, gt),
                date: crate::bytes::subvec(ident, gt + 2, ident.len()),
            },
        )
    }
}

impl Encoding {
    /// Parses an encoding name: any NUL-free bytes.
    pub fn parse(encoding: &Vec<u8>) -> (r: Result<Encoding, StreamError>)
        ensures
            match r {
                Ok(enc) => parse_encoding_spec(encoding@) == Ok::<Seq<u8>, ParseError>(
                    enc.encoding@,
                ),
                Err(e) => match e {
                    StreamError::Parse(pe) => parse_encoding_spec(encoding@) == Err::<
                        Seq<u8>,
                        ParseError,
                    >(pe),
                    _ => false,
                },
            },
    {
        if crate::bytes::vec_contains_byte(encoding, NUL) {
            Err(StreamError::Parse(ParseError::EncodingContainsNul))
        } else {
            Ok(Encoding { encoding: crate::bytes::clone_vec(encoding) })
        }
    }
}

impl DataHeader {
    /// Parses a `data` directive argument, but does not read its contents:
    /// `<<DELIM` selects delimited framing (delimiter non-empty and
    /// NUL-free), anything else must be a decimal byte count.
    pub fn parse(arg: &Vec<u8>) -> (r: Result<DataHeader, StreamError>)
        ensures
            match r {
                Ok(h) => parse_data_header_spec(arg@) == Ok::<DataHeaderV, ParseError>(
                    data_header_view(h),
                ),
                Err(e) => match e {
                    StreamError::Parse(pe) => parse_data_header_spec(arg@) == Err::<
                        DataHeaderV,
                        ParseError,
                    >(pe),
                    _ => false,
                },
            },
    {
        match crate::bytes::strip_prefix(arg, &KW_LTLT) {
            Some(delim) => {
                if delim.len() == 0 {
                    Err(StreamError::Parse(ParseError::EmptyDelim))
                } else if crate::bytes::vec_contains_byte(&delim, NUL) {
                    Err(StreamError::Parse(ParseError::DataDelimContainsNul))
                } else {
                    Ok(DataHeader::Delimited { delim })
                }
            },
            None => {
                match crate::num::parse_u64(arg) {
                    Some(len) => Ok(DataHeader::Counted { len }),
                    None => Err(StreamError::Parse(ParseError::InvalidDataLength)),
                }
            },
        }
    }
}

impl DateFormat {
    /// Parses a date-format token.
    pub fn parse(format: &Vec<u8>) -> (r: Result<DateFormat, StreamError>)
        ensures
            match r {
                Ok(d) => parse_date_format_spec(format@) == Ok::<DateFormat, ParseError>(d),
                Err(e) => match e {
                    StreamError::Parse(pe) => parse_date_format_spec(format@) == Err::<
                        DateFormat,
                        ParseError,
                    >(pe),
                    _ => false,
                },
            },
    {
        let raw: Vec<u8> = crate::bytes::slice_to_vec(&KW_RAW);
        if crate::bytes::bytes_eq(format, &raw) {
            return Ok(DateFormat::Raw);
        }
        let rp: Vec<u8> = crate::bytes::slice_to_vec(&KW_RAW_PERMISSIVE);
        if crate::bytes::bytes_eq(format, &rp) {
            return Ok(DateFormat::RawPermissive);
        }
        let rfc: Vec<u8> = crate::bytes::slice_to_vec(&KW_RFC2822);
        if crate::bytes::bytes_eq(format, &rfc) {
            return Ok(DateFormat::Rfc2822);
        }
        let now: Vec<u8> = crate::bytes::slice_to_vec(&KW_NOW);
        if crate::bytes::bytes_eq(format, &now) {
            return Ok(DateFormat::Now);
        }
        Err(StreamError::Parse(ParseError::InvalidDateFormat))
    }
}

impl FastImportPath {
    /// Parses a marks-file path: any NUL-free bytes.
    pub fn parse(path: &Vec<u8>) -> (r: Result<FastImportPath, StreamError>)
        ensures
            match r {
                Ok(p) => parse_path_spec(path@) == Ok::<Seq<u8>, ParseError>(p.path@),
                Err(e) => match e {
                    StreamError::Parse(pe) => parse_path_spec(path@) == Err::<Seq<u8>, ParseError>(
                        pe,
                    ),
                    _ => false,
                },
            },
    {
        if crate::bytes::vec_contains_byte(path, NUL) {
            Err(StreamError::Parse(ParseError::PathContainsNul))
        } else {
            Ok(FastImportPath { path: crate::bytes::clone_vec(path) })
        }
    }
}

/// Parses a `rewrite-submodules-*` argument of the form `NAME:PATH`.
pub fn parse_rewrite_submodules(args: &Vec<u8>) -> (r: Result<(Vec<u8>, Vec<u8>), StreamError>)
    ensures
        match r {
            Ok(np) => parse_rewrite_submodules_spec(args@) == Ok::<(Seq<u8>, Seq<u8>), ParseError>(
                (np.0@, np.1@),
            ),
            Err(e) => match e {
                StreamError::Parse(pe) => parse_rewrite_submodules_spec(args@) == Err::<
                    (Seq<u8>, Seq<u8>),
                    ParseError,
                >(pe),
                _ => false,
            },
        },
{
    if crate::bytes::vec_contains_byte(args, NUL) {
        return Err(StreamError::Parse(ParseError::RewriteSubmodulesContainsNul));
    }
    match crate::bytes::find_byte_in(args, COLON) {
        Some(c) => {
            assert(c < args.len());
            proof {
                crate::bytes::lemma_find_idx_at(args@, 0, COLON, c as int);
            }
            let name = crate::bytes::subvec(args, 0, c);
            let path = crate::bytes::subvec(args, c + 1, args.len());
            Ok((name, path))
        },
        None => {
            proof {
                crate::bytes::lemma_find_idx_at(args@, 0, COLON, args@.len() as int);
            }
            Err(StreamError::Parse(ParseError::RewriteSubmodulesNoColon))
        },
    }
}

impl Feature {
    /// Parses a feature token into the closed feature set; anything
    /// unrecognized is carried opaquely.
    pub fn parse(feature: &Vec<u8>) -> (r: Result<Feature, StreamError>)
        ensures
            match r {
                Ok(f) => parse_feature_spec(feature@) == Ok::<FeatureV, ParseError>(
                    feature_view(f),
                ),
                Err(e) => match e {
                    StreamError::Parse(pe) => parse_feature_spec(feature@) == Err::<
                        FeatureV,
                        ParseError,
                    >(pe),
                    _ => false,
                },
            },
    {
        if let Some(rest) = crate::bytes::strip_prefix(feature, &KW_DATE_FORMAT_EQ) {
            match DateFormat::parse(&rest) {
                Ok(format) => Ok(Feature::DateFormat { format }),
                Err(e) => Err(e),
            }
        } else if let Some(rest) = crate::bytes::strip_prefix(
            feature,
            &KW_IMPORT_MARKS_IF_EXISTS_EQ,
        ) {
            match FastImportPath::parse(&rest) {
                Ok(path) => Ok(Feature::ImportMarks { path, ignore_missing: true }),
                Err(e) => Err(e),
            }
        } else if let Some(rest) = crate::bytes::strip_prefix(feature, &KW_IMPORT_MARKS_EQ) {
            match FastImportPath::parse(&rest) {
                Ok(path) => Ok(Feature::ImportMarks { path, ignore_missing: false }),
                Err(e) => Err(e),
            }
        } else if let Some(rest) = crate::bytes::strip_prefix(feature, &KW_EXPORT_MARKS_EQ) {
            match FastImportPath::parse(&rest) {
                Ok(path) => Ok(Feature::ExportMarks { path }),
                Err(e) => Err(e),
            }
        } else if crate::bytes::has_prefix(feature, &KW_ALIAS) && feature.len() == KW_ALIAS.len() {
            proof {
                assert(feature@ =~= KW_ALIAS@);
            }
            Ok(Feature::Alias)
        } else if let Some(rest) = crate::bytes::strip_prefix(
            feature,
            &KW_REWRITE_SUBMODULES_TO_EQ,
        ) {
            match parse_rewrite_submodules(&rest) {
                Ok(np) => Ok(
                    Feature::RewriteSubmodulesTo { submodule_name: np.0, marks_path: np.1 },
                ),
                Err(e) => Err(e),
            }
        } else if let Some(rest) = crate::bytes::strip_prefix(
            feature,
            &KW_REWRITE_SUBMODULES_FROM_EQ,
        ) {
            match parse_rewrite_submodules(&rest) {
                Ok(np) => Ok(
                    Feature::RewriteSubmodulesFrom { submodule_name: np.0, marks_path: np.1 },
                ),
                Err(e) => Err(e),
            }
        } else if crate::bytes::has_prefix(feature, &KW_GET_MARK) && feature.len()
            == KW_GET_MARK.len() {
            proof {
                assert(feature@ =~= KW_GET_MARK@);
            }
            Ok(Feature::GetMark)
        } else if crate::bytes::has_prefix(feature, &KW_CAT_BLOB) && feature.len()
            == KW_CAT_BLOB.len() {
            proof {
                assert(feature@ =~= KW_CAT_BLOB@);
            }
            Ok(Feature::CatBlob)
        } else if crate::bytes::has_prefix(feature, &KW_RELATIVE_MARKS) && feature.len()
            == KW_RELATIVE_MARKS.len() {
            proof {
                assert(feature@ =~= KW_RELATIVE_MARKS@);
            }
            Ok(Feature::RelativeMarks { relative: true })
        } else if crate::bytes::has_prefix(feature, &KW_NO_RELATIVE_MARKS) && feature.len()
            == KW_NO_RELATIVE_MARKS.len() {
            proof {
                assert(feature@ =~= KW_NO_RELATIVE_MARKS@);
            }
            Ok(Feature::RelativeMarks { relative: false })
        } else if crate::bytes::has_prefix(feature, &KW_DONE) && feature.len() == KW_DONE.len() {
            proof {
                assert(feature@ =~= KW_DONE@);
            }
            Ok(Feature::Done)
        } else if crate::bytes::has_prefix(feature, &KW_FORCE) && feature.len() == KW_FORCE.len() {
            proof {
                assert(feature@ =~= KW_FORCE@);
            }
            Ok(Feature::Force)
        } else if crate::bytes::has_prefix(feature, &KW_NOTES) && feature.len() == KW_NOTES.len() {
            proof {
                assert(feature@ =~= KW_NOTES@);
            }
            Ok(Feature::Notes)
        } else if crate::bytes::has_prefix(feature, &KW_LS) && feature.len() == KW_LS.len() {
            proof {
                assert(feature@ =~= KW_LS@);
            }
            Ok(Feature::Ls)
        } else {
            proof {
                if feature@ == KW_ALIAS@ {
                    assert(feature@.subrange(0, KW_ALIAS@.len() as int) =~= KW_ALIAS@);
                    assert(starts_with(feature@, KW_ALIAS@));
                }
                if feature@ == KW_GET_MARK@ {
                    assert(feature@.subrange(0, KW_GET_MARK@.len() as int) =~= KW_GET_MARK@);
                    assert(starts_with(feature@, KW_GET_MARK@));
                }
                if feature@ == KW_CAT_BLOB@ {
                    assert(feature@.subrange(0, KW_CAT_BLOB@.len() as int) =~= KW_CAT_BLOB@);
                    assert(starts_with(feature@, KW_CAT_BLOB@));
                }
                if feature@ == KW_RELATIVE_MARKS@ {
                    assert(feature@.subrange(0, KW_RELATIVE_MARKS@.len() as int) =~= KW_RELATIVE_MARKS@);
                    assert(starts_with(feature@, KW_RELATIVE_MARKS@));
                }
                if feature@ == KW_NO_RELATIVE_MARKS@ {
                    assert(feature@.subrange(0, KW_NO_RELATIVE_MARKS@.len() as int) =~= KW_NO_RELATIVE_MARKS@);
                    assert(starts_with(feature@, KW_NO_RELATIVE_MARKS@));
                }
                if feature@ == KW_DONE@ {
                    assert(feature@.subrange(0, KW_DONE@.len() as int) =~= KW_DONE@);
                    assert(starts_with(feature@, KW_DONE@));
                }
                if feature@ == KW_FORCE@ {
                    assert(feature@.subrange(0, KW_FORCE@.len() as int) =~= KW_FORCE@);
                    assert(starts_with(feature@, KW_FORCE@));
                }
                if feature@ == KW_NOTES@ {
                    assert(feature@.subrange(0, KW_NOTES@.len() as int) =~= KW_NOTES@);
                    assert(starts_with(feature@, KW_NOTES@));
                }
                if feature@ == KW_LS@ {
                    assert(feature@.subrange(0, KW_LS@.len() as int) =~= KW_LS@);
                    assert(starts_with(feature@, KW_LS@));
                }
            }
            Ok(Feature::Other { feature: crate::bytes::clone_vec(feature) })
        }
    }
}

impl FileSize {
    /// Parses a size with an optional case-insensitive `k`/`m`/`g` suffix.
    pub fn parse(size: &Vec<u8>) -> (r: Result<FileSize, StreamError>)
        ensures
            match r {
                Ok(f) => parse_file_size_spec(size@) == Ok::<FileSize, ParseError>(f),
                Err(e) => match e {
                    StreamError::Parse(pe) => parse_file_size_spec(size@) == Err::<
                        FileSize,
                        ParseError,
                    >(pe),
                    _ => false,
                },
            },
    {
        let n = size.len();
        let (unit, trim) = if n > 0 && (size[n - 1] == 107 || size[n - 1] == 75) {
            (UnitFactor::K, true)
        } else if n > 0 && (size[n - 1] == 109 || size[n - 1] == 77) {
            (UnitFactor::M, true)
        } else if n > 0 && (size[n - 1] == 103 || size[n - 1] == 71) {
            (UnitFactor::G, true)
        } else {
            (UnitFactor::B, false)
        };
        let num = if trim {
            crate::bytes::subvec(size, 0, n - 1)
        } else {
            crate::bytes::subvec(size, 0, n)
        };
        proof {
            if !trim {
                assert(num@ =~= size@);
            }
        }
        match crate::num::parse_u32(&num) {
            Some(value) => Ok(FileSize { value, unit }),
            None => Err(StreamError::Parse(ParseError::InvalidOptionFileSize)),
        }
    }
}

impl OptionGit {
    /// Parses an `option git` argument from the closed set git understands.
    pub fn parse(option: &Vec<u8>) -> (r: Result<OptionGit, StreamError>)
        ensures
            match r {
                Ok(o) => parse_option_git_spec(option@) == Ok::<OptionGitV, ParseError>(
                    option_git_view(o),
                ),
                Err(e) => match e {
                    StreamError::Parse(pe) => parse_option_git_spec(option@) == Err::<
                        OptionGitV,
                        ParseError,
                    >(pe),
                    _ => false,
                },
            },
    {
        if let Some(rest) = crate::bytes::strip_prefix(option, &KW_MAX_PACK_SIZE_EQ) {
            match FileSize::parse(&rest) {
                Ok(size) => Ok(OptionGit::MaxPackSize { size }),
                Err(e) => Err(e),
            }
        } else if let Some(rest) = crate::bytes::strip_prefix(option, &KW_BIG_FILE_THRESHOLD_EQ) {
            match FileSize::parse(&rest) {
                Ok(size) => Ok(OptionGit::BigFileThreshold { size }),
                Err(e) => Err(e),
            }
        } else if let Some(rest) = crate::bytes::strip_prefix(option, &KW_DEPTH_EQ) {
            match crate::num::parse_u32(&rest) {
                Some(depth) => Ok(OptionGit::Depth { depth }),
                None => Err(StreamError::Parse(ParseError::InvalidOptionInt)),
            }
        } else if let Some(rest) = crate::bytes::strip_prefix(option, &KW_ACTIVE_BRANCHES_EQ) {
            match crate::num::parse_u32(&rest) {
                Some(count) => Ok(OptionGit::ActiveBranches { count }),
                None => Err(StreamError::Parse(ParseError::InvalidOptionInt)),
            }
        } else if let Some(rest) = crate::bytes::strip_prefix(option, &KW_EXPORT_PACK_EDGES_EQ) {
            Ok(OptionGit::ExportPackEdges { path: rest })
        } else if crate::bytes::has_prefix(option, &KW_QUIET) && option.len() == KW_QUIET.len() {
            proof {
                assert(option@ =~= KW_QUIET@);
            }
            Ok(OptionGit::Quiet)
        } else if crate::bytes::has_prefix(option, &KW_STATS) && option.len() == KW_STATS.len() {
            proof {
                assert(option@ =~= KW_STATS@);
            }
            Ok(OptionGit::Stats)
        } else if crate::bytes::has_prefix(option, &KW_ALLOW_UNSAFE_FEATURES) && option.len()
            == KW_ALLOW_UNSAFE_FEATURES.len() {
            proof {
                assert(option@ =~= KW_ALLOW_UNSAFE_FEATURES@);
            }
            Ok(OptionGit::AllowUnsafeFeatures)
        } else {
            proof {
                if option@ == KW_QUIET@ {
                    assert(option@.subrange(0, KW_QUIET@.len() as int) =~= KW_QUIET@);
                    assert(starts_with(option@, KW_QUIET@));
                }
                if option@ == KW_STATS@ {
                    assert(option@.subrange(0, KW_STATS@.len() as int) =~= KW_STATS@);
                    assert(starts_with(option@, KW_STATS@));
                }
                if option@ == KW_ALLOW_UNSAFE_FEATURES@ {
                    assert(option@.subrange(0, KW_ALLOW_UNSAFE_FEATURES@.len() as int) =~= KW_ALLOW_UNSAFE_FEATURES@);
                    assert(starts_with(option@, KW_ALLOW_UNSAFE_FEATURES@));
                }
            }
            Err(StreamError::Parse(ParseError::UnsupportedGitOption))
        }
    }
}

/// A slice of a byte string without `b` is itself without `b`.
proof fn lemma_subrange_no_byte(s: Seq<u8>, i: int, j: int, b: u8)
    requires
        !contains_byte(s, b),
        0 <= i <= j <= s.len(),
    ensures
        !contains_byte(s.subrange(i, j), b),
{
    if contains_byte(s.subrange(i, j), b) {
        let k = choose|k: int| 0 <= k < j - i && s.subrange(i, j)[k] == b;
        assert(s[i + k] == b);
    }
}

/// No NUL in any field of a person identity.
pub open spec fn ident_ok(p: PersonIdent) -> bool {
    !contains_byte(p.name@, NUL) && !contains_byte(p.email@, NUL) && !contains_byte(p.date@, NUL)
}

/// The validity every accepted command enjoys: positive marks are enforced
/// by the `Mark` type itself; here, delimiters are non-empty and NUL-free,
/// and branch, tag, identity, encoding and submodule-spec byte-strings are
/// NUL-free.
pub open spec fn command_valid(c: Command) -> bool {
    match c {
        Command::Blob(b) => match b.data_header {
            DataHeader::Delimited { delim } => delim@.len() > 0 && !contains_byte(delim@, NUL),
            DataHeader::Counted { .. } => true,
        },
        Command::Commit(c) => {
            &&& !contains_byte(c.branch.branch@, NUL)
            &&& ident_ok(c.committer)
            &&& match c.author {
                Some(a) => ident_ok(a),
                None => true,
            }
            &&& match c.encoding {
                Some(e) => !contains_byte(e.encoding@, NUL),
                None => true,
            }
        },
        Command::Tag(t) => {
            &&& !contains_byte(t.name.name@, NUL)
            &&& match t.tagger {
                Some(p) => ident_ok(p),
                None => true,
            }
        },
        Command::Reset(r) => !contains_byte(r.branch.branch@, NUL),
        Command::Feature(f) => match f {
            Feature::ImportMarks { path, .. } => !contains_byte(path.path@, NUL),
            Feature::ExportMarks { path } => !contains_byte(path.path@, NUL),
            Feature::RewriteSubmodulesTo { submodule_name, marks_path } => !contains_byte(
                submodule_name@,
                NUL,
            ) && !contains_byte(marks_path@, NUL),
            Feature::RewriteSubmodulesFrom { submodule_name, marks_path } => !contains_byte(
                submodule_name@,
                NUL,
            ) && !contains_byte(marks_path@, NUL),
            _ => true,
        },
        _ => true,
    }
}


/// Whether the buffered input stands at stream position `p`: either the
/// cursor is at `p` with nothing peeked, or the directive at `p` has been
/// peeked (and pooled) but not consumed, or there is no directive at `p`
/// and the reads have already run to the end of the stream.
pub open spec fn input_at(b: crate::input::BufInput, s: Seq<u8>, p: int) -> bool {
    &&& b.input.src@ == s
    &&& 0 <= p <= s.len()
    &&& if b.unread {
        match crate::input::next_directive_at(s, p) {
            Some(ld) => b.lines@.len() > 0 && b.lines@.last() == ld.0 && b.input.pos == ld.1,
            None => false,
        }
    } else {
        b.input.pos == p || (crate::input::next_directive_at(s, p) is None && b.input.pos
            == s.len() && b.input.eof)
    }
}

/// The optional `mark` sub-directive at `p`: the mark when the directive is
/// present (or its parse error), and the position after it.
pub open spec fn opt_mark_at(s: Seq<u8>, p: int) -> Result<(Option<u64>, int), ParseError> {
    match crate::input::next_directive_at(s, p) {
        Some(ld) => if starts_with(ld.0, KW_MARK_SP@) {
            match parse_mark_spec(ld.0.subrange(KW_MARK_SP@.len() as int, ld.0.len() as int)) {
                Ok(v) => Ok((Some(v), ld.1)),
                Err(e) => Err(e),
            }
        } else {
            Ok((None, p))
        },
        None => Ok((None, p)),
    }
}

/// The optional `original-oid` sub-directive at `p`: the oid when the
/// directive is present, and the position after it.
pub open spec fn opt_oid_at(s: Seq<u8>, p: int) -> (Option<Seq<u8>>, int) {
    match crate::input::next_directive_at(s, p) {
        Some(ld) => if starts_with(ld.0, KW_ORIGINAL_OID_SP@) {
            (Some(ld.0.subrange(KW_ORIGINAL_OID_SP@.len() as int, ld.0.len() as int)), ld.1)
        } else {
            (None, p)
        },
        None => (None, p),
    }
}

/// What the body of a `blob` command (after its keyword line) parses to:
/// optional mark, optional oid, the required data header, and the position
/// of the first payload byte (past the optional LF for an empty counted
/// payload, which is consumed with the command).
pub open spec fn blob_body_spec(s: Seq<u8>, p: int) -> Result<
    (Option<u64>, Option<Seq<u8>>, DataHeaderV, int),
    ParseError,
> {
    match opt_mark_at(s, p) {
        Err(e) => Err(e),
        Ok(mp) => {
            let op = opt_oid_at(s, mp.1);
            match crate::input::next_directive_at(s, op.1) {
                Some(ld) => if starts_with(ld.0, KW_DATA_SP@) {
                    match parse_data_header_spec(
                        ld.0.subrange(KW_DATA_SP@.len() as int, ld.0.len() as int),
                    ) {
                        Ok(h) => Ok(
                            (
                                mp.0,
                                op.0,
                                h,
                                match h {
                                    DataHeaderV::Counted { len } => if len == 0 {
                                        crate::input::skip_lf(s, ld.1)
                                    } else {
                                        ld.1
                                    },
                                    DataHeaderV::Delimited { .. } => ld.1,
                                },
                            ),
                        ),
                        Err(e) => Err(e),
                    }
                } else {
                    Err(ParseError::ExpectedBlobData)
                },
                None => Err(ParseError::ExpectedBlobData),
            }
        },
    }
}

/// What the body of an `alias` command (after its keyword line) parses to:
/// the optional LF at the head is consumed, then a required `mark` and a
/// required `to`; on success, the position after the `to` directive.
pub open spec fn alias_body_spec(s: Seq<u8>, p: int) -> Result<(u64, ObjectishV, int), ParseError> {
    let p0 = crate::input::skip_lf(s, p);
    match crate::input::next_directive_at(s, p0) {
        Some(ld) => if starts_with(ld.0, KW_MARK_SP@) {
            match parse_mark_spec(ld.0.subrange(KW_MARK_SP@.len() as int, ld.0.len() as int)) {
                Ok(v) => match crate::input::next_directive_at(s, ld.1) {
                    Some(ld2) => if starts_with(ld2.0, KW_TO_SP@) {
                        match parse_objectish_spec(
                            ld2.0.subrange(KW_TO_SP@.len() as int, ld2.0.len() as int),
                        ) {
                            Ok(o) => Ok((v, o, ld2.1)),
                            Err(e) => Err(e),
                        }
                    } else {
                        Err(ParseError::ExpectedAliasTo)
                    },
                    None => Err(ParseError::ExpectedAliasTo),
                },
                Err(e) => Err(e),
            }
        } else {
            Err(ParseError::ExpectedAliasMark)
        },
        None => Err(ParseError::ExpectedAliasMark),
    }
}


/// The optional sub-directive with the given prefix at `p`: its remainder
/// when present, and the position after it.
pub open spec fn opt_sub_at(s: Seq<u8>, p: int, prefix: Seq<u8>) -> (Option<Seq<u8>>, int) {
    match crate::input::next_directive_at(s, p) {
        Some(ld) => if starts_with(ld.0, prefix) {
            (Some(ld.0.subrange(prefix.len() as int, ld.0.len() as int)), ld.1)
        } else {
            (None, p)
        },
        None => (None, p),
    }
}

/// What an optional `data` sub-directive at `p` reads eagerly: the payload
/// and the position after it (past the optional LF), `None` when no `data`
/// directive is next.
pub open spec fn data_small_at(s: Seq<u8>, p: int) -> Result<Option<(Seq<u8>, int)>, ParseError> {
    match crate::input::next_directive_at(s, p) {
        Some(ld) => if starts_with(ld.0, KW_DATA_SP@) {
            match parse_data_header_spec(ld.0.subrange(KW_DATA_SP@.len() as int, ld.0.len() as int)) {
                Ok(DataHeaderV::Counted { len }) => if ld.1 + len <= s.len() {
                    Ok(
                        Some(
                            (
                                s.subrange(ld.1, ld.1 + len),
                                crate::input::skip_lf(s, ld.1 + len),
                            ),
                        ),
                    )
                } else {
                    Err(ParseError::DataUnexpectedEof)
                },
                Ok(DataHeaderV::Delimited { delim }) => match crate::input::delim_scan(
                    s,
                    ld.1,
                    delim,
                ) {
                    Some(pe) => Ok(Some((pe.0, crate::input::skip_lf(s, pe.1)))),
                    None => Err(ParseError::UnterminatedData),
                },
                Err(e) => Err(e),
            }
        } else {
            Ok(None)
        },
        None => Ok(None),
    }
}

/// The commit references of a `merge` run, in order, or the first parse
/// error among them.
pub open spec fn parse_commitish_list(rests: Seq<Seq<u8>>) -> Result<Seq<ObjectishV>, ParseError>
    decreases rests.len(),
{
    if rests.len() == 0 {
        Ok(Seq::empty())
    } else {
        match parse_objectish_spec(rests[0]) {
            Err(e) => Err(e),
            Ok(v) => match parse_commitish_list(rests.subrange(1, rests.len() as int)) {
                Ok(tail) => Ok(seq![v] + tail),
                Err(e) => Err(e),
            },
        }
    }
}

/// Views of a list of commit references.
pub open spec fn commitish_views(v: Seq<Commitish>) -> Seq<ObjectishV> {
    v.map(|i: int, c: Commitish| objectish_view(c.commit))
}

/// View of a parsed `commit` command: its fields over plain values, and the
/// position the input stands at once the command (merge run included) has
/// been consumed.
pub struct CommitV {
    pub branch: Seq<u8>,
    pub mark: Option<u64>,
    pub oid: Option<Seq<u8>>,
    pub author: Option<(Seq<u8>, Seq<u8>, Seq<u8>)>,
    pub committer: (Seq<u8>, Seq<u8>, Seq<u8>),
    pub encoding: Option<Seq<u8>>,
    pub message: Seq<u8>,
    pub from: Option<ObjectishV>,
    pub merge: Seq<ObjectishV>,
    pub end: int,
}

/// The parsed commit carries exactly the fields of its view.
pub open spec fn commit_fields_match(cv: CommitV, cm: Commit) -> bool {
    &&& cm.branch.branch@ == cv.branch
    &&& (match cm.mark {
        Some(m) => cv.mark == Some(m.value()),
        None => cv.mark is None,
    })
    &&& (match cm.original_oid {
        Some(o) => cv.oid == Some(o.oid@),
        None => cv.oid is None,
    })
    &&& (match cm.author {
        Some(a) => cv.author == Some((a.name@, a.email@, a.date@)),
        None => cv.author is None,
    })
    &&& cv.committer == (cm.committer.name@, cm.committer.email@, cm.committer.date@)
    &&& (match cm.encoding {
        Some(enc) => cv.encoding == Some(enc.encoding@),
        None => cv.encoding is None,
    })
    &&& cm.message@ == cv.message
    &&& (match cm.from {
        Some(f) => cv.from == Some(objectish_view(f.commit)),
        None => cv.from is None,
    })
    &&& commitish_views(cm.merge@) == cv.merge
}

/// What the body of a `commit` command (after its keyword line, whose
/// remainder is the branch) parses to.
/// View of the sub-directives of a `commit` command between its keyword
/// line and its `merge` run, and the position after them.
pub struct CommitFrontV {
    pub mark: Option<u64>,
    pub oid: Option<Seq<u8>>,
    pub author: Option<(Seq<u8>, Seq<u8>, Seq<u8>)>,
    pub committer: (Seq<u8>, Seq<u8>, Seq<u8>),
    pub encoding: Option<Seq<u8>>,
    pub message: Seq<u8>,
    pub from: Option<ObjectishV>,
    pub end: int,
}

/// What the sub-directives of a `commit` command up to (but excluding) the
/// `merge` run parse to: optional mark, optional original-oid, optional
/// author, required committer, optional encoding, required message,
/// optional `from`.
pub open spec fn commit_front_spec(s: Seq<u8>, p: int) -> Result<CommitFrontV, ParseError> {
    match opt_mark_at(s, p) {
        Err(e) => Err(e),
        Ok(mp) => {
            let op = opt_oid_at(s, mp.1);
            let au = opt_sub_at(s, op.1, KW_AUTHOR_SP@);
            let author = match au.0 {
                Some(rest) => match parse_person_ident_spec(rest) {
                    Ok(a) => Ok(Some(a)),
                    Err(e) => Err(e),
                },
                None => Ok(None),
            };
            match author {
                Err(e) => Err(e),
                Ok(author) => {
                    let cm = opt_sub_at(s, au.1, KW_COMMITTER_SP@);
                    match cm.0 {
                        None => Err(ParseError::ExpectedCommitCommitter),
                        Some(rest) => match parse_person_ident_spec(rest) {
                            Err(e) => Err(e),
                            Ok(committer) => {
                                let en = opt_sub_at(s, cm.1, KW_ENCODING_SP@);
                                let encoding = match en.0 {
                                    Some(rest2) => match parse_encoding_spec(rest2) {
                                        Ok(enc) => Ok(Some(enc)),
                                        Err(e) => Err(e),
                                    },
                                    None => Ok(None),
                                };
                                match encoding {
                                    Err(e) => Err(e),
                                    Ok(encoding) => match data_small_at(s, en.1) {
                                        Err(e) => Err(e),
                                        Ok(None) => Err(ParseError::ExpectedCommitMessage),
                                        Ok(Some(msg)) => {
                                            let fr = opt_sub_at(s, msg.1, KW_FROM_SP@);
                                            let from = match fr.0 {
                                                Some(rest2) => match parse_objectish_spec(
                                                    rest2,
                                                ) {
                                                    Ok(o) => Ok(Some(o)),
                                                    Err(e) => Err(e),
                                                },
                                                None => Ok(None),
                                            };
                                            match from {
                                                Err(e) => Err(e),
                                                Ok(from) => Ok(
                                                    CommitFrontV {
                                                        mark: mp.0,
                                                        oid: op.0,
                                                        author,
                                                        committer,
                                                        encoding,
                                                        message: msg.0,
                                                        from,
                                                        end: fr.1,
                                                    },
                                                ),
                                            }
                                        },
                                    },
                                }
                            },
                        },
                    }
                },
            }
        },
    }
}

/// What the body of a `commit` command (after its keyword line, whose
/// remainder is the branch) parses to: the front sub-directives followed by
/// the run of `merge` references.
pub open spec fn commit_body_spec(s: Seq<u8>, p: int, branch: Seq<u8>) -> Result<
    CommitV,
    ParseError,
> {
    match parse_branch_spec(branch) {
        Err(e) => Err(e),
        Ok(br) => match commit_front_spec(s, p) {
            Err(e) => Err(e),
            Ok(f) => {
                let run = crate::input::prefixed_run(s, f.end, KW_MERGE_SP@);
                match parse_commitish_list(run.0) {
                    Err(e) => Err(e),
                    Ok(merge) => Ok(
                        CommitV {
                            branch: br,
                            mark: f.mark,
                            oid: f.oid,
                            author: f.author,
                            committer: f.committer,
                            encoding: f.encoding,
                            message: f.message,
                            from: f.from,
                            merge,
                            end: run.1,
                        },
                    ),
                }
            },
        },
    }
}

/// View of a parsed `tag` command and the position after it.
pub struct TagV {
    pub name: Seq<u8>,
    pub mark: Option<u64>,
    pub from: ObjectishV,
    pub oid: Option<Seq<u8>>,
    pub tagger: Option<(Seq<u8>, Seq<u8>, Seq<u8>)>,
    pub message: Seq<u8>,
    pub end: int,
}

/// The parsed tag carries exactly the fields of its view.
pub open spec fn tag_fields_match(tv: TagV, t: Tag) -> bool {
    &&& t.name.name@ == tv.name
    &&& (match t.mark {
        Some(m) => tv.mark == Some(m.value()),
        None => tv.mark is None,
    })
    &&& objectish_view(t.from) == tv.from
    &&& (match t.original_oid {
        Some(o) => tv.oid == Some(o.oid@),
        None => tv.oid is None,
    })
    &&& (match t.tagger {
        Some(tg) => tv.tagger == Some((tg.name@, tg.email@, tg.date@)),
        None => tv.tagger is None,
    })
    &&& t.message@ == tv.message
}

/// What the body of a `tag` command (after its keyword line, whose
/// remainder is the tag name) parses to.
pub open spec fn tag_body_spec(s: Seq<u8>, p: int, name: Seq<u8>) -> Result<TagV, ParseError> {
    match parse_tag_name_spec(name) {
        Err(e) => Err(e),
        Ok(nm) => match opt_mark_at(s, p) {
            Err(e) => Err(e),
            Ok(mp) => {
                let fr = opt_sub_at(s, mp.1, KW_FROM_SP@);
                match fr.0 {
                    None => Err(ParseError::ExpectedTagFrom),
                    Some(rest) => match parse_objectish_spec(rest) {
                        Err(e) => Err(e),
                        Ok(from) => {
                            let op = opt_oid_at(s, fr.1);
                            let tg = opt_sub_at(s, op.1, KW_TAGGER_SP@);
                            let tagger = match tg.0 {
                                Some(rest2) => match parse_person_ident_spec(rest2) {
                                    Ok(t) => Ok(Some(t)),
                                    Err(e) => Err(e),
                                },
                                None => Ok(None),
                            };
                            match tagger {
                                Err(e) => Err(e),
                                Ok(tagger) => match data_small_at(s, tg.1) {
                                    Err(e) => Err(e),
                                    Ok(None) => Err(ParseError::ExpectedTagMessage),
                                    Ok(Some(msg)) => Ok(
                                        TagV {
                                            name: nm,
                                            mark: mp.0,
                                            from,
                                            oid: op.0,
                                            tagger,
                                            message: msg.0,
                                            end: msg.1,
                                        },
                                    ),
                                },
                            }
                        },
                    },
                }
            },
        },
    }
}

/// Where the input stands once an unfinished, never-opened payload has been
/// drained transparently: past the remaining counted bytes or the delimiter
/// line, and past the optional LF after them; or the error when the stream
/// ends inside the payload.
pub open spec fn drained_pos(src: Seq<u8>, pos: int, s: DataState) -> Result<int, ParseError> {
    if s.finished {
        Ok(pos)
    } else if s.is_counted {
        if pos + (s.len - s.len_read) <= src.len() {
            Ok(crate::input::skip_lf(src, pos + (s.len - s.len_read)))
        } else {
            Err(ParseError::DataUnexpectedEof)
        }
    } else {
        match crate::input::delim_scan(src, pos, s.delim@) {
            Some(pe) => Ok(crate::input::skip_lf(src, pe.1)),
            None => Err(ParseError::UnterminatedData),
        }
    }
}


/// The outcome `Parser::next` guarantees, given the command line it reads:
/// `cur` holds that line and the input position just after it (`None` at
/// the end of the stream). Commands whose sub-directives follow on later
/// lines are relate to the spec of their body at that position.
pub open spec fn next_post(
    src: Seq<u8>,
    cur: Option<(Seq<u8>, int)>,
    r: Result<Command, StreamError>,
    post: Parser,
) -> bool {
    match cur {
        None => r == Ok::<Command, StreamError>(Command::Done(Done::Eof)) && post.input.input.pos
            == src.len() && !post.input.unread,
        Some(lp) => {
            let line = lp.0;
            let after = lp.1;
            &&& (line == KW_BLOB@ ==> match blob_body_spec(src, after) {
                Ok(bv) => (r matches Ok(c) && c matches Command::Blob(b) && (match b.mark {
                    Some(m) => bv.0 == Some(m.value()),
                    None => bv.0 is None,
                }) && (match b.original_oid {
                    Some(o) => bv.1 == Some(o.oid@),
                    None => bv.1 is None,
                }) && data_header_view(b.data_header) == bv.2 && !post.input.unread
                    && post.input.input.pos == bv.3),
                Err(e) => r == Err::<Command, StreamError>(StreamError::Parse(e)),
            })
            &&& (starts_with(line, KW_COMMIT_SP@) ==> match commit_body_spec(
                src,
                after,
                line.subrange(KW_COMMIT_SP@.len() as int, line.len() as int),
            ) {
                Ok(cv) => (r matches Ok(c) && c matches Command::Commit(cm)
                    && commit_fields_match(cv, cm) && input_at(post.input, src, cv.end)),
                Err(e) => r == Err::<Command, StreamError>(StreamError::Parse(e)),
            })
            &&& (starts_with(line, KW_TAG_SP@) ==> match tag_body_spec(
                src,
                after,
                line.subrange(KW_TAG_SP@.len() as int, line.len() as int),
            ) {
                Ok(tv) => (r matches Ok(c) && c matches Command::Tag(t) && tag_fields_match(
                    tv,
                    t,
                ) && input_at(post.input, src, tv.end)),
                Err(e) => r == Err::<Command, StreamError>(StreamError::Parse(e)),
            })
            &&& (starts_with(line, KW_RESET_SP@) ==> (r matches Ok(c) ==> c
                matches Command::Reset(rs) && rs.branch.branch@ == line.subrange(
                KW_RESET_SP@.len() as int,
                line.len() as int,
            )))
            &&& (starts_with(line, KW_LS_SP@) ==> match crate::commit::parse_ls_spec(
                line.subrange(KW_LS_SP@.len() as int, line.len() as int),
                false,
            ) {
                Ok(rp) => (r matches Ok(c) && c matches Command::Ls(ls) && rp.0 == Some(
                    treeish_view(ls.root),
                ) && ls.path@ == rp.1 && post.input.input.pos == after && !post.input.unread),
                Err(e) => r == Err::<Command, StreamError>(StreamError::Parse(e)),
            })
            &&& (starts_with(line, KW_CAT_BLOB_SP@) ==> (match parse_objectish_spec(
                line.subrange(KW_CAT_BLOB_SP@.len() as int, line.len() as int),
            ) {
                Ok(bv) => (r matches Ok(c) && c matches Command::CatBlob(cb) && blobish_view(
                    cb.blob,
                ) == bv),
                Err(e) => r == Err::<Command, StreamError>(StreamError::Parse(e)),
            }) && post.input.input.pos == after && !post.input.unread)
            &&& (starts_with(line, KW_GET_MARK_SP@) ==> (match parse_mark_spec(
                line.subrange(KW_GET_MARK_SP@.len() as int, line.len() as int),
            ) {
                Ok(v) => (r matches Ok(c) && c matches Command::GetMark(gm) && gm.mark.value()
                    == v),
                Err(e) => r == Err::<Command, StreamError>(StreamError::Parse(e)),
            }) && post.input.input.pos == after && !post.input.unread)
            &&& (line == KW_CHECKPOINT@ ==> r == Ok::<Command, StreamError>(Command::Checkpoint)
                && post.input.input.pos == crate::input::skip_lf(src, after)
                && !post.input.unread)
            &&& (line == KW_DONE@ ==> r == Ok::<Command, StreamError>(Command::Done(Done::Explicit))
                && post.input.input.pos == after && !post.input.unread)
            &&& (line == KW_ALIAS@ ==> match alias_body_spec(src, after) {
                Ok(av) => (r matches Ok(c) && c matches Command::Alias(a) && a.mark.value()
                    == av.0 && objectish_view(a.to.commit) == av.1 && !post.input.unread
                    && post.input.input.pos == av.2),
                Err(e) => r == Err::<Command, StreamError>(StreamError::Parse(e)),
            })
            &&& (starts_with(line, KW_PROGRESS_SP@) ==> (r matches Ok(c)
                && c matches Command::Progress(p) && p.message@ == line.subrange(
                KW_PROGRESS_SP@.len() as int,
                line.len() as int,
            )) && post.input.input.pos == crate::input::skip_lf(src, after)
                && !post.input.unread)
            &&& (starts_with(line, KW_FEATURE_SP@) ==> (match parse_feature_spec(
                line.subrange(KW_FEATURE_SP@.len() as int, line.len() as int),
            ) {
                Ok(fv) => (r matches Ok(c) && c matches Command::Feature(f) && feature_view(f)
                    == fv),
                Err(e) => r == Err::<Command, StreamError>(StreamError::Parse(e)),
            }) && post.input.input.pos == after && !post.input.unread)
            &&& (starts_with(line, KW_OPTION_SP@) ==> ({
                let tail = line.subrange(KW_OPTION_SP@.len() as int, line.len() as int);
                if starts_with(tail, KW_GIT_SP@) {
                    match parse_option_git_spec(
                        tail.subrange(KW_GIT_SP@.len() as int, tail.len() as int),
                    ) {
                        Ok(ov) => (r matches Ok(c) && c matches Command::OptionCmd(
                            OptionCommand::Git(g),
                        ) && option_git_view(g) == ov),
                        Err(e) => r == Err::<Command, StreamError>(StreamError::Parse(e)),
                    }
                } else {
                    (r matches Ok(c) && c matches Command::OptionCmd(OptionCommand::Other(oo))
                        && oo.option@ == tail)
                }
            }) && post.input.input.pos == after && !post.input.unread)
            &&& (line.len() == 0 ==> r == Err::<Command, StreamError>(
                StreamError::Parse(ParseError::UnexpectedBlank),
            ) && post.input.input.pos == after && !post.input.unread)
            &&& (!(line == KW_BLOB@ || starts_with(line, KW_COMMIT_SP@) || starts_with(
                line,
                KW_TAG_SP@,
            ) || starts_with(line, KW_RESET_SP@) || starts_with(line, KW_LS_SP@) || starts_with(
                line,
                KW_CAT_BLOB_SP@,
            ) || starts_with(line, KW_GET_MARK_SP@) || line == KW_CHECKPOINT@ || line == KW_DONE@
                || line == KW_ALIAS@ || starts_with(line, KW_PROGRESS_SP@) || starts_with(
                line,
                KW_FEATURE_SP@,
            ) || starts_with(line, KW_OPTION_SP@) || line.len() == 0) ==> r == Err::<
                Command,
                StreamError,
            >(StreamError::Parse(ParseError::UnrecognizedCommand)) && post.input.input.pos == after
                && !post.input.unread)
        },
    }
}

/// The identity and encoding fields of an accepted commit front are
/// NUL-free: each comes from a sub-parser that rejects NUL.
proof fn lemma_commit_front_nul_free(s: Seq<u8>, p: int)
    requires
        commit_front_spec(s, p) is Ok,
    ensures
        ({
            let f = commit_front_spec(s, p)->Ok_0;
            &&& !contains_byte(f.committer.0, NUL)
            &&& !contains_byte(f.committer.1, NUL)
            &&& !contains_byte(f.committer.2, NUL)
            &&& (match f.author {
                Some(a) => !contains_byte(a.0, NUL) && !contains_byte(a.1, NUL)
                    && !contains_byte(a.2, NUL),
                None => true,
            })
            &&& (match f.encoding {
                Some(enc) => !contains_byte(enc, NUL),
                None => true,
            })
        }),
{
    let f = commit_front_spec(s, p)->Ok_0;
    let mp = opt_mark_at(s, p)->Ok_0;
    let op = opt_oid_at(s, mp.1);
    let au = opt_sub_at(s, op.1, KW_AUTHOR_SP@);
    if au.0 is Some {
        let rest = au.0->Some_0;
        lemma_ident_fields_nul_free(rest);
    }
    let cm = opt_sub_at(s, au.1, KW_COMMITTER_SP@);
    let rest = cm.0->Some_0;
    lemma_ident_fields_nul_free(rest);
}

/// An accepted person identity has NUL-free fields.
proof fn lemma_ident_fields_nul_free(s: Seq<u8>)
    requires
        parse_person_ident_spec(s) is Ok,
    ensures
        ({
            let a = parse_person_ident_spec(s)->Ok_0;
            !contains_byte(a.0, NUL) && !contains_byte(a.1, NUL) && !contains_byte(a.2, NUL)
        }),
{
    let lt = first_of2(s, 0, LT, GT);
    lemma_first_of2(s, 0, LT, GT);
    let gt = first_of2(s, lt + 1, LT, GT);
    lemma_first_of2(s, lt + 1, LT, GT);
    lemma_subrange_no_byte(s, 0, if lt >= 1 { lt - 1 } else { 0 }, NUL);
    lemma_subrange_no_byte(s, lt + 1, gt, NUL);
    lemma_subrange_no_byte(s, gt + 2, s.len() as int, NUL);
}

/// A pull parser for fast-export streams held in memory. Commands are
/// parsed one at a time; data payloads are read separately through a
/// [`DataReader`] opened from the returned blob.
pub struct Parser {
    /// The buffered directive input.
    pub input: crate::input::BufInput,
    /// Whether a [`DataReader`] has been opened for the current data
    /// stream; at most one exists per parsed blob.
    pub data_opened: bool,
    /// The state for reading the current data stream.
    pub data_state: DataState,
}

/// The sub-directives of a commit up to (but excluding) its `merge` run.
struct CommitFront {
    mark: Option<Mark>,
    original_oid: Option<OriginalOid>,
    author: Option<PersonIdent>,
    committer: PersonIdent,
    encoding: Option<Encoding>,
    message: Vec<u8>,
    from: Option<Commitish>,
}

/// An exclusive handle for reading the current data stream; obtained from
/// [`Blob::open`], at most once per parsed blob.
#[derive(Debug)]
pub struct DataReader {
    _priv: bool,
}

impl Parser {
    pub open spec fn wf(&self) -> bool {
        &&& self.input.wf()
        &&& crate::input::data_wf(self.input.input, self.data_state)
        &&& (!self.data_state.finished ==> !self.input.unread)
        &&& (!self.data_state.finished ==> !self.data_state.closed)
    }

    /// Creates a parser for the given stream bytes.
    pub fn new(input: Vec<u8>) -> (r: Parser)
        ensures
            r.wf(),
            !r.data_opened,
            r.data_state.finished,
            r.data_state.closed,
            r.input.input.src@ == input@,
            r.input.input.pos == 0,
            !r.input.input.eof,
            !r.input.unread,
    {
        Parser {
            input: crate::input::BufInput::new(crate::input::Input::new(input)),
            data_opened: false,
            data_state: DataState::new(),
        }
    }

    /// Parses the next command of the stream.
    ///
    /// If the previous blob's data was not finished: when its reader was
    /// never opened the remainder is skipped transparently, and when it was
    /// opened and abandoned this fails with `Unfinished`.
    #[verifier::rlimit(100)]
    pub fn next(&mut self) -> (r: Result<Command, StreamError>)
        requires
            old(self).wf(),
        ensures
            final(self).wf(),
            final(self).input.input.src@ == old(self).input.input.src@,
            !old(self).data_state.finished && old(self).data_opened ==> r == Err::<
                Command,
                StreamError,
            >(StreamError::DataReader(DataReaderError::Unfinished)) && *final(self) == *old(self),
            (match r {
                Ok(c) => {
                    &&& command_valid(c)
                    &&& (match c {
                        Command::Blob(b) => {
                            &&& !final(self).data_opened
                            &&& final(self).data_state.closed == false
                            &&& final(self).data_state.len_read == 0
                            &&& final(self).data_state.line_buf@.len() == 0
                            &&& final(self).data_state.line_offset == 0
                            &&& (match b.data_header {
                                DataHeader::Counted { len } => final(self).data_state.is_counted
                                    && final(self).data_state.len == len && final(self).data_state.finished == (len == 0),
                                DataHeader::Delimited { delim } => !final(self).data_state.is_counted && final(self).data_state.delim@ == delim@
                                    && !final(self).data_state.finished,
                            })
                        },
                        _ => final(self).data_state.finished,
                    })
                },
                Err(_) => true,
            }),
            old(self).data_state.finished ==> next_post(
                old(self).input.input.src@,
                match old(self).input.cur() {
                    Some(l) => Some((l, old(self).input.peeked_pos())),
                    None => None,
                },
                r,
                *final(self),
            ),
            !old(self).data_state.finished && !old(self).data_opened ==> match drained_pos(
                old(self).input.input.src@,
                old(self).input.input.pos as int,
                old(self).data_state,
            ) {
                Ok(p0) => next_post(
                    old(self).input.input.src@,
                    crate::input::next_directive_at(old(self).input.input.src@, p0),
                    r,
                    *final(self),
                ),
                Err(e) => r == Err::<Command, StreamError>(StreamError::Parse(e)),
            },
    {
        if !self.data_state.finished() {
            if self.data_opened {
                return Err(StreamError::DataReader(DataReaderError::Unfinished));
            }
            let inp = &mut self.input.input;
            match inp.skip_data(&mut self.data_state) {
                Ok(_) => {},
                Err(e) => {
                    return Err(e);
                },
            }
        }
        self.input.truncate_context();
        let line = match self.input.next_directive() {
            Some(l) => l,
            None => {
                return Ok(Command::Done(Done::Eof));
            },
        };
        if crate::bytes::has_prefix(&line, &KW_BLOB) && line.len() == KW_BLOB.len() {
            proof {
                assert(line@ =~= KW_BLOB@);
            }
            self.parse_blob()
        } else if let Some(branch) = crate::bytes::strip_prefix(&line, &KW_COMMIT_SP) {
            self.parse_commit(branch)
        } else if let Some(name) = crate::bytes::strip_prefix(&line, &KW_TAG_SP) {
            self.parse_tag(name)
        } else if let Some(branch) = crate::bytes::strip_prefix(&line, &KW_RESET_SP) {
            self.parse_reset(branch)
        } else if let Some(args) = crate::bytes::strip_prefix(&line, &KW_LS_SP) {
            self.parse_ls(args)
        } else if let Some(data_ref) = crate::bytes::strip_prefix(&line, &KW_CAT_BLOB_SP) {
            self.parse_cat_blob(data_ref)
        } else if let Some(mark) = crate::bytes::strip_prefix(&line, &KW_GET_MARK_SP) {
            self.parse_get_mark(mark)
        } else if crate::bytes::has_prefix(&line, &KW_CHECKPOINT) && line.len()
            == KW_CHECKPOINT.len() {
            proof {
                assert(line@ =~= KW_CHECKPOINT@);
            }
            self.parse_checkpoint()
        } else if crate::bytes::has_prefix(&line, &KW_DONE) && line.len() == KW_DONE.len() {
            proof {
                assert(line@ =~= KW_DONE@);
            }
            Ok(Command::Done(Done::Explicit))
        } else if crate::bytes::has_prefix(&line, &KW_ALIAS) && line.len() == KW_ALIAS.len() {
            proof {
                assert(line@ =~= KW_ALIAS@);
            }
            self.parse_alias()
        } else if let Some(message) = crate::bytes::strip_prefix(&line, &KW_PROGRESS_SP) {
            self.parse_progress(message)
        } else if let Some(feature) = crate::bytes::strip_prefix(&line, &KW_FEATURE_SP) {
            self.parse_feature(feature)
        } else if let Some(option) = crate::bytes::strip_prefix(&line, &KW_OPTION_SP) {
            self.parse_option(option)
        } else if line.len() == 0 {
            Err(StreamError::Parse(ParseError::UnexpectedBlank))
        } else {
            proof {
                if line@ == KW_BLOB@ {
                    assert(line@.subrange(0, KW_BLOB@.len() as int) =~= KW_BLOB@);
                    assert(starts_with(line@, KW_BLOB@));
                }
                if line@ == KW_CHECKPOINT@ {
                    assert(line@.subrange(0, KW_CHECKPOINT@.len() as int) =~= KW_CHECKPOINT@);
                    assert(starts_with(line@, KW_CHECKPOINT@));
                }
                if line@ == KW_DONE@ {
                    assert(line@.subrange(0, KW_DONE@.len() as int) =~= KW_DONE@);
                    assert(starts_with(line@, KW_DONE@));
                }
                if line@ == KW_ALIAS@ {
                    assert(line@.subrange(0, KW_ALIAS@.len() as int) =~= KW_ALIAS@);
                    assert(starts_with(line@, KW_ALIAS@));
                }
            }
            Err(StreamError::Parse(ParseError::UnrecognizedCommand))
        }
    }

    /// Parses an optional `mark` sub-directive.
    fn parse_mark_directive(&mut self) -> (r: Result<Option<Mark>, StreamError>)
        requires
            old(self).wf(),
            old(self).data_state.finished,
        ensures
            final(self).wf(),
            final(self).data_state == old(self).data_state,
            final(self).data_opened == old(self).data_opened,
            final(self).input.input.src@ == old(self).input.input.src@,
            forall|p: int|
                #[trigger] input_at(old(self).input, old(self).input.input.src@, p) ==> match opt_mark_at(
                    old(self).input.input.src@,
                    p,
                ) {
                    Ok(mp) => (match r {
                        Ok(m) => (match m {
                            Some(mk) => mp.0 == Some(mk.value()),
                            None => mp.0 is None,
                        }) && input_at(final(self).input, old(self).input.input.src@, mp.1),
                        Err(_) => false,
                    }),
                    Err(e) => r == Err::<Option<Mark>, StreamError>(StreamError::Parse(e)),
                },
    {
        match self.input.parse_directive(&KW_MARK_SP) {
            Some(rest) => match Mark::parse(&rest) {
                Ok(m) => Ok(Some(m)),
                Err(e) => Err(e),
            },
            None => Ok(None),
        }
    }

    /// Parses an optional `original-oid` sub-directive.
    fn parse_original_oid_directive(&mut self) -> (r: Option<OriginalOid>)
        requires
            old(self).wf(),
            old(self).data_state.finished,
        ensures
            final(self).wf(),
            final(self).data_state == old(self).data_state,
            final(self).data_opened == old(self).data_opened,
            final(self).input.input.src@ == old(self).input.input.src@,
            forall|p: int|
                #[trigger] input_at(old(self).input, old(self).input.input.src@, p) ==> ({
                    let op = opt_oid_at(old(self).input.input.src@, p);
                    (match r {
                        Some(o) => op.0 == Some(o.oid@),
                        None => op.0 is None,
                    }) && input_at(final(self).input, old(self).input.input.src@, op.1)
                }),
    {
        match self.input.parse_directive(&KW_ORIGINAL_OID_SP) {
            Some(rest) => Some(OriginalOid::parse(&rest)),
            None => None,
        }
    }

    /// Parses a `blob` command after its keyword: optional mark, optional
    /// original-oid, then the required `data` header, which initializes the
    /// data stream for reading.
    fn parse_blob(&mut self) -> (r: Result<Command, StreamError>)
        requires
            old(self).wf(),
            old(self).data_state.finished,
            !old(self).input.unread,
        ensures
            final(self).wf(),
            final(self).input.input.src@ == old(self).input.input.src@,
            ({
                let src = old(self).input.input.src@;
                match blob_body_spec(src, old(self).input.input.pos as int) {
                    Ok(bv) => (r matches Ok(c) && c matches Command::Blob(b) && (match b.mark {
                        Some(m) => bv.0 == Some(m.value()),
                        None => bv.0 is None,
                    }) && (match b.original_oid {
                        Some(o) => bv.1 == Some(o.oid@),
                        None => bv.1 is None,
                    }) && data_header_view(b.data_header) == bv.2 && !final(self).input.unread
                        && final(self).input.input.pos == bv.3),
                    Err(e) => r == Err::<Command, StreamError>(StreamError::Parse(e)),
                }
            }),
            match r {
                Ok(c) => {
                    &&& c is Blob
                    &&& command_valid(c)
                    &&& !final(self).data_opened
                    &&& final(self).data_state.closed == false
                    &&& final(self).data_state.len_read == 0
                    &&& final(self).data_state.line_buf@.len() == 0
                    &&& final(self).data_state.line_offset == 0
                    &&& (match c {
                        Command::Blob(b) => match b.data_header {
                            DataHeader::Counted { len } => final(self).data_state.is_counted
                                && final(self).data_state.len == len && final(self).data_state.finished == (len == 0),
                            DataHeader::Delimited { delim } => !final(self).data_state.is_counted
                                && final(self).data_state.delim@ == delim@ && !final(self).data_state.finished,
                        },
                        _ => false,
                    })
                },
                Err(_) => true,
            },
    {
        let ghost src = self.input.input.src@;
        let ghost pos0 = self.input.input.pos as int;
        proof {
            assert(input_at(self.input, src, pos0));
        }
        let mark = match self.parse_mark_directive() {
            Ok(m) => m,
            Err(e) => {
                return Err(e);
            },
        };
        let original_oid = self.parse_original_oid_directive();
        let data_header = match self.input.parse_directive(&KW_DATA_SP) {
            Some(arg) => match DataHeader::parse(&arg) {
                Ok(h) => h,
                Err(e) => {
                    return Err(e);
                },
            },
            None => {
                return Err(StreamError::Parse(ParseError::ExpectedBlobData));
            },
        };
        self.data_opened = false;
        self.data_state.init(&data_header);
        if self.data_state.finished() {
            // An empty counted payload: acknowledge its optional LF now.
            self.input.skip_optional_lf();
        }
        Ok(Command::Blob(Blob { mark, original_oid, data_header }))
    }

    /// Reads a `data` sub-directive and its whole payload into memory, as
    /// used for commit and tag messages.
    fn parse_data_small(&mut self) -> (r: Result<Option<Vec<u8>>, StreamError>)
        requires
            old(self).wf(),
            old(self).data_state.finished,
        ensures
            final(self).wf(),
            final(self).data_state == old(self).data_state,
            final(self).data_opened == old(self).data_opened,
            final(self).input.input.src@ == old(self).input.input.src@,
            forall|p: int|
                #[trigger] input_at(old(self).input, old(self).input.input.src@, p) ==> match data_small_at(
                    old(self).input.input.src@,
                    p,
                ) {
                    Ok(m) => match m {
                        Some(vp) => (r matches Ok(ro) && ro matches Some(v) && v@ == vp.0)
                            && input_at(final(self).input, old(self).input.input.src@, vp.1),
                        None => r == Ok::<Option<Vec<u8>>, StreamError>(None) && input_at(
                            final(self).input,
                            old(self).input.input.src@,
                            p,
                        ),
                    },
                    Err(e) => r == Err::<Option<Vec<u8>>, StreamError>(StreamError::Parse(e)),
                },
    {
        let arg = match self.input.parse_directive(&KW_DATA_SP) {
            Some(arg) => arg,
            None => {
                return Ok(None);
            },
        };
        match DataHeader::parse(&arg) {
            Ok(DataHeader::Counted { len }) => {
                let inp = &mut self.input.input;
                match inp.read_counted_data_to_end(len) {
                    Ok(v) => Ok(Some(v)),
                    Err(e) => Err(e),
                }
            },
            Ok(DataHeader::Delimited { delim }) => {
                let inp = &mut self.input.input;
                proof {
                    crate::input::lemma_delim_scan_bounds(inp.src@, inp.pos as int, delim@);
                }
                match inp.read_delimited_data_to_end(&delim) {
                    Ok(v) => Ok(Some(v)),
                    Err(e) => Err(e),
                }
            },
            Err(e) => Err(e),
        }
    }

    /// Parses a `commit` command after its keyword: branch, optional mark,
    /// optional original-oid, optional author, required committer, optional
    /// encoding, required message, optional `from`, any number of `merge`.
    fn parse_commit(&mut self, branch: Vec<u8>) -> (r: Result<Command, StreamError>)
        requires
            old(self).wf(),
            old(self).data_state.finished,
            !old(self).input.unread,
        ensures
            final(self).wf(),
            final(self).data_state == old(self).data_state,
            final(self).data_opened == old(self).data_opened,
            final(self).input.input.src@ == old(self).input.input.src@,
            ({
                let src = old(self).input.input.src@;
                match commit_body_spec(src, old(self).input.input.pos as int, branch@) {
                    Ok(cv) => (r matches Ok(c) && c matches Command::Commit(cm)
                        && commit_fields_match(cv, cm) && input_at(
                        final(self).input,
                        src,
                        cv.end,
                    )),
                    Err(e) => r == Err::<Command, StreamError>(StreamError::Parse(e)),
                }
            }),
            match r {
                Ok(c) => c is Commit && command_valid(c),
                Err(_) => true,
            },
    {
        let ghost src = self.input.input.src@;
        let ghost pos0 = self.input.input.pos as int;
        proof {
            assert(input_at(self.input, src, pos0));
        }
        let branch = match Branch::parse(&branch) {
            Ok(b) => b,
            Err(e) => {
                return Err(e);
            },
        };
        let front = match self.parse_commit_front(Ghost(pos0)) {
            Ok(f) => f,
            Err(e) => {
                return Err(e);
            },
        };
        let merge = match self.parse_merge_directives(
            Ghost(commit_front_spec(src, pos0)->Ok_0.end),
        ) {
            Ok(m) => m,
            Err(e) => {
                return Err(e);
            },
        };
        proof {
            lemma_commit_front_nul_free(src, pos0);
        }
        Ok(
            Command::Commit(
                Commit {
                    branch,
                    mark: front.mark,
                    original_oid: front.original_oid,
                    author: front.author,
                    committer: front.committer,
                    encoding: front.encoding,
                    message: front.message,
                    from: front.from,
                    merge,
                },
            ),
        )
    }

    /// Parses the sub-directives of a commit up to (but excluding) its
    /// `merge` run; `p0` names the stream position the input stands at.
    #[verifier::rlimit(100)]
    fn parse_commit_front(&mut self, Ghost(p0): Ghost<int>) -> (r: Result<
        CommitFront,
        StreamError,
    >)
        requires
            old(self).wf(),
            old(self).data_state.finished,
            input_at(old(self).input, old(self).input.input.src@, p0),
        ensures
            final(self).wf(),
            final(self).data_state == old(self).data_state,
            final(self).data_opened == old(self).data_opened,
            final(self).input.input.src@ == old(self).input.input.src@,
            ({
                let src = old(self).input.input.src@;
                match commit_front_spec(src, p0) {
                    Ok(f) => (r matches Ok(fr) && (match fr.mark {
                        Some(m) => f.mark == Some(m.value()),
                        None => f.mark is None,
                    }) && (match fr.original_oid {
                        Some(o) => f.oid == Some(o.oid@),
                        None => f.oid is None,
                    }) && (match fr.author {
                        Some(a) => f.author == Some((a.name@, a.email@, a.date@)),
                        None => f.author is None,
                    }) && f.committer == (
                        fr.committer.name@,
                        fr.committer.email@,
                        fr.committer.date@,
                    ) && (match fr.encoding {
                        Some(enc) => f.encoding == Some(enc.encoding@),
                        None => f.encoding is None,
                    }) && fr.message@ == f.message && (match fr.from {
                        Some(fm) => f.from == Some(objectish_view(fm.commit)),
                        None => f.from is None,
                    }) && input_at(final(self).input, src, f.end)),
                    Err(e) => r == Err::<CommitFront, StreamError>(StreamError::Parse(e)),
                }
            }),
    {
        let ghost src = self.input.input.src@;
        let mark = match self.parse_mark_directive() {
            Ok(m) => m,
            Err(e) => {
                return Err(e);
            },
        };
        let ghost p1 = opt_mark_at(src, p0)->Ok_0.1;
        let original_oid = self.parse_original_oid_directive();
        let ghost p2 = opt_oid_at(src, p1).1;
        let author = match self.input.parse_directive(&KW_AUTHOR_SP) {
            Some(rest) => match PersonIdent::parse(&rest) {
                Ok(a) => Some(a),
                Err(e) => {
                    return Err(e);
                },
            },
            None => None,
        };
        let ghost p3 = opt_sub_at(src, p2, KW_AUTHOR_SP@).1;
        proof {
            assert(input_at(self.input, src, p3));
        }
        let committer = match self.input.parse_directive(&KW_COMMITTER_SP) {
            Some(rest) => match PersonIdent::parse(&rest) {
                Ok(c) => c,
                Err(e) => {
                    return Err(e);
                },
            },
            None => {
                return Err(StreamError::Parse(ParseError::ExpectedCommitCommitter));
            },
        };
        let ghost p4 = opt_sub_at(src, p3, KW_COMMITTER_SP@).1;
        proof {
            assert(input_at(self.input, src, p4));
        }
        let encoding = match self.input.parse_directive(&KW_ENCODING_SP) {
            Some(rest) => match Encoding::parse(&rest) {
                Ok(enc) => Some(enc),
                Err(e) => {
                    return Err(e);
                },
            },
            None => None,
        };
        let ghost p5 = opt_sub_at(src, p4, KW_ENCODING_SP@).1;
        proof {
            assert(input_at(self.input, src, p5));
        }
        let message = match self.parse_data_small() {
            Ok(Some(m)) => m,
            Ok(None) => {
                return Err(StreamError::Parse(ParseError::ExpectedCommitMessage));
            },
            Err(e) => {
                return Err(e);
            },
        };
        let ghost p6 = data_small_at(src, p5)->Ok_0->Some_0.1;
        let from = match self.input.parse_directive(&KW_FROM_SP) {
            Some(rest) => match Commitish::parse(&rest) {
                Ok(cmt) => Some(cmt),
                Err(e) => {
                    return Err(e);
                },
            },
            None => None,
        };
        proof {
            assert(input_at(self.input, src, opt_sub_at(src, p6, KW_FROM_SP@).1));
        }
        Ok(CommitFront { mark, original_oid, author, committer, encoding, message, from })
    }


    /// Parses the run of `merge` sub-directives, in order; `p0` names the
    /// stream position the input stands at.
    fn parse_merge_directives(&mut self, Ghost(p0): Ghost<int>) -> (r: Result<
        Vec<Commitish>,
        StreamError,
    >)
        requires
            old(self).wf(),
            old(self).data_state.finished,
            input_at(old(self).input, old(self).input.input.src@, p0),
        ensures
            final(self).wf(),
            final(self).data_state == old(self).data_state,
            final(self).data_opened == old(self).data_opened,
            final(self).input.input.src@ == old(self).input.input.src@,
            ({
                let src = old(self).input.input.src@;
                let run = crate::input::prefixed_run(src, p0, KW_MERGE_SP@);
                match parse_commitish_list(run.0) {
                    Ok(l) => (r matches Ok(v) && commitish_views(v@) == l) && input_at(
                        final(self).input,
                        src,
                        run.1,
                    ),
                    Err(e) => r == Err::<Vec<Commitish>, StreamError>(StreamError::Parse(e)),
                }
            }),
    {
        let ghost src = self.input.input.src@;
        let mut merge: Vec<Commitish> = Vec::new();
        let ghost mut pm: int = p0;
        proof {
            assert(commitish_views(merge@) =~= Seq::<ObjectishV>::empty());
        }
        loop
            invariant
                self.wf(),
                self.data_state == old(self).data_state,
                self.data_state.finished,
                self.data_opened == old(self).data_opened,
                self.input.input.src@ == src,
                src == old(self).input.input.src@,
                input_at(self.input, src, pm),
                crate::input::prefixed_run(src, p0, KW_MERGE_SP@).1 == crate::input::prefixed_run(
                    src,
                    pm,
                    KW_MERGE_SP@,
                ).1,
                parse_commitish_list(crate::input::prefixed_run(src, p0, KW_MERGE_SP@).0)
                    == match parse_commitish_list(
                    crate::input::prefixed_run(src, pm, KW_MERGE_SP@).0,
                ) {
                    Ok(tail) => Ok::<Seq<ObjectishV>, ParseError>(commitish_views(merge@) + tail),
                    Err(e) => Err::<Seq<ObjectishV>, ParseError>(e),
                },
            decreases src.len() - pm + if self.input.unread {
                1int
            } else {
                0int
            },
        {
            proof {
                crate::input::lemma_next_directive_bounds(src, pm);
            }
            match self.input.parse_directive(&KW_MERGE_SP) {
                Some(rest) => {
                    let ghost run_here = crate::input::prefixed_run(src, pm, KW_MERGE_SP@);
                    match Commitish::parse(&rest) {
                        Ok(cmt) => {
                            let ghost prev_views = commitish_views(merge@);
                            merge.push(cmt);
                            proof {
                                let ld = crate::input::next_directive_at(src, pm)->Some_0;
                                assert(run_here.0[0] == rest@);
                                assert(run_here.0.subrange(1, run_here.0.len() as int)
                                    =~= crate::input::prefixed_run(src, ld.1, KW_MERGE_SP@).0);
                                assert(commitish_views(merge@) =~= prev_views.push(
                                    objectish_view(cmt.commit),
                                ));
                                let run_next = crate::input::prefixed_run(src, ld.1, KW_MERGE_SP@);
                                if parse_commitish_list(run_next.0) is Ok {
                                    let t = parse_commitish_list(run_next.0)->Ok_0;
                                    assert(prev_views + (seq![objectish_view(cmt.commit)] + t)
                                        =~= commitish_views(merge@) + t);
                                }
                                pm = ld.1;
                            }
                        },
                        Err(e) => {
                            return Err(e);
                        },
                    }
                },
                None => {
                    proof {
                        assert(crate::input::prefixed_run(src, pm, KW_MERGE_SP@).0
                            =~= Seq::<Seq<u8>>::empty());
                        assert(commitish_views(merge@) + Seq::<ObjectishV>::empty()
                            =~= commitish_views(merge@));
                    }
                    return Ok(merge);
                },
            }
        }
    }

    /// Parses a `tag` command after its keyword: name, optional mark,
    /// required `from`, optional original-oid, optional tagger, required
    /// message.
    #[verifier::rlimit(100)]
    fn parse_tag(&mut self, name: Vec<u8>) -> (r: Result<Command, StreamError>)
        requires
            old(self).wf(),
            old(self).data_state.finished,
            !old(self).input.unread,
        ensures
            final(self).wf(),
            final(self).data_state == old(self).data_state,
            final(self).data_opened == old(self).data_opened,
            final(self).input.input.src@ == old(self).input.input.src@,
            ({
                let src = old(self).input.input.src@;
                match tag_body_spec(src, old(self).input.input.pos as int, name@) {
                    Ok(tv) => (r matches Ok(c) && c matches Command::Tag(t) && tag_fields_match(
                        tv,
                        t,
                    ) && input_at(final(self).input, src, tv.end)),
                    Err(e) => r == Err::<Command, StreamError>(StreamError::Parse(e)),
                }
            }),
            match r {
                Ok(c) => c is Tag && command_valid(c),
                Err(_) => true,
            },
    {
        let ghost src = self.input.input.src@;
        let ghost pos0 = self.input.input.pos as int;
        proof {
            assert(input_at(self.input, src, pos0));
        }
        let name = match TagName::parse(&name) {
            Ok(t) => t,
            Err(e) => {
                return Err(e);
            },
        };
        let mark = match self.parse_mark_directive() {
            Ok(m) => m,
            Err(e) => {
                return Err(e);
            },
        };
        let ghost p1 = opt_mark_at(src, pos0)->Ok_0.1;
        let from = match self.input.parse_directive(&KW_FROM_SP) {
            Some(rest) => match Objectish::parse(&rest) {
                Ok(o) => o,
                Err(e) => {
                    return Err(e);
                },
            },
            None => {
                return Err(StreamError::Parse(ParseError::ExpectedTagFrom));
            },
        };
        let ghost p2 = opt_sub_at(src, p1, KW_FROM_SP@).1;
        proof {
            assert(input_at(self.input, src, p2));
        }
        let original_oid = self.parse_original_oid_directive();
        let ghost p3 = opt_oid_at(src, p2).1;
        let tagger = match self.input.parse_directive(&KW_TAGGER_SP) {
            Some(rest) => match PersonIdent::parse(&rest) {
                Ok(t) => Some(t),
                Err(e) => {
                    return Err(e);
                },
            },
            None => None,
        };
        let ghost p4 = opt_sub_at(src, p3, KW_TAGGER_SP@).1;
        proof {
            assert(input_at(self.input, src, p4));
        }
        let message = match self.parse_data_small() {
            Ok(Some(m)) => m,
            Ok(None) => {
                return Err(StreamError::Parse(ParseError::ExpectedTagMessage));
            },
            Err(e) => {
                return Err(e);
            },
        };
        Ok(Command::Tag(Tag { name, mark, from, original_oid, tagger, message }))
    }

    /// Parses a `reset` command after its keyword: branch and optional
    /// `from`.
    fn parse_reset(&mut self, branch: Vec<u8>) -> (r: Result<Command, StreamError>)
        requires
            old(self).wf(),
            old(self).data_state.finished,
        ensures
            final(self).wf(),
            final(self).data_state == old(self).data_state,
            final(self).data_opened == old(self).data_opened,
            final(self).input.input.src@ == old(self).input.input.src@,
            match r {
                Ok(c) => c is Reset && command_valid(c) && (match c {
                    Command::Reset(rs) => rs.branch.branch@ == branch@,
                    _ => false,
                }),
                Err(_) => true,
            },
    {
        let branch = match Branch::parse(&branch) {
            Ok(b) => b,
            Err(e) => {
                return Err(e);
            },
        };
        let from = match self.input.parse_directive(&KW_FROM_SP) {
            Some(rest) => match Commitish::parse(&rest) {
                Ok(cm) => Some(cm),
                Err(e) => {
                    return Err(e);
                },
            },
            None => None,
        };
        Ok(Command::Reset(Reset { branch, from }))
    }

    /// Parses an `ls` command after its keyword: a required root and a
    /// path, possibly quoted.
    fn parse_ls(&mut self, args: Vec<u8>) -> (r: Result<Command, StreamError>)
        requires
            old(self).wf(),
            old(self).data_state.finished,
        ensures
            final(self).wf(),
            *final(self) == *old(self),
            match crate::commit::parse_ls_spec(args@, false) {
                Ok(rp) => (r matches Ok(c) && c matches Command::Ls(ls) && rp.0 == Some(
                    treeish_view(ls.root),
                ) && ls.path@ == rp.1),
                Err(e) => r == Err::<Command, StreamError>(StreamError::Parse(e)),
            },
    {
        match crate::commit::parse_ls_args(&args, false) {
            Ok((root, path)) => match root {
                Some(root) => Ok(Command::Ls(Ls { root, path })),
                None => Err(StreamError::Parse(ParseError::MissingLsRoot)),
            },
            Err(e) => Err(e),
        }
    }

    /// Parses a `cat-blob` command after its keyword.
    fn parse_cat_blob(&mut self, data_ref: Vec<u8>) -> (r: Result<Command, StreamError>)
        requires
            old(self).wf(),
            old(self).data_state.finished,
        ensures
            final(self).wf(),
            *final(self) == *old(self),
            match parse_objectish_spec(data_ref@) {
                Ok(bv) => (r matches Ok(c) && c matches Command::CatBlob(cb) && blobish_view(
                    cb.blob,
                ) == bv),
                Err(e) => r == Err::<Command, StreamError>(StreamError::Parse(e)),
            },
    {
        match Blobish::parse(&data_ref) {
            Ok(blob) => Ok(Command::CatBlob(CatBlob { blob })),
            Err(e) => match e {
                StreamError::Parse(pe) => Err(StreamError::Parse(pe)),
                _ => Err(e),
            },
        }
    }

    /// Parses a `get-mark` command after its keyword.
    fn parse_get_mark(&mut self, mark: Vec<u8>) -> (r: Result<Command, StreamError>)
        requires
            old(self).wf(),
            old(self).data_state.finished,
        ensures
            final(self).wf(),
            *final(self) == *old(self),
            match parse_mark_spec(mark@) {
                Ok(v) => (r matches Ok(c) && c matches Command::GetMark(gm) && gm.mark.value()
                    == v),
                Err(e) => r == Err::<Command, StreamError>(StreamError::Parse(e)),
            },
    {
        match Mark::parse(&mark) {
            Ok(m) => Ok(Command::GetMark(GetMark { mark: m })),
            Err(e) => match e {
                StreamError::Parse(pe) => Err(StreamError::Parse(pe)),
                _ => Err(e),
            },
        }
    }

    /// Parses a `checkpoint` command: consumes the optional trailing LF.
    fn parse_checkpoint(&mut self) -> (r: Result<Command, StreamError>)
        requires
            old(self).wf(),
            old(self).data_state.finished,
            !old(self).input.unread,
        ensures
            final(self).wf(),
            final(self).data_state == old(self).data_state,
            final(self).data_opened == old(self).data_opened,
            final(self).input.input.src@ == old(self).input.input.src@,
            final(self).input.input.pos == crate::input::skip_lf(
                old(self).input.input.src@,
                old(self).input.input.pos as int,
            ),
            !final(self).input.unread,
            r == Ok::<Command, StreamError>(Command::Checkpoint),
    {
        self.input.skip_optional_lf();
        Ok(Command::Checkpoint)
    }

    /// Parses an `alias` command: the optional LF comes first, then a
    /// required `mark` and a required `to`.
    fn parse_alias(&mut self) -> (r: Result<Command, StreamError>)
        requires
            old(self).wf(),
            old(self).data_state.finished,
            !old(self).input.unread,
        ensures
            final(self).wf(),
            final(self).data_state == old(self).data_state,
            final(self).data_opened == old(self).data_opened,
            final(self).input.input.src@ == old(self).input.input.src@,
            ({
                let src = old(self).input.input.src@;
                match alias_body_spec(src, old(self).input.input.pos as int) {
                    Ok(av) => (r matches Ok(c) && c matches Command::Alias(a) && a.mark.value()
                        == av.0 && objectish_view(a.to.commit) == av.1 && !final(self).input.unread && final(self).input.input.pos == av.2),
                    Err(e) => r == Err::<Command, StreamError>(StreamError::Parse(e)),
                }
            }),
    {
        let ghost src = self.input.input.src@;
        let ghost pos0 = self.input.input.pos as int;
        self.input.skip_optional_lf();
        proof {
            assert(input_at(self.input, src, crate::input::skip_lf(src, pos0)));
        }
        let mark = match self.input.parse_directive(&KW_MARK_SP) {
            Some(rest) => match Mark::parse(&rest) {
                Ok(m) => m,
                Err(e) => {
                    return Err(e);
                },
            },
            None => {
                return Err(StreamError::Parse(ParseError::ExpectedAliasMark));
            },
        };
        let to = match self.input.parse_directive(&KW_TO_SP) {
            Some(rest) => match Commitish::parse(&rest) {
                Ok(cm) => cm,
                Err(e) => {
                    return Err(e);
                },
            },
            None => {
                return Err(StreamError::Parse(ParseError::ExpectedAliasTo));
            },
        };
        Ok(Command::Alias(Alias { mark, to }))
    }

    /// Parses a `progress` command: consumes the optional trailing LF.
    fn parse_progress(&mut self, message: Vec<u8>) -> (r: Result<Command, StreamError>)
        requires
            old(self).wf(),
            old(self).data_state.finished,
            !old(self).input.unread,
        ensures
            final(self).wf(),
            final(self).data_state == old(self).data_state,
            final(self).data_opened == old(self).data_opened,
            final(self).input.input.src@ == old(self).input.input.src@,
            final(self).input.input.pos == crate::input::skip_lf(
                old(self).input.input.src@,
                old(self).input.input.pos as int,
            ),
            !final(self).input.unread,
            (r matches Ok(c) && c matches Command::Progress(p) && p.message@ == message@),
    {
        self.input.skip_optional_lf();
        Ok(Command::Progress(Progress { message }))
    }

    /// Parses a `feature` command after its keyword.
    fn parse_feature(&mut self, feature: Vec<u8>) -> (r: Result<Command, StreamError>)
        requires
            old(self).wf(),
            old(self).data_state.finished,
        ensures
            final(self).wf(),
            *final(self) == *old(self),
            match parse_feature_spec(feature@) {
                Ok(fv) => (r matches Ok(c) && c matches Command::Feature(f) && feature_view(f)
                    == fv && command_valid(c)),
                Err(e) => r == Err::<Command, StreamError>(StreamError::Parse(e)),
            },
    {
        match Feature::parse(&feature) {
            Ok(f) => {
                proof {
                    lemma_feature_ok(feature@, f);
                }
                Ok(Command::Feature(f))
            },
            Err(e) => match e {
                StreamError::Parse(pe) => Err(StreamError::Parse(pe)),
                _ => Err(e),
            },
        }
    }

    /// Parses an `option` command after its keyword: `option git` from the
    /// closed set, any other tool's option carried opaquely.
    fn parse_option(&mut self, option: Vec<u8>) -> (r: Result<Command, StreamError>)
        requires
            old(self).wf(),
            old(self).data_state.finished,
        ensures
            final(self).wf(),
            *final(self) == *old(self),
            if starts_with(option@, KW_GIT_SP@) {
                match parse_option_git_spec(
                    option@.subrange(KW_GIT_SP@.len() as int, option@.len() as int),
                ) {
                    Ok(ov) => (r matches Ok(c) && c matches Command::OptionCmd(
                        OptionCommand::Git(g),
                    ) && option_git_view(g) == ov),
                    Err(e) => r == Err::<Command, StreamError>(StreamError::Parse(e)),
                }
            } else {
                (r matches Ok(c) && c matches Command::OptionCmd(OptionCommand::Other(o))
                    && o.option@ == option@)
            },
    {
        match crate::bytes::strip_prefix(&option, &KW_GIT_SP) {
            Some(rest) => match OptionGit::parse(&rest) {
                Ok(g) => Ok(Command::OptionCmd(OptionCommand::Git(g))),
                Err(e) => match e {
                    StreamError::Parse(pe) => Err(StreamError::Parse(pe)),
                    _ => Err(e),
                },
            },
            None => Ok(Command::OptionCmd(OptionCommand::Other(OptionOther { option }))),
        }
    }
}

/// A feature accepted by the parser has NUL-free paths and submodule specs.
proof fn lemma_feature_ok(s: Seq<u8>, f: Feature)
    requires
        parse_feature_spec(s) == Ok::<FeatureV, ParseError>(feature_view(f)),
    ensures
        command_valid(Command::Feature(f)),
{
    match f {
        Feature::RewriteSubmodulesTo { submodule_name, marks_path } => {
            lemma_rewrite_parts_nul_free(s, submodule_name@, marks_path@);
        },
        Feature::RewriteSubmodulesFrom { submodule_name, marks_path } => {
            lemma_rewrite_parts_nul_free(s, submodule_name@, marks_path@);
        },
        _ => {},
    }
}

proof fn lemma_rewrite_parts_nul_free(s: Seq<u8>, name: Seq<u8>, path: Seq<u8>)
    requires
        parse_feature_spec(s) is Ok,
        (parse_feature_spec(s)->Ok_0 matches FeatureV::RewriteSubmodulesTo {
            submodule_name,
            marks_path,
        } && submodule_name == name && marks_path == path) || (parse_feature_spec(s)->Ok_0
            matches FeatureV::RewriteSubmodulesFrom { submodule_name, marks_path }
            && submodule_name == name && marks_path == path),
    ensures
        !contains_byte(name, NUL),
        !contains_byte(path, NUL),
{
    if starts_with(s, KW_REWRITE_SUBMODULES_TO_EQ@) {
        let args = s.subrange(KW_REWRITE_SUBMODULES_TO_EQ@.len() as int, s.len() as int);
        lemma_rewrite_split_nul_free(args);
    } else if starts_with(s, KW_REWRITE_SUBMODULES_FROM_EQ@) {
        let args = s.subrange(KW_REWRITE_SUBMODULES_FROM_EQ@.len() as int, s.len() as int);
        lemma_rewrite_split_nul_free(args);
    }
}

proof fn lemma_rewrite_split_nul_free(args: Seq<u8>)
    requires
        parse_rewrite_submodules_spec(args) is Ok,
    ensures
        !contains_byte(parse_rewrite_submodules_spec(args)->Ok_0.0, NUL),
        !contains_byte(parse_rewrite_submodules_spec(args)->Ok_0.1, NUL),
{
    let c = crate::bytes::find_idx(args, 0, COLON);
    crate::bytes::lemma_find_idx(args, 0, COLON);
    let name = args.subrange(0, c);
    let path = args.subrange(c + 1, args.len() as int);
    if contains_byte(name, NUL) {
        let i = choose|i: int| 0 <= i < name.len() && name[i] == NUL;
        assert(args[i] == NUL);
        assert(contains_byte(args, NUL));
    }
    if contains_byte(path, NUL) {
        let i = choose|i: int| 0 <= i < path.len() && path[i] == NUL;
        assert(args[c + 1 + i] == NUL);
        assert(contains_byte(args, NUL));
    }
}

impl Blob {
    /// Opens this blob's data stream for reading. At most one reader can be
    /// opened per parsed blob; a second open fails with `AlreadyOpened`.
    pub fn open(&self, parser: &mut Parser) -> (r: Result<DataReader, StreamError>)
        requires
            old(parser).wf(),
        ensures
            final(parser).wf(),
            if old(parser).data_opened {
                r == Err::<DataReader, StreamError>(
                    StreamError::DataReader(DataReaderError::AlreadyOpened),
                ) && *final(parser) == *old(parser)
            } else {
                r is Ok && final(parser).data_opened && final(parser).input == old(parser).input
                    && final(parser).data_state == old(parser).data_state
            },
    {
        if parser.data_opened {
            Err(StreamError::DataReader(DataReaderError::AlreadyOpened))
        } else {
            parser.data_opened = true;
            Ok(DataReader { _priv: true })
        }
    }
}

impl DataReader {
    /// Reads up to `max` bytes from the data stream; an empty result means
    /// the stream is finished (or `max` was zero).
    pub fn read_next(&mut self, parser: &mut Parser, max: usize) -> (r: Result<
        Vec<u8>,
        StreamError,
    >)
        requires
            old(parser).wf(),
        ensures
            final(parser).wf(),
            final(parser).data_opened == old(parser).data_opened,
            final(parser).input.unread == old(parser).input.unread,
            final(parser).input.lines@ == old(parser).input.lines@,
            crate::input::read_data_post(
                old(parser).input.input,
                old(parser).data_state,
                final(parser).input.input,
                final(parser).data_state,
                max,
                r,
            ),
    {
        let inp = &mut parser.input.input;
        inp.read_data(&mut parser.data_state, max)
    }

    /// Skips the rest of the data stream, returning the number of bytes
    /// skipped.
    pub fn skip_rest(&mut self, parser: &mut Parser) -> (r: Result<u64, StreamError>)
        requires
            old(parser).wf(),
        ensures
            final(parser).wf(),
            final(parser).data_opened == old(parser).data_opened,
            final(parser).input.unread == old(parser).input.unread,
            final(parser).input.lines@ == old(parser).input.lines@,
            crate::input::skip_data_post(
                old(parser).input.input,
                old(parser).data_state,
                final(parser).input.input,
                final(parser).data_state,
                r,
            ),
    {
        let inp = &mut parser.input.input;
        inp.skip_data(&mut parser.data_state)
    }

    /// Reads the whole rest of the data stream into memory: the buffered
    /// look-ahead tail plus the bytes up to the count or the delimiter
    /// line, acknowledging the optional LF after them; fails exactly when
    /// the reader is closed or the stream ends before the payload does.
    pub fn read_to_end(&mut self, parser: &mut Parser) -> (r: Result<Vec<u8>, StreamError>)
        requires
            old(parser).wf(),
        ensures
            final(parser).wf(),
            final(parser).data_opened == old(parser).data_opened,
            final(parser).input.unread == old(parser).input.unread,
            final(parser).input.lines@ == old(parser).input.lines@,
            final(parser).input.input.src@ == old(parser).input.input.src@,
            ({
                let src = old(parser).input.input.src@;
                let pos = old(parser).input.input.pos as int;
                let s = old(parser).data_state;
                if s.closed {
                    r == Err::<Vec<u8>, StreamError>(
                        StreamError::DataReader(DataReaderError::Closed),
                    ) && *final(parser) == *old(parser)
                } else if s.finished {
                    (r matches Ok(v) && v@ == Seq::<u8>::empty()) && *final(parser) == *old(parser)
                } else if s.is_counted {
                    let need = s.len - s.len_read;
                    if pos + need <= src.len() {
                        &&& (r matches Ok(v) && v@ == src.subrange(pos, pos + need))
                        &&& final(parser).data_state.finished
                        &&& final(parser).data_state.closed == s.closed
                        &&& final(parser).data_state.len_read == s.len
                        &&& final(parser).input.input.pos == crate::input::skip_lf(
                            src,
                            pos + need,
                        )
                        &&& final(parser).input.input.eof == old(parser).input.input.eof
                    } else {
                        r == Err::<Vec<u8>, StreamError>(
                            StreamError::Parse(ParseError::DataUnexpectedEof),
                        ) && final(parser).input.input.pos == src.len() && final(parser).input.input.eof
                    }
                } else {
                    let pending = s.line_buf@.subrange(
                        s.line_offset as int,
                        s.line_buf@.len() as int,
                    );
                    match crate::input::delim_scan(src, pos, s.delim@) {
                        Some(pe) => {
                            &&& (r matches Ok(v) && v@ == pending + pe.0)
                            &&& final(parser).data_state.finished
                            &&& final(parser).data_state.closed == s.closed
                            &&& final(parser).input.input.pos == crate::input::skip_lf(
                                src,
                                pe.1,
                            )
                        },
                        None => r == Err::<Vec<u8>, StreamError>(
                            StreamError::Parse(ParseError::UnterminatedData),
                        ) && final(parser).input.input.pos == src.len() && final(parser).input.input.eof,
                    }
                }
            }),
    {
        if parser.data_state.closed {
            return Err(StreamError::DataReader(DataReaderError::Closed));
        }
        if parser.data_state.finished {
            return Ok(Vec::new());
        }
        if parser.data_state.is_counted {
            let need = parser.data_state.len - parser.data_state.len_read;
            let inp = &mut parser.input.input;
            match inp.read_counted_data_to_end(need) {
                Ok(v) => {
                    parser.data_state.len_read = parser.data_state.len;
                    parser.data_state.finished = true;
                    Ok(v)
                },
                Err(e) => Err(e),
            }
        } else {
            let mut pending = crate::bytes::subvec(
                &parser.data_state.line_buf,
                parser.data_state.line_offset,
                parser.data_state.line_buf.len(),
            );
            parser.data_state.line_offset = parser.data_state.line_buf.len();
            let inp = &mut parser.input.input;
            proof {
                crate::input::lemma_delim_scan_bounds(
                    inp.src@,
                    inp.pos as int,
                    parser.data_state.delim@,
                );
            }
            match inp.read_delimited_data_to_end(&parser.data_state.delim) {
                Ok(rest) => {
                    parser.data_state.len_read = parser.data_state.len_read + pending.len() as u64
                        + rest.len() as u64;
                    parser.data_state.finished = true;
                    let mut rest = rest;
                    pending.append(&mut rest);
                    Ok(pending)
                },
                Err(e) => Err(e),
            }
        }
    }

    /// Closes the data stream: succeeds exactly once after the stream is
    /// finished; a second close fails with `Closed`, an unfinished stream
    /// with `Unfinished`.
    pub fn close(&mut self, parser: &mut Parser) -> (r: Result<(), StreamError>)
        requires
            old(parser).wf(),
        ensures
            final(parser).wf(),
            final(parser).input == old(parser).input,
            final(parser).data_opened == old(parser).data_opened,
            if old(parser).data_state.closed {
                r == Err::<(), StreamError>(StreamError::DataReader(DataReaderError::Closed))
                    && *final(parser) == *old(parser)
            } else if old(parser).data_state.finished {
                r is Ok && final(parser).data_state == DataState {
                    closed: true,
                    ..old(parser).data_state
                }
            } else {
                r == Err::<(), StreamError>(StreamError::DataReader(DataReaderError::Unfinished))
                    && *final(parser) == *old(parser)
            },
    {
        if parser.data_state.closed {
            Err(StreamError::DataReader(DataReaderError::Closed))
        } else if parser.data_state.finished {
            parser.data_state.closed = true;
            Ok(())
        } else {
            Err(StreamError::DataReader(DataReaderError::Unfinished))
        }
    }

    /// The number of bytes read from the data stream so far.
    pub fn len_read(&self, parser: &Parser) -> (r: u64)
        ensures
            r == parser.data_state.len_read,
    {
        parser.data_state.len_read
    }

    /// Whether the data stream has been read to completion.
    pub fn finished(&self, parser: &Parser) -> (r: bool)
        ensures
            r == parser.data_state.finished,
    {
        parser.data_state.finished
    }
}


impl ParseError {
    /// The stable human-readable message naming the violated contract.
    pub fn message(&self) -> String {
        match self {
            ParseError::ExpectedBlobData => "expected 'data' directive in blob".to_string(),
            ParseError::ExpectedCommitCommitter => "expected committer in commit".to_string(),
            ParseError::ExpectedCommitMessage => "expected message in commit".to_string(),
            ParseError::ExpectedTagFrom => "expected 'from' directive in tag".to_string(),
            ParseError::ExpectedTagMessage => "expected message in tag".to_string(),
            ParseError::ExpectedAliasMark => "expected 'mark' directive in alias".to_string(),
            ParseError::ExpectedAliasTo => "expected 'to' directive in alias".to_string(),
            ParseError::BranchContainsNul => "branch name contains NUL".to_string(),
            ParseError::IdentContainsNul => "person identifier contains NUL".to_string(),
            ParseError::EncodingContainsNul => "encoding specifier contains NUL".to_string(),
            ParseError::DataDelimContainsNul => "data delimiter contains NUL".to_string(),
            ParseError::TagContainsNul => "tag name contains NUL".to_string(),
            ParseError::PathContainsNul => "path contains NUL".to_string(),
            ParseError::RewriteSubmodulesContainsNul => {
                "rewrite submodules feature contains NUL".to_string()
            },
            ParseError::InvalidModeInt => "invalid mode integer".to_string(),
            ParseError::InvalidMode => "invalid mode".to_string(),
            ParseError::NoSpaceAfterMode => "no space after mode".to_string(),
            ParseError::NoSpaceAfterDataRef => "no space after data ref".to_string(),
            ParseError::JunkAfterFileModifyPath => "junk after path in commit 'M'".to_string(),
            ParseError::JunkAfterFileDeletePath => "junk after path in commit 'D'".to_string(),
            ParseError::NoSpaceAfterSource => "missing space after source path".to_string(),
            ParseError::MissingDest => "missing destination path".to_string(),
            ParseError::JunkAfterDest => "junk after destination path".to_string(),
            ParseError::IdentNoLtOrGt => "person identifier does not have '<' or '>'".to_string(),
            ParseError::IdentNoLtBeforeGt => {
                "person identifier does not have '<' before '>'".to_string()
            },
            ParseError::IdentNoGtAfterLt => {
                "person identifier does not have '>' after '<'".to_string()
            },
            ParseError::IdentNoSpaceBeforeLt => {
                "person identifier does not have ' ' before '<'".to_string()
            },
            ParseError::IdentNoSpaceAfterGt => {
                "person identifier does not have ' ' after '>'".to_string()
            },
            ParseError::MarkMissingColon => "mark does not start with ':'".to_string(),
            ParseError::InvalidMark => "invalid mark integer".to_string(),
            ParseError::ZeroMark => "cannot use ':0' as a mark".to_string(),
            ParseError::InvalidDataLength => "invalid data length".to_string(),
            ParseError::DataUnexpectedEof => "unexpected EOF in data stream".to_string(),
            ParseError::EmptyDelim => "data delimiter is empty".to_string(),
            ParseError::UnterminatedData => "unterminated delimited data stream".to_string(),
            ParseError::MissingLsRoot => "expected root before path in 'ls'".to_string(),
            ParseError::MissingLsPath => "expected path after root in 'ls'".to_string(),
            ParseError::LsPathString(e) => e.message(),
            ParseError::JunkAfterLsPath => "junk after path in 'ls'".to_string(),
            ParseError::InvalidDateFormat => "invalid date format".to_string(),
            ParseError::RewriteSubmodulesNoColon => {
                "expected ':' in submodule rewrite".to_string()
            },
            ParseError::UnsupportedGitOption => "unrecognized 'option git' option".to_string(),
            ParseError::InvalidOptionFileSize => {
                "invalid file size argument in option".to_string()
            },
            ParseError::InvalidOptionInt => "invalid integer argument in option".to_string(),
            ParseError::UnrecognizedCommand => "unrecognized command".to_string(),
            ParseError::UnexpectedBlank => "unexpected blank line".to_string(),
        }
    }
}

impl StreamError {
    /// The stable human-readable message of the wrapped error.
    pub fn message(&self) -> String {
        match self {
            StreamError::Parse(e) => e.message(),
            StreamError::DataReader(e) => e.message(),
        }
    }
}


} // verus!
