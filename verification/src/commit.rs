//! The commit file-change sub-iterator and its directive parsers: `M`, `D`,
//! `R`, `C`, `deleteall`, `N`, `ls` and `cat-blob` records inside a commit,
//! with C-style quoted paths.

use vstd::prelude::*;

use crate::bytes::{contains_byte, find_idx, starts_with, COLON, DQUOTE, NUL, SP};
use crate::command::{CatBlob, Commitish, Mark, Mode, Treeish};
use crate::keywords::{KW_CAT_BLOB_SP, KW_C_SP, KW_DELETEALL, KW_D_SP, KW_INLINE, KW_LS_SP,
    KW_M_SP, KW_N_SP, KW_R_SP};
use crate::num::{all_oct_digits, oct_value};
use crate::parser::{blobish_view, objectish_view, parse_objectish_spec, treeish_view, ObjectishV,
    ParseError, Parser, StreamError};
use crate::quote::{unquote_spec, ParseStringError};

verus! {

/// A file change inside a commit.
#[derive(Clone, Debug, PartialEq, Eq)]
pub enum Change {
    FileModify(FileModifyChange),
    FileDelete(FileDeleteChange),
    FileRename(FileRenameChange),
    FileCopy(FileCopyChange),
    FileDeleteAll,
    NoteModify(NoteModifyChange),
    Ls(CommitLs),
    CatBlob(CatBlob),
}

/// An `M` record: mode, data reference, path.
#[derive(Clone, Debug, PartialEq, Eq)]
pub struct FileModifyChange {
    pub data_ref: DataRef,
    pub mode: Mode,
    pub path: Vec<u8>,
}

/// A `D` record.
#[derive(Clone, Debug, PartialEq, Eq)]
pub struct FileDeleteChange {
    pub path: Vec<u8>,
}

/// An `R` record.
#[derive(Clone, Debug, PartialEq, Eq)]
pub struct FileRenameChange {
    pub source: Vec<u8>,
    pub dest: Vec<u8>,
}

/// A `C` record.
#[derive(Clone, Debug, PartialEq, Eq)]
pub struct FileCopyChange {
    pub source: Vec<u8>,
    pub dest: Vec<u8>,
}

/// An `N` record.
#[derive(Clone, Debug, PartialEq, Eq)]
pub struct NoteModifyChange {
    pub data_ref: DataRef,
    pub commit: Commitish,
}

/// A data reference in an `M` or `N` record: a mark, an object id, or the
/// literal `inline`.
#[derive(Clone, Debug, PartialEq, Eq)]
pub enum DataRef {
    Mark(Mark),
    Oid(Vec<u8>),
    Inline,
}

/// An `ls` record inside a commit; the root may be omitted.
#[derive(Clone, Debug, PartialEq, Eq)]
pub struct CommitLs {
    pub root: Option<Treeish>,
    pub path: Vec<u8>,
}

/// What parsing a mode word yields: an octal numeral that must name one of
/// the canonical modes, with the permission-only shortcuts `644` and `755`
/// and leading zeros tolerated.
pub open spec fn parse_mode_spec(s: Seq<u8>) -> Result<Mode, ParseError> {
    if s.len() > 0 && all_oct_digits(s) && oct_value(s) <= u16::MAX {
        let v = oct_value(s);
        if v == 0o100644 || v == 0o644 {
            Ok(Mode::File)
        } else if v == 0o100755 || v == 0o755 {
            Ok(Mode::Exe)
        } else if v == 0o120000 {
            Ok(Mode::SymLink)
        } else if v == 0o160000 {
            Ok(Mode::GitLink)
        } else if v == 0o040000 {
            Ok(Mode::Dir)
        } else {
            Err(ParseError::InvalidMode)
        }
    } else {
        Err(ParseError::InvalidModeInt)
    }
}

impl Mode {
    /// Parses a file mode word.
    pub fn parse(mode: &Vec<u8>) -> (r: Result<Mode, StreamError>)
        ensures
            match r {
                Ok(m) => parse_mode_spec(mode@) == Ok::<Mode, ParseError>(m),
                Err(e) => match e {
                    StreamError::Parse(pe) => parse_mode_spec(mode@) == Err::<Mode, ParseError>(
                        pe,
                    ),
                    _ => false,
                },
            },
    {
        let v = match crate::num::parse_u16_octal(mode) {
            Some(v) => v,
            None => {
                return Err(StreamError::Parse(ParseError::InvalidModeInt));
            },
        };
        if v == 0o100644 || v == 0o644 {
            Ok(Mode::File)
        } else if v == 0o100755 || v == 0o755 {
            Ok(Mode::Exe)
        } else if v == 0o120000 {
            Ok(Mode::SymLink)
        } else if v == 0o160000 {
            Ok(Mode::GitLink)
        } else if v == 0o040000 {
            Ok(Mode::Dir)
        } else {
            Err(StreamError::Parse(ParseError::InvalidMode))
        }
    }
}

/// View of a data reference.
pub open spec fn data_ref_view(d: DataRef) -> Option<ObjectishV> {
    match d {
        DataRef::Mark(m) => Some(ObjectishV::Mark(m.value())),
        DataRef::Oid(o) => Some(ObjectishV::BranchOrOid(o@)),
        DataRef::Inline => None,
    }
}

/// What parsing a data reference yields: the literal `inline`, a mark when
/// it starts with `:`, else an object id.
pub open spec fn parse_data_ref_spec(s: Seq<u8>) -> Result<Option<ObjectishV>, ParseError> {
    if s == KW_INLINE@ {
        Ok(None)
    } else if s.len() > 0 && s[0] == COLON {
        match crate::parser::parse_mark_spec(s) {
            Ok(v) => Ok(Some(ObjectishV::Mark(v))),
            Err(e) => Err(e),
        }
    } else {
        Ok(Some(ObjectishV::BranchOrOid(s)))
    }
}

impl DataRef {
    /// Parses a data reference.
    pub fn parse(data_ref: &Vec<u8>) -> (r: Result<DataRef, StreamError>)
        ensures
            match r {
                Ok(d) => parse_data_ref_spec(data_ref@) == Ok::<Option<ObjectishV>, ParseError>(
                    data_ref_view(d),
                ),
                Err(e) => match e {
                    StreamError::Parse(pe) => parse_data_ref_spec(data_ref@) == Err::<
                        Option<ObjectishV>,
                        ParseError,
                    >(pe),
                    _ => false,
                },
            },
    {
        if crate::bytes::has_prefix(data_ref, &KW_INLINE) && data_ref.len() == KW_INLINE.len() {
            proof {
                assert(data_ref@ =~= KW_INLINE@);
            }
            Ok(DataRef::Inline)
        } else if data_ref.len() > 0 && data_ref[0] == COLON {
            proof {
                if data_ref@ == KW_INLINE@ {
                    assert(data_ref@.subrange(0, KW_INLINE@.len() as int) =~= KW_INLINE@);
                    assert(starts_with(data_ref@, KW_INLINE@));
                }
            }
            match Mark::parse(data_ref) {
                Ok(m) => Ok(DataRef::Mark(m)),
                Err(e) => Err(e),
            }
        } else {
            proof {
                if data_ref@ == KW_INLINE@ {
                    assert(data_ref@.subrange(0, KW_INLINE@.len() as int) =~= KW_INLINE@);
                    assert(starts_with(data_ref@, KW_INLINE@));
                }
            }
            Ok(DataRef::Oid(crate::bytes::clone_vec(data_ref)))
        }
    }
}

/// What splitting at the first space yields: the bytes before and after it.
pub open spec fn split_space_spec(s: Seq<u8>) -> Option<(Seq<u8>, Seq<u8>)> {
    let i = find_idx(s, 0, SP);
    if i == s.len() {
        None
    } else {
        Some((s.subrange(0, i), s.subrange(i + 1, s.len() as int)))
    }
}

/// Splits at the first space, dropping it.
fn split_at_space(s: &Vec<u8>) -> (r: Option<(Vec<u8>, Vec<u8>)>)
    ensures
        match r {
            Some(p) => split_space_spec(s@) == Some((p.0@, p.1@)),
            None => split_space_spec(s@) is None,
        },
{
    match crate::bytes::find_byte_in(s, SP) {
        Some(i) => {
            proof {
                crate::bytes::lemma_find_idx_at(s@, 0, SP, i as int);
            }
            assert(i < s.len());
            Some((crate::bytes::subvec(s, 0, i), crate::bytes::subvec(s, i + 1, s.len())))
        },
        None => {
            proof {
                crate::bytes::lemma_find_idx_at(s@, 0, SP, s@.len() as int);
            }
            None
        },
    }
}

/// What unquoting up to a separating space yields: for a quoted string that
/// parses, the unquoted bytes and the rest after the space (none if no
/// space follows); otherwise a plain split at the first space.
pub open spec fn unquote_space_spec(s: Seq<u8>) -> Option<(Seq<u8>, Seq<u8>)> {
    if s.len() > 0 && s[0] == DQUOTE {
        match unquote_spec(s) {
            Ok(ur) => if ur.1.len() > 0 && ur.1[0] == SP {
                Some((ur.0, ur.1.subrange(1, ur.1.len() as int)))
            } else {
                None
            },
            Err(_) => split_space_spec(s),
        }
    } else {
        split_space_spec(s)
    }
}

/// What unquoting a whole field yields: for a quoted string that parses,
/// the unquoted bytes (none if junk follows); otherwise the field as is.
pub open spec fn unquote_eol_spec(s: Seq<u8>) -> Option<Seq<u8>> {
    if s.len() > 0 && s[0] == DQUOTE {
        match unquote_spec(s) {
            Ok(ur) => if ur.1.len() == 0 {
                Some(ur.0)
            } else {
                None
            },
            Err(_) => Some(s),
        }
    } else {
        Some(s)
    }
}

/// Unquotes a possibly quoted field followed by a space separator.
fn unquote_space(s: &Vec<u8>) -> (r: Option<(Vec<u8>, Vec<u8>)>)
    ensures
        match r {
            Some(p) => unquote_space_spec(s@) == Some((p.0@, p.1@)),
            None => unquote_space_spec(s@) is None,
        },
{
    if s.len() > 0 && s[0] == DQUOTE {
        match crate::quote::unquote_c_style_string(s) {
            Ok((u, rest)) => {
                if rest.len() > 0 && rest[0] == SP {
                    let tail = crate::bytes::subvec(&rest, 1, rest.len());
                    Some((u, tail))
                } else {
                    None
                }
            },
            Err(_) => split_at_space(s),
        }
    } else {
        split_at_space(s)
    }
}

/// Unquotes a possibly quoted field that must reach the end of the line.
fn unquote_eol(s: &Vec<u8>) -> (r: Option<Vec<u8>>)
    ensures
        match r {
            Some(u) => unquote_eol_spec(s@) == Some(u@),
            None => unquote_eol_spec(s@) is None,
        },
{
    if s.len() > 0 && s[0] == DQUOTE {
        match crate::quote::unquote_c_style_string(s) {
            Ok((u, rest)) => {
                if rest.len() == 0 {
                    Some(u)
                } else {
                    None
                }
            },
            Err(_) => Some(crate::bytes::clone_vec(s)),
        }
    } else {
        Some(crate::bytes::clone_vec(s))
    }
}

/// What parsing the arguments of an `M` record yields: mode, data
/// reference, and possibly quoted path.
pub open spec fn file_modify_spec(s: Seq<u8>) -> Result<
    (Mode, Option<ObjectishV>, Seq<u8>),
    ParseError,
> {
    match split_space_spec(s) {
        None => Err(ParseError::NoSpaceAfterMode),
        Some(mr) => match parse_mode_spec(mr.0) {
            Err(e) => Err(e),
            Ok(mode) => match split_space_spec(mr.1) {
                None => Err(ParseError::NoSpaceAfterDataRef),
                Some(dp) => match parse_data_ref_spec(dp.0) {
                    Err(e) => Err(e),
                    Ok(dv) => match unquote_eol_spec(dp.1) {
                        None => Err(ParseError::JunkAfterFileModifyPath),
                        Some(path) => Ok((mode, dv, path)),
                    },
                },
            },
        },
    }
}

/// What parsing a source–destination pair of an `R` or `C` record yields.
pub open spec fn rename_copy_spec(s: Seq<u8>) -> Result<(Seq<u8>, Seq<u8>), ParseError> {
    match unquote_space_spec(s) {
        None => Err(ParseError::NoSpaceAfterSource),
        Some(sd) => if sd.1.len() == 0 {
            Err(ParseError::MissingDest)
        } else {
            match unquote_eol_spec(sd.1) {
                Some(dest) => Ok((sd.0, dest)),
                None => Err(ParseError::JunkAfterDest),
            }
        },
    }
}

/// What parsing `ls` arguments yields: a root reference (required outside a
/// commit) and a path, possibly quoted.
pub open spec fn parse_ls_spec(s: Seq<u8>, in_commit: bool) -> Result<
    (Option<ObjectishV>, Seq<u8>),
    ParseError,
> {
    if s.len() == 0 {
        Err(ParseError::MissingLsPath)
    } else if s[0] == DQUOTE {
        if !in_commit {
            Err(ParseError::MissingLsRoot)
        } else {
            match unquote_spec(s) {
                Ok(ur) => if ur.1.len() == 0 {
                    Ok((None, ur.0))
                } else {
                    Err(ParseError::JunkAfterLsPath)
                },
                Err(qe) => Err(ParseError::LsPathString(qe)),
            }
        }
    } else {
        match split_space_spec(s) {
            None => Err(ParseError::MissingLsPath),
            Some(rp) => match parse_objectish_spec(rp.0) {
                Err(e) => Err(e),
                Ok(rv) => {
                    let path = rp.1;
                    if path.len() == 0 {
                        Err(ParseError::MissingLsPath)
                    } else if path[0] == DQUOTE {
                        match unquote_spec(path) {
                            Ok(ur) => if ur.1.len() == 0 {
                                Ok((Some(rv), ur.0))
                            } else {
                                Err(ParseError::JunkAfterLsPath)
                            },
                            Err(qe) => Err(ParseError::LsPathString(qe)),
                        }
                    } else {
                        Ok((Some(rv), path))
                    }
                },
            },
        }
    }
}

/// Parses the arguments of an `ls` directive.
pub fn parse_ls_args(args: &Vec<u8>, in_commit: bool) -> (r: Result<
    (Option<Treeish>, Vec<u8>),
    StreamError,
>)
    ensures
        match r {
            Ok(p) => parse_ls_spec(args@, in_commit) == Ok::<
                (Option<ObjectishV>, Seq<u8>),
                ParseError,
            >(
                (
                    match p.0 {
                        Some(t) => Some(treeish_view(t)),
                        None => None,
                    },
                    p.1@,
                ),
            ),
            Err(e) => match e {
                StreamError::Parse(pe) => parse_ls_spec(args@, in_commit) == Err::<
                    (Option<ObjectishV>, Seq<u8>),
                    ParseError,
                >(pe),
                _ => false,
            },
        },
{
    if args.len() == 0 {
        return Err(StreamError::Parse(ParseError::MissingLsPath));
    }
    if args[0] == DQUOTE {
        if !in_commit {
            return Err(StreamError::Parse(ParseError::MissingLsRoot));
        }
        match crate::quote::unquote_c_style_string(args) {
            Ok((u, rest)) => {
                if rest.len() == 0 {
                    return Ok((None, u));
                } else {
                    return Err(StreamError::Parse(ParseError::JunkAfterLsPath));
                }
            },
            Err(qe) => {
                return Err(StreamError::Parse(ParseError::LsPathString(qe)));
            },
        }
    }
    let (root, path) = match split_at_space(args) {
        Some(p) => p,
        None => {
            return Err(StreamError::Parse(ParseError::MissingLsPath));
        },
    };
    let root = match Treeish::parse(&root) {
        Ok(t) => t,
        Err(e) => {
            return Err(e);
        },
    };
    if path.len() == 0 {
        return Err(StreamError::Parse(ParseError::MissingLsPath));
    }
    if path[0] == DQUOTE {
        match crate::quote::unquote_c_style_string(&path) {
            Ok((u, rest)) => {
                if rest.len() == 0 {
                    Ok((Some(root), u))
                } else {
                    Err(StreamError::Parse(ParseError::JunkAfterLsPath))
                }
            },
            Err(qe) => Err(StreamError::Parse(ParseError::LsPathString(qe))),
        }
    } else {
        Ok((Some(root), path))
    }
}

/// The sub-iterator over a commit's file changes: on each call, the next
/// change record, or `None` (with the directive left unconsumed) when the
/// next directive is not a change.
#[derive(Debug)]
pub struct ChangeIter {
    _priv: bool,
}

impl ChangeIter {
    /// Creates the sub-iterator; it reads through the parser it is given.
    pub fn new() -> (r: ChangeIter) {
        ChangeIter { _priv: true }
    }

    /// Parses the next file change, or ends the iteration (leaving the
    /// non-change directive for the parser) when the next directive is not
    /// one of `M`, `D`, `R`, `C`, `deleteall`, `N`, `ls`, `cat-blob`.
    pub fn next(&mut self, parser: &mut Parser) -> (r: Result<Option<Change>, StreamError>)
        requires
            old(parser).wf(),
            old(parser).data_state.finished,
        ensures
            final(parser).wf(),
            final(parser).data_state == old(parser).data_state,
            final(parser).data_opened == old(parser).data_opened,
            final(parser).input.input.src@ == old(parser).input.input.src@,
            match old(parser).input.cur() {
                None => r == Ok::<Option<Change>, StreamError>(None),
                Some(line) => {
                    &&& (starts_with(line, KW_M_SP@) ==> match file_modify_spec(
                        line.subrange(KW_M_SP@.len() as int, line.len() as int),
                    ) {
                        Ok(mv) => (r matches Ok(c) && c matches Some(Change::FileModify(m))
                            && m.mode == mv.0 && data_ref_view(m.data_ref) == mv.1 && m.path@
                            == mv.2),
                        Err(e) => r == Err::<Option<Change>, StreamError>(
                            StreamError::Parse(e),
                        ),
                    })
                    &&& (starts_with(line, KW_D_SP@) ==> match unquote_eol_spec(
                        line.subrange(KW_D_SP@.len() as int, line.len() as int),
                    ) {
                        Some(path) => (r matches Ok(c) && c matches Some(Change::FileDelete(d))
                            && d.path@ == path),
                        None => r == Err::<Option<Change>, StreamError>(
                            StreamError::Parse(ParseError::JunkAfterFileDeletePath),
                        ),
                    })
                    &&& (starts_with(line, KW_R_SP@) ==> match rename_copy_spec(
                        line.subrange(KW_R_SP@.len() as int, line.len() as int),
                    ) {
                        Ok(sd) => (r matches Ok(c) && c matches Some(Change::FileRename(rn))
                            && rn.source@ == sd.0 && rn.dest@ == sd.1),
                        Err(e) => r == Err::<Option<Change>, StreamError>(
                            StreamError::Parse(e),
                        ),
                    })
                    &&& (starts_with(line, KW_C_SP@) ==> match rename_copy_spec(
                        line.subrange(KW_C_SP@.len() as int, line.len() as int),
                    ) {
                        Ok(sd) => (r matches Ok(c) && c matches Some(Change::FileCopy(cp))
                            && cp.source@ == sd.0 && cp.dest@ == sd.1),
                        Err(e) => r == Err::<Option<Change>, StreamError>(
                            StreamError::Parse(e),
                        ),
                    })
                    &&& (line == KW_DELETEALL@ ==> r == Ok::<Option<Change>, StreamError>(
                        Some(Change::FileDeleteAll),
                    ))
                    &&& (starts_with(line, KW_N_SP@) ==> ({
                        let args = line.subrange(KW_N_SP@.len() as int, line.len() as int);
                        match split_space_spec(args) {
                            None => r == Err::<Option<Change>, StreamError>(
                                StreamError::Parse(ParseError::NoSpaceAfterDataRef),
                            ),
                            Some(dc) => match parse_data_ref_spec(dc.0) {
                                Err(e) => r == Err::<Option<Change>, StreamError>(
                                    StreamError::Parse(e),
                                ),
                                Ok(dv) => match parse_objectish_spec(dc.1) {
                                    Err(e) => r == Err::<Option<Change>, StreamError>(
                                        StreamError::Parse(e),
                                    ),
                                    Ok(cv) => (r matches Ok(c) && c matches Some(
                                        Change::NoteModify(n),
                                    ) && data_ref_view(n.data_ref) == dv && objectish_view(
                                        n.commit.commit,
                                    ) == cv),
                                },
                            },
                        }
                    }))
                    &&& (starts_with(line, KW_LS_SP@) ==> match parse_ls_spec(
                        line.subrange(KW_LS_SP@.len() as int, line.len() as int),
                        true,
                    ) {
                        Ok(rp) => (r matches Ok(c) && c matches Some(Change::Ls(ls)) && rp.0 == (
                        match ls.root {
                            Some(t) => Some(treeish_view(t)),
                            None => None,
                        }) && ls.path@ == rp.1),
                        Err(e) => r == Err::<Option<Change>, StreamError>(
                            StreamError::Parse(e),
                        ),
                    })
                    &&& (starts_with(line, KW_CAT_BLOB_SP@) ==> match parse_objectish_spec(
                        line.subrange(KW_CAT_BLOB_SP@.len() as int, line.len() as int),
                    ) {
                        Ok(bv) => (r matches Ok(c) && c matches Some(Change::CatBlob(cb))
                            && blobish_view(cb.blob) == bv),
                        Err(e) => r == Err::<Option<Change>, StreamError>(
                            StreamError::Parse(e),
                        ),
                    })
                    &&& (!(starts_with(line, KW_M_SP@) || starts_with(line, KW_D_SP@)
                        || starts_with(line, KW_R_SP@) || starts_with(line, KW_C_SP@) || line
                        == KW_DELETEALL@ || starts_with(line, KW_N_SP@) || starts_with(
                        line,
                        KW_LS_SP@,
                    ) || starts_with(line, KW_CAT_BLOB_SP@)) ==> r == Ok::<
                        Option<Change>,
                        StreamError,
                    >(None) && final(parser).input.cur() == old(parser).input.cur())
                },
            },
    {
        let line = match parser.input.next_directive() {
            Some(l) => l,
            None => {
                return Ok(None);
            },
        };
        if let Some(args) = crate::bytes::strip_prefix(&line, &KW_M_SP) {
            match self.parse_file_modify(&args) {
                Ok(c) => Ok(Some(c)),
                Err(e) => Err(e),
            }
        } else if let Some(path) = crate::bytes::strip_prefix(&line, &KW_D_SP) {
            match self.parse_file_delete(&path) {
                Ok(c) => Ok(Some(c)),
                Err(e) => Err(e),
            }
        } else if let Some(paths) = crate::bytes::strip_prefix(&line, &KW_R_SP) {
            match self.parse_file_rename(&paths) {
                Ok(c) => Ok(Some(c)),
                Err(e) => Err(e),
            }
        } else if let Some(paths) = crate::bytes::strip_prefix(&line, &KW_C_SP) {
            match self.parse_file_copy(&paths) {
                Ok(c) => Ok(Some(c)),
                Err(e) => Err(e),
            }
        } else if crate::bytes::has_prefix(&line, &KW_DELETEALL) && line.len()
            == KW_DELETEALL.len() {
            proof {
                assert(line@ =~= KW_DELETEALL@);
            }
            Ok(Some(Change::FileDeleteAll))
        } else if let Some(args) = crate::bytes::strip_prefix(&line, &KW_N_SP) {
            match self.parse_note_modify(&args) {
                Ok(c) => Ok(Some(c)),
                Err(e) => Err(e),
            }
        } else if let Some(args) = crate::bytes::strip_prefix(&line, &KW_LS_SP) {
            match self.parse_ls(&args) {
                Ok(c) => Ok(Some(c)),
                Err(e) => Err(e),
            }
        } else if let Some(data_ref) = crate::bytes::strip_prefix(&line, &KW_CAT_BLOB_SP) {
            match self.parse_cat_blob(&data_ref) {
                Ok(c) => Ok(Some(c)),
                Err(e) => Err(e),
            }
        } else {
            proof {
                if line@ == KW_DELETEALL@ {
                    assert(line@.subrange(0, KW_DELETEALL@.len() as int) =~= KW_DELETEALL@);
                    assert(starts_with(line@, KW_DELETEALL@));
                }
            }
            parser.input.unread_directive();
            Ok(None)
        }
    }

    /// Parses the arguments of an `M` record: mode, data reference, path.
    fn parse_file_modify(&self, args: &Vec<u8>) -> (r: Result<Change, StreamError>)
        ensures
            match file_modify_spec(args@) {
                Ok(mv) => (r matches Ok(c) && c matches Change::FileModify(m) && m.mode == mv.0
                    && data_ref_view(m.data_ref) == mv.1 && m.path@ == mv.2),
                Err(e) => r == Err::<Change, StreamError>(StreamError::Parse(e)),
            },
    {
        let (mode, rest) = match split_at_space(args) {
            Some(p) => p,
            None => {
                return Err(StreamError::Parse(ParseError::NoSpaceAfterMode));
            },
        };
        let mode = match Mode::parse(&mode) {
            Ok(m) => m,
            Err(e) => {
                return Err(e);
            },
        };
        let (data_ref, path) = match split_at_space(&rest) {
            Some(p) => p,
            None => {
                return Err(StreamError::Parse(ParseError::NoSpaceAfterDataRef));
            },
        };
        let data_ref = match DataRef::parse(&data_ref) {
            Ok(d) => d,
            Err(e) => {
                return Err(e);
            },
        };
        let path = match unquote_eol(&path) {
            Some(p) => p,
            None => {
                return Err(StreamError::Parse(ParseError::JunkAfterFileModifyPath));
            },
        };
        Ok(Change::FileModify(FileModifyChange { data_ref, mode, path }))
    }

    /// Parses the argument of a `D` record: the path.
    fn parse_file_delete(&self, path: &Vec<u8>) -> (r: Result<Change, StreamError>)
        ensures
            match unquote_eol_spec(path@) {
                Some(p) => (r matches Ok(c) && c matches Change::FileDelete(d) && d.path@ == p),
                None => r == Err::<Change, StreamError>(
                    StreamError::Parse(ParseError::JunkAfterFileDeletePath),
                ),
            },
    {
        let path = match unquote_eol(path) {
            Some(p) => p,
            None => {
                return Err(StreamError::Parse(ParseError::JunkAfterFileDeletePath));
            },
        };
        Ok(Change::FileDelete(FileDeleteChange { path }))
    }

    /// Parses the arguments of an `R` record: source and destination paths.
    fn parse_file_rename(&self, paths: &Vec<u8>) -> (r: Result<Change, StreamError>)
        ensures
            match rename_copy_spec(paths@) {
                Ok(sd) => (r matches Ok(c) && c matches Change::FileRename(rn) && rn.source@
                    == sd.0 && rn.dest@ == sd.1),
                Err(e) => r == Err::<Change, StreamError>(StreamError::Parse(e)),
            },
    {
        match self.parse_file_rename_copy(paths) {
            Ok((source, dest)) => Ok(Change::FileRename(FileRenameChange { source, dest })),
            Err(e) => Err(e),
        }
    }

    /// Parses the arguments of a `C` record: source and destination paths.
    fn parse_file_copy(&self, paths: &Vec<u8>) -> (r: Result<Change, StreamError>)
        ensures
            match rename_copy_spec(paths@) {
                Ok(sd) => (r matches Ok(c) && c matches Change::FileCopy(cp) && cp.source@ == sd.0
                    && cp.dest@ == sd.1),
                Err(e) => r == Err::<Change, StreamError>(StreamError::Parse(e)),
            },
    {
        match self.parse_file_rename_copy(paths) {
            Ok((source, dest)) => Ok(Change::FileCopy(FileCopyChange { source, dest })),
            Err(e) => Err(e),
        }
    }

    /// Parses a source–destination pair, each possibly quoted; an empty
    /// destination is an error.
    fn parse_file_rename_copy(&self, paths: &Vec<u8>) -> (r: Result<
        (Vec<u8>, Vec<u8>),
        StreamError,
    >)
        ensures
            match unquote_space_spec(paths@) {
                None => r == Err::<(Vec<u8>, Vec<u8>), StreamError>(
                    StreamError::Parse(ParseError::NoSpaceAfterSource),
                ),
                Some(sd) => if sd.1.len() == 0 {
                    r == Err::<(Vec<u8>, Vec<u8>), StreamError>(
                        StreamError::Parse(ParseError::MissingDest),
                    )
                } else {
                    match unquote_eol_spec(sd.1) {
                        Some(dest) => (r matches Ok(p) && p.0@ == sd.0 && p.1@ == dest),
                        None => r == Err::<(Vec<u8>, Vec<u8>), StreamError>(
                            StreamError::Parse(ParseError::JunkAfterDest),
                        ),
                    }
                },
            },
    {
        let (source, dest) = match unquote_space(paths) {
            Some(p) => p,
            None => {
                return Err(StreamError::Parse(ParseError::NoSpaceAfterSource));
            },
        };
        if dest.len() == 0 {
            return Err(StreamError::Parse(ParseError::MissingDest));
        }
        let dest = match unquote_eol(&dest) {
            Some(d) => d,
            None => {
                return Err(StreamError::Parse(ParseError::JunkAfterDest));
            },
        };
        Ok((source, dest))
    }

    /// Parses the arguments of an `N` record: data reference and commit.
    fn parse_note_modify(&self, args: &Vec<u8>) -> (r: Result<Change, StreamError>)
        ensures
            match split_space_spec(args@) {
                None => r == Err::<Change, StreamError>(
                    StreamError::Parse(ParseError::NoSpaceAfterDataRef),
                ),
                Some(dc) => match parse_data_ref_spec(dc.0) {
                    Err(e) => r == Err::<Change, StreamError>(StreamError::Parse(e)),
                    Ok(dv) => match parse_objectish_spec(dc.1) {
                        Err(e) => r == Err::<Change, StreamError>(StreamError::Parse(e)),
                        Ok(cv) => (r matches Ok(c) && c matches Change::NoteModify(n)
                            && data_ref_view(n.data_ref) == dv && objectish_view(n.commit.commit)
                            == cv),
                    },
                },
            },
    {
        let (data_ref, commit) = match split_at_space(args) {
            Some(p) => p,
            None => {
                return Err(StreamError::Parse(ParseError::NoSpaceAfterDataRef));
            },
        };
        let data_ref = match DataRef::parse(&data_ref) {
            Ok(d) => d,
            Err(e) => {
                return Err(e);
            },
        };
        let commit = match Commitish::parse(&commit) {
            Ok(cm) => cm,
            Err(e) => {
                return Err(e);
            },
        };
        Ok(Change::NoteModify(NoteModifyChange { data_ref, commit }))
    }

    /// Parses the arguments of an `ls` record inside a commit.
    fn parse_ls(&self, args: &Vec<u8>) -> (r: Result<Change, StreamError>)
        ensures
            match parse_ls_spec(args@, true) {
                Ok(rp) => (r matches Ok(c) && c matches Change::Ls(ls) && rp.0 == (match ls.root {
                    Some(t) => Some(treeish_view(t)),
                    None => None,
                }) && ls.path@ == rp.1),
                Err(e) => r == Err::<Change, StreamError>(StreamError::Parse(e)),
            },
    {
        match parse_ls_args(args, true) {
            Ok((root, path)) => Ok(Change::Ls(CommitLs { root, path })),
            Err(e) => Err(e),
        }
    }

    /// Parses the arguments of a `cat-blob` record inside a commit.
    fn parse_cat_blob(&self, data_ref: &Vec<u8>) -> (r: Result<Change, StreamError>)
        ensures
            match parse_objectish_spec(data_ref@) {
                Ok(bv) => (r matches Ok(c) && c matches Change::CatBlob(cb) && blobish_view(
                    cb.blob,
                ) == bv),
                Err(e) => r == Err::<Change, StreamError>(StreamError::Parse(e)),
            },
    {
        match crate::command::Blobish::parse(data_ref) {
            Ok(blob) => Ok(Change::CatBlob(CatBlob { blob })),
            Err(e) => Err(e),
        }
    }
}

} // verus!
