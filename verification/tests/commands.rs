//! Tests for the higher commands: commit (with file changes), tag, reset,
//! alias, feature, option, get-mark and cat-blob.

use fast_export::command::{Blobish, Command, DateFormat, Done, Feature, FileSize, Mode, Objectish,
    OptionCommand, OptionGit, UnitFactor};
use fast_export::commit::{Change, ChangeIter, DataRef};
use fast_export::parser::{ParseError, Parser, StreamError};

#[test]
fn parse_commit_full() {
    let mut parser = Parser::new(
        b"commit refs/heads/main\nmark :5\noriginal-oid 1234\nauthor Ann Author <ann@example.com> 1 +0000\ncommitter Carl Committer <carl@example.com> 2 +0000\nencoding utf-8\ndata 6\nhello\n\nfrom :1\nmerge :2\nmerge :3\nM 100644 :4 path/to/file\nD old/file\nR src dst\nC a b\ndeleteall\ndone\n"
            .to_vec(),
    );
    let commit = match parser.next().unwrap() {
        Command::Commit(c) => c,
        c => panic!("{c:?}"),
    };
    assert_eq!(commit.branch.branch, b"refs/heads/main".to_vec());
    assert_eq!(commit.mark.unwrap().get(), 5);
    assert_eq!(commit.original_oid.unwrap().oid, b"1234".to_vec());
    let author = commit.author.unwrap();
    assert_eq!(author.name, b"Ann Author".to_vec());
    assert_eq!(author.email, b"ann@example.com".to_vec());
    assert_eq!(author.date, b"1 +0000".to_vec());
    assert_eq!(commit.committer.name, b"Carl Committer".to_vec());
    assert_eq!(commit.encoding.unwrap().encoding, b"utf-8".to_vec());
    assert_eq!(commit.message, b"hello\n".to_vec());
    match commit.from.unwrap().commit {
        Objectish::Mark(m) => assert_eq!(m.get(), 1),
        o => panic!("{o:?}"),
    }
    assert_eq!(commit.merge.len(), 2);
    for (i, expected) in [2u64, 3u64].iter().enumerate() {
        match &commit.merge[i].commit {
            Objectish::Mark(m) => assert_eq!(m.get(), *expected),
            o => panic!("{o:?}"),
        }
    }

    let mut changes = ChangeIter::new();
    match changes.next(&mut parser).unwrap().unwrap() {
        Change::FileModify(m) => {
            assert_eq!(m.mode, Mode::File);
            match m.data_ref {
                DataRef::Mark(mk) => assert_eq!(mk.get(), 4),
                d => panic!("{d:?}"),
            }
            assert_eq!(m.path, b"path/to/file".to_vec());
        }
        c => panic!("{c:?}"),
    }
    match changes.next(&mut parser).unwrap().unwrap() {
        Change::FileDelete(d) => assert_eq!(d.path, b"old/file".to_vec()),
        c => panic!("{c:?}"),
    }
    match changes.next(&mut parser).unwrap().unwrap() {
        Change::FileRename(r) => {
            assert_eq!(r.source, b"src".to_vec());
            assert_eq!(r.dest, b"dst".to_vec());
        }
        c => panic!("{c:?}"),
    }
    match changes.next(&mut parser).unwrap().unwrap() {
        Change::FileCopy(c) => {
            assert_eq!(c.source, b"a".to_vec());
            assert_eq!(c.dest, b"b".to_vec());
        }
        c => panic!("{c:?}"),
    }
    assert_eq!(changes.next(&mut parser).unwrap(), Some(Change::FileDeleteAll));
    // `done` is not a change: the iteration ends and the parser sees it.
    assert_eq!(changes.next(&mut parser).unwrap(), None);
    assert_eq!(parser.next().unwrap(), Command::Done(Done::Explicit));
}

#[test]
fn parse_commit_missing_committer() {
    let mut parser = Parser::new(b"commit refs/heads/main\ndata 2\nm\n".to_vec());
    match parser.next() {
        Err(StreamError::Parse(ParseError::ExpectedCommitCommitter)) => {}
        res => panic!("{res:?}"),
    }
}

#[test]
fn parse_commit_quoted_paths() {
    let mut parser = Parser::new(
        b"commit refs/heads/main\ncommitter C <c@x> 0 +0000\ndata 2\nm\nM 100755 inline \"a\\tb\"\nN :7 :8\nls :9 some/path\ncat-blob :10\n"
            .to_vec(),
    );
    match parser.next().unwrap() {
        Command::Commit(_) => {}
        c => panic!("{c:?}"),
    }
    let mut changes = ChangeIter::new();
    match changes.next(&mut parser).unwrap().unwrap() {
        Change::FileModify(m) => {
            assert_eq!(m.mode, Mode::Exe);
            assert_eq!(m.data_ref, DataRef::Inline);
            assert_eq!(m.path, b"a\tb".to_vec());
        }
        c => panic!("{c:?}"),
    }
    match changes.next(&mut parser).unwrap().unwrap() {
        Change::NoteModify(n) => {
            match n.data_ref {
                DataRef::Mark(m) => assert_eq!(m.get(), 7),
                d => panic!("{d:?}"),
            }
        }
        c => panic!("{c:?}"),
    }
    match changes.next(&mut parser).unwrap().unwrap() {
        Change::Ls(ls) => {
            assert!(ls.root.is_some());
            assert_eq!(ls.path, b"some/path".to_vec());
        }
        c => panic!("{c:?}"),
    }
    match changes.next(&mut parser).unwrap().unwrap() {
        Change::CatBlob(cb) => match cb.blob {
            Blobish::Mark(m) => assert_eq!(m.get(), 10),
            b => panic!("{b:?}"),
        },
        c => panic!("{c:?}"),
    }
    assert_eq!(changes.next(&mut parser).unwrap(), None);
}

#[test]
fn parse_tag() {
    let mut parser = Parser::new(
        b"tag v1.0\nmark :9\nfrom :5\noriginal-oid 4321\ntagger T Agger <t@x> 3 +0000\ndata 4\nmsg\n\n"
            .to_vec(),
    );
    let tag = match parser.next().unwrap() {
        Command::Tag(t) => t,
        c => panic!("{c:?}"),
    };
    assert_eq!(tag.name.name, b"v1.0".to_vec());
    assert_eq!(tag.mark.unwrap().get(), 9);
    match tag.from {
        Objectish::Mark(m) => assert_eq!(m.get(), 5),
        o => panic!("{o:?}"),
    }
    assert_eq!(tag.original_oid.unwrap().oid, b"4321".to_vec());
    assert_eq!(tag.tagger.unwrap().name, b"T Agger".to_vec());
    assert_eq!(tag.message, b"msg\n".to_vec());
}

#[test]
fn parse_tag_without_tagger() {
    // The wire allows `tagger` to be omitted.
    let mut parser = Parser::new(b"tag v2\nfrom ref\ndata 2\nm\n".to_vec());
    let tag = match parser.next().unwrap() {
        Command::Tag(t) => t,
        c => panic!("{c:?}"),
    };
    assert!(tag.tagger.is_none());
    match tag.from {
        Objectish::BranchOrOid(b) => assert_eq!(b, b"ref".to_vec()),
        o => panic!("{o:?}"),
    }
}

#[test]
fn parse_tag_missing_from() {
    let mut parser = Parser::new(b"tag v2\ndata 2\nm\n".to_vec());
    match parser.next() {
        Err(StreamError::Parse(ParseError::ExpectedTagFrom)) => {}
        res => panic!("{res:?}"),
    }
}

#[test]
fn parse_reset_and_alias() {
    let mut parser = Parser::new(b"reset refs/heads/dev\nfrom :3\nalias\nmark :4\nto :3\n".to_vec());
    let reset = match parser.next().unwrap() {
        Command::Reset(r) => r,
        c => panic!("{c:?}"),
    };
    assert_eq!(reset.branch.branch, b"refs/heads/dev".to_vec());
    assert!(reset.from.is_some());
    let alias = match parser.next().unwrap() {
        Command::Alias(a) => a,
        c => panic!("{c:?}"),
    };
    assert_eq!(alias.mark.get(), 4);
}

#[test]
fn parse_alias_optional_lf_at_head() {
    // The optional LF of `alias` sits at the head of the command.
    let mut parser = Parser::new(b"alias\n\nmark :4\nto :3\n".to_vec());
    let alias = match parser.next().unwrap() {
        Command::Alias(a) => a,
        c => panic!("{c:?}"),
    };
    assert_eq!(alias.mark.get(), 4);
}

#[test]
fn parse_alias_missing_parts() {
    let mut parser = Parser::new(b"alias\nto :3\n".to_vec());
    match parser.next() {
        Err(StreamError::Parse(ParseError::ExpectedAliasMark)) => {}
        res => panic!("{res:?}"),
    }
    let mut parser = Parser::new(b"alias\nmark :3\n".to_vec());
    match parser.next() {
        Err(StreamError::Parse(ParseError::ExpectedAliasTo)) => {}
        res => panic!("{res:?}"),
    }
}

#[test]
fn parse_ls_and_get_mark() {
    let mut parser = Parser::new(b"ls :7 a/b\nget-mark :7\ncat-blob abcd\n".to_vec());
    let ls = match parser.next().unwrap() {
        Command::Ls(l) => l,
        c => panic!("{c:?}"),
    };
    assert_eq!(ls.path, b"a/b".to_vec());
    let gm = match parser.next().unwrap() {
        Command::GetMark(g) => g,
        c => panic!("{c:?}"),
    };
    assert_eq!(gm.mark.get(), 7);
    match parser.next().unwrap() {
        Command::CatBlob(cb) => match cb.blob {
            Blobish::Oid(oid) => assert_eq!(oid, b"abcd".to_vec()),
            b => panic!("{b:?}"),
        },
        c => panic!("{c:?}"),
    }
}

#[test]
fn parse_features() {
    let inputs: &[(&[u8], Feature)] = &[
        (b"feature date-format=raw\n", Feature::DateFormat { format: DateFormat::Raw }),
        (b"feature date-format=now\n", Feature::DateFormat { format: DateFormat::Now }),
        (b"feature alias\n", Feature::Alias),
        (b"feature get-mark\n", Feature::GetMark),
        (b"feature cat-blob\n", Feature::CatBlob),
        (b"feature relative-marks\n", Feature::RelativeMarks { relative: true }),
        (b"feature no-relative-marks\n", Feature::RelativeMarks { relative: false }),
        (b"feature done\n", Feature::Done),
        (b"feature force\n", Feature::Force),
        (b"feature notes\n", Feature::Notes),
        (b"feature ls\n", Feature::Ls),
        (b"feature shiny\n", Feature::Other { feature: b"shiny".to_vec() }),
    ];
    for (input, expected) in inputs {
        let mut parser = Parser::new(input.to_vec());
        match parser.next().unwrap() {
            Command::Feature(f) => assert_eq!(&f, expected),
            c => panic!("{c:?}"),
        }
    }

    let mut parser = Parser::new(b"feature import-marks=/tmp/marks\n".to_vec());
    match parser.next().unwrap() {
        Command::Feature(f) => {
            assert!(f.is_unsafe());
            match f {
                Feature::ImportMarks { path, ignore_missing } => {
                    assert_eq!(path.path, b"/tmp/marks".to_vec());
                    assert!(!ignore_missing);
                }
                f => panic!("{f:?}"),
            }
        }
        c => panic!("{c:?}"),
    }

    let mut parser = Parser::new(b"feature import-marks-if-exists=m\n".to_vec());
    match parser.next().unwrap() {
        Command::Feature(Feature::ImportMarks { ignore_missing, .. }) => assert!(ignore_missing),
        c => panic!("{c:?}"),
    }

    let mut parser = Parser::new(b"feature rewrite-submodules-to=sub:marks/file\n".to_vec());
    match parser.next().unwrap() {
        Command::Feature(Feature::RewriteSubmodulesTo { submodule_name, marks_path }) => {
            assert_eq!(submodule_name, b"sub".to_vec());
            assert_eq!(marks_path, b"marks/file".to_vec());
        }
        c => panic!("{c:?}"),
    }

    let mut parser = Parser::new(b"feature export-marks=/tmp/out\n".to_vec());
    match parser.next().unwrap() {
        Command::Feature(f) => {
            assert!(f.is_unsafe());
            match f {
                Feature::ExportMarks { path } => assert_eq!(path.path, b"/tmp/out".to_vec()),
                f => panic!("{f:?}"),
            }
        }
        c => panic!("{c:?}"),
    }

    let mut parser = Parser::new(b"feature rewrite-submodules-from=nocolon\n".to_vec());
    match parser.next() {
        Err(StreamError::Parse(ParseError::RewriteSubmodulesNoColon)) => {}
        res => panic!("{res:?}"),
    }

    let mut parser = Parser::new(b"feature date-format=whenever\n".to_vec());
    match parser.next() {
        Err(StreamError::Parse(ParseError::InvalidDateFormat)) => {}
        res => panic!("{res:?}"),
    }
}

#[test]
fn parse_options() {
    let mut parser = Parser::new(
        b"option git max-pack-size=5K\noption git depth=12\noption git quiet\noption othervcs x y\n"
            .to_vec(),
    );
    match parser.next().unwrap() {
        Command::OptionCmd(OptionCommand::Git(OptionGit::MaxPackSize { size })) => {
            assert_eq!(size, FileSize { value: 5, unit: UnitFactor::K });
        }
        c => panic!("{c:?}"),
    }
    match parser.next().unwrap() {
        Command::OptionCmd(OptionCommand::Git(OptionGit::Depth { depth })) => {
            assert_eq!(depth, 12);
        }
        c => panic!("{c:?}"),
    }
    match parser.next().unwrap() {
        Command::OptionCmd(OptionCommand::Git(OptionGit::Quiet)) => {}
        c => panic!("{c:?}"),
    }
    match parser.next().unwrap() {
        Command::OptionCmd(OptionCommand::Other(o)) => {
            assert_eq!(o.option, b"othervcs x y".to_vec());
        }
        c => panic!("{c:?}"),
    }

    let mut parser = Parser::new(
        b"option git big-file-threshold=1g\noption git active-branches=7\noption git export-pack-edges=/tmp/e\noption git allow-unsafe-features\noption git stats\n"
            .to_vec(),
    );
    match parser.next().unwrap() {
        Command::OptionCmd(OptionCommand::Git(OptionGit::BigFileThreshold { size })) => {
            assert_eq!(size, FileSize { value: 1, unit: UnitFactor::G });
        }
        c => panic!("{c:?}"),
    }
    match parser.next().unwrap() {
        Command::OptionCmd(OptionCommand::Git(OptionGit::ActiveBranches { count })) => {
            assert_eq!(count, 7);
        }
        c => panic!("{c:?}"),
    }
    match parser.next().unwrap() {
        Command::OptionCmd(OptionCommand::Git(OptionGit::ExportPackEdges { path })) => {
            assert_eq!(path, b"/tmp/e".to_vec());
        }
        c => panic!("{c:?}"),
    }
    match parser.next().unwrap() {
        Command::OptionCmd(OptionCommand::Git(OptionGit::AllowUnsafeFeatures)) => {}
        c => panic!("{c:?}"),
    }
    match parser.next().unwrap() {
        Command::OptionCmd(OptionCommand::Git(OptionGit::Stats)) => {}
        c => panic!("{c:?}"),
    }

    let mut parser = Parser::new(b"option git frobnicate\n".to_vec());
    match parser.next() {
        Err(StreamError::Parse(ParseError::UnsupportedGitOption)) => {}
        res => panic!("{res:?}"),
    }

    let mut parser = Parser::new(b"option git depth=x\n".to_vec());
    match parser.next() {
        Err(StreamError::Parse(ParseError::InvalidOptionInt)) => {}
        res => panic!("{res:?}"),
    }

    let mut parser = Parser::new(b"option git max-pack-size=zz\n".to_vec());
    match parser.next() {
        Err(StreamError::Parse(ParseError::InvalidOptionFileSize)) => {}
        res => panic!("{res:?}"),
    }
}

#[test]
fn ident_shape_errors() {
    let cases: &[(&[u8], ParseError)] = &[
        (b"commit b\ncommitter no brackets\ndata 2\nm\n", ParseError::IdentNoLtOrGt),
        (b"commit b\ncommitter x > y\ndata 2\nm\n", ParseError::IdentNoLtBeforeGt),
        (b"commit b\ncommitter x<y> z\ndata 2\nm\n", ParseError::IdentNoSpaceBeforeLt),
        (b"commit b\ncommitter x <y\ndata 2\nm\n", ParseError::IdentNoGtAfterLt),
        (b"commit b\ncommitter x <y>z\ndata 2\nm\n", ParseError::IdentNoSpaceAfterGt),
        (b"commit b\ncommitter x <y\0> z\ndata 2\nm\n", ParseError::IdentContainsNul),
        (b"commit b\0ad\ncommitter x <y> z\ndata 2\nm\n", ParseError::BranchContainsNul),
    ];
    for (input, expected) in cases {
        let mut parser = Parser::new(input.to_vec());
        match parser.next() {
            Err(StreamError::Parse(e)) => assert_eq!(&e, expected),
            res => panic!("{res:?}"),
        }
    }
}

#[test]
fn mode_values() {
    assert_eq!(Mode::canonicalize(0o100644), Mode::File);
    assert_eq!(Mode::canonicalize(0o100755), Mode::Exe);
    assert_eq!(Mode::canonicalize(0o100600), Mode::File);
    assert_eq!(Mode::canonicalize(0o120000), Mode::SymLink);
    assert_eq!(Mode::canonicalize(0o040000), Mode::Dir);
    assert_eq!(Mode::canonicalize(0o160000), Mode::GitLink);
    assert!(Mode::is_canon(0o100644));
    assert!(Mode::is_canon(0o120000));
    assert!(!Mode::is_canon(0o100600));

    let mut parser = Parser::new(
        b"commit b\ncommitter x <y> z\ndata 2\nm\nM 644 :1 f\nM 755 :2 g\nM 040000 :3 d\n".to_vec(),
    );
    parser.next().unwrap();
    let mut changes = ChangeIter::new();
    match changes.next(&mut parser).unwrap().unwrap() {
        Change::FileModify(m) => assert_eq!(m.mode, Mode::File),
        c => panic!("{c:?}"),
    }
    match changes.next(&mut parser).unwrap().unwrap() {
        Change::FileModify(m) => assert_eq!(m.mode, Mode::Exe),
        c => panic!("{c:?}"),
    }
    match changes.next(&mut parser).unwrap().unwrap() {
        Change::FileModify(m) => assert_eq!(m.mode, Mode::Dir),
        c => panic!("{c:?}"),
    }

    let mut parser = Parser::new(b"commit b\ncommitter x <y> z\ndata 2\nm\nM 999 :1 f\n".to_vec());
    parser.next().unwrap();
    let mut changes = ChangeIter::new();
    match changes.next(&mut parser) {
        Err(StreamError::Parse(ParseError::InvalidModeInt)) => {}
        res => panic!("{res:?}"),
    }

    let mut parser = Parser::new(b"commit b\ncommitter x <y> z\ndata 2\nm\nM 777 :1 f\n".to_vec());
    parser.next().unwrap();
    let mut changes = ChangeIter::new();
    match changes.next(&mut parser) {
        Err(StreamError::Parse(ParseError::InvalidMode)) => {}
        res => panic!("{res:?}"),
    }
}
