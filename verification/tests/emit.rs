//! Tests for the emitters: data-section framing choice, options, marks,
//! oids, and the owned representation with comments.

use fast_export::ast::{Blob, BString, Commented, Comments, CountedData, Data, DelimitedData,
    Mark as AstMark, OriginalOid as AstOid};
use fast_export::command::{DataBuf, FileSize, Mark, OptionGit, OptionOther, OriginalOid,
    UnitFactor};
use fast_export::dump::Dump;
use fast_export::ast::DelimitedError;
use fast_export::pretty::Pretty;

fn dump<T: Dump>(value: T) -> Vec<u8> {
    let mut buf = Vec::new();
    value.dump(&mut buf);
    buf
}

fn pretty<T: Pretty>(value: T) -> Vec<u8> {
    let mut buf = Vec::new();
    value.pretty(&mut buf);
    buf
}

#[test]
fn dump_data() {
    assert_eq!(
        dump(DataBuf {
            data: b"Hello, world!".to_vec(),
            delim: None,
        }),
        b"data 13\nHello, world!\n",
    );
    assert_eq!(
        dump(DataBuf {
            data: b"Hello, world!\n".to_vec(),
            delim: Some(b"EOF".to_vec()),
        }),
        b"data <<EOF\nHello, world!\nEOF\n\n",
    );
}

#[test]
fn dump_data_invalid_delim() {
    assert_eq!(
        dump(DataBuf {
            data: b"Hello,\nEOF\nworld!\n".to_vec(), // Contains delim
            delim: Some(b"EOF".to_vec()),
        }),
        b"data 18\nHello,\nEOF\nworld!\n\n",
    );
    assert_eq!(
        dump(DataBuf {
            data: b"Hello, world!".to_vec(), // No final LF
            delim: Some(b"EOF".to_vec()),
        }),
        b"data 13\nHello, world!\n",
    );
    assert_eq!(
        dump(DataBuf {
            data: b"Hello, world!\n".to_vec(),
            delim: Some(b"E\0F".to_vec()), // Contains NUL
        }),
        b"data 14\nHello, world!\n\n",
    );
    assert_eq!(
        dump(DataBuf {
            data: b"Hello, world!\n".to_vec(),
            delim: Some(b"".to_vec()), // Empty delim
        }),
        b"data 14\nHello, world!\n\n",
    );
}

#[test]
fn dump_option_git() {}

#[test]
fn dump_option_other() {
    assert_eq!(
        dump(OptionOther {
            option: b"vcs some config".to_vec(),
        }),
        b"option vcs some config\n",
    );
}

#[test]
fn pretty_data() {
    assert_eq!(
        pretty(DataBuf {
            data: b"Hello, world!".to_vec(),
            delim: None,
        }),
        b"data 13\nHello, world!\n",
    );
    assert_eq!(
        pretty(DataBuf {
            data: b"Hello, world!\n".to_vec(),
            delim: Some(b"EOF".to_vec()),
        }),
        b"data <<EOF\nHello, world!\nEOF\n\n",
    );
}

#[test]
fn pretty_data_invalid_delim() {
    assert_eq!(
        pretty(DataBuf {
            data: b"Hello,\nEOF\nworld!\n".to_vec(), // Contains delim
            delim: Some(b"EOF".to_vec()),
        }),
        b"data 18\nHello,\nEOF\nworld!\n\n",
    );
    assert_eq!(
        pretty(DataBuf {
            data: b"Hello, world!".to_vec(), // No final LF
            delim: Some(b"EOF".to_vec()),
        }),
        b"data 13\nHello, world!\n",
    );
    assert_eq!(
        pretty(DataBuf {
            data: b"Hello,\0world!\n".to_vec(), // Contains NUL
            delim: Some(b"EOF".to_vec()),
        }),
        b"data 14\nHello,\0world!\n\n",
    );
    assert_eq!(
        pretty(DataBuf {
            data: b"Hello, world!\n".to_vec(),
            delim: Some(b"".to_vec()), // Empty delim
        }),
        b"data 14\nHello, world!\n\n",
    );
}

#[test]
fn pretty_option_git() {}

#[test]
fn pretty_option_other() {
    assert_eq!(
        pretty(OptionOther {
            option: b"vcs some config".to_vec(),
        }),
        b"option vcs some config\n",
    );
}

#[test]
fn counted_data() {
    assert_eq!(
        pretty(CountedData::new(b"Hello, world!".to_vec())),
        b"data 13\nHello, world!\n",
    );
}

#[test]
fn delimited_data() {
    assert_eq!(
        pretty(
            DelimitedData::new(
                b"Hello, world!\n".to_vec(),
                BString::new(b"EOF".to_vec()).unwrap(),
            )
            .unwrap(),
        ),
        b"data <<EOF\nHello, world!\nEOF\n\n",
    );
}

#[test]
fn comments() {
    assert_eq!(pretty(Comments::new(b"".to_vec())), b"");
    assert_eq!(pretty(Comments::new(b"\n".to_vec())), b"#\n");
    assert_eq!(pretty(Comments::new(b"\n\n".to_vec())), b"#\n#\n");
    assert_eq!(pretty(Comments::new(b"a\nb".to_vec())), b"#a\n#b\n");
    assert_eq!(pretty(Comments::new(b"a\nb\n".to_vec())), b"#a\n#b\n");
}

#[test]
fn delimited_data_validation() {
    let delim = |s: &[u8]| BString::new(s.to_vec()).unwrap();
    assert_eq!(
        DelimitedData::new(b"no final lf".to_vec(), delim(b"EOF")).unwrap_err(),
        DelimitedError::NoFinalLf,
    );
    assert_eq!(
        DelimitedData::new(b"has\0nul\n".to_vec(), delim(b"EOF")).unwrap_err(),
        DelimitedError::ContainsNul,
    );
    assert_eq!(
        DelimitedData::new(b"a\nEOF\nb\n".to_vec(), delim(b"EOF")).unwrap_err(),
        DelimitedError::ContainsDelim,
    );
    let ok = DelimitedData::new(b"a\nb\n".to_vec(), delim(b"EOF")).unwrap();
    assert_eq!(ok.data(), &b"a\nb\n".to_vec());
    assert_eq!(ok.delim(), &b"EOF".to_vec());
    assert_eq!(ok.into_data(), b"a\nb\n".to_vec());
}

#[test]
fn dump_marks_oids_sizes() {
    assert_eq!(dump(Mark::new(42).unwrap()), b"mark :42\n");
    assert_eq!(
        dump(OriginalOid { oid: b"3141".to_vec() }),
        b"original-oid 3141\n",
    );
    assert_eq!(
        dump(FileSize { value: 5, unit: UnitFactor::K }),
        b"5k",
    );
    assert_eq!(
        dump(FileSize { value: 7, unit: UnitFactor::B }),
        b"7",
    );
    assert_eq!(
        dump(OptionGit::MaxPackSize { size: FileSize { value: 10, unit: UnitFactor::M } }),
        b"option git max-pack-size=10m\n",
    );
    assert_eq!(
        dump(OptionGit::Depth { depth: 3 }),
        b"option git depth=3\n",
    );
    assert_eq!(dump(OptionGit::Quiet), b"option git quiet\n");
    assert_eq!(dump(None::<Mark>), b"");
    assert_eq!(dump(Some(Mark::new(7).unwrap())), b"mark :7\n");
}

#[test]
fn pretty_blob_with_comments() {
    let blob = Blob {
        mark: Some(Commented::wrap(AstMark { mark: 42 })),
        original_oid: Some(Commented::wrap(AstOid {
            oid: BString::new(b"3141".to_vec()).unwrap(),
        })),
        data: Commented::new(
            Comments::new(b"payload\n".to_vec()),
            Data::Counted(CountedData::new(b"hi\n".to_vec())),
        ),
    };
    assert_eq!(
        pretty(blob),
        b"blob\nmark :42\noriginal-oid 3141\n#payload\ndata 3\nhi\n\n",
    );
}
