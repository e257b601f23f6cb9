//! Tests for the supporting pieces: the buffer pool, C-style unquoting, and
//! emit-then-parse round trips.

use fast_export::ast::{BString, BStringError};
use fast_export::command::{Command, DataBuf, DelimitedError};
use fast_export::data::DataReaderError;
use fast_export::dump::Dump;
use fast_export::parser::{ParseError as PE, Parser, StreamError as SE};
use fast_export::refs::RefnameError;
use fast_export::pool::BufPool;
use fast_export::quote::{unquote_c_style_string, ParseStringError};

#[test]
fn example() {
    let mut pool = BufPool::new();
    pool.push_back(b"1".to_vec());
    pool.push_back(b"2".to_vec());
    pool.push_back(b"3".to_vec());
    pool.truncate_back(2);
    pool.push_back(b"4".to_vec());
    assert_eq!(pool.iter(), [b"2".to_vec(), b"3".to_vec(), b"4".to_vec()]);
    assert_eq!(pool.len(), 3);
    assert_eq!(pool.back(), Some(&b"4".to_vec()));
    assert_eq!(pool.get(0), &b"2".to_vec());
}

#[test]
fn unquote_plain() {
    let (u, rest) = unquote_c_style_string(&b"\"hello\" tail".to_vec()).unwrap();
    assert_eq!(u, b"hello");
    assert_eq!(rest, b" tail");

    let (u, rest) = unquote_c_style_string(&b"\"\"".to_vec()).unwrap();
    assert_eq!(u, b"");
    assert_eq!(rest, b"");
}

#[test]
fn unquote_escapes() {
    let (u, rest) =
        unquote_c_style_string(&b"\"a\\ab\\bf\\fn\\nr\\rt\\tv\\vq\\\"s\\\\\"".to_vec()).unwrap();
    assert_eq!(u, b"a\x07b\x08f\x0cn\nr\rt\tv\x0bq\"s\\");
    assert_eq!(rest, b"");

    let (u, rest) = unquote_c_style_string(&b"\"\\101\\000\\377\"".to_vec()).unwrap();
    assert_eq!(u, b"A\x00\xff");
    assert_eq!(rest, b"");
}

#[test]
fn unquote_errors() {
    assert_eq!(
        unquote_c_style_string(&b"\"unterminated".to_vec()).unwrap_err(),
        ParseStringError::Unterminated,
    );
    assert_eq!(
        unquote_c_style_string(&b"\"bad\\q\"".to_vec()).unwrap_err(),
        ParseStringError::InvalidEscape,
    );
    assert_eq!(
        unquote_c_style_string(&b"\"bad\\089\"".to_vec()).unwrap_err(),
        ParseStringError::InvalidOctalDigit,
    );
    assert_eq!(
        unquote_c_style_string(&b"\"bad\\400\"".to_vec()).unwrap_err(),
        ParseStringError::OctalOverflow,
    );
}

fn dump_blob(mark: u64, data: DataBuf) -> Vec<u8> {
    let mut out = b"blob\n".to_vec();
    fast_export::command::Mark::new(mark).unwrap().dump(&mut out);
    data.dump(&mut out);
    out
}

#[test]
fn emit_then_parse_counted() {
    // Counted payloads round-trip exactly, NUL and all.
    let payload = b"some\0binary\npayload".to_vec();
    let out = dump_blob(6, DataBuf { data: payload.clone(), delim: None });
    let mut parser = Parser::new(out);
    let blob = match parser.next().unwrap() {
        Command::Blob(b) => b,
        c => panic!("{c:?}"),
    };
    assert_eq!(blob.mark.unwrap().get(), 6);
    let mut r = blob.open(&mut parser).unwrap();
    assert_eq!(r.read_to_end(&mut parser).unwrap(), payload);
    assert_eq!(
        parser.next().unwrap(),
        Command::Done(fast_export::command::Done::Eof),
    );
}

#[test]
fn emit_then_parse_delimited() {
    // A payload meeting the delimited-form preconditions round-trips through
    // delimited framing.
    let payload = b"line one\nline two\n".to_vec();
    let out = dump_blob(7, DataBuf { data: payload.clone(), delim: Some(b"EOF".to_vec()) });
    assert!(out.starts_with(b"blob\nmark :7\ndata <<EOF\n"));
    let mut parser = Parser::new(out);
    let blob = match parser.next().unwrap() {
        Command::Blob(b) => b,
        c => panic!("{c:?}"),
    };
    match blob.data_header {
        fast_export::command::DataHeader::Delimited { ref delim } => {
            assert_eq!(delim, &b"EOF".to_vec());
        }
        ref h => panic!("{h:?}"),
    }
    let mut r = blob.open(&mut parser).unwrap();
    assert_eq!(r.read_to_end(&mut parser).unwrap(), payload);
    assert_eq!(
        parser.next().unwrap(),
        Command::Done(fast_export::command::Done::Eof),
    );
}

#[test]
fn emitter_fallback_round_trips() {
    // The preconditions are violated (a payload line equals the delimiter),
    // so the emitter uses counted framing, and the bytes still round-trip.
    let payload = b"A\nEOF\nB\n".to_vec();
    let data = DataBuf { data: payload.clone(), delim: Some(b"EOF".to_vec()) };
    assert!(data.validate_delim().is_err());
    let mut out = Vec::new();
    data.dump(&mut out);
    assert_eq!(out, b"data 8\nA\nEOF\nB\n\n");
    let with_blob = dump_blob(1, data);
    let mut parser = Parser::new(with_blob);
    let blob = match parser.next().unwrap() {
        Command::Blob(b) => b,
        c => panic!("{c:?}"),
    };
    let mut r = blob.open(&mut parser).unwrap();
    assert_eq!(r.read_to_end(&mut parser).unwrap(), payload);
}

#[test]
fn validate_delim_cases() {
    let buf = |data: &[u8], delim: Option<&[u8]>| DataBuf {
        data: data.to_vec(),
        delim: delim.map(|d| d.to_vec()),
    };
    assert_eq!(buf(b"x", None).validate_delim(), Ok(()));
    assert_eq!(buf(b"x\n", Some(b"EOF")).validate_delim(), Ok(()));
    assert_eq!(
        buf(b"x\n", Some(b"")).validate_delim(),
        Err(DelimitedError::EmptyDelim),
    );
    assert_eq!(
        buf(b"x\n", Some(b"E\0F")).validate_delim(),
        Err(DelimitedError::DelimContainsNul),
    );
    assert_eq!(
        buf(b"x", Some(b"EOF")).validate_delim(),
        Err(DelimitedError::NoFinalLf),
    );
    assert_eq!(
        buf(b"x\0y\n", Some(b"EOF")).validate_delim(),
        Err(DelimitedError::DataContainsNul),
    );
    assert_eq!(
        buf(b"a\nEOF\nb\n", Some(b"EOF")).validate_delim(),
        Err(DelimitedError::DataContainsDelim),
    );
    // The delimiter as a line prefix is not a full line.
    assert_eq!(buf(b"EOFX\n", Some(b"EOF")).validate_delim(), Ok(()));
}

#[test]
fn bstring_rules() {
    assert!(BString::new(b"plain".to_vec()).is_ok());
    assert_eq!(
        BString::new(b"a\0b".to_vec()).unwrap_err(),
        BStringError::ContainsNul,
    );
    assert_eq!(
        BString::new(b"a\nb".to_vec()).unwrap_err(),
        BStringError::ContainsLf,
    );
    let s = BString::new(b"ok".to_vec()).unwrap();
    assert_eq!(s.as_bytes(), &b"ok".to_vec());
    assert_eq!(s.into_bytes(), b"ok".to_vec());
}

#[test]
fn error_messages() {
    assert_eq!(
        PE::IdentNoSpaceBeforeLt.message(),
        "person identifier does not have ' ' before '<'",
    );
    assert_eq!(PE::ZeroMark.message(), "cannot use ':0' as a mark");
    assert_eq!(
        SE::Parse(PE::UnterminatedData).message(),
        "unterminated delimited data stream",
    );
    assert_eq!(
        SE::DataReader(DataReaderError::AlreadyOpened).message(),
        "data stream already opened for reading",
    );
    assert_eq!(
        RefnameError::ComponentEndsWithDotLock.message(),
        "refname component ends with the sequence '.lock'",
    );
    assert_eq!(
        DelimitedError::DataContainsDelim.message(),
        "data contains delimiter",
    );
    assert_eq!(BStringError::ContainsLf.message(), "byte string contains LF");
    assert_eq!(
        ParseStringError::OctalOverflow.message(),
        "octal escape sequence overflows",
    );
}
