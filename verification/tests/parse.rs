//! End-to-end tests for the pull parser: blobs with both data framings,
//! partial reads and skips, the single-open and close rules, commits, tags,
//! and the remaining commands.

use fast_export::command::{Command, DataHeader, Done, Mark, OriginalOid};
use fast_export::data::DataReaderError;
use fast_export::parser::{ParseError, Parser, StreamError};

enum Mode {
    NoOpen,
    ReadOnce,
    ReadOnceSkip,
    SkipAll,
    ReadToEnd,
}

fn parse_blob(input: &'static [u8], header: DataHeader, mode: Mode, optional_lf: bool) {
    let mut input = input.to_vec();
    if optional_lf {
        input.push(b'\n');
    }
    let mut parser = Parser::new(input);

    let command = parser.next().unwrap();
    let blob = match command {
        Command::Blob(blob) => blob,
        c => panic!("not a blob: {c:?}"),
    };
    assert_eq!(blob.mark, Some(Mark::new(42).unwrap()));
    assert_eq!(
        blob.original_oid,
        Some(OriginalOid {
            oid: b"3141592653589793238462643383279502884197".to_vec(),
        }),
    );
    assert_eq!(blob.data_header, header);

    match mode {
        Mode::NoOpen => {}
        Mode::ReadOnce => {
            let mut r = blob.open(&mut parser).unwrap();
            let b = r.read_next(&mut parser, 1).unwrap();
            assert_eq!(b, b"H");
            match r.close(&mut parser) {
                Err(StreamError::DataReader(DataReaderError::Unfinished)) => {}
                res => panic!("close: {res:?}"),
            }
            match parser.next() {
                Err(StreamError::DataReader(DataReaderError::Unfinished)) => {}
                res => panic!("next: {res:?}"),
            }
            return;
        }
        Mode::ReadOnceSkip => {
            let mut r = blob.open(&mut parser).unwrap();
            let b = r.read_next(&mut parser, 1).unwrap();
            assert_eq!(b, b"H");
            assert_eq!(r.skip_rest(&mut parser).unwrap(), 13, "skip_rest");
        }
        Mode::SkipAll => {
            let mut r = blob.open(&mut parser).unwrap();
            assert_eq!(r.skip_rest(&mut parser).unwrap(), 14, "skip_rest");
        }
        Mode::ReadToEnd => {
            let mut r = blob.open(&mut parser).unwrap();
            let buf = r.read_to_end(&mut parser).unwrap();
            assert_eq!(buf, b"Hello, world!\n");
            assert_eq!(r.len_read(&parser), 14);
            assert!(r.finished(&parser));
            r.close(&mut parser).unwrap();
        }
    }

    assert_eq!(parser.next().unwrap(), Command::Done(Done::Eof));
}

const COUNTED: &[u8] =
    b"blob\nmark :42\noriginal-oid 3141592653589793238462643383279502884197\ndata 14\nHello, world!\n";
const DELIMITED: &[u8] =
    b"blob\nmark :42\noriginal-oid 3141592653589793238462643383279502884197\ndata <<EOF\nHello, world!\nEOF\n";

#[test]
fn parse_counted_blob_read_stream() {
    parse_blob(COUNTED, DataHeader::Counted { len: 14 }, Mode::ReadToEnd, true);
    parse_blob(COUNTED, DataHeader::Counted { len: 14 }, Mode::ReadToEnd, false);
}

#[test]
fn parse_counted_blob_skip_stream() {
    parse_blob(COUNTED, DataHeader::Counted { len: 14 }, Mode::SkipAll, true);
    parse_blob(COUNTED, DataHeader::Counted { len: 14 }, Mode::SkipAll, false);
}

#[test]
fn parse_delimited_blob_read_stream() {
    let header = DataHeader::Delimited { delim: b"EOF".to_vec() };
    parse_blob(DELIMITED, header.clone(), Mode::ReadToEnd, true);
    parse_blob(DELIMITED, header, Mode::ReadToEnd, false);
}

#[test]
fn parse_delimited_blob_skip_stream() {
    let header = DataHeader::Delimited { delim: b"EOF".to_vec() };
    parse_blob(DELIMITED, header.clone(), Mode::SkipAll, true);
    parse_blob(DELIMITED, header, Mode::SkipAll, false);
}

#[test]
fn parse_blob_no_open() {
    parse_blob(COUNTED, DataHeader::Counted { len: 14 }, Mode::NoOpen, true);
    parse_blob(DELIMITED, DataHeader::Delimited { delim: b"EOF".to_vec() }, Mode::NoOpen, false);
}

#[test]
fn partial_read_then_skip() {
    parse_blob(COUNTED, DataHeader::Counted { len: 14 }, Mode::ReadOnceSkip, true);
    parse_blob(
        DELIMITED,
        DataHeader::Delimited { delim: b"EOF".to_vec() },
        Mode::ReadOnceSkip,
        false,
    );
}

#[test]
fn partial_read_then_implicit_skip_fails() {
    parse_blob(COUNTED, DataHeader::Counted { len: 14 }, Mode::ReadOnce, true);
    parse_blob(DELIMITED, DataHeader::Delimited { delim: b"EOF".to_vec() }, Mode::ReadOnce, false);
}

#[test]
fn open_succeeds_exactly_once() {
    let mut parser = Parser::new(COUNTED.to_vec());
    let blob = match parser.next().unwrap() {
        Command::Blob(blob) => blob,
        c => panic!("not a blob: {c:?}"),
    };
    let mut r = blob.open(&mut parser).unwrap();
    match blob.open(&mut parser) {
        Err(StreamError::DataReader(DataReaderError::AlreadyOpened)) => {}
        res => panic!("second open: {res:?}"),
    }
    r.skip_rest(&mut parser).unwrap();
    // A fresh parse resets the guard.
    assert_eq!(parser.next().unwrap(), Command::Done(Done::Eof));
}

#[test]
fn close_ok_once_then_closed() {
    let mut parser = Parser::new(COUNTED.to_vec());
    let blob = match parser.next().unwrap() {
        Command::Blob(blob) => blob,
        c => panic!("not a blob: {c:?}"),
    };
    let mut r = blob.open(&mut parser).unwrap();
    r.read_to_end(&mut parser).unwrap();
    assert!(r.finished(&parser));
    r.close(&mut parser).unwrap();
    match r.close(&mut parser) {
        Err(StreamError::DataReader(DataReaderError::Closed)) => {}
        res => panic!("second close: {res:?}"),
    }
}

#[test]
fn data_zero_begins_finished() {
    let mut parser = Parser::new(b"blob\ndata 0\n\nprogress ok\n".to_vec());
    let blob = match parser.next().unwrap() {
        Command::Blob(blob) => blob,
        c => panic!("not a blob: {c:?}"),
    };
    assert_eq!(blob.data_header, DataHeader::Counted { len: 0 });
    let mut r = blob.open(&mut parser).unwrap();
    assert!(r.finished(&parser));
    assert_eq!(r.len_read(&parser), 0);
    r.close(&mut parser).unwrap();
    // The optional LF after the empty payload is not a blank directive.
    match parser.next().unwrap() {
        Command::Progress(p) => assert_eq!(p.message, b"ok"),
        c => panic!("{c:?}"),
    }
}

#[test]
fn optional_lf_not_blank_directive() {
    let mut parser = Parser::new(b"progress one\n\nprogress two\n\ncheckpoint\n\ndone\n".to_vec());
    match parser.next().unwrap() {
        Command::Progress(p) => assert_eq!(p.message, b"one"),
        c => panic!("{c:?}"),
    }
    match parser.next().unwrap() {
        Command::Progress(p) => assert_eq!(p.message, b"two"),
        c => panic!("{c:?}"),
    }
    assert_eq!(parser.next().unwrap(), Command::Checkpoint);
    assert_eq!(parser.next().unwrap(), Command::Done(Done::Explicit));
}

#[test]
fn comments_are_transparent() {
    let mut parser = Parser::new(
        b"# leading comment\nblob\n# between sub-directives? no: between commands\ndata 3\nhi\n\n# trailing\nprogress done\n".to_vec(),
    );
    let blob = match parser.next().unwrap() {
        Command::Blob(blob) => blob,
        c => panic!("{c:?}"),
    };
    let mut r = blob.open(&mut parser).unwrap();
    assert_eq!(r.read_to_end(&mut parser).unwrap(), b"hi\n");
    match parser.next().unwrap() {
        Command::Progress(p) => assert_eq!(p.message, b"done"),
        c => panic!("{c:?}"),
    }
    assert_eq!(parser.next().unwrap(), Command::Done(Done::Eof));
}

#[test]
fn mark_zero_rejected_max_accepted() {
    let mut parser = Parser::new(b"blob\nmark :0\ndata 0\n".to_vec());
    match parser.next() {
        Err(StreamError::Parse(ParseError::ZeroMark)) => {}
        res => panic!("{res:?}"),
    }

    let mut parser = Parser::new(b"blob\nmark :18446744073709551615\ndata 0\n".to_vec());
    match parser.next().unwrap() {
        Command::Blob(blob) => {
            assert_eq!(blob.mark.unwrap().get(), u64::MAX);
        }
        c => panic!("{c:?}"),
    }

    let mut parser = Parser::new(b"blob\nmark :18446744073709551616\ndata 0\n".to_vec());
    match parser.next() {
        Err(StreamError::Parse(ParseError::InvalidMark)) => {}
        res => panic!("{res:?}"),
    }
}

#[test]
fn delimiter_prefix_of_line_does_not_terminate() {
    let mut parser = Parser::new(b"blob\ndata <<EOF\nEOFX\nEOF\n".to_vec());
    let blob = match parser.next().unwrap() {
        Command::Blob(blob) => blob,
        c => panic!("{c:?}"),
    };
    let mut r = blob.open(&mut parser).unwrap();
    assert_eq!(r.read_to_end(&mut parser).unwrap(), b"EOFX\n");
}

#[test]
fn delimiter_with_nul_rejected() {
    let mut parser = Parser::new(b"blob\ndata <<E\0F\n".to_vec());
    match parser.next() {
        Err(StreamError::Parse(ParseError::DataDelimContainsNul)) => {}
        res => panic!("{res:?}"),
    }

    let mut parser = Parser::new(b"blob\ndata <<\n".to_vec());
    match parser.next() {
        Err(StreamError::Parse(ParseError::EmptyDelim)) => {}
        res => panic!("{res:?}"),
    }
}

#[test]
fn unterminated_delimited_data() {
    let mut parser = Parser::new(b"blob\ndata <<EOF\npayload\n".to_vec());
    let blob = match parser.next().unwrap() {
        Command::Blob(blob) => blob,
        c => panic!("{c:?}"),
    };
    let mut r = blob.open(&mut parser).unwrap();
    match r.read_to_end(&mut parser) {
        Err(StreamError::Parse(ParseError::UnterminatedData)) => {}
        res => panic!("{res:?}"),
    }
}

#[test]
fn counted_data_unexpected_eof() {
    let mut parser = Parser::new(b"blob\ndata 100\nshort\n".to_vec());
    let blob = match parser.next().unwrap() {
        Command::Blob(blob) => blob,
        c => panic!("{c:?}"),
    };
    let mut r = blob.open(&mut parser).unwrap();
    match r.read_to_end(&mut parser) {
        Err(StreamError::Parse(ParseError::DataUnexpectedEof)) => {}
        res => panic!("{res:?}"),
    }
}

#[test]
fn blank_and_unrecognized_commands() {
    let mut parser = Parser::new(b"\n".to_vec());
    match parser.next() {
        Err(StreamError::Parse(ParseError::UnexpectedBlank)) => {}
        res => panic!("{res:?}"),
    }

    let mut parser = Parser::new(b"frobnicate now\n".to_vec());
    match parser.next() {
        Err(StreamError::Parse(ParseError::UnrecognizedCommand)) => {}
        res => panic!("{res:?}"),
    }

    let mut parser = Parser::new(b"blob\nmark 42\ndata 0\n".to_vec());
    match parser.next() {
        Err(StreamError::Parse(ParseError::MarkMissingColon)) => {}
        res => panic!("{res:?}"),
    }

    let mut parser = Parser::new(b"blob\nmark :42\n".to_vec());
    match parser.next() {
        Err(StreamError::Parse(ParseError::ExpectedBlobData)) => {}
        res => panic!("{res:?}"),
    }
}
