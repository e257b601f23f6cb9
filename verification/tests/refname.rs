//! Tests for the refname validator, following git's own check-ref-format
//! test suite (t1402, without the --normalize and --branch cases) plus
//! cases it does not cover.

use fast_export::command::Branch;
use fast_export::refs::{Refname, RefnameError, RefnameFlags};

fn valid_ref(refname: &[u8], f: RefnameFlags) {
    assert_eq!(Refname::check_format(&refname.to_vec(), f), Ok(()), "{:?}", refname);
}

fn invalid_ref(refname: &[u8], f: RefnameFlags, err: RefnameError) {
    assert_eq!(Refname::check_format(&refname.to_vec(), f), Err(err), "{:?}", refname);
}

const NONE: RefnameFlags = RefnameFlags { allow_onelevel: false, refspec_pattern: false };
const ONELEVEL: RefnameFlags = RefnameFlags { allow_onelevel: true, refspec_pattern: false };
const PATTERN: RefnameFlags = RefnameFlags { allow_onelevel: false, refspec_pattern: true };
const BOTH: RefnameFlags = RefnameFlags { allow_onelevel: true, refspec_pattern: true };

#[test]
fn t1402_check_ref_format() {
    invalid_ref(b"", NONE, RefnameError::Empty);
    invalid_ref(b"/", NONE, RefnameError::StartsWithSlash);
    invalid_ref(b"/", ONELEVEL, RefnameError::StartsWithSlash);
    valid_ref(b"foo/bar/baz", NONE);
    invalid_ref(b"refs///heads/foo", NONE, RefnameError::SlashSlash);
    invalid_ref(b"heads/foo/", NONE, RefnameError::EndsWithSlash);
    invalid_ref(b"/heads/foo", NONE, RefnameError::StartsWithSlash);
    invalid_ref(b"///heads/foo", NONE, RefnameError::StartsWithSlash);
    invalid_ref(b"./foo", NONE, RefnameError::ComponentIsDot);
    invalid_ref(b"./foo/bar", NONE, RefnameError::ComponentIsDot);
    invalid_ref(b"foo/./bar", NONE, RefnameError::ComponentIsDot);
    invalid_ref(b"foo/bar/.", NONE, RefnameError::ComponentIsDot);
    invalid_ref(b".refs/foo", NONE, RefnameError::ComponentStartsWithDot);
    invalid_ref(b"refs/heads/foo.", NONE, RefnameError::EndsWithDot);
    invalid_ref(b"heads/foo..bar", NONE, RefnameError::DotDot);
    invalid_ref(b"heads/foo?bar", NONE, RefnameError::Question);
    valid_ref(b"foo./bar", NONE);
    invalid_ref(b"heads/foo.lock", NONE, RefnameError::ComponentEndsWithDotLock);
    invalid_ref(b"heads///foo.lock", NONE, RefnameError::SlashSlash);
    invalid_ref(b"foo.lock/bar", NONE, RefnameError::ComponentEndsWithDotLock);
    invalid_ref(b"foo.lock///bar", NONE, RefnameError::ComponentEndsWithDotLock);
    valid_ref(b"heads/foo@bar", NONE);
    invalid_ref(b"heads/v@{ation", NONE, RefnameError::AtBrace);
    invalid_ref(b"heads/foo\\bar", NONE, RefnameError::Backslash);
    invalid_ref(b"heads/foo\t", NONE, RefnameError::ControlChar);
    invalid_ref(b"heads/foo\x7f", NONE, RefnameError::ControlChar);
    valid_ref(b"heads/fu\xc3\x9f", NONE);
    valid_ref(b"heads/*foo/bar", PATTERN);
    valid_ref(b"heads/foo*/bar", PATTERN);
    valid_ref(b"heads/f*o/bar", PATTERN);
    invalid_ref(b"heads/f*o*/bar", PATTERN, RefnameError::MultipleAsterisks);
    invalid_ref(b"heads/foo*/bar*", PATTERN, RefnameError::MultipleAsterisks);

    invalid_ref(b"foo", NONE, RefnameError::OnlyOneLevel);
    valid_ref(b"foo", ONELEVEL);
    invalid_ref(b"foo", PATTERN, RefnameError::OnlyOneLevel);
    valid_ref(b"foo", BOTH);

    valid_ref(b"foo/bar", NONE);
    valid_ref(b"foo/bar", ONELEVEL);
    valid_ref(b"foo/bar", PATTERN);
    valid_ref(b"foo/bar", BOTH);

    invalid_ref(b"foo/*", NONE, RefnameError::Asterisk);
    invalid_ref(b"foo/*", ONELEVEL, RefnameError::Asterisk);
    valid_ref(b"foo/*", PATTERN);
    valid_ref(b"foo/*", BOTH);

    invalid_ref(b"*/foo", NONE, RefnameError::Asterisk);
    invalid_ref(b"*/foo", ONELEVEL, RefnameError::Asterisk);
    valid_ref(b"*/foo", PATTERN);
    valid_ref(b"*/foo", BOTH);

    invalid_ref(b"foo/*/bar", NONE, RefnameError::Asterisk);
    invalid_ref(b"foo/*/bar", ONELEVEL, RefnameError::Asterisk);
    valid_ref(b"foo/*/bar", PATTERN);
    valid_ref(b"foo/*/bar", BOTH);

    invalid_ref(b"*", NONE, RefnameError::Asterisk);
    invalid_ref(b"*", ONELEVEL, RefnameError::Asterisk);
    invalid_ref(b"*", PATTERN, RefnameError::OnlyOneLevel);
    valid_ref(b"*", BOTH);

    invalid_ref(b"foo/*/*", PATTERN, RefnameError::MultipleAsterisks);
    invalid_ref(b"foo/*/*", BOTH, RefnameError::MultipleAsterisks);

    invalid_ref(b"*/foo/*", PATTERN, RefnameError::MultipleAsterisks);
    invalid_ref(b"*/foo/*", BOTH, RefnameError::MultipleAsterisks);

    invalid_ref(b"*/*/foo", PATTERN, RefnameError::MultipleAsterisks);
    invalid_ref(b"*/*/foo", BOTH, RefnameError::MultipleAsterisks);

    invalid_ref(b"/foo", NONE, RefnameError::StartsWithSlash);
    invalid_ref(b"/foo", ONELEVEL, RefnameError::StartsWithSlash);
    invalid_ref(b"/foo", PATTERN, RefnameError::StartsWithSlash);
    invalid_ref(b"/foo", BOTH, RefnameError::StartsWithSlash);
}

/// Cases not covered by t1402.
#[test]
fn additional_cases() {
    invalid_ref(b"foo bar", NONE, RefnameError::Space);
    invalid_ref(b"foo:bar", NONE, RefnameError::Colon);
    invalid_ref(b"foo[bar", NONE, RefnameError::OpenBracket);
    invalid_ref(b"foo^bar", NONE, RefnameError::Caret);
    invalid_ref(b"foo~bar", NONE, RefnameError::Tilde);
    invalid_ref(b"@", NONE, RefnameError::IsAt);
}

#[test]
fn refname_owned() {
    let name = Refname::new(&b"refs/heads/foo".to_vec(), NONE).unwrap();
    assert_eq!(name.as_bytes(), &b"refs/heads/foo".to_vec());
    assert!(Refname::new(&b"foo".to_vec(), NONE).is_err());
}

#[test]
fn branch_validate_git() {
    // Branch creation allows one-level names.
    assert!(Branch { branch: b"main".to_vec() }.validate_git().is_ok());
    assert!(Branch { branch: b"refs/heads/main".to_vec() }.validate_git().is_ok());
    assert!(Branch { branch: b"bad..name".to_vec() }.validate_git().is_err());
}
