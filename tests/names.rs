use std::path;

use nodo::names::{find_name_fault, is_bad_name, CommandName, FileName, NameFault, SubcommandName};

/// Creation of the name types goes through the name checks.
#[test]
fn newtypes_perform_validation() {
    assert!(FileName::try_from("foo-bar".to_owned()).is_ok());
    assert!(FileName::try_from("foo bar".to_owned()).is_err());
    assert!(CommandName::try_from("foo-bar".to_owned()).is_ok());
    assert!(CommandName::try_from("foo bar".to_owned()).is_err());
    assert!(SubcommandName::try_from("foo-bar".to_owned()).is_ok());
    assert!(SubcommandName::try_from("foo bar".to_owned()).is_err());
}

/// Empty strings, null bytes and path separators are refused.
#[test]
fn is_bad_name_rejects_impossible_values() {
    assert_eq!(is_bad_name("control"), Ok(()));
    assert_eq!(is_bad_name("control-2"), Ok(()));

    assert_eq!(is_bad_name(""), Err("empty string"));
    assert_eq!(is_bad_name("contains\0null"), Err("null byte"));

    assert_eq!(is_bad_name("contrib/do_it"), Err("path separator"));
    assert_eq!(
        is_bad_name(&format!("contrib{}do_it", path::MAIN_SEPARATOR)),
        Err("path separator")
    );
}

/// Every kind of Unicode whitespace is refused, not only ASCII.
#[test]
fn is_bad_name_whitespace_check_is_thorough() {
    assert_eq!(is_bad_name("control"), Ok(()));
    assert_eq!(is_bad_name("contains space"), Err("shell argument list"));
    assert_eq!(is_bad_name("contains\ttab"), Err("shell argument list"));
    assert_eq!(is_bad_name("contains\nnewline"), Err("shell argument list"));

    assert_eq!(is_bad_name("control-with-dash"), Ok(()));
    assert_eq!(is_bad_name("contains\u{1680}ogham\u{1680}space"), Err("shell argument list"));
}

#[test]
fn first_faulty_codepoint_decides_the_reason() {
    assert_eq!(find_name_fault("a b/c"), Some(NameFault::Whitespace));
    assert_eq!(find_name_fault("a/b c"), Some(NameFault::PathSeparator));
    assert_eq!(find_name_fault("a\0b c"), Some(NameFault::NullByte));
    assert_eq!(find_name_fault(""), Some(NameFault::Empty));
    assert_eq!(find_name_fault("x"), None);
}

#[test]
fn every_whitespace_codepoint_is_refused() {
    let spaces = [
        '\u{9}', '\u{a}', '\u{b}', '\u{c}', '\u{d}', ' ', '\u{85}', '\u{a0}', '\u{1680}',
        '\u{2000}', '\u{2005}', '\u{200a}', '\u{2028}', '\u{2029}', '\u{202f}', '\u{205f}',
        '\u{3000}',
    ];
    for c in spaces {
        assert_eq!(is_bad_name(&format!("a{}b", c)), Err("shell argument list"), "{:?}", c);
    }
    // Look-alikes that are not whitespace are accepted.
    assert_eq!(is_bad_name("a\u{2800}b"), Ok(()));
    assert_eq!(is_bad_name("a\u{200b}b"), Ok(()));
    assert_eq!(is_bad_name("a\u{180e}b"), Ok(()));
}

#[test]
fn fault_messages() {
    assert_eq!(NameFault::Empty.message(), "empty string");
    assert_eq!(NameFault::PathSeparator.message(), "path separator");
    assert_eq!(NameFault::Whitespace.message(), "shell argument list");
    assert_eq!(NameFault::NullByte.message(), "null byte");
}

#[test]
fn constructors_report_the_fault() {
    assert_eq!(FileName::new("".to_owned()).unwrap_err(), NameFault::Empty);
    assert_eq!(CommandName::new("bin/cargo".to_owned()).unwrap_err(), NameFault::PathSeparator);
    assert_eq!(SubcommandName::new("a\0".to_owned()).unwrap_err(), NameFault::NullByte);
    let name = FileName::new("Cargo.toml".to_owned()).unwrap();
    assert_eq!(name.as_str(), "Cargo.toml");
    assert_eq!(name.clone(), name);
    assert_ne!(name, FileName::new("Makefile".to_owned()).unwrap());
}
