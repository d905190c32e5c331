use nodo::cli::{parse_args, Action, ChildArgs};

fn args(list: &[&str]) -> Action {
    let mut v = vec!["nodo".to_owned()];
    v.extend(list.iter().map(|s| s.to_string()));
    parse_args(v)
}

fn expected(debug: bool, list: &[&str]) -> Action {
    Action::Sandbox(ChildArgs { debug, child_argv: list.iter().map(|s| s.to_string()).collect() })
}

/// The wrapper's own `argv[0]` is stripped.
#[test]
fn parse_args_omits_argv0() {
    assert_eq!(
        args(&["cargo", "run", "--", "--help"]),
        expected(false, &["cargo", "run", "--", "--help"])
    );
}

/// `--debug` counts in first place only.
#[test]
fn parse_args_debug_field() {
    assert_eq!(
        args(&["--debug", "cargo", "run", "--", "--help"]),
        expected(true, &["cargo", "run", "--", "--help"])
    );
    assert_eq!(
        args(&["cargo", "--debug", "run", "--", "--help"]),
        expected(false, &["cargo", "--debug", "run", "--", "--help"])
    );
    assert_eq!(
        args(&["cargo", "run", "--", "--debug"]),
        expected(false, &["cargo", "run", "--", "--debug"])
    );
}

/// The print-and-exit flags and `--write-conf` are recognized.
#[test]
fn parse_args_recognizes_special_flags() {
    assert_eq!(args(&[]), Action::Help);
    assert_eq!(args(&["-h"]), Action::Help);
    assert_eq!(args(&["--help"]), Action::Help);
    assert_eq!(args(&["--version"]), Action::Version);
    assert_eq!(args(&["--write-conf"]), Action::WriteConf);
}

/// Flags count if and only if they are the first argument.
#[test]
fn special_flags_are_positional() {
    assert_eq!(args(&["foo", "-h"]), expected(false, &["foo", "-h"]));
    assert_eq!(args(&["foo", "--help"]), expected(false, &["foo", "--help"]));
    assert_eq!(args(&["foo", "--help"]), expected(false, &["foo", "--help"]));
    assert_eq!(args(&["foo", "--version"]), expected(false, &["foo", "--version"]));
    assert_eq!(args(&["foo", "--write-conf"]), expected(false, &["foo", "--write-conf"]));

    assert_eq!(args(&["-h", "foo"]), Action::Help);
    assert_eq!(args(&["-h", "--bar"]), Action::Help);
    assert_eq!(args(&["-h", "--write-conf"]), Action::Help);
    assert_eq!(args(&["--help", "foo"]), Action::Help);
    assert_eq!(args(&["--help", "--bar"]), Action::Help);
    assert_eq!(args(&["--help", "--write-conf"]), Action::Help);
    assert_eq!(args(&["--version", "foo"]), Action::Version);
    assert_eq!(args(&["--version", "--bar"]), Action::Version);
    assert_eq!(args(&["--version", "--write-conf"]), Action::Version);
    assert_eq!(args(&["--write-conf", "foo"]), Action::WriteConf);
    assert_eq!(args(&["--write-conf", "--bar"]), Action::WriteConf);
    assert_eq!(args(&["--write-conf", "--help"]), Action::WriteConf);
}

/// `--` in first place allows commands named after flags.
#[test]
fn doubledash_escapes_flags() {
    assert_eq!(args(&["--", "-h"]), expected(false, &["-h"]));
    assert_eq!(args(&["--", "--help"]), expected(false, &["--help"]));
    assert_eq!(args(&["--", "--version"]), expected(false, &["--version"]));
    assert_eq!(args(&["--", "--write-conf"]), expected(false, &["--write-conf"]));
}

/// `--` in first place leaves no trace in the parsed output.
#[test]
fn doubledash_is_invisible_in_parsed_output() {
    assert_eq!(args(&["--"]), Action::Help);
    assert_eq!(args(&["--", "foo"]), args(&["foo"]));

    assert_eq!(args(&["foo", "--"]), args(&["foo", "--"]));
    assert_eq!(args(&["--", "foo", "--"]), args(&["foo", "--"]));
    assert_eq!(args(&["--", "--"]), expected(false, &["--"]));
}

#[test]
fn bare_debug_and_no_arguments_show_help() {
    assert_eq!(args(&["--debug"]), Action::Help);
    assert_eq!(parse_args(vec![]), Action::Help);
    assert_ne!(args(&["foo"]), expected(true, &["foo"]));
}

#[test]
fn unknown_flag_in_first_place_is_the_command() {
    assert_eq!(args(&["--conf-path"]), expected(false, &["--conf-path"]));
    assert_eq!(args(&["--bar", "x"]), expected(false, &["--bar", "x"]));
}
