use nodo::caps::{Network, ProjectRoot};
use nodo::config::{CommandProfile, Config, ConfigError, ValidationError};
use nodo::names::{CommandName, FileName, SubcommandName};

fn sub(s: &str) -> SubcommandName {
    SubcommandName::try_from(s.to_owned()).unwrap()
}

fn file(s: &str) -> FileName {
    FileName::try_from(s.to_owned()).unwrap()
}

fn cmd(s: &str) -> CommandName {
    CommandName::try_from(s.to_owned()).unwrap()
}

fn marked_by(markers: &[&str]) -> CommandProfile {
    CommandProfile::new(
        None,
        vec![],
        vec![],
        vec![],
        markers.iter().map(|m| file(m)).collect(),
        None,
        vec![],
    )
    .unwrap()
}

#[test]
fn omitted_capabilities_are_restrictive() {
    let profile = marked_by(&["foo"]);
    assert_eq!(profile.network(), Network::ChildProcsOnly);
    assert_eq!(profile.root_policy(), ProjectRoot::Innermost);
    assert!(!profile.allows_network_for(&sub("build")));
    assert!(!profile.denies(&sub("build")));
    assert!(!profile.is_projectless(&sub("build")));
    assert_eq!(profile.root_markers(), &vec![file("foo")]);
}

#[test]
fn explicit_capabilities_follow_their_booleans() {
    let open = CommandProfile::new(Some(true), vec![], vec![], vec![], vec![file("a")], Some(true), vec![])
        .unwrap();
    assert_eq!(open.network(), Network::AllNetworks);
    assert_eq!(open.root_policy(), ProjectRoot::Outermost);
    let closed =
        CommandProfile::new(Some(false), vec![], vec![], vec![], vec![file("a")], Some(false), vec![])
            .unwrap();
    assert_eq!(closed.network(), Network::ChildProcsOnly);
    assert_eq!(closed.root_policy(), ProjectRoot::Innermost);
}

#[test]
fn profile_lists_are_consulted() {
    let profile = CommandProfile::new(
        None,
        vec![sub("fetch")],
        vec![sub("publish")],
        vec![sub("new")],
        vec![file("Cargo.toml")],
        None,
        vec![(sub("b"), sub("build"))],
    )
    .unwrap();
    assert!(profile.allows_network_for(&sub("fetch")));
    assert!(!profile.allows_network_for(&sub("publish")));
    assert!(profile.denies(&sub("publish")));
    assert!(profile.is_projectless(&sub("new")));
    assert_eq!(profile.resolve_alias(&sub("b")), sub("build"));
    assert_eq!(profile.resolve_alias(&sub("x")), sub("x"));
}

#[test]
fn repeated_alias_is_refused() {
    let r = CommandProfile::new(
        None,
        vec![],
        vec![],
        vec![],
        vec![file("a")],
        None,
        vec![(sub("b"), sub("build")), (sub("t"), sub("test")), (sub("b"), sub("bench"))],
    );
    match r {
        Err(ConfigError::DuplicateAlias { alias }) => assert_eq!(alias, sub("b")),
        other => panic!("unexpected {:?}", other),
    }
}

#[test]
fn repeated_profile_is_refused() {
    let r = Config::new(
        vec![],
        vec![],
        vec![(cmd("make"), marked_by(&["Makefile"])), (cmd("make"), marked_by(&["GNUmakefile"]))],
    );
    match r {
        Err(ConfigError::DuplicateProfile { command }) => assert_eq!(command, cmd("make")),
        other => panic!("unexpected {:?}", other),
    }
}

#[test]
fn zero_profiles_fail_validation() {
    let config = Config::new(vec![], vec![], vec![]).unwrap();
    let errors = config.validate().unwrap_err();
    assert_eq!(errors.len(), 1);
    assert!(matches!(errors[0], ValidationError::NoProfiles));
    assert_eq!(errors[0].message(), "Configuration file must contain at least one profile");
}

#[test]
fn empty_root_markers_fail_validation() {
    let other_fields_valid = CommandProfile::new(
        Some(false),
        vec![sub("deps")],
        vec![sub("publish")],
        vec![sub("new")],
        vec![],
        Some(true),
        vec![(sub("d"), sub("deps"))],
    )
    .unwrap();
    let config = Config::new(
        vec![],
        vec![file(".git")],
        vec![
            (cmd("cargo"), other_fields_valid),
            (cmd("make"), marked_by(&["Makefile"])),
            (cmd("ninja"), marked_by(&[])),
        ],
    )
    .unwrap();
    let errors = config.validate().unwrap_err();
    assert_eq!(errors.len(), 2);
    match (&errors[0], &errors[1]) {
        (
            ValidationError::EmptyRootMarkers { command: a },
            ValidationError::EmptyRootMarkers { command: b },
        ) => {
            assert_eq!(a, &cmd("cargo"));
            assert_eq!(b, &cmd("ninja"));
        },
        other => panic!("unexpected {:?}", other),
    }
    assert_eq!(
        errors[1].message(),
        "Profile 'ninja': 'root_marked_by' must contain at least one file/folder name"
    );
}

#[test]
fn valid_configuration_passes() {
    let config = Config::new(
        vec!["--quiet".to_owned()],
        vec![],
        vec![(cmd("make"), marked_by(&["Makefile"]))],
    )
    .unwrap();
    assert!(config.validate().is_ok());
    assert_eq!(config.firejail_base_flags(), &vec!["--quiet".to_owned()]);
    assert!(config.root_blacklist().is_empty());
    assert!(config.profile(&cmd("make")).is_some());
    assert!(config.profile(&cmd("cargo")).is_none());
}

#[test]
fn empty_marker_name_is_refused() {
    assert_eq!(FileName::try_from(String::new()).unwrap_err(), "empty string");
}
