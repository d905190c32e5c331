use nodo::caps::{Network, ProjectRoot};

/// The capabilities err on the side of security when left to their defaults.
#[test]
fn caps_have_safe_defaults() {
    assert_eq!(Network::default(), Network::ChildProcsOnly);
    assert_eq!(ProjectRoot::default(), ProjectRoot::Innermost);
}

/// The meanings of the capabilities are not reversed.
#[test]
fn caps_are_properly_mapped_to_bools() {
    assert_eq!(Network::from(false), Network::ChildProcsOnly);
    assert_eq!(Network::from(true), Network::AllNetworks);
    assert_eq!(ProjectRoot::from(false), ProjectRoot::Innermost);
    assert_eq!(ProjectRoot::from(true), ProjectRoot::Outermost);
}
