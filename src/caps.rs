//! Capabilities, in the POSIX sense, that a configuration may grant to a sandboxed program.
//!
//! Each one is a two-state toggle built from a boolean, where `false` and the default
//! always select the variant that grants less.
use vstd::prelude::*;

verus! {

/// Scope of network access.
#[derive(Clone, Copy, Debug, PartialEq, Eq, Structural, Hash)]
pub enum Network {
    /// Launch the program in its own network namespace so it can only communicate with
    /// subprocesses it launches.
    ChildProcsOnly,
    /// Allow unrestricted network communication.
    AllNetworks,
}

/// Policy for identifying the project root directory.
#[derive(Clone, Copy, Debug, PartialEq, Eq, Structural, Hash)]
pub enum ProjectRoot {
    /// Stop looking for the project root at the first match.
    Innermost,
    /// Ascend to the filesystem root and then use the most permissive match found.
    Outermost,
}

impl Default for Network {
    fn default() -> (r: Self)
        ensures
            r == Network::ChildProcsOnly,
    {
        Network::ChildProcsOnly
    }
}

impl Default for ProjectRoot {
    fn default() -> (r: Self)
        ensures
            r == ProjectRoot::Innermost,
    {
        ProjectRoot::Innermost
    }
}

impl Network {
    pub open spec fn of_bool(value: bool) -> Network {
        if value {
            Network::AllNetworks
        } else {
            Network::ChildProcsOnly
        }
    }
}

impl ProjectRoot {
    pub open spec fn of_bool(value: bool) -> ProjectRoot {
        if value {
            ProjectRoot::Outermost
        } else {
            ProjectRoot::Innermost
        }
    }
}

impl From<bool> for Network {
    fn from(value: bool) -> (r: Self) {
        if value {
            Network::AllNetworks
        } else {
            Network::ChildProcsOnly
        }
    }
}

impl vstd::std_specs::convert::FromSpecImpl<bool> for Network {
    open spec fn obeys_from_spec() -> bool {
        true
    }

    open spec fn from_spec(v: bool) -> Network {
        Network::of_bool(v)
    }
}

impl From<bool> for ProjectRoot {
    fn from(value: bool) -> (r: Self) {
        if value {
            ProjectRoot::Outermost
        } else {
            ProjectRoot::Innermost
        }
    }
}

impl vstd::std_specs::convert::FromSpecImpl<bool> for ProjectRoot {
    open spec fn obeys_from_spec() -> bool {
        true
    }

    open spec fn from_spec(v: bool) -> ProjectRoot {
        ProjectRoot::of_bool(v)
    }
}

} // verus!
