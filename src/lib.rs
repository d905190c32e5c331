//! Security policy resolution for launching build tools inside a sandbox.
//!
//! Given the command line of a program to sandbox, the library decides which profile of
//! the configuration applies, whether the invocation is allowed at all, where the project
//! root that bounds the sandbox lies, whether the network is reachable, and which paths
//! are denied. Carrying out that decision is left to the caller.

pub mod caps;
pub mod cli;
pub mod config;
pub mod names;
pub mod policy;
pub mod project_root;
