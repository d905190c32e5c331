//! The handful of flags that the wrapper reads before the command it sandboxes.
//!
//! Only the first argument after the wrapper's own name is inspected; everything else is
//! handed to the sandboxed program unchanged.
use vstd::prelude::*;

use crate::policy::argv_views;

verus! {

/// Parsed information that is relevant to launching a sandboxed subprocess.
#[derive(Debug)]
pub struct ChildArgs {
    /// Print diagnostic output for troubleshooting or refining sandbox profiles.
    pub debug: bool,
    /// The command line of the program to run inside the sandbox.
    pub child_argv: Vec<String>,
}

/// The action requested on the command line.
#[derive(Debug)]
pub enum Action {
    /// Print the usage text and quit.
    Help,
    /// Print the version number and quit.
    Version,
    /// Write the active configuration to disk and report the path written to.
    WriteConf,
    /// Run the given command line in a sandbox.
    Sandbox(ChildArgs),
}

/// The requested action, as a mathematical value.
pub enum ActionView {
    Help,
    Version,
    WriteConf,
    Sandbox(bool, Seq<Seq<char>>),
}

impl View for Action {
    type V = ActionView;

    open spec fn view(&self) -> ActionView {
        match self {
            Action::Help => ActionView::Help,
            Action::Version => ActionView::Version,
            Action::WriteConf => ActionView::WriteConf,
            Action::Sandbox(c) => ActionView::Sandbox(c.debug, argv_views(c.child_argv@)),
        }
    }
}

/// The action for the wrapper's arguments `args`, whose first element is the wrapper's
/// own name. `--` or `--debug` in first place is taken off the child's command line; the
/// other flags count only in first place; with no command left, the usage text is shown.
pub open spec fn action_of(args: Seq<Seq<char>>) -> ActionView {
    let rest = if args.len() > 0 {
        args.drop_first()
    } else {
        args
    };
    if rest.len() == 0 {
        ActionView::Help
    } else {
        let first = rest[0];
        if first == "--"@ || first == "--debug"@ {
            if rest.len() == 1 {
                ActionView::Help
            } else {
                ActionView::Sandbox(first == "--debug"@, rest.drop_first())
            }
        } else if first == "--help"@ || first == "-h"@ {
            ActionView::Help
        } else if first == "--version"@ {
            ActionView::Version
        } else if first == "--write-conf"@ {
            ActionView::WriteConf
        } else {
            ActionView::Sandbox(false, rest)
        }
    }
}

fn same_text(a: &str, b: &str) -> (r: bool)
    ensures
        r == (a@ == b@),
{
    let n = a.unicode_len();
    if n != b.unicode_len() {
        return false;
    }
    let mut i: usize = 0;
    while i < n
        invariant
            n == a@.len(),
            n == b@.len(),
            i <= n,
            forall|k: int| 0 <= k < i ==> a@[k] == b@[k],
        decreases n - i,
    {
        if a.get_char(i) != b.get_char(i) {
            return false;
        }
        i = i + 1;
    }
    assert(a@ =~= b@);
    true
}

/// Reads the wrapper's own arguments, `args[0]` being the wrapper's name.
pub fn parse_args(args: Vec<String>) -> (r: Action)
    ensures
        r@ == action_of(argv_views(args@)),
{
    let ghost all = argv_views(args@);
    let mut rest = args;
    if rest.len() > 0 {
        rest.remove(0);
    }
    assert(argv_views(rest@) =~= if all.len() > 0 {
        all.drop_first()
    } else {
        all
    });
    if rest.len() == 0 {
        return Action::Help;
    }
    let ghost tail = argv_views(rest@);
    let first = rest[0].as_str();
    let escape = same_text(first, "--");
    let debug = same_text(first, "--debug");
    if escape || debug {
        rest.remove(0);
        assert(argv_views(rest@) =~= tail.drop_first());
        if rest.len() == 0 {
            return Action::Help;
        }
        return Action::Sandbox(ChildArgs { debug, child_argv: rest });
    }
    if same_text(first, "--help") || same_text(first, "-h") {
        Action::Help
    } else if same_text(first, "--version") {
        Action::Version
    } else if same_text(first, "--write-conf") {
        Action::WriteConf
    } else {
        Action::Sandbox(ChildArgs { debug: false, child_argv: rest })
    }
}

fn same_args(a: &Vec<String>, b: &Vec<String>) -> (r: bool)
    ensures
        r == (argv_views(a@) == argv_views(b@)),
{
    if a.len() != b.len() {
        return false;
    }
    let mut i: usize = 0;
    while i < a.len()
        invariant
            a@.len() == b@.len(),
            i <= a@.len(),
            forall|k: int| 0 <= k < i ==> a@[k]@ == b@[k]@,
        decreases a@.len() - i,
    {
        if !same_text(a[i].as_str(), b[i].as_str()) {
            assert(argv_views(a@)[i as int] != argv_views(b@)[i as int]);
            return false;
        }
        i = i + 1;
    }
    assert(argv_views(a@) =~= argv_views(b@));
    true
}

impl PartialEq for ChildArgs {
    fn eq(&self, other: &Self) -> (r: bool) {
        self.debug == other.debug && same_args(&self.child_argv, &other.child_argv)
    }
}

impl vstd::std_specs::cmp::PartialEqSpecImpl for ChildArgs {
    open spec fn obeys_eq_spec() -> bool {
        true
    }

    open spec fn eq_spec(&self, other: &Self) -> bool {
        self.debug == other.debug && argv_views(self.child_argv@) == argv_views(other.child_argv@)
    }
}

impl Eq for ChildArgs {
}

impl PartialEq for Action {
    fn eq(&self, other: &Self) -> (r: bool) {
        match (self, other) {
            (Action::Help, Action::Help) => true,
            (Action::Version, Action::Version) => true,
            (Action::WriteConf, Action::WriteConf) => true,
            (Action::Sandbox(a), Action::Sandbox(b)) => a == b,
            _ => false,
        }
    }
}

impl vstd::std_specs::cmp::PartialEqSpecImpl for Action {
    open spec fn obeys_eq_spec() -> bool {
        true
    }

    open spec fn eq_spec(&self, other: &Self) -> bool {
        self@ == other@
    }
}

impl Eq for Action {
}

} // verus!
