//! Policy resolution: from the argument vector of the program to sandbox, the profile that
//! applies and the directive that the sandbox launcher carries out.
use vstd::prelude::*;

use crate::caps::Network;
use crate::config::{lookup, Config, ConfigView, CommandProfile, ProfileView};
use crate::names::{valid_name, CommandName, SubcommandName};
use crate::project_root::{chosen_root, locate_root, DirPath};

verus! {

pub open spec fn argv_views(argv: Seq<String>) -> Seq<Seq<char>> {
    argv.map_values(|s: String| s@)
}

/// The position of the last separator of `s`, or `-1` when it has none.
pub open spec fn last_separator(s: Seq<char>) -> int
    decreases s.len(),
{
    if s.len() == 0 {
        -1
    } else if s.last() == '/' {
        s.len() - 1
    } else {
        last_separator(s.drop_last())
    }
}

/// The last component of a command path: what follows its last separator.
pub open spec fn basename(s: Seq<char>) -> Seq<char> {
    s.subrange(last_separator(s) + 1, s.len() as int)
}

/// `argv[1]` when it is present and an acceptable subcommand name.
pub open spec fn given_subcommand(argv: Seq<Seq<char>>) -> Option<Seq<char>> {
    if argv.len() >= 2 && valid_name(argv[1]) {
        Some(argv[1])
    } else {
        None
    }
}

/// The subcommand after one step through the profile's alias table.
pub open spec fn resolved_subcommand(p: ProfileView, argv: Seq<Seq<char>>) -> Option<Seq<char>> {
    match given_subcommand(argv) {
        Some(s) => match lookup(p.subcommand_aliases, s) {
            Some(target) => Some(target),
            None => Some(s),
        },
        None => None,
    }
}

/// Unrestricted network access goes to every subcommand of a profile that grants it, and
/// to the subcommands that the profile names for it.
pub open spec fn effective_network(p: ProfileView, sub: Option<Seq<char>>) -> Network {
    if p.network == Network::AllNetworks || (sub is Some && p.allow_network_subcommands.contains(
        sub->0,
    )) {
        Network::AllNetworks
    } else {
        Network::ChildProcsOnly
    }
}

/// Why no sandbox can be launched, as a mathematical value.
pub enum PolicyFault {
    UnknownCommand(Seq<char>),
    DeniedSubcommand(Seq<char>, Seq<char>),
    NoProjectRoot(Seq<char>),
}

/// Why no sandbox can be launched. Each of these ends the invocation.
#[derive(Debug)]
pub enum PolicyError {
    /// `argv[0]` names no command that has a profile.
    UnknownCommand { command: String },
    /// The profile of `command` refuses to run `subcommand`.
    DeniedSubcommand { command: String, subcommand: String },
    /// No ancestor of the working directory holds a marker of the profile of `command`.
    NoProjectRoot { command: String },
}

impl View for PolicyError {
    type V = PolicyFault;

    open spec fn view(&self) -> PolicyFault {
        match self {
            PolicyError::UnknownCommand { command } => PolicyFault::UnknownCommand(command@),
            PolicyError::DeniedSubcommand { command, subcommand } => PolicyFault::DeniedSubcommand(
                command@,
                subcommand@,
            ),
            PolicyError::NoProjectRoot { command } => PolicyFault::NoProjectRoot(command@),
        }
    }
}

/// What the policy decides before the project root is known, as mathematical values.
pub struct PlanView {
    pub command: Seq<char>,
    pub profile: ProfileView,
    pub subcommand: Option<Seq<char>>,
    pub network: Network,
    pub projectless: bool,
}

/// What the policy decides before the project root is known.
#[derive(Debug)]
pub struct Plan<'a> {
    /// The command, `argv[0]` reduced to its last component.
    pub command: CommandName,
    /// The profile of the command.
    pub profile: &'a CommandProfile,
    /// The subcommand after alias resolution, if `argv[1]` is an acceptable name.
    pub subcommand: Option<SubcommandName>,
    /// The network capability granted to this invocation.
    pub network: Network,
    /// Whether the working directory is the sandbox root, with no search for a project root.
    pub projectless: bool,
}

impl<'a> View for Plan<'a> {
    type V = PlanView;

    open spec fn view(&self) -> PlanView {
        PlanView {
            command: self.command@,
            profile: self.profile@,
            subcommand: match self.subcommand {
                Some(s) => Some(s@),
                None => None,
            },
            network: self.network,
            projectless: self.projectless,
        }
    }
}

/// The decisions that `argv` brings about under configuration `c`, up to the project root.
pub open spec fn plan_outcome(c: ConfigView, argv: Seq<Seq<char>>) -> Result<PlanView, PolicyFault> {
    let raw = if argv.len() > 0 {
        argv[0]
    } else {
        Seq::empty()
    };
    let command = basename(raw);
    if !valid_name(command) {
        Err(PolicyFault::UnknownCommand(raw))
    } else {
        match lookup(c.profiles, command) {
            None => Err(PolicyFault::UnknownCommand(raw)),
            Some(p) => {
                let sub = resolved_subcommand(p, argv);
                if sub is Some && p.deny_subcommands.contains(sub->0) {
                    Err(PolicyFault::DeniedSubcommand(command, argv[1]))
                } else {
                    Ok(
                        PlanView {
                            command,
                            profile: p,
                            subcommand: sub,
                            network: effective_network(p, sub),
                            projectless: sub is Some && p.projectless_subcommands.contains(sub->0),
                        },
                    )
                }
            },
        }
    }
}

/// What a directive holds, as mathematical values.
pub struct DirectiveView {
    pub root: Seq<Seq<char>>,
    pub network: Network,
    pub deny: Seq<Seq<Seq<char>>>,
    pub cwd_as_root: bool,
}

/// The resolved sandbox parameters of one invocation.
#[derive(Debug)]
pub struct Directive {
    /// The directory that bounds the sandbox.
    pub root: DirPath,
    /// The network capability of the sandboxed program.
    pub network: Network,
    /// The paths denied inside the sandbox.
    pub deny: Vec<DirPath>,
    /// Whether the working directory was taken as root, with no search.
    pub cwd_as_root: bool,
}

pub open spec fn found_view(found: Option<DirPath>) -> Option<Seq<Seq<char>>> {
    match found {
        Some(p) => Some(p@),
        None => None,
    }
}

pub open spec fn dir_views(v: Seq<DirPath>) -> Seq<Seq<Seq<char>>> {
    v.map_values(|d: DirPath| d@)
}

impl View for Directive {
    type V = DirectiveView;

    open spec fn view(&self) -> DirectiveView {
        DirectiveView {
            root: self.root@,
            network: self.network,
            deny: dir_views(self.deny@),
            cwd_as_root: self.cwd_as_root,
        }
    }
}

/// Each entry of the blacklist, inside the sandbox root.
pub open spec fn deny_paths(root: Seq<Seq<char>>, blacklist: Seq<Seq<char>>) -> Seq<Seq<Seq<char>>> {
    blacklist.map_values(|e: Seq<char>| root.push(e))
}

/// The directive for `plan`, given the working directory and the project root found, if
/// any; a projectless plan takes the working directory whatever was found.
pub open spec fn directive_outcome(
    c: ConfigView,
    plan: PlanView,
    cwd: Seq<Seq<char>>,
    found: Option<Seq<Seq<char>>>,
) -> Result<DirectiveView, PolicyFault> {
    let root = if plan.projectless {
        Some(cwd)
    } else {
        found
    };
    match root {
        None => Err(PolicyFault::NoProjectRoot(plan.command)),
        Some(r) => Ok(
            DirectiveView {
                root: r,
                network: plan.network,
                deny: deny_paths(r, c.root_blacklist),
                cwd_as_root: plan.projectless,
            },
        ),
    }
}

/// The whole resolution, where `hits[i]` tells whether the ancestor `i` levels above `cwd`
/// holds a marker of the profile that `argv` selects.
pub open spec fn policy_outcome(
    c: ConfigView,
    argv: Seq<Seq<char>>,
    cwd: Seq<Seq<char>>,
    hits: Seq<bool>,
) -> Result<DirectiveView, PolicyFault> {
    match plan_outcome(c, argv) {
        Err(e) => Err(e),
        Ok(plan) => directive_outcome(
            c,
            plan,
            cwd,
            match chosen_root(hits, plan.profile.root_find_outermost) {
                Some(k) => Some(cwd.subrange(0, cwd.len() - k)),
                None => None,
            },
        ),
    }
}

/// The last component of a command path: what follows its last separator.
pub fn command_basename(s: &str) -> (r: String)
    ensures
        r@ == basename(s@),
{
    let n = s.unicode_len();
    let mut i: usize = n;
    assert(s@.subrange(0, n as int) =~= s@);
    while i > 0
        invariant
            n == s@.len(),
            i <= n,
            last_separator(s@) == last_separator(s@.subrange(0, i as int)),
        decreases i,
    {
        assert(s@.subrange(0, i as int).drop_last() =~= s@.subrange(0, i - 1));
        if s.get_char(i - 1) == '/' {
            return String::from_str(s.substring_char(i, n));
        }
        i = i - 1;
    }
    String::from_str(s)
}

impl Config {
    /// Resolves everything that `child_argv` decides before the project root is known:
    /// the command (`argv[0]` reduced to its last component) and its profile, the
    /// subcommand (`argv[1]`) after one step through the aliases, whether the profile
    /// denies it, whether it runs projectless, and its network capability.
    ///
    /// There is no fallback: a command without a profile is an error.
    pub fn plan<'a>(&'a self, child_argv: &Vec<String>) -> (r: Result<Plan<'a>, PolicyError>)
        ensures
            match r {
                Ok(p) => plan_outcome(self@, argv_views(child_argv@)) == Ok::<PlanView, PolicyFault>(p@),
                Err(e) => plan_outcome(self@, argv_views(child_argv@)) == Err::<PlanView, PolicyFault>(e@),
            },
    {
        let raw = if child_argv.len() > 0 {
            child_argv[0].clone()
        } else {
            String::new()
        };
        let command = match CommandName::new(command_basename(raw.as_str())) {
            Ok(c) => c,
            Err(_) => {
                return Err(PolicyError::UnknownCommand { command: raw });
            },
        };
        let profile = match self.profile(&command) {
            Some(p) => p,
            None => {
                return Err(PolicyError::UnknownCommand { command: raw });
            },
        };
        let given = if child_argv.len() >= 2 {
            match SubcommandName::new(child_argv[1].clone()) {
                Ok(s) => Some(s),
                Err(_) => None,
            }
        } else {
            None
        };
        let subcommand = match given {
            Some(s) => Some(profile.resolve_alias(&s)),
            None => None,
        };
        let mut network = profile.network();
        let mut projectless = false;
        match &subcommand {
            Some(s) => {
                if profile.denies(s) {
                    let name = String::from_str(command.as_str());
                    return Err(
                        PolicyError::DeniedSubcommand {
                            command: name,
                            subcommand: child_argv[1].clone(),
                        },
                    );
                }
                if profile.allows_network_for(s) {
                    network = Network::AllNetworks;
                }
                projectless = profile.is_projectless(s);
            },
            None => {},
        }
        Ok(Plan { command, profile, subcommand, network, projectless })
    }

    /// Completes `plan` into a directive, given the working directory and the project root
    /// found above it, if any. A projectless plan takes the working directory as root;
    /// any other fails when no project root was found. Every entry of the configuration's
    /// blacklist is denied inside the root.
    pub fn directive(&self, plan: &Plan, cwd: &DirPath, found_root: Option<DirPath>) -> (r: Result<
        Directive,
        PolicyError,
    >)
        ensures
            match r {
                Ok(d) => directive_outcome(self@, plan@, cwd@, found_view(found_root))
                    == Ok::<DirectiveView, PolicyFault>(d@),
                Err(e) => directive_outcome(self@, plan@, cwd@, found_view(found_root))
                    == Err::<DirectiveView, PolicyFault>(e@),
            },
    {
        let root = if plan.projectless {
            cwd.ancestor(0)
        } else {
            match found_root {
                Some(p) => p,
                None => {
                    return Err(
                        PolicyError::NoProjectRoot { command: String::from_str(plan.command.as_str()) },
                    );
                },
            }
        };
        assert(cwd@.subrange(0, cwd@.len() as int) =~= cwd@);
        let blacklist = self.root_blacklist();
        let ghost entries = self@.root_blacklist;
        let mut deny: Vec<DirPath> = Vec::new();
        let mut i: usize = 0;
        while i < blacklist.len()
            invariant
                i <= blacklist@.len(),
                entries == crate::config::file_name_views(blacklist@),
                dir_views(deny@) == deny_paths(root@, entries.subrange(0, i as int)),
            decreases blacklist@.len() - i,
        {
            let ghost prev = deny@;
            let path = root.join(&blacklist[i]);
            deny.push(path);
            assert(dir_views(deny@) =~= dir_views(prev).push(path@));
            assert(deny_paths(root@, entries.subrange(0, i + 1)) =~= deny_paths(
                root@,
                entries.subrange(0, i as int),
            ).push(root@.push(entries[i as int])));
            i = i + 1;
        }
        assert(entries.subrange(0, i as int) =~= entries);
        Ok(Directive { root, network: plan.network, deny, cwd_as_root: plan.projectless })
    }

    /// Resolves the sandbox directive for `child_argv` started in `cwd`, where
    /// `marker_hits[i]` tells whether the ancestor `i` levels above `cwd` directly holds
    /// one of the markers of the profile that `child_argv` selects.
    pub fn resolve(&self, child_argv: &Vec<String>, cwd: &DirPath, marker_hits: &Vec<bool>) -> (r:
        Result<Directive, PolicyError>)
        requires
            marker_hits@.len() <= cwd@.len() + 1,
        ensures
            match r {
                Ok(d) => policy_outcome(self@, argv_views(child_argv@), cwd@, marker_hits@)
                    == Ok::<DirectiveView, PolicyFault>(d@),
                Err(e) => policy_outcome(self@, argv_views(child_argv@), cwd@, marker_hits@)
                    == Err::<DirectiveView, PolicyFault>(e@),
            },
    {
        let plan = match self.plan(child_argv) {
            Ok(plan) => plan,
            Err(e) => {
                return Err(e);
            },
        };
        let found = if plan.projectless {
            None
        } else {
            let policy = plan.profile.root_policy();
            match locate_root(marker_hits, policy) {
                Some(k) => Some(cwd.ancestor(k)),
                None => None,
            }
        };
        self.directive(&plan, cwd, found)
    }
}

/// A denied subcommand fails resolution whatever the profile grants it otherwise:
/// denial takes precedence over network access and over running projectless.
pub proof fn lemma_deny_precedes_allow(c: ConfigView, argv: Seq<Seq<char>>, p: ProfileView)
    requires
        argv.len() >= 2,
        valid_name(basename(argv[0])),
        lookup(c.profiles, basename(argv[0])) == Some(p),
        resolved_subcommand(p, argv) matches Some(s) && p.deny_subcommands.contains(s),
    ensures
        plan_outcome(c, argv) == Err::<PlanView, PolicyFault>(
            PolicyFault::DeniedSubcommand(basename(argv[0]), argv[1]),
        ),
{
}

/// A subcommand given on the command line that is no alias and that the profile denies
/// fails resolution, even when the profile also names it for network access and whatever
/// network capability the profile has.
pub proof fn lemma_denied_subcommand_fails(c: ConfigView, argv: Seq<Seq<char>>, p: ProfileView)
    requires
        argv.len() >= 2,
        valid_name(basename(argv[0])),
        lookup(c.profiles, basename(argv[0])) == Some(p),
        valid_name(argv[1]),
        lookup(p.subcommand_aliases, argv[1]) is None,
        p.deny_subcommands.contains(argv[1]),
    ensures
        plan_outcome(c, argv) == Err::<PlanView, PolicyFault>(
            PolicyFault::DeniedSubcommand(basename(argv[0]), argv[1]),
        ),
{
}

/// A subcommand that the profile names for network access gets unrestricted network
/// access, even where the profile's own capability is the restrictive one, unless it
/// is denied.
pub proof fn lemma_subcommand_network_grant(c: ConfigView, argv: Seq<Seq<char>>, p: ProfileView)
    requires
        valid_name(basename(argv[0])),
        argv.len() >= 1,
        lookup(c.profiles, basename(argv[0])) == Some(p),
        resolved_subcommand(p, argv) matches Some(s) && p.allow_network_subcommands.contains(s)
            && !p.deny_subcommands.contains(s),
    ensures
        plan_outcome(c, argv) matches Ok(plan) && plan.network == Network::AllNetworks,
{
}

/// Aliases are followed exactly once: an alias resolves to its target even when the
/// target is an alias itself.
pub proof fn lemma_alias_single_hop(p: ProfileView, argv: Seq<Seq<char>>, target: Seq<char>)
    requires
        argv.len() >= 2,
        valid_name(argv[1]),
        lookup(p.subcommand_aliases, argv[1]) == Some(target),
    ensures
        resolved_subcommand(p, argv) == Some(target),
{
}

} // verus!
