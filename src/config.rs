//! The configuration model: one sandboxing profile per command, and the document that
//! holds them, with its whole-document validation.
use vstd::prelude::*;

use crate::caps::{Network, ProjectRoot};
use crate::names::{CommandName, FileName, SubcommandName};

verus! {

/// What a profile holds, as mathematical values.
pub struct ProfileView {
    pub network: Network,
    pub allow_network_subcommands: Seq<Seq<char>>,
    pub deny_subcommands: Seq<Seq<char>>,
    pub projectless_subcommands: Seq<Seq<char>>,
    pub root_marked_by: Seq<Seq<char>>,
    pub root_find_outermost: ProjectRoot,
    pub subcommand_aliases: Seq<(Seq<char>, Seq<char>)>,
}

/// The value bound to `key` in a list of entries with unique keys (the last one, should a
/// key repeat).
pub open spec fn lookup<V>(entries: Seq<(Seq<char>, V)>, key: Seq<char>) -> Option<V>
    decreases entries.len(),
{
    if entries.len() == 0 {
        None
    } else if entries.last().0 == key {
        Some(entries.last().1)
    } else {
        lookup(entries.drop_last(), key)
    }
}

/// Among entries with unique keys, the lookup of a key yields the one value bound to it.
pub proof fn lemma_lookup_unique<V>(entries: Seq<(Seq<char>, V)>, i: int)
    requires
        keys_unique(entries),
        0 <= i < entries.len(),
    ensures
        lookup(entries, entries[i].0) == Some(entries[i].1),
    decreases entries.len(),
{
    if i < entries.len() - 1 {
        let rest = entries.drop_last();
        assert(entries.last().0 != entries[i].0);
        assert(rest[i] == entries[i]);
        assert forall|a: int, b: int| 0 <= a < b < rest.len() implies #[trigger] rest[a].0
            != #[trigger] rest[b].0 by {
            assert(rest[a] == entries[a]);
            assert(rest[b] == entries[b]);
        }
        lemma_lookup_unique(rest, i);
    }
}

/// No key occurs twice among the entries.
pub open spec fn keys_unique<V>(entries: Seq<(Seq<char>, V)>) -> bool {
    forall|i: int, j: int|
        0 <= i < j < entries.len() ==> #[trigger] entries[i].0 != #[trigger] entries[j].0
}

pub open spec fn subcommand_views(v: Seq<SubcommandName>) -> Seq<Seq<char>> {
    v.map_values(|n: SubcommandName| n@)
}

pub open spec fn file_name_views(v: Seq<FileName>) -> Seq<Seq<char>> {
    v.map_values(|n: FileName| n@)
}

pub open spec fn alias_views(v: Seq<(SubcommandName, SubcommandName)>) -> Seq<(Seq<char>, Seq<char>)> {
    v.map_values(|p: (SubcommandName, SubcommandName)| (p.0@, p.1@))
}

/// The sandboxing profile of one command (`argv[0]` as the sandboxed program sees it).
///
/// A subcommand is `argv[1]` as the sandboxed program sees it.
#[derive(Debug)]
pub struct CommandProfile {
    allow_network: Network,
    allow_network_subcommands: Vec<SubcommandName>,
    deny_subcommands: Vec<SubcommandName>,
    projectless_subcommands: Vec<SubcommandName>,
    root_marked_by: Vec<FileName>,
    root_find_outermost: ProjectRoot,
    subcommand_aliases: Vec<(SubcommandName, SubcommandName)>,
}

impl View for CommandProfile {
    type V = ProfileView;

    closed spec fn view(&self) -> ProfileView {
        ProfileView {
            network: self.allow_network,
            allow_network_subcommands: subcommand_views(self.allow_network_subcommands@),
            deny_subcommands: subcommand_views(self.deny_subcommands@),
            projectless_subcommands: subcommand_views(self.projectless_subcommands@),
            root_marked_by: file_name_views(self.root_marked_by@),
            root_find_outermost: self.root_find_outermost,
            subcommand_aliases: alias_views(self.subcommand_aliases@),
        }
    }
}

/// A structural fault of the configuration that construction refuses.
#[derive(Debug)]
pub enum ConfigError {
    /// A subcommand alias is declared twice in one profile.
    DuplicateAlias { alias: SubcommandName },
    /// A command has two profiles.
    DuplicateProfile { command: CommandName },
}

/// The position of the first alias whose name an earlier alias already declares.
fn first_repeated_alias(aliases: &Vec<(SubcommandName, SubcommandName)>) -> (r: Option<usize>)
    ensures
        r is None <==> keys_unique(alias_views(aliases@)),
        r matches Some(j) ==> j < aliases@.len() && exists|i: int|
            0 <= i < j && #[trigger] aliases@[i].0@ == aliases@[j as int].0@,
{
    let ghost keys = alias_views(aliases@);
    let mut j: usize = 0;
    while j < aliases.len()
        invariant
            keys == alias_views(aliases@),
            j <= aliases@.len(),
            forall|a: int, b: int| 0 <= a < b < j ==> #[trigger] keys[a].0 != #[trigger] keys[b].0,
        decreases aliases@.len() - j,
    {
        let mut i: usize = 0;
        while i < j
            invariant
                keys == alias_views(aliases@),
                i <= j < aliases@.len(),
                forall|a: int| 0 <= a < i ==> #[trigger] keys[a].0 != keys[j as int].0,
            decreases j - i,
        {
            if aliases[i].0 == aliases[j].0 {
                assert(keys[i as int].0 == keys[j as int].0);
                return Some(j);
            }
            i = i + 1;
        }
        j = j + 1;
    }
    None
}

impl CommandProfile {
    #[verifier::type_invariant]
    spec fn inv(&self) -> bool {
        keys_unique(alias_views(self.subcommand_aliases@))
    }

    /// Builds a profile from the fields of a configuration document. A capability left out
    /// (`None`) takes its restrictive variant; a list left out is given as empty.
    ///
    /// Fails when `subcommand_aliases` declares one alias twice.
    pub fn new(
        allow_network: Option<bool>,
        allow_network_subcommands: Vec<SubcommandName>,
        deny_subcommands: Vec<SubcommandName>,
        projectless_subcommands: Vec<SubcommandName>,
        root_marked_by: Vec<FileName>,
        root_find_outermost: Option<bool>,
        subcommand_aliases: Vec<(SubcommandName, SubcommandName)>,
    ) -> (r: Result<CommandProfile, ConfigError>)
        ensures
            r is Ok <==> keys_unique(alias_views(subcommand_aliases@)),
            r matches Err(e) ==> (e matches ConfigError::DuplicateAlias { alias } && exists|
                i: int,
                j: int,
            |
                0 <= i < j < subcommand_aliases@.len() && #[trigger] subcommand_aliases@[i].0@
                    == alias@ && #[trigger] subcommand_aliases@[j].0@ == alias@),
            r matches Ok(p) ==> {
                &&& p@.network == match allow_network {
                    Some(b) => Network::of_bool(b),
                    None => Network::ChildProcsOnly,
                }
                &&& p@.root_find_outermost == match root_find_outermost {
                    Some(b) => ProjectRoot::of_bool(b),
                    None => ProjectRoot::Innermost,
                }
                &&& p@.allow_network_subcommands == subcommand_views(allow_network_subcommands@)
                &&& p@.deny_subcommands == subcommand_views(deny_subcommands@)
                &&& p@.projectless_subcommands == subcommand_views(projectless_subcommands@)
                &&& p@.root_marked_by == file_name_views(root_marked_by@)
                &&& p@.subcommand_aliases == alias_views(subcommand_aliases@)
            },
    {
        if let Some(j) = first_repeated_alias(&subcommand_aliases) {
            let alias = subcommand_aliases[j].0.clone();
            return Err(ConfigError::DuplicateAlias { alias });
        }
        let allow_network = match allow_network {
            Some(b) => Network::from(b),
            None => Network::default(),
        };
        let root_find_outermost = match root_find_outermost {
            Some(b) => ProjectRoot::from(b),
            None => ProjectRoot::default(),
        };
        Ok(CommandProfile {
            allow_network,
            allow_network_subcommands,
            deny_subcommands,
            projectless_subcommands,
            root_marked_by,
            root_find_outermost,
            subcommand_aliases,
        })
    }

    /// The network capability that the profile grants to every subcommand.
    pub fn network(&self) -> (r: Network)
        ensures
            r == self@.network,
    {
        self.allow_network
    }

    /// How the project root is chosen among the ancestors that hold a marker.
    pub fn root_policy(&self) -> (r: ProjectRoot)
        ensures
            r == self@.root_find_outermost,
    {
        self.root_find_outermost
    }

    /// The names whose presence marks a directory as a project root.
    pub fn root_markers(&self) -> (r: &Vec<FileName>)
        ensures
            file_name_views(r@) == self@.root_marked_by,
    {
        &self.root_marked_by
    }

    /// Follows the alias table of the profile once: the target of `sub` when `sub` is an
    /// alias, else `sub` itself. An alias target is not looked up again.
    pub fn resolve_alias(&self, sub: &SubcommandName) -> (r: SubcommandName)
        ensures
            r@ == match lookup(self@.subcommand_aliases, sub@) {
                Some(target) => target,
                None => sub@,
            },
            keys_unique(self@.subcommand_aliases),
    {
        proof {
            use_type_invariant(self);
        }
        let ghost entries = self@.subcommand_aliases;
        let mut i: usize = self.subcommand_aliases.len();
        assert(entries.subrange(0, i as int) =~= entries);
        while i > 0
            invariant
                entries == alias_views(self.subcommand_aliases@),
                keys_unique(entries),
                i <= self.subcommand_aliases@.len(),
                lookup(entries, sub@) == lookup(entries.subrange(0, i as int), sub@),
            decreases i,
        {
            let ghost prefix = entries.subrange(0, i as int);
            assert(prefix.drop_last() =~= entries.subrange(0, i - 1));
            if self.subcommand_aliases[i - 1].0 == *sub {
                return self.subcommand_aliases[i - 1].1.clone();
            }
            i = i - 1;
        }
        sub.clone()
    }

    /// Whether the profile refuses to run `sub` at all.
    pub fn denies(&self, sub: &SubcommandName) -> (r: bool)
        ensures
            r == self@.deny_subcommands.contains(sub@),
    {
        list_contains(&self.deny_subcommands, sub)
    }

    /// Whether the profile grants `sub` unrestricted network access.
    pub fn allows_network_for(&self, sub: &SubcommandName) -> (r: bool)
        ensures
            r == self@.allow_network_subcommands.contains(sub@),
    {
        list_contains(&self.allow_network_subcommands, sub)
    }

    /// Whether `sub` runs with the working directory as sandbox root.
    pub fn is_projectless(&self, sub: &SubcommandName) -> (r: bool)
        ensures
            r == self@.projectless_subcommands.contains(sub@),
    {
        list_contains(&self.projectless_subcommands, sub)
    }
}

fn list_contains(list: &Vec<SubcommandName>, x: &SubcommandName) -> (r: bool)
    ensures
        r == subcommand_views(list@).contains(x@),
{
    let ghost views = subcommand_views(list@);
    let mut i: usize = 0;
    while i < list.len()
        invariant
            views == subcommand_views(list@),
            i <= list@.len(),
            forall|k: int| 0 <= k < i ==> views[k] != x@,
        decreases list@.len() - i,
    {
        if list[i] == *x {
            assert(views[i as int] == x@);
            return true;
        }
        i = i + 1;
    }
    false
}

/// What a configuration holds, as mathematical values.
pub struct ConfigView {
    pub firejail_base_flags: Seq<Seq<char>>,
    pub root_blacklist: Seq<Seq<char>>,
    pub profiles: Seq<(Seq<char>, ProfileView)>,
}

pub open spec fn profile_views(v: Seq<(CommandName, CommandProfile)>) -> Seq<(Seq<char>, ProfileView)> {
    v.map_values(|p: (CommandName, CommandProfile)| (p.0@, p.1@))
}

/// The whole policy document: flags for every sandbox, entries denied in every sandbox,
/// and the profile of each command.
#[derive(Debug)]
pub struct Config {
    firejail_base_flags: Vec<String>,
    root_blacklist: Vec<FileName>,
    profiles: Vec<(CommandName, CommandProfile)>,
}

impl View for Config {
    type V = ConfigView;

    closed spec fn view(&self) -> ConfigView {
        ConfigView {
            firejail_base_flags: self.firejail_base_flags@.map_values(|f: String| f@),
            root_blacklist: file_name_views(self.root_blacklist@),
            profiles: profile_views(self.profiles@),
        }
    }
}

/// A violation of the rules that a whole configuration must meet, as a mathematical value.
pub enum ValidationFault {
    NoProfiles,
    EmptyRootMarkers(Seq<char>),
}

/// A violation of the rules that a whole configuration must meet.
#[derive(Debug)]
pub enum ValidationError {
    /// The configuration holds no profile at all.
    NoProfiles,
    /// The profile of `command` names no marker of a project root.
    EmptyRootMarkers { command: CommandName },
}

impl View for ValidationError {
    type V = ValidationFault;

    open spec fn view(&self) -> ValidationFault {
        match self {
            ValidationError::NoProfiles => ValidationFault::NoProfiles,
            ValidationError::EmptyRootMarkers { command } => ValidationFault::EmptyRootMarkers(
                command@,
            ),
        }
    }
}

pub open spec fn no_profiles_text() -> Seq<char> {
    "Configuration file must contain at least one profile"@
}

pub open spec fn empty_markers_text(command: Seq<char>) -> Seq<char> {
    "Profile '"@ + command + "': 'root_marked_by' must contain at least one file/folder name"@
}

impl ValidationFault {
    pub open spec fn text(self) -> Seq<char> {
        match self {
            ValidationFault::NoProfiles => no_profiles_text(),
            ValidationFault::EmptyRootMarkers(command) => empty_markers_text(command),
        }
    }
}

impl ValidationError {
    /// A message that names the rule violated and the profile that violates it.
    pub fn message(&self) -> (r: String)
        ensures
            r@ == self@.text(),
    {
        match self {
            ValidationError::NoProfiles => {
                String::from_str("Configuration file must contain at least one profile")
            },
            ValidationError::EmptyRootMarkers { command } => {
                let mut m = String::from_str("Profile '");
                m.append(command.as_str());
                m.append("': 'root_marked_by' must contain at least one file/folder name");
                m
            },
        }
    }
}

/// The profiles without a marker of a project root, in document order.
pub open spec fn unmarked_profiles(profiles: Seq<(Seq<char>, ProfileView)>) -> Seq<ValidationFault>
    decreases profiles.len(),
{
    if profiles.len() == 0 {
        Seq::empty()
    } else {
        let rest = unmarked_profiles(profiles.drop_last());
        if profiles.last().1.root_marked_by.len() == 0 {
            rest.push(ValidationFault::EmptyRootMarkers(profiles.last().0))
        } else {
            rest
        }
    }
}

/// Every violation of a configuration: the lack of any profile, or else each profile
/// without a marker of a project root.
pub open spec fn config_faults(c: ConfigView) -> Seq<ValidationFault> {
    if c.profiles.len() == 0 {
        seq![ValidationFault::NoProfiles]
    } else {
        unmarked_profiles(c.profiles)
    }
}

/// The position of the first profile whose command an earlier profile already has.
fn first_repeated_command(profiles: &Vec<(CommandName, CommandProfile)>) -> (r: Option<usize>)
    ensures
        r is None <==> keys_unique(profile_views(profiles@)),
        r matches Some(j) ==> j < profiles@.len() && exists|i: int|
            0 <= i < j && #[trigger] profiles@[i].0@ == profiles@[j as int].0@,
{
    let ghost keys = profile_views(profiles@);
    let mut j: usize = 0;
    while j < profiles.len()
        invariant
            keys == profile_views(profiles@),
            j <= profiles@.len(),
            forall|a: int, b: int| 0 <= a < b < j ==> #[trigger] keys[a].0 != #[trigger] keys[b].0,
        decreases profiles@.len() - j,
    {
        let mut i: usize = 0;
        while i < j
            invariant
                keys == profile_views(profiles@),
                i <= j < profiles@.len(),
                forall|a: int| 0 <= a < i ==> #[trigger] keys[a].0 != keys[j as int].0,
            decreases j - i,
        {
            if profiles[i].0 == profiles[j].0 {
                assert(keys[i as int].0 == keys[j as int].0);
                return Some(j);
            }
            i = i + 1;
        }
        j = j + 1;
    }
    None
}

impl Config {
    #[verifier::type_invariant]
    spec fn inv(&self) -> bool {
        keys_unique(profile_views(self.profiles@))
    }

    /// Builds a configuration from the fields of a configuration document; an omitted
    /// `root_blacklist` is given as empty.
    ///
    /// Fails when two profiles belong to one command. The rules on the profiles themselves
    /// are checked by [`Config::validate`].
    pub fn new(
        firejail_base_flags: Vec<String>,
        root_blacklist: Vec<FileName>,
        profiles: Vec<(CommandName, CommandProfile)>,
    ) -> (r: Result<Config, ConfigError>)
        ensures
            r is Ok <==> keys_unique(profile_views(profiles@)),
            r matches Err(e) ==> (e matches ConfigError::DuplicateProfile { command } && exists|
                i: int,
                j: int,
            |
                0 <= i < j < profiles@.len() && #[trigger] profiles@[i].0@ == command@
                    && #[trigger] profiles@[j].0@ == command@),
            r matches Ok(c) ==> {
                &&& c@.firejail_base_flags == firejail_base_flags@.map_values(|f: String| f@)
                &&& c@.root_blacklist == file_name_views(root_blacklist@)
                &&& c@.profiles == profile_views(profiles@)
            },
    {
        if let Some(j) = first_repeated_command(&profiles) {
            let command = profiles[j].0.clone();
            return Err(ConfigError::DuplicateProfile { command });
        }
        Ok(Config { firejail_base_flags, root_blacklist, profiles })
    }

    /// Checks the rules that no single field can: that there is at least one profile and
    /// that every profile names a marker of a project root. Every violation is reported,
    /// in document order.
    pub fn validate(&self) -> (r: Result<(), Vec<ValidationError>>)
        ensures
            r is Ok <==> config_faults(self@).len() == 0,
            r matches Err(errors) ==> errors@.map_values(|e: ValidationError| e@)
                == config_faults(self@),
    {
        let ghost profiles = self@.profiles;
        let mut errors: Vec<ValidationError> = Vec::new();
        if self.profiles.len() == 0 {
            errors.push(ValidationError::NoProfiles);
            assert(errors@.map_values(|e: ValidationError| e@) =~= config_faults(self@));
            return Err(errors);
        }
        let mut i: usize = 0;
        assert(profiles.subrange(0, 0) =~= Seq::<(Seq<char>, ProfileView)>::empty());
        while i < self.profiles.len()
            invariant
                profiles == profile_views(self.profiles@),
                i <= self.profiles@.len(),
                errors@.map_values(|e: ValidationError| e@) == unmarked_profiles(
                    profiles.subrange(0, i as int),
                ),
            decreases self.profiles@.len() - i,
        {
            let ghost before = errors@;
            assert(profiles.subrange(0, i + 1).drop_last() =~= profiles.subrange(0, i as int));
            let markers = self.profiles[i].1.root_markers();
            if markers.len() == 0 {
                errors.push(ValidationError::EmptyRootMarkers { command: self.profiles[i].0.clone() });
                assert(errors@.map_values(|e: ValidationError| e@) =~= before.map_values(
                    |e: ValidationError| e@,
                ).push(ValidationFault::EmptyRootMarkers(profiles[i as int].0)));
            }
            i = i + 1;
        }
        assert(profiles.subrange(0, i as int) =~= profiles);
        if errors.len() == 0 {
            Ok(())
        } else {
            Err(errors)
        }
    }

    /// The profile of `command`, if the configuration has one.
    pub fn profile(&self, command: &CommandName) -> (r: Option<&CommandProfile>)
        ensures
            match r {
                Some(p) => lookup(self@.profiles, command@) == Some(p@),
                None => lookup(self@.profiles, command@) is None,
            },
            keys_unique(self@.profiles),
    {
        proof {
            use_type_invariant(self);
        }
        let ghost entries = self@.profiles;
        let mut i: usize = self.profiles.len();
        assert(entries.subrange(0, i as int) =~= entries);
        while i > 0
            invariant
                entries == profile_views(self.profiles@),
                keys_unique(entries),
                i <= self.profiles@.len(),
                lookup(entries, command@) == lookup(entries.subrange(0, i as int), command@),
            decreases i,
        {
            let ghost prefix = entries.subrange(0, i as int);
            assert(prefix.drop_last() =~= entries.subrange(0, i - 1));
            if self.profiles[i - 1].0 == *command {
                return Some(&self.profiles[i - 1].1);
            }
            i = i - 1;
        }
        None
    }

    /// The entries, relative to the sandbox root, that every sandbox denies.
    pub fn root_blacklist(&self) -> (r: &Vec<FileName>)
        ensures
            file_name_views(r@) == self@.root_blacklist,
    {
        &self.root_blacklist
    }

    /// The flags handed to the sandbox launcher before those that a profile decides.
    pub fn firejail_base_flags(&self) -> (r: &Vec<String>)
        ensures
            r@.map_values(|f: String| f@) == self@.firejail_base_flags,
    {
        &self.firejail_base_flags
    }
}

/// A configuration without profiles fails validation, with the single violation that
/// names the need for at least one profile.
pub proof fn lemma_profiles_required(c: ConfigView)
    requires
        c.profiles.len() == 0,
    ensures
        config_faults(c) == seq![ValidationFault::NoProfiles],
        config_faults(c).len() > 0,
{
}

/// A profile without a marker of a project root makes the whole configuration fail
/// validation, whatever its other fields hold, with a violation that names its command.
pub proof fn lemma_unmarked_profile_fails(c: ConfigView, i: int)
    requires
        0 <= i < c.profiles.len(),
        c.profiles[i].1.root_marked_by.len() == 0,
    ensures
        config_faults(c).contains(ValidationFault::EmptyRootMarkers(c.profiles[i].0)),
        config_faults(c).len() > 0,
{
    lemma_unmarked_listed(c.profiles, i);
}

proof fn lemma_unmarked_listed(profiles: Seq<(Seq<char>, ProfileView)>, i: int)
    requires
        0 <= i < profiles.len(),
        profiles[i].1.root_marked_by.len() == 0,
    ensures
        unmarked_profiles(profiles).contains(ValidationFault::EmptyRootMarkers(profiles[i].0)),
    decreases profiles.len(),
{
    let f = ValidationFault::EmptyRootMarkers(profiles[i].0);
    let rest = unmarked_profiles(profiles.drop_last());
    if i == profiles.len() - 1 {
        assert(rest.push(f)[rest.len() as int] == f);
    } else {
        lemma_unmarked_listed(profiles.drop_last(), i);
        let k = choose|k: int| 0 <= k < rest.len() && rest[k] == f;
        if profiles.last().1.root_marked_by.len() == 0 {
            assert(rest.push(ValidationFault::EmptyRootMarkers(profiles.last().0))[k] == f);
        }
    }
}

} // verus!
