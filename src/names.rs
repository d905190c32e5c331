//! Validated names: the strings of a configuration that must be a single bare name.
use vstd::prelude::*;

verus! {

/// Why a string was refused as a file, command or subcommand name.
#[derive(Clone, Copy, Debug, PartialEq, Eq, Structural)]
pub enum NameFault {
    /// The string is empty.
    Empty,
    /// The string holds a path separator, so it names a path rather than a file.
    PathSeparator,
    /// The string holds whitespace, so it looks like a shell argument list.
    Whitespace,
    /// The string holds U+0000, which no OS interface accepts inside a name.
    NullByte,
}

impl NameFault {
    pub open spec fn text(self) -> &'static str {
        match self {
            NameFault::Empty => "empty string",
            NameFault::PathSeparator => "path separator",
            NameFault::Whitespace => "shell argument list",
            NameFault::NullByte => "null byte",
        }
    }

    /// The human-readable reason for the fault.
    pub fn message(self) -> (r: &'static str)
        ensures
            r == self.text(),
    {
        match self {
            NameFault::Empty => "empty string",
            NameFault::PathSeparator => "path separator",
            NameFault::Whitespace => "shell argument list",
            NameFault::NullByte => "null byte",
        }
    }
}

/// The codepoints that carry the Unicode `White_Space` property.
pub open spec fn unicode_white_space(c: char) -> bool {
    let n = c as u32;
    ||| 0x09 <= n <= 0x0d
    ||| n == 0x20
    ||| n == 0x85
    ||| n == 0xa0
    ||| n == 0x1680
    ||| 0x2000 <= n <= 0x200a
    ||| n == 0x2028
    ||| n == 0x2029
    ||| n == 0x202f
    ||| n == 0x205f
    ||| n == 0x3000
}

/// The path separator of the Unix platforms that this sandboxing wrapper targets.
pub open spec fn path_separator(c: char) -> bool {
    c == '/'
}

/// The fault that a single codepoint carries, checked in the order separator, whitespace, null.
pub open spec fn char_fault(c: char) -> Option<NameFault> {
    if path_separator(c) {
        Some(NameFault::PathSeparator)
    } else if unicode_white_space(c) {
        Some(NameFault::Whitespace)
    } else if c == '\0' {
        Some(NameFault::NullByte)
    } else {
        None
    }
}

/// The fault of the first faulty codepoint of `s`, scanning from the front.
pub open spec fn scan_fault(s: Seq<char>) -> Option<NameFault>
    decreases s.len(),
{
    if s.len() == 0 {
        None
    } else if char_fault(s[0]) is Some {
        char_fault(s[0])
    } else {
        scan_fault(s.drop_first())
    }
}

/// The fault reported for `s`, or `None` when `s` is an acceptable name.
pub open spec fn name_fault(s: Seq<char>) -> Option<NameFault> {
    if s.len() == 0 {
        Some(NameFault::Empty)
    } else {
        scan_fault(s)
    }
}

/// A name is acceptable when it is non-empty and none of its codepoints is faulty.
pub open spec fn valid_name(s: Seq<char>) -> bool {
    s.len() > 0 && forall|i: int| 0 <= i < s.len() ==> char_fault(#[trigger] s[i]) is None
}

/// A name whose first faulty codepoint stands at `i` is refused for that codepoint's fault:
/// a path separator, whitespace or a null byte, whatever follows it.
pub proof fn lemma_first_fault_reported(s: Seq<char>, i: int)
    requires
        0 <= i < s.len(),
        char_fault(s[i]) is Some,
        forall|j: int| 0 <= j < i ==> char_fault(#[trigger] s[j]) is None,
    ensures
        name_fault(s) == char_fault(s[i]),
        !valid_name(s),
    decreases i,
{
    if i > 0 {
        let t = s.drop_first();
        assert forall|j: int| 0 <= j < i - 1 implies char_fault(#[trigger] t[j]) is None by {
            assert(t[j] == s[j + 1]);
        }
        assert(char_fault(s[0]) is None);
        lemma_first_fault_reported(t, i - 1);
    }
}

/// The empty string is refused as empty, and a non-empty string with no path separator,
/// whitespace or null byte is accepted.
pub proof fn lemma_clean_names_accepted(s: Seq<char>)
    ensures
        s.len() == 0 ==> name_fault(s) == Some(NameFault::Empty),
        valid_name(s) ==> name_fault(s) is None,
        name_fault(s) is None ==> valid_name(s),
    decreases s.len(),
{
    if s.len() > 0 {
        if valid_name(s) {
            lemma_scan_clean(s);
        } else {
            let i = choose|i: int| 0 <= i < s.len() && char_fault(#[trigger] s[i]) is Some;
            lemma_first_fault_exists(s, i);
        }
    }
}

proof fn lemma_scan_clean(s: Seq<char>)
    requires
        forall|i: int| 0 <= i < s.len() ==> char_fault(#[trigger] s[i]) is None,
    ensures
        scan_fault(s) is None,
    decreases s.len(),
{
    if s.len() > 0 {
        let t = s.drop_first();
        assert forall|j: int| 0 <= j < t.len() implies char_fault(#[trigger] t[j]) is None by {
            assert(t[j] == s[j + 1]);
        }
        assert(char_fault(s[0]) is None);
        lemma_scan_clean(t);
    }
}

proof fn lemma_first_fault_exists(s: Seq<char>, i: int)
    requires
        0 <= i < s.len(),
        char_fault(s[i]) is Some,
    ensures
        scan_fault(s) is Some,
    decreases i,
{
    if char_fault(s[0]) is None {
        let t = s.drop_first();
        assert(t[i - 1] == s[i]);
        lemma_first_fault_exists(t, i - 1);
    }
}

/// Relies on `char::is_whitespace`: true exactly for the codepoints with the Unicode
/// `White_Space` property.
#[verifier::external_body]
fn is_whitespace(c: char) -> (r: bool)
    ensures
        r == unicode_white_space(c),
{
    c.is_whitespace()
}

fn codepoint_fault(c: char) -> (r: Option<NameFault>)
    ensures
        r == char_fault(c),
{
    if c == '/' {
        Some(NameFault::PathSeparator)
    } else if is_whitespace(c) {
        Some(NameFault::Whitespace)
    } else if c == '\0' {
        Some(NameFault::NullByte)
    } else {
        None
    }
}

proof fn lemma_scan_fault_suffix(s: Seq<char>, i: int)
    requires
        0 <= i < s.len(),
        char_fault(s[i]) is None,
    ensures
        scan_fault(s.subrange(i, s.len() as int)) == scan_fault(s.subrange(i + 1, s.len() as int)),
{
    let t = s.subrange(i, s.len() as int);
    assert(t.drop_first() =~= s.subrange(i + 1, s.len() as int));
}

/// The first fault of `name`, or `None` when it is an acceptable name.
pub fn find_name_fault(name: &str) -> (r: Option<NameFault>)
    ensures
        r == name_fault(name@),
        r is None <==> valid_name(name@),
{
    let n = name.unicode_len();
    if n == 0 {
        return Some(NameFault::Empty);
    }
    let mut i: usize = 0;
    assert(name@.subrange(0, n as int) =~= name@);
    while i < n
        invariant
            n == name@.len(),
            0 <= i <= n,
            scan_fault(name@) == scan_fault(name@.subrange(i as int, n as int)),
            forall|j: int| 0 <= j < i ==> char_fault(#[trigger] name@[j]) is None,
        decreases n - i,
    {
        let c = name.get_char(i);
        let f = codepoint_fault(c);
        if f.is_some() {
            proof {
                let t = name@.subrange(i as int, n as int);
                assert(t[0] == c);
                assert(name@ =~= name@.subrange(0, n as int));
            }
            assert(!valid_name(name@));
            return f;
        }
        proof {
            lemma_scan_fault_suffix(name@, i as int);
        }
        i = i + 1;
    }
    assert(name@.subrange(n as int, n as int).len() == 0);
    None
}

/// Checks that `name` can stand as a file, command or subcommand name.
///
/// A name is refused when it is empty, or holds a path separator, whitespace (a shell
/// argument list in disguise) or a null byte. The reason given is that of the first
/// faulty codepoint.
pub fn is_bad_name(name: &str) -> (r: Result<(), &'static str>)
    ensures
        r is Ok <==> valid_name(name@),
        r is Ok <==> name_fault(name@) is None,
        name_fault(name@) matches Some(f) ==> r == Err::<(), &'static str>(f.text()),
{
    match find_name_fault(name) {
        Some(f) => Err(f.message()),
        None => Ok(()),
    }
}

/// A file or directory name, as used for the markers of a project root and for the
/// entries denied inside a sandbox.
#[derive(Debug)]
pub struct FileName {
    name: String,
}

impl View for FileName {
    type V = Seq<char>;

    closed spec fn view(&self) -> Seq<char> {
        self.name@
    }
}

impl FileName {
    pub closed spec fn wrap(name: String) -> FileName {
        FileName { name }
    }

    #[verifier::type_invariant]
    spec fn inv(&self) -> bool {
        valid_name(self.name@)
    }

    /// Wraps `name` once it has passed the name checks.
    pub fn new(name: String) -> (r: Result<FileName, NameFault>)
        ensures
            r is Ok <==> valid_name(name@),
            r matches Ok(v) ==> v@ == name@,
            r matches Err(f) ==> name_fault(name@) == Some(f),
    {
        match find_name_fault(name.as_str()) {
            Some(f) => Err(f),
            None => Ok(FileName { name }),
        }
    }

    /// The name, for display and for building the paths handed to the sandbox.
    pub fn as_str(&self) -> (r: &str)
        ensures
            r@ == self@,
            valid_name(r@),
    {
        proof {
            use_type_invariant(self);
        }
        self.name.as_str()
    }
}

impl Clone for FileName {
    fn clone(&self) -> (r: Self)
        ensures
            r == *self,
    {
        proof {
            use_type_invariant(self);
        }
        FileName { name: self.name.clone() }
    }
}

impl PartialEq for FileName {
    fn eq(&self, other: &Self) -> (r: bool) {
        self.name == other.name
    }
}

impl vstd::std_specs::cmp::PartialEqSpecImpl for FileName {
    open spec fn obeys_eq_spec() -> bool {
        true
    }

    open spec fn eq_spec(&self, other: &Self) -> bool {
        self@ == other@
    }
}

impl Eq for FileName {
}

impl TryFrom<String> for FileName {
    type Error = &'static str;

    fn try_from(value: String) -> (r: Result<Self, Self::Error>) {
        match find_name_fault(value.as_str()) {
            Some(f) => Err(f.message()),
            None => Ok(FileName { name: value }),
        }
    }
}

impl vstd::std_specs::convert::TryFromSpecImpl<String> for FileName {
    open spec fn obeys_try_from_spec() -> bool {
        true
    }

    open spec fn try_from_spec(v: String) -> Result<Self, &'static str> {
        match name_fault(v@) {
            Some(f) => Err(f.text()),
            None => Ok(FileName::wrap(v)),
        }
    }
}

/// A command name, `argv[0]` of a wrapped program reduced to its last path component,
/// which selects a sandboxing profile.
#[derive(Debug)]
pub struct CommandName {
    name: String,
}

impl View for CommandName {
    type V = Seq<char>;

    closed spec fn view(&self) -> Seq<char> {
        self.name@
    }
}

impl CommandName {
    pub closed spec fn wrap(name: String) -> CommandName {
        CommandName { name }
    }

    #[verifier::type_invariant]
    spec fn inv(&self) -> bool {
        valid_name(self.name@)
    }

    /// Wraps `name` once it has passed the name checks.
    pub fn new(name: String) -> (r: Result<CommandName, NameFault>)
        ensures
            r is Ok <==> valid_name(name@),
            r matches Ok(v) ==> v@ == name@,
            r matches Err(f) ==> name_fault(name@) == Some(f),
    {
        match find_name_fault(name.as_str()) {
            Some(f) => Err(f),
            None => Ok(CommandName { name }),
        }
    }

    /// The name, for display.
    pub fn as_str(&self) -> (r: &str)
        ensures
            r@ == self@,
            valid_name(r@),
    {
        proof {
            use_type_invariant(self);
        }
        self.name.as_str()
    }
}

impl Clone for CommandName {
    fn clone(&self) -> (r: Self)
        ensures
            r == *self,
    {
        proof {
            use_type_invariant(self);
        }
        CommandName { name: self.name.clone() }
    }
}

impl PartialEq for CommandName {
    fn eq(&self, other: &Self) -> (r: bool) {
        self.name == other.name
    }
}

impl vstd::std_specs::cmp::PartialEqSpecImpl for CommandName {
    open spec fn obeys_eq_spec() -> bool {
        true
    }

    open spec fn eq_spec(&self, other: &Self) -> bool {
        self@ == other@
    }
}

impl Eq for CommandName {
}

impl TryFrom<String> for CommandName {
    type Error = &'static str;

    fn try_from(value: String) -> (r: Result<Self, Self::Error>) {
        match find_name_fault(value.as_str()) {
            Some(f) => Err(f.message()),
            None => Ok(CommandName { name: value }),
        }
    }
}

impl vstd::std_specs::convert::TryFromSpecImpl<String> for CommandName {
    open spec fn obeys_try_from_spec() -> bool {
        true
    }

    open spec fn try_from_spec(v: String) -> Result<Self, &'static str> {
        match name_fault(v@) {
            Some(f) => Err(f.text()),
            None => Ok(CommandName::wrap(v)),
        }
    }
}

/// A subcommand name, `argv[1]` of a wrapped program, which selects the rules of a
/// profile that apply to one invocation.
#[derive(Debug)]
pub struct SubcommandName {
    name: String,
}

impl View for SubcommandName {
    type V = Seq<char>;

    closed spec fn view(&self) -> Seq<char> {
        self.name@
    }
}

impl SubcommandName {
    pub closed spec fn wrap(name: String) -> SubcommandName {
        SubcommandName { name }
    }

    #[verifier::type_invariant]
    spec fn inv(&self) -> bool {
        valid_name(self.name@)
    }

    /// Wraps `name` once it has passed the name checks.
    pub fn new(name: String) -> (r: Result<SubcommandName, NameFault>)
        ensures
            r is Ok <==> valid_name(name@),
            r matches Ok(v) ==> v@ == name@,
            r matches Err(f) ==> name_fault(name@) == Some(f),
    {
        match find_name_fault(name.as_str()) {
            Some(f) => Err(f),
            None => Ok(SubcommandName { name }),
        }
    }

    /// The name, for display.
    pub fn as_str(&self) -> (r: &str)
        ensures
            r@ == self@,
            valid_name(r@),
    {
        proof {
            use_type_invariant(self);
        }
        self.name.as_str()
    }
}

impl Clone for SubcommandName {
    fn clone(&self) -> (r: Self)
        ensures
            r == *self,
    {
        proof {
            use_type_invariant(self);
        }
        SubcommandName { name: self.name.clone() }
    }
}

impl PartialEq for SubcommandName {
    fn eq(&self, other: &Self) -> (r: bool) {
        self.name == other.name
    }
}

impl vstd::std_specs::cmp::PartialEqSpecImpl for SubcommandName {
    open spec fn obeys_eq_spec() -> bool {
        true
    }

    open spec fn eq_spec(&self, other: &Self) -> bool {
        self@ == other@
    }
}

impl Eq for SubcommandName {
}

impl TryFrom<String> for SubcommandName {
    type Error = &'static str;

    fn try_from(value: String) -> (r: Result<Self, Self::Error>) {
        match find_name_fault(value.as_str()) {
            Some(f) => Err(f.message()),
            None => Ok(SubcommandName { name: value }),
        }
    }
}

impl vstd::std_specs::convert::TryFromSpecImpl<String> for SubcommandName {
    open spec fn obeys_try_from_spec() -> bool {
        true
    }

    open spec fn try_from_spec(v: String) -> Result<Self, &'static str> {
        match name_fault(v@) {
            Some(f) => Err(f.text()),
            None => Ok(SubcommandName::wrap(v)),
        }
    }
}

} // verus!
