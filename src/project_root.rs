//! Discovery of the project root: the ancestor of the working directory that bounds the
//! sandbox.
//!
//! The walk goes from the working directory up to the filesystem root. At each ancestor
//! the caller looks whether the directory directly holds one of the profile's markers and
//! hands the answer to a [`RootSearch`], which decides where the walk stops and which
//! ancestor is the root.
use vstd::prelude::*;

use crate::caps::ProjectRoot;
use crate::names::{valid_name, FileName};

verus! {

/// A component of an absolute path: non-empty, without a separator or a null byte.
pub open spec fn path_component(s: Seq<char>) -> bool {
    s.len() > 0 && forall|i: int| 0 <= i < s.len() ==> #[trigger] s[i] != '/' && s[i] != '\0'
}

/// The text of the components below the filesystem root, each after a separator.
pub open spec fn components_text(cs: Seq<Seq<char>>) -> Seq<char>
    decreases cs.len(),
{
    if cs.len() == 0 {
        Seq::empty()
    } else {
        components_text(cs.drop_last()) + "/"@ + cs.last()
    }
}

/// The text of an absolute path: `/` for the filesystem root, else `/a/b/c`.
pub open spec fn path_text(cs: Seq<Seq<char>>) -> Seq<char> {
    if cs.len() == 0 {
        "/"@
    } else {
        components_text(cs)
    }
}

/// An absolute directory path, as the list of its components below the filesystem root.
#[derive(Debug)]
pub struct DirPath {
    components: Vec<String>,
}

impl View for DirPath {
    type V = Seq<Seq<char>>;

    closed spec fn view(&self) -> Seq<Seq<char>> {
        self.components@.map_values(|c: String| c@)
    }
}

impl DirPath {
    #[verifier::type_invariant]
    spec fn inv(&self) -> bool {
        forall|i: int| 0 <= i < self@.len() ==> path_component(#[trigger] self@[i])
    }

    /// The filesystem root.
    pub fn root() -> (r: DirPath)
        ensures
            r@ == Seq::<Seq<char>>::empty(),
    {
        let r = DirPath { components: Vec::new() };
        assert(r@ =~= Seq::<Seq<char>>::empty());
        r
    }

    /// The directory below the filesystem root with the given components, or `None` when
    /// one of them is empty or holds a separator or a null byte.
    pub fn from_components(components: Vec<String>) -> (r: Option<DirPath>)
        ensures
            r is Some <==> forall|i: int|
                0 <= i < components@.len() ==> path_component(#[trigger] components@[i]@),
            r matches Some(p) ==> p@ == components@.map_values(|c: String| c@),
    {
        let mut i: usize = 0;
        while i < components.len()
            invariant
                i <= components@.len(),
                forall|k: int| 0 <= k < i ==> path_component(#[trigger] components@[k]@),
            decreases components@.len() - i,
        {
            if !is_component(components[i].as_str()) {
                return None;
            }
            i = i + 1;
        }
        let r = DirPath { components };
        assert forall|k: int| 0 <= k < r@.len() implies path_component(#[trigger] r@[k]) by {
            assert(r@[k] == components@[k]@);
        }
        Some(r)
    }

    /// How many components lie below the filesystem root.
    pub fn depth(&self) -> (r: usize)
        ensures
            r == self@.len(),
    {
        self.components.len()
    }

    /// The ancestor `up` levels above this directory; `0` gives the directory itself.
    pub fn ancestor(&self, up: usize) -> (r: DirPath)
        requires
            up <= self@.len(),
        ensures
            r@ == self@.subrange(0, self@.len() - up),
    {
        proof {
            use_type_invariant(self);
        }
        let keep = self.components.len() - up;
        let mut components: Vec<String> = Vec::new();
        let mut i: usize = 0;
        while i < keep
            invariant
                keep <= self.components@.len(),
                i <= keep,
                components@.map_values(|c: String| c@) == self@.subrange(0, i as int),
                forall|k: int| 0 <= k < self@.len() ==> path_component(#[trigger] self@[k]),
            decreases keep - i,
        {
            let ghost prev = components@;
            let c = self.components[i].clone();
            components.push(c);
            assert(components@ == prev.push(c));
            assert(c@ == self@[i as int]);
            assert(components@.map_values(|c: String| c@) =~= prev.map_values(|c: String| c@).push(
                c@,
            ));
            assert(self@.subrange(0, i + 1) =~= self@.subrange(0, i as int).push(self@[i as int]));
            i = i + 1;
        }
        let r = DirPath { components };
        assert forall|k: int| 0 <= k < r@.len() implies path_component(#[trigger] r@[k]) by {
            assert(r@[k] == self@[k]);
        }
        r
    }

    /// The entry `name` directly inside this directory.
    pub fn join(&self, name: &FileName) -> (r: DirPath)
        ensures
            r@ == self@.push(name@),
    {
        proof {
            use_type_invariant(self);
        }
        let n = name.as_str();
        proof {
            lemma_name_is_component(n@);
        }
        let base = self.ancestor(0);
        proof {
            use_type_invariant(&base);
        }
        let mut components = base.components;
        let ghost prev = components@;
        let last = String::from_str(n);
        components.push(last);
        assert(components@ == prev.push(last));
        assert(components@.map_values(|c: String| c@) =~= prev.map_values(|c: String| c@).push(
            last@,
        ));
        assert(self@.subrange(0, self@.len() as int) =~= self@);
        let r = DirPath { components };
        assert(r@ =~= self@.push(name@));
        assert forall|k: int| 0 <= k < r@.len() implies path_component(#[trigger] r@[k]) by {
            if k < self@.len() {
                assert(r@[k] == self@[k]);
            }
        }
        r
    }

    /// The path as text: `/` for the filesystem root, else `/a/b/c`.
    pub fn render(&self) -> (r: String)
        ensures
            r@ == path_text(self@),
    {
        if self.components.len() == 0 {
            return String::from_str("/");
        }
        let mut text = String::new();
        let mut i: usize = 0;
        while i < self.components.len()
            invariant
                i <= self.components@.len(),
                text@ == components_text(self@.subrange(0, i as int)),
            decreases self.components@.len() - i,
        {
            assert(self@.subrange(0, i + 1).drop_last() =~= self@.subrange(0, i as int));
            text.append("/");
            text.append(self.components[i].as_str());
            i = i + 1;
        }
        assert(self@.subrange(0, i as int) =~= self@);
        text
    }
}

proof fn lemma_name_is_component(s: Seq<char>)
    requires
        valid_name(s),
    ensures
        path_component(s),
{
    assert forall|i: int| 0 <= i < s.len() implies #[trigger] s[i] != '/' && s[i] != '\0' by {
        assert(crate::names::char_fault(s[i]) is None);
    }
}

fn is_component(s: &str) -> (r: bool)
    ensures
        r == path_component(s@),
{
    let n = s.unicode_len();
    if n == 0 {
        return false;
    }
    let mut i: usize = 0;
    while i < n
        invariant
            n == s@.len(),
            i <= n,
            forall|k: int| 0 <= k < i ==> #[trigger] s@[k] != '/' && s@[k] != '\0',
        decreases n - i,
    {
        let c = s.get_char(i);
        if c == '/' || c == '\0' {
            return false;
        }
        i = i + 1;
    }
    true
}

/// The closest marked ancestor: the position of the first `true`.
pub open spec fn innermost_hit(hits: Seq<bool>) -> Option<int>
    decreases hits.len(),
{
    if hits.len() == 0 {
        None
    } else {
        match innermost_hit(hits.drop_last()) {
            Some(i) => Some(i),
            None => if hits.last() {
                Some(hits.len() - 1)
            } else {
                None
            },
        }
    }
}

/// The farthest marked ancestor: the position of the last `true`.
pub open spec fn outermost_hit(hits: Seq<bool>) -> Option<int>
    decreases hits.len(),
{
    if hits.len() == 0 {
        None
    } else if hits.last() {
        Some(hits.len() - 1)
    } else {
        outermost_hit(hits.drop_last())
    }
}

/// The ancestor chosen as project root, counted in levels above the start directory,
/// where `hits[i]` tells whether the ancestor `i` levels up holds a marker.
pub open spec fn chosen_root(hits: Seq<bool>, policy: ProjectRoot) -> Option<int> {
    match policy {
        ProjectRoot::Innermost => innermost_hit(hits),
        ProjectRoot::Outermost => outermost_hit(hits),
    }
}

/// What a search has seen so far.
pub struct SearchView {
    pub policy: ProjectRoot,
    pub hits: Seq<bool>,
}

/// A walk up the ancestors of a directory, fed one ancestor at a time, starting with the
/// directory itself.
pub struct RootSearch {
    policy: ProjectRoot,
    seen: usize,
    found: Option<usize>,
    hits: Ghost<Seq<bool>>,
}

impl View for RootSearch {
    type V = SearchView;

    closed spec fn view(&self) -> SearchView {
        SearchView { policy: self.policy, hits: self.hits@ }
    }
}

impl RootSearch {
    #[verifier::type_invariant]
    spec fn inv(&self) -> bool {
        &&& self.seen == self.hits@.len()
        &&& match chosen_root(self.hits@, self.policy) {
            Some(i) => self.found == Some(i as usize),
            None => self.found is None,
        }
    }

    /// A search that has seen no ancestor yet.
    pub fn new(policy: ProjectRoot) -> (r: RootSearch)
        ensures
            r@.policy == policy,
            r@.hits == Seq::<bool>::empty(),
    {
        RootSearch { policy, seen: 0, found: None, hits: Ghost(Seq::empty()) }
    }

    /// Records whether the next ancestor up holds a marker.
    pub fn observe(&mut self, has_marker: bool)
        requires
            old(self)@.hits.len() < usize::MAX,
        ensures
            final(self)@.policy == old(self)@.policy,
            final(self)@.hits == old(self)@.hits.push(has_marker),
    {
        proof {
            use_type_invariant(&*self);
        }
        let ghost before = self.hits@;
        let ghost after = before.push(has_marker);
        assert(after.drop_last() =~= before);
        let mut found = self.found;
        if has_marker {
            match self.policy {
                ProjectRoot::Innermost => {
                    if found.is_none() {
                        found = Some(self.seen);
                    }
                },
                ProjectRoot::Outermost => {
                    found = Some(self.seen);
                },
            }
        }
        *self = RootSearch { policy: self.policy, seen: self.seen + 1, found, hits: Ghost(after) };
    }

    /// Whether more ancestors can no longer change the outcome: an innermost search stops
    /// at its first match, an outermost one walks up to the filesystem root.
    pub fn is_done(&self) -> (r: bool)
        ensures
            r == (self@.policy == ProjectRoot::Innermost && innermost_hit(self@.hits) is Some),
    {
        proof {
            use_type_invariant(self);
        }
        match self.policy {
            ProjectRoot::Innermost => self.found.is_some(),
            ProjectRoot::Outermost => false,
        }
    }

    /// The chosen ancestor among those seen, in levels above the start directory.
    pub fn result(&self) -> (r: Option<usize>)
        ensures
            match chosen_root(self@.hits, self@.policy) {
                Some(i) => r == Some(i as usize),
                None => r is None,
            },
    {
        proof {
            use_type_invariant(self);
        }
        self.found
    }
}

proof fn lemma_innermost_settled(hits: Seq<bool>, k: int)
    requires
        0 <= k <= hits.len(),
        innermost_hit(hits.subrange(0, k)) is Some,
    ensures
        innermost_hit(hits) == innermost_hit(hits.subrange(0, k)),
    decreases hits.len() - k,
{
    if k < hits.len() {
        let next = hits.subrange(0, k + 1);
        assert(next.drop_last() =~= hits.subrange(0, k));
        lemma_innermost_settled(hits, k + 1);
    } else {
        assert(hits.subrange(0, k) =~= hits);
    }
}

/// The ancestor chosen as project root, where `hits[i]` tells whether the ancestor `i`
/// levels above the start directory holds a marker. An innermost search reads no further
/// than its first match.
pub fn locate_root(hits: &Vec<bool>, policy: ProjectRoot) -> (r: Option<usize>)
    ensures
        match r {
            Some(k) => chosen_root(hits@, policy) == Some(k as int) && k < hits@.len(),
            None => chosen_root(hits@, policy) is None,
        },
{
    let mut search = RootSearch::new(policy);
    let mut i: usize = 0;
    assert(hits@.subrange(0, 0) =~= search@.hits);
    while i < hits.len() && !search.is_done()
        invariant
            i <= hits@.len(),
            search@.policy == policy,
            search@.hits == hits@.subrange(0, i as int),
        decreases hits@.len() - i,
    {
        search.observe(hits[i]);
        assert(search@.hits =~= hits@.subrange(0, i + 1));
        i = i + 1;
    }
    proof {
        if i < hits@.len() {
            lemma_innermost_settled(hits@, i as int);
        } else {
            assert(hits@.subrange(0, i as int) =~= hits@);
        }
        lemma_root_choice(hits@);
    }
    search.result()
}

/// An innermost search picks the closest ancestor that holds a marker, and an outermost
/// one the farthest; with no marked ancestor neither picks any.
pub proof fn lemma_root_choice(hits: Seq<bool>)
    ensures
        innermost_hit(hits) matches Some(i) ==> 0 <= i < hits.len() && hits[i] && forall|j: int|
            0 <= j < i ==> !#[trigger] hits[j],
        outermost_hit(hits) matches Some(i) ==> 0 <= i < hits.len() && hits[i] && forall|j: int|
            i < j < hits.len() ==> !#[trigger] hits[j],
        innermost_hit(hits) is None <==> forall|j: int| 0 <= j < hits.len() ==> !#[trigger] hits[j],
        outermost_hit(hits) is None <==> forall|j: int| 0 <= j < hits.len() ==> !#[trigger] hits[j],
    decreases hits.len(),
{
    if hits.len() > 0 {
        let rest = hits.drop_last();
        lemma_root_choice(rest);
        assert forall|j: int| 0 <= j < rest.len() implies rest[j] == hits[j] by {}
    }
}

} // verus!
