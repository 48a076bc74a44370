//! The manifest: which dependencies are declared, and under which names.

use crate::text::{compare, lemma_precedes_irreflexive, lemma_precedes_total,
    lemma_precedes_transitive, precedes, Order};
use vstd::prelude::*;

verus! {

/// A declared dependency.
#[derive(Debug, PartialEq, Eq)]
pub enum Dependency {
    /// Follows the default branch of its source.
    Tracking { source: String },
    /// Follows one branch of its source, checked out again after each fetch.
    Pinned { source: String, branch: String },
}

/// What a [`Dependency`] holds, as sequences of characters.
pub enum DependencyView {
    Tracking { source: Seq<char> },
    Pinned { source: Seq<char>, branch: Seq<char> },
}

impl View for Dependency {
    type V = DependencyView;

    open spec fn view(&self) -> DependencyView {
        match self {
            Dependency::Tracking { source } => DependencyView::Tracking { source: source@ },
            Dependency::Pinned { source, branch } => DependencyView::Pinned {
                source: source@,
                branch: branch@,
            },
        }
    }
}

/// The dependency that a location and an optional branch declare: pinned to
/// the branch where one is given, tracking otherwise.
pub open spec fn declared(source: Seq<char>, branch: Option<Seq<char>>) -> DependencyView {
    match branch {
        Some(branch) => DependencyView::Pinned { source, branch },
        None => DependencyView::Tracking { source },
    }
}

/// The characters of an optional string.
pub open spec fn text_of(value: Option<String>) -> Option<Seq<char>> {
    match value {
        Some(text) => Some(text@),
        None => None,
    }
}

impl DependencyView {
    /// The branch that a pinned dependency follows.
    pub open spec fn branch(self) -> Option<Seq<char>> {
        match self {
            DependencyView::Tracking { .. } => None,
            DependencyView::Pinned { branch, .. } => Some(branch),
        }
    }

    /// The recorded location of the source.
    pub open spec fn source(self) -> Seq<char> {
        match self {
            DependencyView::Tracking { source } => source,
            DependencyView::Pinned { source, .. } => source,
        }
    }
}

impl Dependency {
    /// Declares a dependency on `source`, pinned to `branch` where one is
    /// given.
    pub fn declare(source: String, branch: Option<String>) -> (dependency: Dependency)
        ensures
            dependency@ == declared(source@, text_of(branch)),
    {
        match branch {
            Some(branch) => Dependency::Pinned { source, branch },
            None => Dependency::Tracking { source },
        }
    }

    /// The recorded location of the source.
    pub fn source(&self) -> (source: &String)
        ensures
            source@ == self@.source(),
    {
        match self {
            Dependency::Tracking { source } => source,
            Dependency::Pinned { source, .. } => source,
        }
    }

    /// The branch that a pinned dependency follows.
    pub fn branch(&self) -> (branch: Option<&String>)
        ensures
            match branch {
                Some(name) => self@.branch() == Some(name@),
                None => self@.branch() is None,
            },
    {
        match self {
            Dependency::Tracking { .. } => None,
            Dependency::Pinned { branch, .. } => Some(branch),
        }
    }
}

impl Clone for Dependency {
    fn clone(&self) -> (copy: Dependency)
        ensures
            copy@ == self@,
    {
        match self {
            Dependency::Tracking { source } => Dependency::Tracking { source: source.clone() },
            Dependency::Pinned { source, branch } => Dependency::Pinned {
                source: source.clone(),
                branch: branch.clone(),
            },
        }
    }
}

/// One line of the manifest: a dependency under its name.
#[derive(Debug, PartialEq, Eq)]
pub struct Entry {
    pub name: String,
    pub dependency: Dependency,
}

/// What an [`Entry`] holds.
pub struct EntryView {
    pub name: Seq<char>,
    pub dependency: DependencyView,
}

impl View for Entry {
    type V = EntryView;

    open spec fn view(&self) -> EntryView {
        EntryView { name: self.name@, dependency: self.dependency@ }
    }
}

impl Clone for Entry {
    fn clone(&self) -> (copy: Entry)
        ensures
            copy@ == self@,
    {
        Entry { name: self.name.clone(), dependency: self.dependency.clone() }
    }
}

/// The views of a run of entries.
pub open spec fn views(entries: Seq<Entry>) -> Seq<EntryView> {
    entries.map_values(|entry: Entry| entry@)
}

/// The mapping that a run of entries declares. A later entry replaces an
/// earlier one of the same name.
pub open spec fn map_of(entries: Seq<EntryView>) -> Map<Seq<char>, DependencyView>
    decreases entries.len(),
{
    if entries.len() == 0 {
        Map::empty()
    } else {
        map_of(entries.drop_last()).insert(entries.last().name, entries.last().dependency)
    }
}

/// The names of `entries` strictly ascend, so that none occurs twice.
pub open spec fn ascending(entries: Seq<EntryView>) -> bool {
    forall|i: int, j: int|
        0 <= i < j < entries.len() ==> precedes(#[trigger] entries[i].name, #[trigger] entries[j].name)
}

/// `entries` lists `mapping`: in ascending order of the names, each name
/// once with its dependency.
pub open spec fn lists(entries: Seq<EntryView>, mapping: Map<Seq<char>, DependencyView>) -> bool {
    ascending(entries) && map_of(entries) == mapping
}

/// The listing of a finite mapping: its entries in ascending order of the
/// names.
pub open spec fn listing_of(mapping: Map<Seq<char>, DependencyView>) -> Seq<EntryView> {
    choose|entries: Seq<EntryView>| lists(entries, mapping)
}

/// The names that `map_of` maps are those of the entries.
pub proof fn lemma_map_of_names(entries: Seq<EntryView>)
    ensures
        map_of(entries).dom().finite(),
        forall|i: int| 0 <= i < entries.len() ==> map_of(entries).contains_key(#[trigger] entries[i].name),
        forall|name: Seq<char>| #[trigger]
            map_of(entries).contains_key(name) ==> exists|i: int|
                0 <= i < entries.len() && #[trigger] entries[i].name == name,
    decreases entries.len(),
{
    if entries.len() > 0 {
        let front = entries.drop_last();
        lemma_map_of_names(front);
        assert forall|i: int| 0 <= i < entries.len() implies map_of(entries).contains_key(
            #[trigger] entries[i].name,
        ) by {
            if i < front.len() {
                assert(front[i].name == entries[i].name);
            }
        }
        assert forall|name: Seq<char>| #[trigger] map_of(entries).contains_key(name) implies exists|
            i: int,
        |
            0 <= i < entries.len() && #[trigger] entries[i].name == name by {
            if name == entries.last().name {
                assert(entries[entries.len() - 1].name == name);
            } else {
                assert(map_of(front).contains_key(name));
                let i = choose|i: int| 0 <= i < front.len() && #[trigger] front[i].name == name;
                assert(entries[i].name == name);
            }
        }
    }
}

/// Under ascending names each entry is found under its own name.
pub proof fn lemma_map_of_ascending(entries: Seq<EntryView>)
    requires
        ascending(entries),
    ensures
        forall|i: int|
            0 <= i < entries.len() ==> map_of(entries)[#[trigger] entries[i].name]
                == entries[i].dependency,
    decreases entries.len(),
{
    if entries.len() > 0 {
        let front = entries.drop_last();
        assert(ascending(front)) by {
            assert forall|i: int, j: int| 0 <= i < j < front.len() implies precedes(
                #[trigger] front[i].name,
                #[trigger] front[j].name,
            ) by {
                assert(precedes(entries[i].name, entries[j].name));
            }
        }
        lemma_map_of_ascending(front);
        assert forall|i: int| 0 <= i < entries.len() implies map_of(entries)[#[trigger] entries[i].name]
            == entries[i].dependency by {
            if i < front.len() {
                assert(front[i] == entries[i]);
                assert(precedes(entries[i].name, entries[entries.len() - 1].name));
                lemma_precedes_irreflexive(entries[i].name);
            }
        }
    }
}

/// A mapping has at most one listing.
pub proof fn lemma_listing_unique(a: Seq<EntryView>, b: Seq<EntryView>)
    requires
        ascending(a),
        ascending(b),
        map_of(a) == map_of(b),
    ensures
        a == b,
    decreases a.len(),
{
    lemma_map_of_names(a);
    lemma_map_of_names(b);
    lemma_map_of_ascending(a);
    lemma_map_of_ascending(b);
    if a.len() == 0 {
        if b.len() > 0 {
            assert(map_of(b).contains_key(b[0].name));
        }
        assert(a =~= b);
    } else if b.len() == 0 {
        assert(map_of(a).contains_key(a[0].name));
    } else {
        let x = a.last();
        let y = b.last();
        assert(map_of(b).contains_key(a[a.len() - 1].name));
        assert(map_of(a).contains_key(b[b.len() - 1].name));
        let j = choose|j: int| 0 <= j < b.len() && #[trigger] b[j].name == x.name;
        let i = choose|i: int| 0 <= i < a.len() && #[trigger] a[i].name == y.name;
        if x.name != y.name {
            assert(precedes(b[j].name, b[b.len() - 1].name));
            assert(precedes(a[i].name, a[a.len() - 1].name));
            lemma_precedes_total(x.name, y.name);
        }
        assert(x.dependency == map_of(a)[a[a.len() - 1].name]);
        assert(y.dependency == map_of(b)[b[b.len() - 1].name]);
        assert(x == y);
        lemma_map_of_front(a);
        lemma_map_of_front(b);
        lemma_ascending_front(a);
        lemma_ascending_front(b);
        lemma_listing_unique(a.drop_last(), b.drop_last());
        assert(a =~= a.drop_last().push(x));
        assert(b =~= b.drop_last().push(y));
    }
}

/// Leaving out the last entry of an ascending run leaves an ascending run.
pub proof fn lemma_ascending_front(entries: Seq<EntryView>)
    requires
        ascending(entries),
        entries.len() > 0,
    ensures
        ascending(entries.drop_last()),
{
    let front = entries.drop_last();
    assert forall|i: int, j: int| 0 <= i < j < front.len() implies precedes(
        #[trigger] front[i].name,
        #[trigger] front[j].name,
    ) by {
        assert(precedes(entries[i].name, entries[j].name));
    }
}

/// Leaving out the last entry of an ascending run removes its name from the
/// mapping.
pub proof fn lemma_map_of_front(entries: Seq<EntryView>)
    requires
        ascending(entries),
        entries.len() > 0,
    ensures
        map_of(entries.drop_last()) == map_of(entries).remove(entries.last().name),
{
    let front = entries.drop_last();
    lemma_map_of_names(front);
    assert(!map_of(front).contains_key(entries.last().name)) by {
        if map_of(front).contains_key(entries.last().name) {
            let i = choose|i: int| 0 <= i < front.len() && #[trigger] front[i].name == entries.last().name;
            assert(precedes(entries[i].name, entries[entries.len() - 1].name));
            lemma_precedes_irreflexive(entries[i].name);
        }
    }
    assert(map_of(front) =~= map_of(entries).remove(entries.last().name));
}

/// Putting an entry between the names that precede its own and those that
/// its own precedes keeps the run ascending and adds the entry to the
/// mapping.
pub proof fn lemma_insert_at(entries: Seq<EntryView>, at: int, entry: EntryView)
    requires
        ascending(entries),
        0 <= at <= entries.len(),
        forall|j: int| 0 <= j < at ==> precedes(#[trigger] entries[j].name, entry.name),
        forall|j: int| at <= j < entries.len() ==> precedes(entry.name, #[trigger] entries[j].name),
    ensures
        ascending(entries.insert(at, entry)),
        map_of(entries.insert(at, entry)) == map_of(entries).insert(entry.name, entry.dependency),
{
    let grown = entries.insert(at, entry);
    assert forall|i: int, j: int| 0 <= i < j < grown.len() implies precedes(
        #[trigger] grown[i].name,
        #[trigger] grown[j].name,
    ) by {
        if j < at {
            assert(precedes(entries[i].name, entries[j].name));
        } else if j == at {
            assert(precedes(entries[i].name, entry.name));
        } else if i < at {
            assert(precedes(entries[i].name, entries[j - 1].name));
        } else if i == at {
            assert(precedes(entry.name, entries[j - 1].name));
        } else {
            assert(precedes(entries[i - 1].name, entries[j - 1].name));
        }
    }
    lemma_map_of_names(entries);
    lemma_map_of_names(grown);
    lemma_map_of_ascending(entries);
    lemma_map_of_ascending(grown);
    let wanted = map_of(entries).insert(entry.name, entry.dependency);
    assert forall|name: Seq<char>| map_of(grown).contains_key(name) implies wanted.contains_key(
        name,
    ) && map_of(grown)[name] == wanted[name] by {
        let k = choose|k: int| 0 <= k < grown.len() && #[trigger] grown[k].name == name;
        if k < at {
            assert(entries[k].name == name);
            lemma_precedes_irreflexive(name);
        } else if k > at {
            assert(entries[k - 1].name == name);
            lemma_precedes_irreflexive(name);
        }
    }
    assert forall|name: Seq<char>| wanted.contains_key(name) implies map_of(grown).contains_key(
        name,
    ) by {
        if name == entry.name {
            assert(grown[at].name == name);
        } else {
            let k = choose|k: int| 0 <= k < entries.len() && #[trigger] entries[k].name == name;
            if k < at {
                assert(grown[k].name == name);
            } else {
                assert(grown[k + 1].name == name);
            }
        }
    }
    assert(map_of(grown) =~= wanted);
}

/// Replacing an entry by one of the same name keeps the run ascending and
/// replaces the dependency in the mapping.
pub proof fn lemma_update_at(entries: Seq<EntryView>, at: int, entry: EntryView)
    requires
        ascending(entries),
        0 <= at < entries.len(),
        entries[at].name == entry.name,
    ensures
        ascending(entries.update(at, entry)),
        map_of(entries.update(at, entry)) == map_of(entries).insert(entry.name, entry.dependency),
{
    let changed = entries.update(at, entry);
    assert forall|i: int, j: int| 0 <= i < j < changed.len() implies precedes(
        #[trigger] changed[i].name,
        #[trigger] changed[j].name,
    ) by {
        assert(precedes(entries[i].name, entries[j].name));
    }
    lemma_map_of_names(entries);
    lemma_map_of_names(changed);
    lemma_map_of_ascending(entries);
    lemma_map_of_ascending(changed);
    let wanted = map_of(entries).insert(entry.name, entry.dependency);
    assert forall|name: Seq<char>| map_of(changed).contains_key(name) implies wanted.contains_key(
        name,
    ) && map_of(changed)[name] == wanted[name] by {
        let k = choose|k: int| 0 <= k < changed.len() && #[trigger] changed[k].name == name;
        assert(entries[k].name == name);
    }
    assert forall|name: Seq<char>| wanted.contains_key(name) implies map_of(changed).contains_key(
        name,
    ) by {
        if name == entry.name {
            assert(changed[at].name == name);
        } else {
            let k = choose|k: int| 0 <= k < entries.len() && #[trigger] entries[k].name == name;
            assert(changed[k].name == name);
        }
    }
    assert(map_of(changed) =~= wanted);
}

/// An ascending run maps as many names as it has entries.
pub proof fn lemma_map_of_len(entries: Seq<EntryView>)
    requires
        ascending(entries),
    ensures
        map_of(entries).dom().finite(),
        map_of(entries).len() == entries.len(),
    decreases entries.len(),
{
    lemma_map_of_names(entries);
    if entries.len() > 0 {
        lemma_ascending_front(entries);
        lemma_map_of_front(entries);
        lemma_map_of_len(entries.drop_last());
        lemma_map_of_names(entries.drop_last());
        assert(map_of(entries).contains_key(entries[entries.len() - 1].name));
    }
}

/// Where an entry named `name` belongs in an ascending run: behind the
/// entries whose names precede it.
pub open spec fn slot(entries: Seq<EntryView>, name: Seq<char>) -> nat
    decreases entries.len(),
{
    if entries.len() == 0 {
        0
    } else if precedes(entries.last().name, name) {
        entries.len()
    } else {
        slot(entries.drop_last(), name)
    }
}

/// The names before the slot precede `name`, and none from the slot on does.
pub proof fn lemma_slot(entries: Seq<EntryView>, name: Seq<char>)
    requires
        ascending(entries),
    ensures
        slot(entries, name) <= entries.len(),
        forall|j: int| 0 <= j < slot(entries, name) ==> precedes(#[trigger] entries[j].name, name),
        forall|j: int|
            slot(entries, name) <= j < entries.len() ==> !precedes(#[trigger] entries[j].name, name),
    decreases entries.len(),
{
    if entries.len() > 0 {
        let last = entries.len() - 1;
        if precedes(entries.last().name, name) {
            assert forall|j: int| 0 <= j < entries.len() implies precedes(
                #[trigger] entries[j].name,
                name,
            ) by {
                if j < last {
                    assert(precedes(entries[j].name, entries[last].name));
                    lemma_precedes_transitive(entries[j].name, entries[last].name, name);
                }
            }
        } else {
            let front = entries.drop_last();
            lemma_ascending_front(entries);
            lemma_slot(front, name);
            assert forall|j: int| 0 <= j < slot(entries, name) implies precedes(
                #[trigger] entries[j].name,
                name,
            ) by {
                assert(front[j].name == entries[j].name);
            }
            assert forall|j: int| slot(entries, name) <= j < entries.len() implies !precedes(
                #[trigger] entries[j].name,
                name,
            ) by {
                if j < last {
                    assert(front[j].name == entries[j].name);
                }
            }
        }
    }
}

/// Every finite mapping has a listing, which `listing_of` names.
pub proof fn lemma_listing_exists(mapping: Map<Seq<char>, DependencyView>)
    requires
        mapping.dom().finite(),
    ensures
        lists(listing_of(mapping), mapping),
    decreases mapping.dom().len(),
{
    if mapping.dom().len() == 0 {
        assert(mapping.dom() =~= Set::empty());
        assert(map_of(Seq::<EntryView>::empty()) =~= mapping);
        assert(lists(Seq::<EntryView>::empty(), mapping));
    } else {
        let name = mapping.dom().choose();
        let rest = mapping.remove(name);
        lemma_listing_exists(rest);
        let listed = listing_of(rest);
        let entry = EntryView { name, dependency: mapping[name] };
        let at = slot(listed, name) as int;
        lemma_slot(listed, name);
        lemma_map_of_names(listed);
        assert forall|j: int| at <= j < listed.len() implies precedes(
            name,
            #[trigger] listed[j].name,
        ) by {
            assert(rest.contains_key(listed[j].name));
            lemma_precedes_total(listed[j].name, name);
        }
        lemma_insert_at(listed, at, entry);
        assert(rest.insert(name, mapping[name]) =~= mapping);
        assert(lists(listed.insert(at, entry), mapping));
    }
}

/// The listing of a finite mapping holds each of its names once, with the
/// dependency declared under it, and nothing else.
pub proof fn lemma_listing(mapping: Map<Seq<char>, DependencyView>)
    requires
        mapping.dom().finite(),
    ensures
        ascending(listing_of(mapping)),
        map_of(listing_of(mapping)) == mapping,
        listing_of(mapping).len() == mapping.len(),
        forall|i: int|
            0 <= i < listing_of(mapping).len() ==> mapping.contains_key(
                #[trigger] listing_of(mapping)[i].name,
            ) && mapping[listing_of(mapping)[i].name] == listing_of(mapping)[i].dependency,
        forall|i: int, j: int|
            0 <= i < j < listing_of(mapping).len() ==> #[trigger] listing_of(mapping)[i].name
                != #[trigger] listing_of(mapping)[j].name,
        forall|name: Seq<char>| #[trigger]
            mapping.contains_key(name) ==> exists|i: int|
                0 <= i < listing_of(mapping).len() && #[trigger] listing_of(mapping)[i].name == name,
{
    let listed = listing_of(mapping);
    lemma_listing_exists(mapping);
    lemma_map_of_len(listed);
    lemma_map_of_names(listed);
    lemma_map_of_ascending(listed);
    assert forall|i: int, j: int| 0 <= i < j < listed.len() implies #[trigger] listed[i].name
        != #[trigger] listed[j].name by {
        assert(precedes(listed[i].name, listed[j].name));
        lemma_precedes_irreflexive(listed[i].name);
    }
}

/// Listing a finite mapping and putting the entries together again gives
/// the mapping back, and an ascending run of entries is the listing of the
/// mapping that it declares: what is written out and read in again is the
/// same manifest.
pub proof fn law_listing_round_trip(mapping: Map<Seq<char>, DependencyView>)
    requires
        mapping.dom().finite(),
    ensures
        map_of(listing_of(mapping)) == mapping,
        forall|entries: Seq<EntryView>|
            ascending(entries) && #[trigger] map_of(entries) == mapping ==> listing_of(mapping)
                == entries,
{
    lemma_listing_exists(mapping);
    assert forall|entries: Seq<EntryView>|
        ascending(entries) && #[trigger] map_of(entries) == mapping implies listing_of(mapping)
        == entries by {
        lemma_listing_unique(listing_of(mapping), entries);
    }
}

/// The declared dependencies, each under its name. No name occurs twice, and
/// the entries are kept in ascending order of the names.
#[derive(Debug, PartialEq, Eq)]
pub struct Dependencies {
    entries: Vec<Entry>,
}

impl View for Dependencies {
    type V = Map<Seq<char>, DependencyView>;

    closed spec fn view(&self) -> Map<Seq<char>, DependencyView> {
        map_of(views(self.entries@))
    }
}

/// Copies a run of entries.
fn copy_entries(entries: &Vec<Entry>) -> (copy: Vec<Entry>)
    ensures
        views(copy@) == views(entries@),
{
    let mut copy: Vec<Entry> = Vec::new();
    let mut i: usize = 0;
    while i < entries.len()
        invariant
            i <= entries.len(),
            copy.len() == i,
            forall|k: int| 0 <= k < i ==> copy[k]@ == entries[k]@,
        decreases entries.len() - i,
    {
        copy.push(entries[i].clone());
        i = i + 1;
    }
    assert(views(copy@) =~= views(entries@));
    copy
}

impl Dependencies {
    #[verifier::type_invariant]
    spec fn ordered(self) -> bool {
        ascending(views(self.entries@))
    }

    /// No dependencies.
    pub fn new() -> (dependencies: Dependencies)
        ensures
            dependencies@ == Map::<Seq<char>, DependencyView>::empty(),
    {
        Dependencies { entries: Vec::new() }
    }

    /// The dependencies that `entries` declare, a later entry replacing an
    /// earlier one of the same name.
    pub fn from_entries(entries: Vec<Entry>) -> (dependencies: Dependencies)
        ensures
            dependencies@ == map_of(views(entries@)),
    {
        let mut dependencies = Dependencies::new();
        let mut i: usize = 0;
        while i < entries.len()
            invariant
                i <= entries.len(),
                dependencies@ == map_of(views(entries@.take(i as int))),
            decreases entries.len() - i,
        {
            let entry = entries[i].clone();
            dependencies.insert(entry.name, entry.dependency);
            i = i + 1;
            proof {
                let now = views(entries@.take(i as int));
                assert(now.drop_last() =~= views(entries@.take(i - 1)));
            }
        }
        assert(entries@.take(i as int) =~= entries@);
        dependencies
    }

    /// How many dependencies are declared.
    pub fn len(&self) -> (count: usize)
        ensures
            self@.dom().finite(),
            count == self@.len(),
    {
        proof {
            use_type_invariant(self);
            lemma_map_of_len(views(self.entries@));
        }
        self.entries.len()
    }

    /// Whether no dependency is declared.
    pub fn is_empty(&self) -> (empty: bool)
        ensures
            empty == (self@ == Map::<Seq<char>, DependencyView>::empty()),
    {
        proof {
            use_type_invariant(self);
            lemma_map_of_names(views(self.entries@));
            if self.entries.len() > 0 {
                assert(self@.contains_key(views(self.entries@)[0].name));
            }
        }
        self.entries.len() == 0
    }

    /// The dependency declared under `name`, if there is one.
    pub fn get(&self, name: &str) -> (found: Option<&Dependency>)
        ensures
            match found {
                Some(dependency) => self@.contains_key(name@) && self@[name@] == dependency@,
                None => !self@.contains_key(name@),
            },
    {
        let ghost listed = views(self.entries@);
        proof {
            use_type_invariant(self);
            lemma_map_of_names(listed);
            lemma_map_of_ascending(listed);
        }
        let mut i: usize = 0;
        while i < self.entries.len()
            invariant
                i <= self.entries.len(),
                listed == views(self.entries@),
                forall|j: int| 0 <= j < i ==> (#[trigger] listed[j]).name != name@,
                forall|j: int|
                    0 <= j < listed.len() ==> map_of(listed).contains_key(#[trigger] listed[j].name)
                        && map_of(listed)[listed[j].name] == listed[j].dependency,
            decreases self.entries.len() - i,
        {
            if compare(self.entries[i].name.as_str(), name) == Order::Same {
                assert(listed[i as int].name == name@);
                return Some(&self.entries[i].dependency);
            }
            i = i + 1;
        }
        None
    }

    /// Whether a dependency is declared under `name`.
    pub fn contains_key(&self, name: &str) -> (found: bool)
        ensures
            found == self@.contains_key(name@),
    {
        self.get(name).is_some()
    }

    /// Declares `dependency` under `name`, in place of what was declared
    /// under that name before, which is returned.
    pub fn insert(&mut self, name: String, dependency: Dependency) -> (previous: Option<Dependency>)
        ensures
            final(self)@ == old(self)@.insert(name@, dependency@),
            match previous {
                Some(replaced) => old(self)@.contains_key(name@) && old(self)@[name@] == replaced@,
                None => !old(self)@.contains_key(name@),
            },
    {
        proof {
            use_type_invariant(&*self);
        }
        let mut taken = Dependencies::new();
        std::mem::swap(self, &mut taken);
        let mut entries = taken.entries;
        let ghost before = views(entries@);
        proof {
            lemma_map_of_names(before);
            lemma_map_of_ascending(before);
        }
        let entry = Entry { name, dependency };
        let mut at: usize = 0;
        while at < entries.len()
            invariant
                at <= entries.len(),
                before == views(entries@),
                forall|j: int| 0 <= j < at ==> precedes(#[trigger] before[j].name, entry@.name),
            ensures
                at <= entries.len(),
                at < entries.len() ==> !precedes(before[at as int].name, entry@.name),
            decreases entries.len() - at,
        {
            match compare(entries[at].name.as_str(), entry.name.as_str()) {
                Order::Before => {
                    at = at + 1;
                },
                _ => {
                    proof {
                        lemma_precedes_irreflexive(entry@.name);
                    }
                    break ;
                },
            }
        }
        if at < entries.len() && compare(entries[at].name.as_str(), entry.name.as_str())
            == Order::Same {
            proof {
                lemma_update_at(before, at as int, entry@);
                assert(views(entries@.update(at as int, entry)) =~= before.update(at as int, entry@));
            }
            let mut replaced = entry;
            std::mem::swap(&mut entries[at], &mut replaced);
            *self = Dependencies { entries };
            Some(replaced.dependency)
        } else {
            proof {
                assert forall|j: int| at <= j < before.len() implies precedes(
                    entry@.name,
                    #[trigger] before[j].name,
                ) by {
                    lemma_precedes_total(before[at as int].name, entry@.name);
                    if j > at {
                        assert(precedes(before[at as int].name, before[j].name));
                        lemma_precedes_transitive(entry@.name, before[at as int].name, before[j].name);
                    }
                }
                lemma_insert_at(before, at as int, entry@);
                assert(views(entries@.insert(at as int, entry)) =~= before.insert(at as int, entry@));
                if map_of(before).contains_key(entry@.name) {
                    let k = choose|k: int| 0 <= k < before.len() && #[trigger] before[k].name == entry@.name;
                    lemma_precedes_irreflexive(entry@.name);
                }
            }
            entries.insert(at, entry);
            *self = Dependencies { entries };
            None
        }
    }

    /// The entries in ascending order of the names.
    pub fn entries(&self) -> (entries: Vec<Entry>)
        ensures
            lists(views(entries@), self@),
            views(entries@) == listing_of(self@),
    {
        proof {
            use_type_invariant(self);
            let listed = views(self.entries@);
            assert(lists(listed, self@));
            lemma_listing_unique(listed, listing_of(self@));
        }
        copy_entries(&self.entries)
    }

    /// The entries in ascending order of the names.
    pub fn into_entries(self) -> (entries: Vec<Entry>)
        ensures
            lists(views(entries@), self@),
            views(entries@) == listing_of(self@),
    {
        proof {
            use_type_invariant(&self);
            let listed = views(self.entries@);
            assert(lists(listed, self@));
            lemma_listing_unique(listed, listing_of(self@));
        }
        self.entries
    }
}

impl Clone for Dependencies {
    fn clone(&self) -> (copy: Dependencies)
        ensures
            copy@ == self@,
    {
        proof {
            use_type_invariant(self);
        }
        Dependencies { entries: copy_entries(&self.entries) }
    }
}

impl Default for Dependencies {
    fn default() -> (dependencies: Dependencies)
        ensures
            dependencies@ == Map::<Seq<char>, DependencyView>::empty(),
    {
        Dependencies::new()
    }
}

/// The version that a new manifest is tagged with.
pub const VERSION: &'static str = "0.1.0";

/// The manifest: a version tag and the declared dependencies.
#[derive(Debug, PartialEq, Eq)]
pub struct Config {
    pub version: String,
    pub dependencies: Dependencies,
}

/// What a [`Config`] holds.
pub struct ConfigView {
    pub version: Seq<char>,
    pub dependencies: Map<Seq<char>, DependencyView>,
}

impl View for Config {
    type V = ConfigView;

    open spec fn view(&self) -> ConfigView {
        ConfigView { version: self.version@, dependencies: self.dependencies@ }
    }
}

/// The manifest of a workspace that was just initialized: tagged with
/// [`VERSION`], and without dependencies.
pub open spec fn initial_manifest() -> ConfigView {
    ConfigView { version: VERSION@, dependencies: Map::empty() }
}

impl Config {
    /// The manifest of a workspace that was just initialized.
    pub fn new() -> (manifest: Config)
        ensures
            manifest@ == initial_manifest(),
    {
        Config { version: VERSION.to_owned(), dependencies: Dependencies::new() }
    }
}

impl Clone for Config {
    fn clone(&self) -> (copy: Config)
        ensures
            copy@ == self@,
    {
        Config { version: self.version.clone(), dependencies: self.dependencies.clone() }
    }
}

impl Default for Config {
    fn default() -> (manifest: Config)
        ensures
            manifest@ == (ConfigView { version: Seq::empty(), dependencies: Map::empty() }),
    {
        Config { version: String::new(), dependencies: Dependencies::new() }
    }
}

} // verus!
