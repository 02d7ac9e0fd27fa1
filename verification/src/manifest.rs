//! The dependency tables of a manifest, as the diff reads them.
//!
//! A table maps each dependency key to what the manifest says of it. It is
//! walked in the order of its keys.

use crate::text::{
    copy_optional_text, copy_text, key_before, key_order, lemma_key_order, optional_text, KeyOrder,
};
use vstd::prelude::*;
use vstd::string::*;

verus! {

/// A crate by name and version.
#[derive(Debug, PartialEq, Eq, Hash)]
pub struct CargoCrate {
    pub name: String,
    pub version: String,
}

/// A dependency written as a table with a `version`.
#[derive(Debug, PartialEq, Eq)]
pub struct DetailedCargoDependency {
    pub version: String,
    pub package: Option<String>,
}

/// A dependency taken from a git repository.
#[derive(Debug, PartialEq, Eq)]
pub struct GitCargoDependency {
    pub git: String,
    pub package: Option<String>,
}

/// What a manifest says of one dependency.
#[derive(Debug, PartialEq, Eq)]
pub enum CargoDependencyValue {
    Simple(String),
    Detailed(DetailedCargoDependency),
    Git(GitCargoDependency),
}

/// What a manifest says of one dependency, as contracts speak of it.
pub enum DependencySpec {
    Simple { version: Seq<char> },
    Detailed { version: Seq<char>, package: Option<Seq<char>> },
    Git { git: Seq<char>, package: Option<Seq<char>> },
}

impl View for CargoDependencyValue {
    type V = DependencySpec;

    open spec fn view(&self) -> DependencySpec {
        match self {
            CargoDependencyValue::Simple(version) => DependencySpec::Simple { version: version@ },
            CargoDependencyValue::Detailed(detailed) => DependencySpec::Detailed {
                version: detailed.version@,
                package: optional_text(detailed.package),
            },
            CargoDependencyValue::Git(git) => DependencySpec::Git {
                git: git.git@,
                package: optional_text(git.package),
            },
        }
    }
}

impl CargoDependencyValue {
    /// A copy of this value.
    pub fn duplicate(&self) -> (copy: CargoDependencyValue)
        ensures
            copy@ == self@,
    {
        match self {
            CargoDependencyValue::Simple(version) => CargoDependencyValue::Simple(
                copy_text(version.as_str()),
            ),
            CargoDependencyValue::Detailed(detailed) => CargoDependencyValue::Detailed(
                DetailedCargoDependency {
                    version: copy_text(detailed.version.as_str()),
                    package: copy_optional_text(&detailed.package),
                },
            ),
            CargoDependencyValue::Git(git) => CargoDependencyValue::Git(
                GitCargoDependency {
                    git: copy_text(git.git.as_str()),
                    package: copy_optional_text(&git.package),
                },
            ),
        }
    }
}

/// One line of a dependency table.
#[derive(Debug, PartialEq, Eq)]
pub struct DependencyEntry {
    pub key: String,
    pub value: CargoDependencyValue,
}

impl DependencyEntry {
    /// A copy of this entry.
    pub fn duplicate(&self) -> (copy: DependencyEntry)
        ensures
            copy@ == self@,
    {
        DependencyEntry { key: copy_text(self.key.as_str()), value: self.value.duplicate() }
    }
}

/// One line of a dependency table, as contracts speak of it.
pub struct EntrySpec {
    pub key: Seq<char>,
    pub value: DependencySpec,
}

impl View for DependencyEntry {
    type V = EntrySpec;

    open spec fn view(&self) -> EntrySpec {
        EntrySpec { key: self.key@, value: self.value@ }
    }
}

/// The views of a list of entries.
pub open spec fn entry_views(entries: Seq<DependencyEntry>) -> Seq<EntrySpec> {
    entries.map_values(|e: DependencyEntry| e@)
}

/// The views of a list that grew by one entry.
pub proof fn lemma_entry_views_push(entries: Seq<DependencyEntry>, entry: DependencyEntry)
    ensures
        entry_views(entries.push(entry)) == entry_views(entries).push(entry@),
{
    assert(entry_views(entries.push(entry)) =~= entry_views(entries).push(entry@));
}

/// Copies the entries from `from` up to `to` to the end of `into`.
fn copy_entries(
    source: &Vec<DependencyEntry>,
    from: usize,
    to: usize,
    into: &mut Vec<DependencyEntry>,
)
    requires
        from <= to <= source@.len(),
    ensures
        entry_views(final(into)@) == entry_views(old(into)@) + entry_views(source@).subrange(
            from as int,
            to as int,
        ),
{
    let ghost start = entry_views(into@);
    let mut index: usize = from;
    proof {
        assert(start =~= start + entry_views(source@).subrange(from as int, from as int));
    }
    while index < to
        invariant
            from <= index <= to,
            to <= source@.len(),
            entry_views(into@) == start + entry_views(source@).subrange(from as int, index as int),
        decreases to - index,
    {
        let copy = source[index].duplicate();
        proof {
            lemma_entry_views_push(into@, copy);
            assert(entry_views(into@).push(copy@) =~= start + entry_views(source@).subrange(
                from as int,
                index as int + 1,
            ));
        }
        into.push(copy);
        index = index + 1;
    }
}

/// The keys rise strictly from each entry to the next, so no key stands
/// twice.
pub open spec fn sorted_by_key(entries: Seq<EntrySpec>) -> bool {
    forall|i: int, j: int|
        0 <= i < j < entries.len() ==> key_before(
            (#[trigger] entries[i]).key,
            (#[trigger] entries[j]).key,
        )
}

/// The value that stands under a key, if the key is there.
pub open spec fn lookup(entries: Seq<EntrySpec>, key: Seq<char>) -> Option<DependencySpec>
    decreases entries.len(),
{
    if entries.len() == 0 {
        None
    } else if entries.last().key == key {
        Some(entries.last().value)
    } else {
        lookup(entries.drop_last(), key)
    }
}

/// The number of entries whose key comes before `key`.
pub open spec fn rank(entries: Seq<EntrySpec>, key: Seq<char>) -> nat
    decreases entries.len(),
{
    if entries.len() == 0 {
        0
    } else {
        rank(entries.drop_last(), key) + if key_before(entries.last().key, key) {
            1nat
        } else {
            0nat
        }
    }
}

/// A table after an entry was put in: it takes the place of the entry with
/// its key, or where there is none the place that keeps the keys in order.
pub open spec fn inserted(entries: Seq<EntrySpec>, entry: EntrySpec) -> Seq<EntrySpec> {
    let place = rank(entries, entry.key) as int;
    if place < entries.len() && entries[place].key == entry.key {
        entries.update(place, entry)
    } else {
        entries.insert(place, entry)
    }
}

/// In a table in key order, the entries before `place` are those whose key
/// comes before `key`, when the key at `place` does not.
pub proof fn lemma_rank_is_place(entries: Seq<EntrySpec>, key: Seq<char>, place: int)
    requires
        sorted_by_key(entries),
        0 <= place <= entries.len(),
        forall|i: int| 0 <= i < place ==> key_before((#[trigger] entries[i]).key, key),
        place < entries.len() ==> !key_before(entries[place].key, key),
    ensures
        rank(entries, key) == place,
    decreases entries.len(),
{
    if entries.len() > 0 {
        let rest = entries.drop_last();
        let last = entries.len() - 1;
        assert forall|i: int, j: int| 0 <= i < j < rest.len() implies key_before(
            (#[trigger] rest[i]).key,
            (#[trigger] rest[j]).key,
        ) by {
            assert(rest[i] == entries[i]);
            assert(rest[j] == entries[j]);
        }
        if place <= last {
            if place < last {
                lemma_key_order(entries[place].key, entries[last].key, key);
            }
            assert(!key_before(entries[last].key, key));
            assert forall|i: int| 0 <= i < place implies key_before(
                (#[trigger] rest[i]).key,
                key,
            ) by {
                assert(rest[i] == entries[i]);
            }
            if place < rest.len() {
                assert(rest[place] == entries[place]);
            }
            lemma_rank_is_place(rest, key, place);
        } else {
            assert forall|i: int| 0 <= i < last implies key_before(
                (#[trigger] rest[i]).key,
                key,
            ) by {
                assert(rest[i] == entries[i]);
            }
            lemma_rank_is_place(rest, key, last);
        }
    }
}

/// A key that stands at `place` in a table in key order is found there.
pub proof fn lemma_lookup_finds(entries: Seq<EntrySpec>, place: int)
    requires
        sorted_by_key(entries),
        0 <= place < entries.len(),
    ensures
        lookup(entries, entries[place].key) == Some(entries[place].value),
    decreases entries.len(),
{
    let last = entries.len() - 1;
    if place < last {
        lemma_key_order(entries[place].key, entries[last].key, entries[place].key);
        let rest = entries.drop_last();
        assert forall|i: int, j: int| 0 <= i < j < rest.len() implies key_before(
            (#[trigger] rest[i]).key,
            (#[trigger] rest[j]).key,
        ) by {
            assert(rest[i] == entries[i]);
            assert(rest[j] == entries[j]);
        }
        assert(rest[place] == entries[place]);
        lemma_lookup_finds(rest, place);
    }
}

/// A key that no entry holds is not found.
pub proof fn lemma_lookup_misses(entries: Seq<EntrySpec>, key: Seq<char>)
    requires
        forall|i: int| 0 <= i < entries.len() ==> (#[trigger] entries[i]).key != key,
    ensures
        lookup(entries, key) is None,
    decreases entries.len(),
{
    if entries.len() > 0 {
        let rest = entries.drop_last();
        assert(entries.last() == entries[entries.len() - 1]);
        assert forall|i: int| 0 <= i < rest.len() implies (#[trigger] rest[i]).key != key by {
            assert(rest[i] == entries[i]);
        }
        lemma_lookup_misses(rest, key);
    }
}

/// A table in key order stays in key order when the value under one of its
/// keys is replaced.
proof fn lemma_replaced_keeps_order(entries: Seq<EntrySpec>, place: int, entry: EntrySpec)
    requires
        sorted_by_key(entries),
        0 <= place < entries.len(),
        entries[place].key == entry.key,
    ensures
        sorted_by_key(entries.update(place, entry)),
{
    let after = entries.update(place, entry);
    assert forall|i: int, j: int| 0 <= i < j < after.len() implies key_before(
        (#[trigger] after[i]).key,
        (#[trigger] after[j]).key,
    ) by {
        assert(after[i].key == entries[i].key);
        assert(after[j].key == entries[j].key);
    }
}

/// A table in key order stays in key order when an entry is put between the
/// keys that come before its key and those that come after.
proof fn lemma_placed_keeps_order(entries: Seq<EntrySpec>, place: int, entry: EntrySpec)
    requires
        sorted_by_key(entries),
        0 <= place <= entries.len(),
        forall|i: int| 0 <= i < place ==> key_before((#[trigger] entries[i]).key, entry.key),
        forall|i: int|
            place <= i < entries.len() ==> key_before(entry.key, (#[trigger] entries[i]).key),
    ensures
        sorted_by_key(entries.insert(place, entry)),
{
    let after = entries.insert(place, entry);
    assert forall|i: int, j: int| 0 <= i < j < after.len() implies key_before(
        (#[trigger] after[i]).key,
        (#[trigger] after[j]).key,
    ) by {
        if j < place {
            assert(after[i] == entries[i]);
            assert(after[j] == entries[j]);
        } else if j == place {
            assert(after[i] == entries[i]);
        } else if i < place {
            assert(after[i] == entries[i]);
            assert(after[j] == entries[j - 1]);
        } else if i == place {
            assert(after[j] == entries[j - 1]);
        } else {
            assert(after[i] == entries[i - 1]);
            assert(after[j] == entries[j - 1]);
        }
    }
}

/// Replacing the value under one key leaves what stands under every other
/// key.
proof fn lemma_replaced_keeps_others(
    entries: Seq<EntrySpec>,
    place: int,
    entry: EntrySpec,
    other: Seq<char>,
)
    requires
        0 <= place < entries.len(),
        entries[place].key == entry.key,
        other != entry.key,
    ensures
        lookup(entries.update(place, entry), other) == lookup(entries, other),
    decreases entries.len(),
{
    let after = entries.update(place, entry);
    let last = entries.len() - 1;
    if place == last {
        assert(after.drop_last() =~= entries.drop_last());
    } else {
        assert(after.last() == entries.last());
        assert(after.drop_last() =~= entries.drop_last().update(place, entry));
        lemma_replaced_keeps_others(entries.drop_last(), place, entry, other);
    }
}

/// Putting in an entry under a new key leaves what stands under every other
/// key.
proof fn lemma_placed_keeps_others(
    entries: Seq<EntrySpec>,
    place: int,
    entry: EntrySpec,
    other: Seq<char>,
)
    requires
        0 <= place <= entries.len(),
        other != entry.key,
    ensures
        lookup(entries.insert(place, entry), other) == lookup(entries, other),
    decreases entries.len(),
{
    let after = entries.insert(place, entry);
    let last = entries.len();
    if place == last {
        assert(after.last() == entry);
        assert(after.drop_last() =~= entries);
    } else {
        assert(after.last() == entries.last());
        assert(after.drop_last() =~= entries.drop_last().insert(place, entry));
        lemma_placed_keeps_others(entries.drop_last(), place, entry, other);
    }
}

/// Putting an entry into a table in key order leaves a table in key order
/// that holds the entry under its key and every other key as before.
pub proof fn lemma_inserted(entries: Seq<EntrySpec>, entry: EntrySpec, other: Seq<char>)
    requires
        sorted_by_key(entries),
    ensures
        sorted_by_key(inserted(entries, entry)),
        lookup(inserted(entries, entry), entry.key) == Some(entry.value),
        other != entry.key ==> lookup(inserted(entries, entry), other) == lookup(entries, other),
{
    let place = rank(entries, entry.key) as int;
    lemma_rank_splits(entries, entry.key);
    let after = inserted(entries, entry);
    if place < entries.len() && entries[place].key == entry.key {
        lemma_replaced_keeps_order(entries, place, entry);
        if other != entry.key {
            lemma_replaced_keeps_others(entries, place, entry, other);
        }
    } else {
        assert forall|i: int| place <= i < entries.len() implies key_before(
            entry.key,
            (#[trigger] entries[i]).key,
        ) by {
            if i == place {
                assert(key_before(entry.key, entries[place].key));
            }
        }
        lemma_placed_keeps_order(entries, place, entry);
        if other != entry.key {
            lemma_placed_keeps_others(entries, place, entry, other);
        }
    }
    assert(after[place] == entry);
    lemma_lookup_finds(after, place);
}

/// In a table in key order, exactly the entries before the rank of a key
/// have a key that comes before it.
pub proof fn lemma_rank_splits(entries: Seq<EntrySpec>, key: Seq<char>)
    requires
        sorted_by_key(entries),
    ensures
        0 <= rank(entries, key) <= entries.len(),
        forall|i: int|
            0 <= i < rank(entries, key) ==> key_before((#[trigger] entries[i]).key, key),
        forall|i: int|
            rank(entries, key) <= i < entries.len() ==> !key_before(
                (#[trigger] entries[i]).key,
                key,
            ),
        forall|i: int|
            rank(entries, key) < i < entries.len() ==> key_before(
                key,
                (#[trigger] entries[i]).key,
            ),
        rank(entries, key) < entries.len() ==> entries[rank(entries, key) as int].key == key
            || key_before(key, entries[rank(entries, key) as int].key),
    decreases entries.len(),
{
    if entries.len() > 0 {
        let rest = entries.drop_last();
        let last = entries.len() - 1;
        assert forall|i: int, j: int| 0 <= i < j < rest.len() implies key_before(
            (#[trigger] rest[i]).key,
            (#[trigger] rest[j]).key,
        ) by {
            assert(rest[i] == entries[i]);
            assert(rest[j] == entries[j]);
        }
        lemma_rank_splits(rest, key);
        let below = rank(rest, key) as int;
        assert forall|i: int| 0 <= i < rest.len() implies rest[i] == entries[i] by {}
        lemma_key_order(entries[last].key, key, entries[last].key);
        if key_before(entries[last].key, key) {
            if below < last {
                assert(rest[below] == entries[below]);
                lemma_key_order(entries[below].key, entries[last].key, key);
                lemma_key_order(key, entries[below].key, key);
            }
            assert(below == last);
            assert forall|i: int| 0 <= i < rank(entries, key) implies key_before(
                (#[trigger] entries[i]).key,
                key,
            ) by {
                if i < last {
                    assert(rest[i] == entries[i]);
                }
            }
        } else {
            assert forall|i: int| 0 <= i < rank(entries, key) implies key_before(
                (#[trigger] entries[i]).key,
                key,
            ) by {
                assert(rest[i] == entries[i]);
            }
            assert forall|i: int| rank(entries, key) <= i < entries.len() implies !key_before(
                (#[trigger] entries[i]).key,
                key,
            ) by {
                if i < last {
                    assert(rest[i] == entries[i]);
                }
            }
            assert forall|i: int| rank(entries, key) < i < entries.len() implies key_before(
                key,
                (#[trigger] entries[i]).key,
            ) by {
                if i < last {
                    assert(rest[i] == entries[i]);
                } else {
                    let at = rank(entries, key) as int;
                    assert(rest[at] == entries[at]);
                    lemma_key_order(key, entries[at].key, entries[last].key);
                }
            }
            if below < last {
                assert(rest[below] == entries[below]);
            }
        }
    }
}

/// A dependency table: its entries in the order of their keys, each key once.
#[derive(Debug, PartialEq, Eq)]
pub struct DependencyTable {
    entries: Vec<DependencyEntry>,
}

impl View for DependencyTable {
    type V = Seq<EntrySpec>;

    closed spec fn view(&self) -> Seq<EntrySpec> {
        entry_views(self.entries@)
    }
}

impl DependencyTable {
    #[verifier::type_invariant]
    closed spec fn keeps_key_order(self) -> bool {
        sorted_by_key(self@)
    }

    /// A table without entries.
    pub fn new() -> (table: DependencyTable)
        ensures
            table@ == Seq::<EntrySpec>::empty(),
    {
        let table = DependencyTable { entries: Vec::new() };
        proof {
            assert(table@ =~= Seq::<EntrySpec>::empty());
        }
        table
    }

    /// The number of entries. Every table is in the order of its keys.
    pub fn len(&self) -> (count: usize)
        ensures
            count == self@.len(),
            sorted_by_key(self@),
    {
        proof {
            use_type_invariant(self);
        }
        self.entries.len()
    }

    /// Whether the table has no entry.
    pub fn is_empty(&self) -> (r: bool)
        ensures
            r == (self@.len() == 0),
    {
        self.entries.len() == 0
    }

    /// The entry at `index`, counted in the order of the keys.
    pub fn entry(&self, index: usize) -> (entry: &DependencyEntry)
        requires
            index < self@.len(),
        ensures
            entry@ == self@[index as int],
    {
        &self.entries[index]
    }

    /// The value that stands under `key`.
    pub fn get(&self, key: &str) -> (value: Option<&CargoDependencyValue>)
        ensures
            match value {
                Some(found) => lookup(self@, key@) == Some(found@),
                None => lookup(self@, key@) is None,
            },
    {
        proof {
            use_type_invariant(self);
        }
        let mut index: usize = 0;
        while index < self.entries.len()
            invariant
                index <= self.entries.len(),
                sorted_by_key(self@),
                forall|i: int| 0 <= i < index ==> (#[trigger] self@[i]).key != key@,
            decreases self.entries.len() - index,
        {
            let entry = &self.entries[index];
            match key_order(entry.key.as_str(), key) {
                KeyOrder::Same => {
                    proof {
                        lemma_lookup_finds(self@, index as int);
                    }
                    return Some(&entry.value);
                },
                _ => {},
            }
            index = index + 1;
        }
        proof {
            lemma_lookup_misses(self@, key@);
        }
        None
    }

    /// Whether an entry stands under `key`.
    pub fn contains_key(&self, key: &str) -> (r: bool)
        ensures
            r == lookup(self@, key@).is_some(),
    {
        self.get(key).is_some()
    }

    /// Puts a value under a key. It takes the place of the value that stood
    /// under that key, if there was one.
    pub fn insert(&mut self, key: String, value: CargoDependencyValue)
        ensures
            final(self)@ == inserted(old(self)@, EntrySpec { key: key@, value: value@ }),
            sorted_by_key(final(self)@),
    {
        proof {
            use_type_invariant(&*self);
        }
        let ghost before = self@;
        let ghost entry = EntrySpec { key: key@, value: value@ };
        let mut index: usize = 0;
        let mut found = false;
        while index < self.entries.len()
            invariant_except_break
                !found,
            invariant
                index <= self.entries.len(),
                self@ == before,
                sorted_by_key(before),
                forall|i: int| 0 <= i < index ==> key_before((#[trigger] before[i]).key, key@),
            ensures
                index <= self.entries.len(),
                self@ == before,
                forall|i: int| 0 <= i < index ==> key_before((#[trigger] before[i]).key, key@),
                index < before.len() ==> !key_before(before[index as int].key, key@),
                found <==> index < before.len() && before[index as int].key == key@,
            decreases self.entries.len() - index,
        {
            match key_order(self.entries[index].key.as_str(), key.as_str()) {
                KeyOrder::Before => {
                    index = index + 1;
                },
                KeyOrder::Same => {
                    proof {
                        lemma_key_order(key@, key@, key@);
                    }
                    found = true;
                    break ;
                },
                KeyOrder::After => {
                    proof {
                        lemma_key_order(before[index as int].key, key@, key@);
                    }
                    break ;
                },
            }
        }
        proof {
            lemma_rank_is_place(before, key@, index as int);
            lemma_inserted(before, entry, key@);
        }
        let mut entries: Vec<DependencyEntry> = Vec::new();
        copy_entries(&self.entries, 0, index, &mut entries);
        let new_entry = DependencyEntry { key, value };
        proof {
            lemma_entry_views_push(entries@, new_entry);
        }
        entries.push(new_entry);
        let resume = if found {
            index + 1
        } else {
            index
        };
        copy_entries(&self.entries, resume, self.entries.len(), &mut entries);
        proof {
            if found {
                assert(entry_views(entries@) =~= before.update(index as int, entry));
            } else {
                assert(entry_views(entries@) =~= before.insert(index as int, entry));
            }
        }
        self.entries = entries;
    }
}

/// The `[workspace]` table of a manifest.
#[derive(Debug, PartialEq, Eq)]
pub struct CargoWorkspace {
    pub dependencies: Option<DependencyTable>,
}

/// A manifest as it is decoded: its three dependency tables and its
/// `[workspace]` table.
#[derive(Debug, PartialEq, Eq)]
pub struct CargoFile {
    pub dependencies: Option<DependencyTable>,
    pub build_dependencies: Option<DependencyTable>,
    pub dev_dependencies: Option<DependencyTable>,
    pub workspace: Option<CargoWorkspace>,
}

/// The four dependency tables of a manifest.
#[derive(Debug, PartialEq, Eq)]
pub struct File {
    pub dependencies: Option<DependencyTable>,
    pub build_dependencies: Option<DependencyTable>,
    pub dev_dependencies: Option<DependencyTable>,
    pub workspace_dependencies: Option<DependencyTable>,
}

/// The entries of a table that may be missing: a missing table has none.
pub open spec fn table_entries(table: Option<DependencyTable>) -> Seq<EntrySpec> {
    match table {
        Some(t) => t@,
        None => Seq::empty(),
    }
}

/// The four dependency tables of a manifest, as contracts speak of them.
pub struct FileSpec {
    pub dependencies: Seq<EntrySpec>,
    pub dev_dependencies: Seq<EntrySpec>,
    pub build_dependencies: Seq<EntrySpec>,
    pub workspace_dependencies: Seq<EntrySpec>,
}

impl View for File {
    type V = FileSpec;

    open spec fn view(&self) -> FileSpec {
        FileSpec {
            dependencies: table_entries(self.dependencies),
            dev_dependencies: table_entries(self.dev_dependencies),
            build_dependencies: table_entries(self.build_dependencies),
            workspace_dependencies: table_entries(self.workspace_dependencies),
        }
    }
}

impl File {
    /// The tables of a decoded manifest. The dependencies of its workspace
    /// are those of its `[workspace]` table, if it has one.
    pub fn from_cargo_file(cargo_file: CargoFile) -> (file: File)
        ensures
            file.dependencies == cargo_file.dependencies,
            file.build_dependencies == cargo_file.build_dependencies,
            file.dev_dependencies == cargo_file.dev_dependencies,
            file.workspace_dependencies == (match cargo_file.workspace {
                Some(workspace) => workspace.dependencies,
                None => None,
            }),
    {
        let workspace_dependencies = match cargo_file.workspace {
            Some(workspace) => workspace.dependencies,
            None => None,
        };
        File {
            dependencies: cargo_file.dependencies,
            build_dependencies: cargo_file.build_dependencies,
            dev_dependencies: cargo_file.dev_dependencies,
            workspace_dependencies,
        }
    }
}

} // verus!
