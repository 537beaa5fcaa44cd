//! The table that owns every registered plugin, addressed by number and by
//! name.
use crate::plugin::{Key, Plugin, PluginId, PluginInstance, PluginType};
use crate::resolver::Resolved;
use std::collections::HashMap;
use vstd::hash_map::StringHashMap;
use vstd::prelude::*;

verus! {

broadcast use vstd::std_specs::hash::group_hash_axioms;

/// One registered plugin as a mathematical value.
pub ghost struct Record {
    /// The number the store gave it.
    pub index: u64,
    /// The name it answers to, if it has one.
    pub name: Option<Seq<char>>,
    /// Its metadata.
    pub metadata: Plugin,
    /// Whether its code lives in a shared library.
    pub dynamic: bool,
}

/// Whether a plugin answers to a key.
pub open spec fn answers(record: Record, key: Key) -> bool {
    match key {
        Key::Index(i) => record.index == i,
        Key::Name(n) => record.name == Some(n),
    }
}

/// Whether some plugin of the table answers to the key.
pub open spec fn occupied(table: Seq<Record>, key: Key) -> bool {
    exists|i: int| 0 <= i < table.len() && answers(#[trigger] table[i], key)
}

/// The place of a plugin that answers to the key.
pub open spec fn slot(table: Seq<Record>, key: Key) -> int {
    choose|i: int| 0 <= i < table.len() && answers(#[trigger] table[i], key)
}

/// What a table must satisfy: numbers rise in the order of registration and
/// lie below the count of numbers issued, and no name is held twice.
pub open spec fn coherent(table: Seq<Record>, issued: nat) -> bool {
    &&& forall|i: int| 0 <= i < table.len() ==> (#[trigger] table[i]).index < issued
    &&& forall|i: int, j: int|
        0 <= i < j < table.len() ==> (#[trigger] table[i]).index < (#[trigger] table[j]).index
    &&& forall|i: int, j: int|
        0 <= i < table.len() && 0 <= j < table.len() && i != j && (#[trigger] table[i]).name
            is Some ==> table[i].name != (#[trigger] table[j]).name
}

/// The name a plugin is registered under: the caller's, if one is given;
/// otherwise the one its metadata declares, unless that is empty.
pub open spec fn effective_name(given: Option<Seq<char>>, declared: Seq<char>) -> Option<
    Seq<char>,
> {
    match given {
        Some(n) => Some(n),
        None => if declared.len() == 0 {
            None
        } else {
            Some(declared)
        },
    }
}

/// An optional name as a mathematical value.
pub open spec fn name_view(name: Option<String>) -> Option<Seq<char>> {
    match name {
        Some(n) => Some(n@),
        None => None,
    }
}

/// In a coherent table at most one plugin answers to a key.
pub proof fn lemma_one_answer(table: Seq<Record>, issued: nat, key: Key, i: int, j: int)
    requires
        coherent(table, issued),
        0 <= i < table.len(),
        0 <= j < table.len(),
        answers(table[i], key),
        answers(table[j], key),
    ensures
        i == j,
{
    if i != j {
        match key {
            Key::Index(_) => {
                if i < j {
                    assert(table[i].index < table[j].index);
                } else {
                    assert(table[j].index < table[i].index);
                }
            },
            Key::Name(_) => {
                assert(table[i].name != table[j].name);
            },
        }
    }
}

/// In a coherent table the place of a key is the place of the one plugin that
/// answers to it.
pub proof fn lemma_slot_is(table: Seq<Record>, issued: nat, key: Key, i: int)
    requires
        coherent(table, issued),
        0 <= i < table.len(),
        answers(table[i], key),
    ensures
        occupied(table, key),
        slot(table, key) == i,
{
    let s = slot(table, key);
    lemma_one_answer(table, issued, key, i, s);
}

// The map holds the place of each of the first `upto` entries.
spec fn placed(cells: Seq<Entry>, places: Map<u64, usize>, upto: int) -> bool {
    forall|i: int|
        0 <= i < upto && i < cells.len() ==> places.contains_key((#[trigger] cells[i]).index)
            && places[cells[i].index] == i
}

// The map holds the number of each entry that has a name, under that name.
spec fn named(cells: Seq<Entry>, names: Map<Seq<char>, u64>) -> bool {
    forall|i: int|
        0 <= i < cells.len() && (#[trigger] cells[i]).name is Some ==> names.contains_key(
            cells[i].name->0@,
        ) && names[cells[i].name->0@] == cells[i].index
}

// Every name in the map is the name of an entry.
spec fn held_names(cells: Seq<Entry>, names: Map<Seq<char>, u64>) -> bool {
    forall|n: Seq<char>| #[trigger]
        names.contains_key(n) ==> exists|i: int|
            0 <= i < cells.len() && name_view((#[trigger] cells[i]).name) == Some(n)
}

// Every number in the map is the number of an entry.
spec fn keyed(cells: Seq<Entry>, places: Map<u64, usize>) -> bool {
    forall|k: u64| #[trigger]
        places.contains_key(k) ==> exists|i: int|
            0 <= i < cells.len() && (#[trigger] cells[i]).index == k
}


/// An entry of the store: the plugin, what keeps it alive, and its identity.
pub struct Entry {
    index: u64,
    name: Option<String>,
    unit: Resolved,
}

impl View for Entry {
    type V = Record;

    closed spec fn view(&self) -> Record {
        Record {
            index: self.index,
            name: name_view(self.name),
            metadata: self.unit.declared(),
            dynamic: self.unit.dynamic(),
        }
    }
}

impl Entry {
    /// The constructed plugin this entry owns.
    pub closed spec fn unit(&self) -> Resolved {
        self.unit
    }

    /// The number the store gave this plugin.
    pub fn index(&self) -> (r: u64)
        ensures
            r == self@.index,
    {
        self.index
    }

    /// The name this plugin answers to, if it has one.
    pub fn name(&self) -> (r: &Option<String>)
        ensures
            name_view(*r) == self@.name,
    {
        &self.name
    }

    /// The plugin's metadata.
    pub fn metadata(&self) -> (r: &Plugin)
        ensures
            *r == self@.metadata,
    {
        self.unit.metadata()
    }

    /// Where the plugin came from.
    pub fn source(&self) -> (r: &PluginType)
        ensures
            *r == self.unit().origin(),
            (*r is Path) == self@.dynamic,
    {
        self.unit.source()
    }

    /// The running plugin.
    pub fn instance(&self) -> (r: &dyn PluginInstance)
        ensures
            r == self.unit().running(),
    {
        let held: &dyn PluginInstance = &**self.unit.holder();
        return held;
    }

    /// Whether this plugin answers to `id`.
    pub fn answers_to(&self, id: &PluginId) -> (r: bool)
        ensures
            r == answers(self@, id@),
    {
        match id {
            PluginId::Index(i) => self.index == *i,
            PluginId::Name(n) => match &self.name {
                Some(m) => *m == *n,
                None => false,
            },
        }
    }
}

/// Owns all registered plugins. Numbers are issued from a counter that only
/// rises, so a number is never given twice.
///
/// The plugins stand in one vector, in the order of registration, so a
/// listing follows that order. Two hash maps index it: one from each number
/// to its place in the vector, one from each name to its number. A lookup by
/// number or by name therefore takes constant time on average. A removal
/// shifts the places behind it and rewrites them in the first map.
pub struct Store {
    entries: Vec<Entry>,
    places: HashMap<u64, usize>,
    names: StringHashMap<u64>,
    next: u64,
}

impl View for Store {
    type V = Seq<Record>;

    closed spec fn view(&self) -> Seq<Record> {
        self.entries@.map_values(|e: Entry| e@)
    }
}

impl Store {
    /// How many numbers have been issued so far; the next plugin gets this
    /// number.
    pub closed spec fn issued(&self) -> nat {
        self.next as nat
    }

    /// The constructed plugins the store owns, each at the place of its
    /// record in the table.
    pub closed spec fn units(&self) -> Seq<Resolved> {
        self.entries@.map_values(|e: Entry| e.unit)
    }

    /// The store's invariant.
    pub closed spec fn wf(&self) -> bool {
        &&& coherent(self@, self.issued())
        &&& forall|i: int| 0 <= i < self.entries@.len() ==> (#[trigger] self.entries@[i]).unit.wf()
        &&& placed(self.entries@, self.places@, self.entries@.len() as int)
        &&& keyed(self.entries@, self.places@)
        &&& named(self.entries@, self.names@)
        &&& held_names(self.entries@, self.names@)
    }

    /// What `wf` says of the table.
    pub proof fn lemma_wf_coherent(&self)
        requires
            self.wf(),
        ensures
            coherent(self@, self.issued()),
    {
    }

    /// Each record of the table describes the unit at its place.
    pub proof fn lemma_units_match(&self)
        ensures
            self.units().len() == self@.len(),
            forall|i: int|
                0 <= i < self@.len() ==> (#[trigger] self@[i]).metadata == self.units()[i].declared()
                    && self@[i].dynamic == self.units()[i].dynamic(),
    {
    }

    /// An empty store that has issued no number.
    pub fn new() -> (r: Self)
        ensures
            r.wf(),
            r@ == Seq::<Record>::empty(),
            r.units() == Seq::<Resolved>::empty(),
            r.issued() == 0,
    {
        let r = Store {
            entries: Vec::new(),
            places: HashMap::new(),
            names: StringHashMap::new(),
            next: 0,
        };
        assert(r@ =~= Seq::<Record>::empty());
        assert(r.units() =~= Seq::<Resolved>::empty());
        r
    }

    /// How many plugins are registered.
    pub fn len(&self) -> (r: usize)
        ensures
            r == self@.len(),
    {
        self.entries.len()
    }

    /// Whether another number can be issued.
    pub fn has_room(&self) -> (r: bool)
        ensures
            r == (self.issued() < u64::MAX),
    {
        self.next < u64::MAX
    }

    fn seek_index(&self, index: u64) -> (r: Option<usize>)
        requires
            self.wf(),
        ensures
            match r {
                Some(i) => i < self@.len() && self@[i as int].index == index,
                None => forall|j: int| 0 <= j < self@.len() ==> (#[trigger] self@[j]).index != index,
            },
    {
        match self.places.get(&index) {
            Some(place) => {
                proof {
                    let i = choose|i: int|
                        0 <= i < self.entries@.len() && (#[trigger] self.entries@[i]).index
                            == index;
                    assert(self.places@[self.entries@[i].index] == i);
                }
                Some(*place)
            },
            None => {
                assert forall|j: int| 0 <= j < self@.len() implies (#[trigger] self@[j]).index
                    != index by {
                    assert(self.places@.contains_key(self.entries@[j].index));
                }
                None
            },
        }
    }

    // Writes into the map the place of every plugin from `from` on.
    fn replace_from(&mut self, from: usize)
        requires
            from <= old(self).entries@.len(),
            coherent(old(self)@, old(self).issued()),
            placed(old(self).entries@, old(self).places@, from as int),
            keyed(old(self).entries@, old(self).places@),
            forall|i: int|
                0 <= i < old(self).entries@.len() ==> old(self).places@.contains_key(
                    (#[trigger] old(self).entries@[i]).index,
                ),
        ensures
            final(self).entries == old(self).entries,
            final(self).names == old(self).names,
            final(self).next == old(self).next,
            placed(final(self).entries@, final(self).places@, final(self).entries@.len() as int),
            keyed(final(self).entries@, final(self).places@),
    {
        let mut j: usize = from;
        while j < self.entries.len()
            invariant
                from <= j <= self.entries@.len(),
                self.entries == old(self).entries,
                self.names == old(self).names,
                self.next == old(self).next,
                coherent(self@, self.issued()),
                placed(self.entries@, self.places@, j as int),
                keyed(self.entries@, self.places@),
                forall|i: int|
                    0 <= i < self.entries@.len() ==> self.places@.contains_key(
                        (#[trigger] self.entries@[i]).index,
                    ),
            decreases self.entries.len() - j,
        {
            let ghost earlier = self.places@;
            let number: u64 = self.entries[j].index;
            self.places.insert(number, j);
            proof {
                assert forall|i: int| 0 <= i < j + 1 implies self.places@.contains_key(
                    (#[trigger] self.entries@[i]).index,
                ) && self.places@[self.entries@[i].index] == i by {
                    if i < j {
                        assert(self@[i].index < self@[j as int].index);
                    }
                }
                assert forall|k: u64| #[trigger] self.places@.contains_key(k) implies exists|
                    i: int,
                | 0 <= i < self.entries@.len() && (#[trigger] self.entries@[i]).index == k by {
                    if k == number {
                        assert(self.entries@[j as int].index == k);
                    } else {
                        assert(earlier.contains_key(k));
                    }
                }
            }
            j += 1;
        }
    }

    fn seek_name(&self, name: &String) -> (r: Option<usize>)
        requires
            self.wf(),
        ensures
            match r {
                Some(i) => i < self@.len() && self@[i as int].name == Some(name@),
                None => forall|j: int|
                    0 <= j < self@.len() ==> (#[trigger] self@[j]).name != Some(name@),
            },
    {
        match self.names.get(name.as_str()) {
            Some(number) => {
                let found = self.seek_index(*number);
                proof {
                    let i = choose|i: int|
                        0 <= i < self.entries@.len() && name_view(
                            (#[trigger] self.entries@[i]).name,
                        ) == Some(name@);
                    assert(self.entries@[i].name is Some);
                    assert(self@[i].index == *number);
                    if found is Some {
                        lemma_one_answer(
                            self@,
                            self.issued(),
                            Key::Index(*number),
                            i,
                            found->0 as int,
                        );
                    }
                }
                found
            },
            None => {
                assert forall|j: int| 0 <= j < self@.len() implies (#[trigger] self@[j]).name
                    != Some(name@) by {
                    if self.entries@[j].name is Some {
                        assert(self.names@.contains_key(self.entries@[j].name->0@));
                    }
                }
                None
            },
        }
    }

    fn position(&self, id: &PluginId) -> (r: Option<usize>)
        requires
            self.wf(),
        ensures
            match r {
                Some(i) => i < self@.len() && answers(self@[i as int], id@),
                None => !occupied(self@, id@),
            },
    {
        match id {
            PluginId::Index(index) => self.seek_index(*index),
            PluginId::Name(name) => self.seek_name(name),
        }
    }

    /// Whether a plugin answers to `id`.
    pub fn contains(&self, id: &PluginId) -> (r: bool)
        requires
            self.wf(),
        ensures
            r == occupied(self@, id@),
    {
        self.position(id).is_some()
    }

    /// Takes a plugin in under the next number and under `name`, and returns
    /// the number.
    pub fn insert(&mut self, unit: Resolved, name: Option<String>) -> (r: u64)
        requires
            old(self).wf(),
            unit.wf(),
            old(self).issued() < u64::MAX,
            name matches Some(n) ==> !occupied(old(self)@, Key::Name(n@)),
        ensures
            final(self).wf(),
            r == old(self).issued(),
            final(self).issued() == old(self).issued() + 1,
            final(self).units() == old(self).units().push(unit),
            final(self)@ == old(self)@.push(
                Record {
                    index: r,
                    name: name_view(name),
                    metadata: unit.declared(),
                    dynamic: unit.dynamic(),
                },
            ),
    {
        let index: u64 = self.next;
        let ghost before = self@;
        let ghost owned = self.units();
        let ghost record = Record {
            index,
            name: name_view(name),
            metadata: unit.declared(),
            dynamic: unit.dynamic(),
        };
        let place: usize = self.entries.len();
        match &name {
            Some(n) => {
                self.names.insert(n.clone(), index);
            },
            None => {},
        }
        self.entries.push(Entry { index, name, unit });
        self.places.insert(index, place);
        self.next = index + 1;
        proof {
            assert forall|i: int| 0 <= i < self.entries@.len() implies self.places@.contains_key(
                (#[trigger] self.entries@[i]).index,
            ) && self.places@[self.entries@[i].index] == i by {
                if i < place {
                    assert(before[i].index < index);
                }
            }
            assert forall|i: int|
                0 <= i < self.entries@.len() && (#[trigger] self.entries@[i]).name
                    is Some implies self.names@.contains_key(self.entries@[i].name->0@)
                && self.names@[self.entries@[i].name->0@] == self.entries@[i].index by {
                if i < place {
                    assert(answers(before[i], Key::Name(self.entries@[i].name->0@)));
                }
            }
            assert forall|n: Seq<char>| #[trigger] self.names@.contains_key(n) implies exists|
                i: int,
            | 0 <= i < self.entries@.len() && name_view((#[trigger] self.entries@[i]).name) == Some(
                n,
            ) by {
                if name is Some && n == name->0@ {
                    assert(name_view(self.entries@[place as int].name) == Some(n));
                } else {
                    let i = choose|i: int|
                        0 <= i < place && name_view((#[trigger] old(self).entries@[i]).name)
                            == Some(n);
                    assert(name_view(self.entries@[i].name) == Some(n));
                }
            }
            assert forall|k: u64| #[trigger] self.places@.contains_key(k) implies exists|i: int|
                0 <= i < self.entries@.len() && (#[trigger] self.entries@[i]).index == k by {
                if k == index {
                    assert(self.entries@[place as int].index == k);
                } else {
                    let i = choose|i: int|
                        0 <= i < place && (#[trigger] old(self).entries@[i]).index == k;
                    assert(self.entries@[i].index == k);
                }
            }
            assert(self@ =~= before.push(record));
            assert(self.units() =~= owned.push(unit));
            lemma_push_coherent(before, index as nat, record);
        }
        index
    }

    /// The plugin that answers to `id`, or `None` if there is none.
    pub fn get(&self, id: &PluginId) -> (r: Option<&Entry>)
        requires
            self.wf(),
        ensures
            r is Some <==> occupied(self@, id@),
            r matches Some(e) ==> e@ == self@[slot(self@, id@)],
            r matches Some(e) ==> e.unit() == self.units()[slot(self@, id@)],
    {
        match self.position(id) {
            Some(i) => {
                proof {
                    lemma_slot_is(self@, self.issued(), id@, i as int);
                }
                Some(&self.entries[i])
            },
            None => None,
        }
    }

    /// Takes the plugin that answers to `id` out of the store and hands it to
    /// the caller; the others keep their places and numbers.
    pub fn remove(&mut self, id: &PluginId) -> (r: Option<Entry>)
        requires
            old(self).wf(),
        ensures
            final(self).wf(),
            final(self).issued() == old(self).issued(),
            r is Some <==> occupied(old(self)@, id@),
            r is None ==> final(self)@ == old(self)@,
            r is None ==> final(self).units() == old(self).units(),
            r matches Some(e) ==> e.unit() == old(self).units()[slot(old(self)@, id@)],
            r is Some ==> final(self).units() == old(self).units().remove(slot(old(self)@, id@)),
            r matches Some(e) ==> (e@ == old(self)@[slot(old(self)@, id@)] && final(self)@ == old(
                self,
            )@.remove(slot(old(self)@, id@))),
    {
        match self.position(id) {
            Some(i) => {
                let ghost before = self@;
                let ghost owned = self.units();
                proof {
                    lemma_slot_is(before, self.issued(), id@, i as int);
                }
                let ghost cells = self.entries@;
                let entry = self.entries.remove(i);
                self.places.remove(&entry.index);
                match &entry.name {
                    Some(n) => {
                        self.names.remove(n.as_str());
                    },
                    None => {},
                }
                proof {
                    assert forall|a: int|
                        0 <= a < self.entries@.len() && (#[trigger] self.entries@[a]).name
                            is Some implies self.names@.contains_key(self.entries@[a].name->0@)
                        && self.names@[self.entries@[a].name->0@] == self.entries@[a].index by {
                        let b = if a < i { a } else { a + 1 };
                        assert(self.entries@[a] == cells[b]);
                        assert(before[b].name != before[i as int].name);
                    }
                    assert forall|n: Seq<char>| #[trigger]
                        self.names@.contains_key(n) implies exists|a: int|
                        0 <= a < self.entries@.len() && name_view(
                            (#[trigger] self.entries@[a]).name,
                        ) == Some(n) by {
                        let b = choose|b: int|
                            0 <= b < cells.len() && name_view((#[trigger] cells[b]).name) == Some(
                                n,
                            );
                        let a = if b < i { b } else { b - 1 };
                        assert(self.entries@[a] == cells[b]);
                    }
                    assert(self@ =~= before.remove(i as int));
                    assert(self.units() =~= owned.remove(i as int));
                    lemma_remove_coherent(before, self.issued(), i as int);
                    assert forall|a: int| 0 <= a < self.entries@.len() implies (
                    #[trigger] self.entries@[a]).index != entry.index && self.places@.contains_key(
                        self.entries@[a].index,
                    ) && (a < i ==> self.places@[self.entries@[a].index] == a) by {
                        let b = if a < i { a } else { a + 1 };
                        assert(self.entries@[a] == cells[b]);
                        assert(before[b].index != before[i as int].index);
                        assert(old(self).places@.contains_key(cells[b].index));
                    }
                    assert forall|k: u64| #[trigger] self.places@.contains_key(k) implies exists|
                        a: int,
                    | 0 <= a < self.entries@.len() && (#[trigger] self.entries@[a]).index == k by {
                        let b = choose|b: int|
                            0 <= b < cells.len() && (#[trigger] cells[b]).index == k;
                        let a = if b < i { b } else { b - 1 };
                        assert(self.entries@[a] == cells[b]);
                    }
                }
                self.replace_from(i);
                Some(entry)
            },
            None => None,
        }
    }

    /// A snapshot of the store: number, name and metadata of each plugin, in
    /// the order of registration.
    pub fn iter(&self) -> (r: Vec<(u64, Option<String>, Plugin)>)
        ensures
            r@.len() == self@.len(),
            forall|i: int|
                0 <= i < r@.len() ==> (#[trigger] r@[i]).0 == self@[i].index && name_view(r@[i].1)
                    == self@[i].name && r@[i].2 == self@[i].metadata,
    {
        let mut out: Vec<(u64, Option<String>, Plugin)> = Vec::new();
        let mut i: usize = 0;
        while i < self.entries.len()
            invariant
                i <= self.entries.len(),
                self@.len() == self.entries@.len(),
                out@.len() == i,
                forall|j: int|
                    0 <= j < i ==> (#[trigger] out@[j]).0 == self@[j].index && name_view(out@[j].1)
                        == self@[j].name && out@[j].2 == self@[j].metadata,
            decreases self.entries.len() - i,
        {
            let entry = &self.entries[i];
            let name: Option<String> = match &entry.name {
                Some(n) => Some(n.clone()),
                None => None,
            };
            out.push((entry.index, name, entry.unit.metadata().clone()));
            i += 1;
        }
        out
    }
}

/// A coherent table stays coherent when a plugin joins it under the next
/// number and under a name that nobody holds.
pub proof fn lemma_push_coherent(table: Seq<Record>, issued: nat, record: Record)
    requires
        coherent(table, issued),
        record.index == issued,
        record.name matches Some(n) ==> !occupied(table, Key::Name(n)),
    ensures
        coherent(table.push(record), issued + 1),
{
    let after = table.push(record);
    assert forall|i: int, j: int|
        0 <= i < after.len() && 0 <= j < after.len() && i != j && (#[trigger] after[i]).name
            is Some implies after[i].name != (#[trigger] after[j]).name by {
        if record.name is Some {
            let held = Key::Name(record.name->0);
            if i == table.len() {
                assert(answers(table[j], held) ==> occupied(table, held));
            } else if j == table.len() {
                assert(answers(table[i], held) ==> occupied(table, held));
            }
        }
    }
}

/// Taking one plugin out of a coherent table leaves a coherent table.
pub proof fn lemma_remove_coherent(table: Seq<Record>, issued: nat, at: int)
    requires
        coherent(table, issued),
        0 <= at < table.len(),
    ensures
        coherent(table.remove(at), issued),
{
    let rest = table.remove(at);
    assert forall|i: int| 0 <= i < rest.len() implies (#[trigger] rest[i]).index < issued by {
        let k = if i < at { i } else { i + 1 };
        assert(rest[i] == table[k]);
    }
    assert forall|i: int, j: int| 0 <= i < j < rest.len() implies (#[trigger] rest[i]).index < (
    #[trigger] rest[j]).index by {
        let a = if i < at { i } else { i + 1 };
        let b = if j < at { j } else { j + 1 };
        assert(rest[i] == table[a]);
        assert(rest[j] == table[b]);
    }
    assert forall|i: int, j: int|
        0 <= i < rest.len() && 0 <= j < rest.len() && i != j && (#[trigger] rest[i]).name
            is Some implies rest[i].name != (#[trigger] rest[j]).name by {
        let a = if i < at { i } else { i + 1 };
        let b = if j < at { j } else { j + 1 };
        assert(rest[i] == table[a]);
        assert(rest[j] == table[b]);
    }
}

} // verus!
