//! The registry: registering, finding, listing and removing plugins.
//!
//! A reference obtained from `lookup` borrows the registry, so a plugin
//! cannot be removed while anyone still holds one; a host that shares the
//! registry between threads puts it behind a lock, and `unregister` then
//! waits for the readers.
use crate::error::Error;
use crate::plugin::{Key, Plugin, PluginBuilder, PluginId};
use crate::resolver::{resolve_builder, Resolved};
use crate::store::{
    answers, coherent, effective_name, lemma_one_answer, lemma_push_coherent,
    lemma_remove_coherent, lemma_slot_is,
    name_view, occupied, slot, Entry, Record, Store,
};
use vstd::prelude::*;

verus! {

/// The outcome of a registration as a mathematical value.
pub ghost struct Admission {
    /// What the caller gets.
    pub result: Result<PluginId, Error>,
    /// The table afterwards.
    pub table: Seq<Record>,
    /// The count of numbers issued afterwards.
    pub issued: nat,
}

/// Whether a plugin of the table holds the name.
pub open spec fn name_taken(table: Seq<Record>, name: Option<Seq<char>>) -> bool {
    name matches Some(n) && occupied(table, Key::Name(n))
}

/// What registering a constructed plugin does: if its name is taken, the
/// table stays as it is and the caller gets `DuplicateName`; otherwise the
/// plugin joins the table at the end under the next number.
pub open spec fn admission(
    table: Seq<Record>,
    issued: nat,
    name: Option<Seq<char>>,
    metadata: Plugin,
    dynamic: bool,
) -> Admission {
    if name_taken(table, name) {
        Admission { result: Err(Error::DuplicateName), table, issued }
    } else {
        Admission {
            result: Ok(PluginId::Index(issued as u64)),
            table: table.push(Record { index: issued as u64, name, metadata, dynamic }),
            issued: issued + 1,
        }
    }
}

/// The table after the plugin that answers to `key` has left; unchanged if
/// there is none.
pub open spec fn removal(table: Seq<Record>, key: Key) -> Seq<Record> {
    if occupied(table, key) {
        table.remove(slot(table, key))
    } else {
        table
    }
}

/// The metadata of each plugin of the table, in order.
pub open spec fn listing(table: Seq<Record>) -> Seq<Plugin> {
    table.map_values(|record: Record| record.metadata)
}

/// The public face of the plugin host.
pub struct PluginRegistry {
    store: Store,
}

impl View for PluginRegistry {
    type V = Seq<Record>;

    closed spec fn view(&self) -> Seq<Record> {
        self.store@
    }
}

impl PluginRegistry {
    /// How many numbers have been issued; the next plugin gets this number.
    pub closed spec fn issued(&self) -> nat {
        self.store.issued()
    }

    /// The constructed plugins the registry owns, each at the place of its
    /// record in the table.
    pub closed spec fn units(&self) -> Seq<Resolved> {
        self.store.units()
    }

    /// Each record of the table describes the unit at its place.
    pub proof fn lemma_units_match(&self)
        ensures
            self.units().len() == self@.len(),
            forall|i: int|
                0 <= i < self@.len() ==> (#[trigger] self@[i]).metadata == self.units()[i].declared()
                    && self@[i].dynamic == self.units()[i].dynamic(),
    {
        self.store.lemma_units_match();
    }

    /// The registry's invariant. Every constructor establishes it and every
    /// method keeps it.
    pub closed spec fn wf(&self) -> bool {
        self.store.wf()
    }

    /// A well-formed registry holds a coherent table.
    pub proof fn lemma_wf_coherent(&self)
        requires
            self.wf(),
        ensures
            coherent(self@, self.issued()),
    {
        self.store.lemma_wf_coherent();
    }

    /// What registering `unit` under `name` does to this registry.
    pub open spec fn enrolling(&self, unit: Resolved, name: Option<String>) -> Admission {
        admission(
            self@,
            self.issued(),
            effective_name(name_view(name), unit.declared().name@),
            unit.declared(),
            unit.dynamic(),
        )
    }

    /// What registering a resolver's outcome does to this registry: an error
    /// comes back as it is and nothing changes; a constructed plugin is
    /// enrolled.
    pub open spec fn registering(
        &self,
        outcome: Result<Resolved, Error>,
        name: Option<String>,
    ) -> Admission {
        match outcome {
            Err(e) => Admission { result: Err(e), table: self@, issued: self.issued() },
            Ok(unit) => self.enrolling(unit, name),
        }
    }

    /// An empty registry.
    pub fn new() -> (r: Self)
        ensures
            r.wf(),
            r@ == Seq::<Record>::empty(),
            r.units() == Seq::<Resolved>::empty(),
            r.issued() == 0,
    {
        PluginRegistry { store: Store::new() }
    }

    /// How many plugins are registered.
    pub fn len(&self) -> (r: usize)
        ensures
            r == self@.len(),
    {
        self.store.len()
    }

    /// Whether another plugin can be given a number.
    pub fn has_room(&self) -> (r: bool)
        ensures
            r == (self.issued() < u64::MAX),
    {
        self.store.has_room()
    }

    /// Registers a constructed plugin under `name`, or under the name its
    /// metadata declares if none is given.
    pub fn enroll(&mut self, unit: Resolved, name: Option<String>) -> (r: Result<PluginId, Error>)
        requires
            old(self).wf(),
            unit.wf(),
            old(self).issued() < u64::MAX,
        ensures
            final(self).wf(),
            r == old(self).enrolling(unit, name).result,
            final(self)@ == old(self).enrolling(unit, name).table,
            final(self).issued() == old(self).enrolling(unit, name).issued,
            r is Ok ==> final(self).units() == old(self).units().push(unit),
            r is Err ==> final(self).units() == old(self).units(),
    {
        let chosen: Option<String> = match name {
            Some(n) => Some(n),
            None => {
                let declared: &str = unit.metadata().name;
                if declared.is_empty() {
                    None
                } else {
                    Some(declared.to_owned())
                }
            },
        };
        let taken: bool = match &chosen {
            Some(n) => self.store.contains(&PluginId::Name(n.clone())),
            None => false,
        };
        if taken {
            Err(Error::DuplicateName)
        } else {
            let index: u64 = self.store.insert(unit, chosen);
            Ok(PluginId::Index(index))
        }
    }

    /// Registers what the resolver produced. A resolver's error is handed on
    /// as it is and nothing changes; a constructed plugin is enrolled.
    pub fn register(&mut self, outcome: Result<Resolved, Error>, name: Option<String>) -> (r: Result<
        PluginId,
        Error,
    >)
        requires
            old(self).wf(),
            old(self).issued() < u64::MAX,
            outcome matches Ok(unit) ==> unit.wf(),
        ensures
            final(self).wf(),
            r == old(self).registering(outcome, name).result,
            final(self)@ == old(self).registering(outcome, name).table,
            final(self).issued() == old(self).registering(outcome, name).issued,
            r is Err ==> final(self).units() == old(self).units(),
            r is Ok ==> outcome is Ok && final(self).units() == old(self).units().push(
                outcome->Ok_0,
            ),
    {
        match outcome {
            Err(e) => Err(e),
            Ok(unit) => self.enroll(unit, name),
        }
    }

    /// Constructs a plugin with a builder linked into the host and registers
    /// it. The builder decides whether a plugin comes out and what it
    /// declares: a failure is `ConstructionFailed` or `DuplicateName` and
    /// changes nothing; a success appends one static plugin under the next
    /// number, named as given or, with no name given, as its metadata
    /// declares. A given name that is free never fails as a duplicate.
    pub fn register_builder(&mut self, builder: &'static dyn PluginBuilder, name: Option<String>)
        -> (r: Result<PluginId, Error>)
        requires
            old(self).wf(),
            old(self).issued() < u64::MAX,
        ensures
            final(self).wf(),
            name_taken(old(self)@, name_view(name)) ==> r is Err,
            r matches Err(e) ==> e == Error::ConstructionFailed || e == Error::DuplicateName,
            r is Err ==> final(self)@ == old(self)@,
            r is Err ==> final(self).issued() == old(self).issued(),
            r is Err ==> final(self).units() == old(self).units(),
            r is Ok ==> final(self).units().drop_last() == old(self).units(),
            r matches Ok(id) ==> id == PluginId::Index(old(self).issued() as u64),
            r is Ok ==> final(self).issued() == old(self).issued() + 1,
            r is Ok ==> final(self)@.len() == old(self)@.len() + 1,
            r is Ok ==> final(self)@.drop_last() == old(self)@,
            r is Ok ==> final(self)@.last().index == old(self).issued(),
            r is Ok ==> !final(self)@.last().dynamic,
            r is Ok ==> final(self)@.last().name == effective_name(
                name_view(name),
                final(self)@.last().metadata.name@,
            ),
            name is Some && !name_taken(old(self)@, name_view(name)) ==> r != Err::<
                PluginId,
                Error,
            >(Error::DuplicateName),
    {
        let ghost before = self@;
        let ghost owned = self.units();
        let outcome = resolve_builder(builder);
        let r = self.register(outcome, name);
        proof {
            if r is Ok {
                assert(self@.drop_last() =~= before);
                assert(self.units().drop_last() =~= owned);
            }
        }
        r
    }

    /// The plugin that answers to `id`.
    pub fn lookup(&self, id: &PluginId) -> (r: Result<&Entry, Error>)
        requires
            self.wf(),
        ensures
            occupied(self@, id@) ==> (r matches Ok(e) && e@ == self@[slot(self@, id@)]),
            r matches Ok(e) ==> e.unit() == self.units()[slot(self@, id@)],
            !occupied(self@, id@) ==> (r matches Err(e) && e == Error::NotFound),
    {
        match self.store.get(id) {
            Some(entry) => Ok(entry),
            None => Err(Error::NotFound),
        }
    }

    /// Removes the plugin that answers to `id` and tears it down: first the
    /// instance, then the library it came from.
    pub fn unregister(&mut self, id: &PluginId) -> (r: Result<(), Error>)
        requires
            old(self).wf(),
        ensures
            final(self).wf(),
            final(self).issued() == old(self).issued(),
            final(self)@ == removal(old(self)@, id@),
            r is Ok ==> final(self).units() == old(self).units().remove(slot(old(self)@, id@)),
            r is Err ==> final(self).units() == old(self).units(),
            occupied(old(self)@, id@) ==> r == Ok::<(), Error>(()),
            !occupied(old(self)@, id@) ==> r == Err::<(), Error>(Error::NotFound),
    {
        match self.store.remove(id) {
            Some(_entry) => Ok(()),
            None => Err(Error::NotFound),
        }
    }

    /// The metadata of every registered plugin, in the order of registration.
    pub fn list(&self) -> (r: Vec<Plugin>)
        ensures
            r@ == listing(self@),
    {
        let rows = self.store.iter();
        let mut out: Vec<Plugin> = Vec::new();
        let mut i: usize = 0;
        while i < rows.len()
            invariant
                i <= rows.len(),
                rows@.len() == self@.len(),
                out@.len() == i,
                forall|j: int| 0 <= j < rows@.len() ==> (#[trigger] rows@[j]).2 == self@[j].metadata,
                forall|j: int| 0 <= j < i ==> #[trigger] out@[j] == self@[j].metadata,
            decreases rows.len() - i,
        {
            out.push(rows[i].2.clone());
            i += 1;
        }
        assert(out@ =~= listing(self@));
        out
    }
}

/// Registration adds one plugin and nothing else: afterwards a key is
/// answered exactly if it was answered before or the new plugin answers to
/// it, and the table is still coherent.
pub proof fn law_register_adds_exactly_one(
    table: Seq<Record>,
    issued: nat,
    record: Record,
    key: Key,
)
    requires
        coherent(table, issued),
        record.index == issued,
        !name_taken(table, record.name),
    ensures
        coherent(table.push(record), issued + 1),
        occupied(table.push(record), key) <==> occupied(table, key) || answers(record, key),
{
    let after = table.push(record);
    lemma_push_coherent(table, issued, record);
    if occupied(table, key) {
        let i = slot(table, key);
        assert(answers(after[i], key));
    }
    if answers(record, key) {
        assert(answers(after[table.len() as int], key));
    }
    if occupied(after, key) {
        let i = slot(after, key);
        if i < table.len() {
            assert(answers(table[i], key));
        }
    }
}

/// Removal takes out one plugin and nothing else: afterwards a key is
/// answered exactly if it was answered before by another plugin than the one
/// removed, and the table is still coherent.
pub proof fn law_unregister_removes_exactly_one(
    table: Seq<Record>,
    issued: nat,
    id: Key,
    key: Key,
)
    requires
        coherent(table, issued),
        occupied(table, id),
    ensures
        coherent(removal(table, id), issued),
        occupied(removal(table, id), key) <==> occupied(table, key) && !answers(
            table[slot(table, id)],
            key,
        ),
{
    let at = slot(table, id);
    let after = table.remove(at);
    lemma_remove_coherent(table, issued, at);
    if occupied(after, key) {
        let i = slot(after, key);
        let k = if i < at { i } else { i + 1 };
        assert(after[i] == table[k]);
        assert(answers(table[k], key));
        if answers(table[at], key) {
            lemma_one_answer(table, issued, key, k, at);
        }
    }
    if occupied(table, key) && !answers(table[at], key) {
        let k = slot(table, key);
        let i = if k < at { k } else { k - 1 };
        assert(after[i] == table[k]);
        assert(answers(after[i], key));
    }
}

/// A failed registration leaves every plugin where it was: when the name is
/// taken the outcome is `DuplicateName` and the table is the one before.
pub proof fn law_duplicate_name_changes_nothing(
    table: Seq<Record>,
    issued: nat,
    name: Seq<char>,
    metadata: Plugin,
    dynamic: bool,
)
    requires
        occupied(table, Key::Name(name)),
    ensures
        admission(table, issued, Some(name), metadata, dynamic).result == Err::<PluginId, Error>(
            Error::DuplicateName,
        ),
        admission(table, issued, Some(name), metadata, dynamic).table == table,
        admission(table, issued, Some(name), metadata, dynamic).issued == issued,
{
}

/// A plugin found by its number and found by its name is one plugin: the two
/// lookups land on the same place, hence on the same metadata.
pub proof fn law_index_and_name_agree(table: Seq<Record>, issued: nat, index: u64, name: Seq<char>)
    requires
        coherent(table, issued),
        occupied(table, Key::Index(index)),
        table[slot(table, Key::Index(index))].name == Some(name),
    ensures
        occupied(table, Key::Name(name)),
        slot(table, Key::Name(name)) == slot(table, Key::Index(index)),
        table[slot(table, Key::Name(name))].metadata == table[slot(
            table,
            Key::Index(index),
        )].metadata,
{
    let i = slot(table, Key::Index(index));
    lemma_slot_is(table, issued, Key::Name(name), i);
}

/// Once a plugin is removed, the identifier it was removed by finds nothing.
pub proof fn law_unregistered_is_not_found(table: Seq<Record>, issued: nat, id: Key)
    requires
        coherent(table, issued),
        occupied(table, id),
    ensures
        !occupied(removal(table, id), id),
{
    law_unregister_removes_exactly_one(table, issued, id, id);
}

/// A number that was issued and answers to nothing is retired for good:
/// neither a later registration, which gets a number not issued before, nor a
/// later removal brings it back.
pub proof fn law_retired_index_stays_retired(
    table: Seq<Record>,
    issued: nat,
    index: u64,
    name: Option<Seq<char>>,
    metadata: Plugin,
    dynamic: bool,
    id: Key,
)
    requires
        coherent(table, issued),
        issued < u64::MAX,
        index < issued,
        !occupied(table, Key::Index(index)),
    ensures
        !occupied(admission(table, issued, name, metadata, dynamic).table, Key::Index(index)),
        index < admission(table, issued, name, metadata, dynamic).issued,
        !occupied(removal(table, id), Key::Index(index)),
{
    let outcome = admission(table, issued, name, metadata, dynamic);
    if !name_taken(table, name) {
        let record = Record { index: issued as u64, name, metadata, dynamic };
        law_register_adds_exactly_one(table, issued, record, Key::Index(index));
    }
    if occupied(table, id) {
        law_unregister_removes_exactly_one(table, issued, id, Key::Index(index));
    }
}

/// One call on the registry as a mathematical value.
pub ghost enum Operation {
    /// A constructed plugin is registered under its effective name.
    Register { name: Option<Seq<char>>, metadata: Plugin, dynamic: bool },
    /// The plugin that answers to `id` is removed.
    Unregister { id: Key },
}

/// The table and the count of issued numbers after one operation.
pub open spec fn perform(table: Seq<Record>, issued: nat, op: Operation) -> (Seq<Record>, nat) {
    match op {
        Operation::Register { name, metadata, dynamic } => (
            admission(table, issued, name, metadata, dynamic).table,
            admission(table, issued, name, metadata, dynamic).issued,
        ),
        Operation::Unregister { id } => (removal(table, id), issued),
    }
}

/// The table and the count of issued numbers after a history of operations
/// on an empty registry.
pub open spec fn replay(history: Seq<Operation>) -> (Seq<Record>, nat)
    decreases history.len(),
{
    if history.len() == 0 {
        (Seq::<Record>::empty(), 0)
    } else {
        perform(
            replay(history.drop_last()).0,
            replay(history.drop_last()).1,
            history.last(),
        )
    }
}

/// Whatever is registered and removed, in whatever order, the table stays
/// coherent: no two records share a number, every number lies below the
/// count of numbers issued, and no two records share a name.
pub proof fn law_every_history_is_coherent(history: Seq<Operation>)
    requires
        history.len() <= u64::MAX,
    ensures
        coherent(replay(history).0, replay(history).1),
        replay(history).1 <= history.len(),
        forall|i: int, j: int|
            0 <= i < j < replay(history).0.len() ==> (#[trigger] replay(history).0[i]).index != (
            #[trigger] replay(history).0[j]).index,
    decreases history.len(),
{
    if history.len() > 0 {
        let earlier = history.drop_last();
        law_every_history_is_coherent(earlier);
        let table = replay(earlier).0;
        let issued = replay(earlier).1;
        match history.last() {
            Operation::Register { name, metadata, dynamic } => {
                if !name_taken(table, name) {
                    let record = Record { index: issued as u64, name, metadata, dynamic };
                    law_register_adds_exactly_one(table, issued, record, Key::Index(0));
                }
            },
            Operation::Unregister { id } => {
                if occupied(table, id) {
                    law_unregister_removes_exactly_one(table, issued, id, id);
                }
            },
        }
    }
}

/// A number that has been issued and answers to nothing never answers again,
/// whatever is registered or removed afterwards: a later registration gets a
/// number of its own.
pub proof fn law_retired_index_never_returns(
    history: Seq<Operation>,
    later: Seq<Operation>,
    index: u64,
)
    requires
        history.len() + later.len() <= u64::MAX,
        index < replay(history).1,
        !occupied(replay(history).0, Key::Index(index)),
    ensures
        index < replay(history + later).1,
        !occupied(replay(history + later).0, Key::Index(index)),
    decreases later.len(),
{
    if later.len() == 0 {
        assert(history + later =~= history);
    } else {
        let shorter = later.drop_last();
        let whole = history + later;
        law_retired_index_never_returns(history, shorter, index);
        assert(whole.drop_last() =~= history + shorter);
        assert(whole.last() == later.last());
        law_every_history_is_coherent(history + shorter);
        let table = replay(history + shorter).0;
        let issued = replay(history + shorter).1;
        match later.last() {
            Operation::Register { name, metadata, dynamic } => {
                law_retired_index_stays_retired(
                    table,
                    issued,
                    index,
                    name,
                    metadata,
                    dynamic,
                    Key::Index(index),
                );
            },
            Operation::Unregister { id } => {
                law_retired_index_stays_retired(
                    table,
                    issued,
                    index,
                    None,
                    arbitrary(),
                    false,
                    id,
                );
            },
        }
    }
}

} // verus!
