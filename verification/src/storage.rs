//! The storage model: a buffer of slots and an index from task identifiers
//! to slots.
//!
//! Tasks live in a buffer that is allocated ahead of use. Most of its slots
//! hold the placeholder. An index maps each identifier to the slot of its
//! task. Identifiers are dense: with `n` tasks they are `1..=n`, and a
//! deletion renumbers what is left.
use crate::error::TaskError;
use crate::task::{empty_task, Id, Slot, Task, TaskView};
use std::collections::BTreeMap;
use vstd::prelude::*;
use vstd::set_lib::{lemma_int_range, lemma_len_subset, lemma_map_size, lemma_subset_equality, set_int_range};

mod add;
mod delete;
mod list;
mod parts;
mod renumber;
mod slots;
mod update;

pub use add::{add_one, added_message, added_text, is_blank, lemma_empty_is_blank, new_task, text_of};
pub use delete::{
    any_known, delete_todos, kept, lemma_delete_renumbers, lemma_without_one, renumbered, without,
};
pub use list::{list_all, list_line, listing};
pub use parts::is_well_formed;
pub use slots::{get_next_slot, grown, is_first_free};
pub use update::{change_message, change_text, edited, update, Change};

verus! {

/// Number of slots of a fresh storage.
pub const INITIAL_TASKS_ARRAY_LENGTH: usize = 64;

/// The state of the task manager.
#[derive(Debug)]
pub struct Storage {
    /// The slot buffer.
    store: Vec<Task>,
    /// From each identifier to the slot of its task.
    id_to_slot: BTreeMap<Id, Slot>,
    /// Whether there are changes that the disk has not seen.
    is_dirty: bool,
}

/// The tasks of a buffer as the contracts see them.
pub open spec fn views(tasks: Seq<Task>) -> Seq<TaskView> {
    tasks.map_values(|task: Task| task@)
}

/// A run of `n` placeholders.
pub open spec fn placeholders(n: nat) -> Seq<TaskView> {
    Seq::new(n, |i: int| empty_task())
}

/// Whether slot `i` is the slot of some identifier.
pub open spec fn slot_taken(slots: Seq<TaskView>, index: Map<Id, Slot>, i: int) -> bool {
    index.contains_key(slots[i].id) && index[slots[i].id] == i
}

/// Whether the identifiers of `index` are exactly `1..=n`, `n` their number.
pub open spec fn ids_dense(index: Map<Id, Slot>) -> bool {
    &&& index.dom().finite()
    &&& forall|id: Id| #[trigger] index.contains_key(id) <==> 1 <= id <= index.len()
}

/// The invariant of a storage, over its slots and its index.
///
/// There is at least one slot. The identifiers are dense. Each identifier
/// points to a slot of the buffer, and the task there carries it. No slot
/// belongs to two identifiers. A slot that belongs to none holds the
/// placeholder.
pub open spec fn well_formed(slots: Seq<TaskView>, index: Map<Id, Slot>) -> bool {
    &&& slots.len() > 0
    &&& ids_dense(index)
    &&& forall|id: Id| #[trigger]
        index.contains_key(id) ==> index[id] < slots.len() && slots[index[id] as int].id == id
    &&& forall|a: Id, b: Id|
        #![trigger index[a], index[b]]
        index.contains_key(a) && index.contains_key(b) && a != b ==> index[a] != index[b]
    &&& forall|i: int|
        0 <= i < slots.len() && !#[trigger] slot_taken(slots, index, i) ==> slots[i]
            == empty_task()
}

/// The tasks in the order of their identifiers.
pub open spec fn listed(slots: Seq<TaskView>, index: Map<Id, Slot>) -> Seq<TaskView> {
    Seq::new(index.len(), |i: int| slots[index[(i + 1) as Id] as int])
}

impl Storage {
    /// The slot buffer.
    pub closed spec fn slots(&self) -> Seq<TaskView> {
        views(self.store@)
    }

    /// From each identifier to its slot.
    pub closed spec fn index(&self) -> Map<Id, Slot> {
        self.id_to_slot@
    }

    /// Whether there are changes to persist.
    pub closed spec fn dirty(&self) -> bool {
        self.is_dirty
    }

    /// The invariant that every operation keeps.
    pub open spec fn wf(&self) -> bool {
        well_formed(self.slots(), self.index())
    }

    /// Number of tasks.
    pub open spec fn count(&self) -> nat {
        self.index().len()
    }

    /// The tasks in the order of their identifiers.
    pub open spec fn tasks(&self) -> Seq<TaskView> {
        listed(self.slots(), self.index())
    }
}

impl View for Storage {
    type V = Seq<TaskView>;

    /// What a user observes of a storage: its tasks, in order.
    open spec fn view(&self) -> Seq<TaskView> {
        self.tasks()
    }
}

/// In a well-formed storage no more identifiers exist than slots, and as
/// many exactly when every slot is taken.
pub proof fn lemma_taken_slots(slots: Seq<TaskView>, index: Map<Id, Slot>)
    requires
        well_formed(slots, index),
    ensures
        index.len() <= slots.len(),
        index.len() == slots.len() <==> forall|i: int|
            0 <= i < slots.len() ==> slot_taken(slots, index, i),
{
    let ids = index.dom();
    let all = set_int_range(0, slots.len() as int);
    let slot_of = |id: Id| index[id] as int;
    let used = ids.map(slot_of);
    lemma_int_range(0, slots.len() as int);
    lemma_map_size(ids, used, slot_of);
    lemma_len_subset(used, all);
    if index.len() == slots.len() {
        lemma_subset_equality(used, all);
        assert forall|i: int| 0 <= i < slots.len() implies slot_taken(slots, index, i) by {
            assert(all.contains(i));
            let id = choose|id: Id| ids.contains(id) && slot_of(id) == i;
            assert(slots[i].id == id);
        }
    }
    if forall|i: int| 0 <= i < slots.len() ==> slot_taken(slots, index, i) {
        assert(all.subset_of(used)) by {
            assert forall|i: int| all.contains(i) implies used.contains(i) by {
                assert(slot_taken(slots, index, i));
            }
        }
        lemma_len_subset(all, used);
    }
}

impl Default for Storage {
    /// A storage without tasks: `INITIAL_TASKS_ARRAY_LENGTH` placeholders,
    /// an empty index, nothing to persist.
    fn default() -> (data: Storage)
        ensures
            data.wf(),
            data.slots() == placeholders(INITIAL_TASKS_ARRAY_LENGTH as nat),
            data.index() == Map::<Id, Slot>::empty(),
            !data.dirty(),
            data@ == Seq::<TaskView>::empty(),
    {
        let mut store: Vec<Task> = Vec::new();
        let mut i: usize = 0;
        while i < INITIAL_TASKS_ARRAY_LENGTH
            invariant
                i <= INITIAL_TASKS_ARRAY_LENGTH,
                store@.len() == i,
                views(store@) == placeholders(i as nat),
            decreases INITIAL_TASKS_ARRAY_LENGTH - i,
        {
            let ghost before = store@;
            store.push(Task::default());
            i = i + 1;
            assert forall|j: int| 0 <= j < i implies views(store@)[j] == empty_task() by {
                if j < i - 1 {
                    assert(views(before)[j] == placeholders((i - 1) as nat)[j]);
                }
            }
        }
        let data = Storage { store, id_to_slot: BTreeMap::new(), is_dirty: false };
        data
    }
}

impl Storage {
    /// Number of tasks.
    pub fn len(&self) -> (n: usize)
        ensures
            n == self.count(),
            n == self@.len(),
    {
        self.id_to_slot.len()
    }

    /// Whether there is no task.
    pub fn is_empty(&self) -> (empty: bool)
        ensures
            empty == (self.count() == 0),
    {
        self.id_to_slot.len() == 0
    }

    /// Number of slots of the buffer.
    pub fn capacity(&self) -> (n: usize)
        ensures
            n == self.slots().len(),
    {
        self.store.len()
    }

    /// Whether a task can be added: a slot is free, or the buffer can be
    /// doubled within what the machine can count.
    pub open spec fn spec_has_room(&self) -> bool {
        self.count() < self.slots().len() || 2 * self.slots().len() <= usize::MAX
    }

    /// Whether a task can be added: a slot is free, or the buffer can be
    /// doubled within what the machine can count.
    #[verifier::when_used_as_spec(spec_has_room)]
    pub fn has_room(&self) -> (room: bool)
        ensures
            room == self.spec_has_room(),
    {
        self.id_to_slot.len() < self.store.len() || self.store.len() <= usize::MAX / 2
    }

    /// Whether there are changes that the disk has not seen.
    pub fn is_dirty(&self) -> (dirty: bool)
        ensures
            dirty == self.dirty(),
    {
        self.is_dirty
    }

    /// Notes that the disk has seen every change.
    pub fn mark_saved(&mut self)
        ensures
            final(self).slots() == old(self).slots(),
            final(self).index() == old(self).index(),
            !final(self).dirty(),
    {
        self.is_dirty = false;
    }

    /// The slot buffer.
    pub fn store(&self) -> (store: &Vec<Task>)
        ensures
            views(store@) == self.slots(),
    {
        &self.store
    }

    /// The index from identifiers to slots.
    pub fn id_to_slot(&self) -> (index: &BTreeMap<Id, Slot>)
        ensures
            index@ == self.index(),
    {
        &self.id_to_slot
    }

    /// Whether a task has the identifier `id`.
    pub fn contains(&self, id: Id) -> (known: bool)
        ensures
            known == self.index().contains_key(id),
    {
        self.id_to_slot.contains_key(&id)
    }

    /// The task with the identifier `id`.
    pub fn get(&self, id: Id) -> (found: Result<&Task, TaskError>)
        requires
            self.wf(),
        ensures
            match found {
                Ok(task) => self.index().contains_key(id) && task@ == self@[id - 1],
                Err(error) => !self.index().contains_key(id) && error == TaskError::NotFound(id),
            },
    {
        match self.id_to_slot.get(&id) {
            Some(slot) => Ok(&self.store[*slot]),
            None => Err(TaskError::NotFound(id)),
        }
    }
}

/// The tasks of a well-formed storage are listed under the identifiers
/// `1..=n`: the task at position `i` has the identifier `i + 1`, and every
/// identifier that the index knows is one of these.
pub proof fn lemma_listed(data: Storage)
    requires
        data.wf(),
    ensures
        data@.len() == data.count(),
        data.count() <= data.slots().len(),
        forall|i: int| 0 <= i < data@.len() ==> (#[trigger] data@[i]).id == i + 1,
        forall|id: Id| #[trigger] data.index().contains_key(id) <==> 1 <= id <= data.count(),
        data.index().dom() == Set::new(|id: Id| 1 <= id <= data.count()),
{
    lemma_taken_slots(data.slots(), data.index());
    assert(data.slots().len() == data.store.len());
    assert forall|i: int| 0 <= i < data@.len() implies (#[trigger] data@[i]).id == i + 1 by {
        assert(data.index().contains_key((i + 1) as Id));
    }
}

} // verus!
