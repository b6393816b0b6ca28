//! A storage from its parts: whether a buffer and an index make one.
use super::{ids_dense, lemma_taken_slots, slot_taken, views, well_formed, Storage};
use crate::error::TaskError;
use crate::task::{empty_task, Id, Slot, Task};
use std::collections::BTreeMap;
use vstd::prelude::*;
use vstd::set_lib::{lemma_int_range, lemma_map_size, lemma_subset_equality, set_int_range};

verus! {

/// An index of `n` identifiers that knows all of `1..=n` knows no other.
proof fn lemma_dense(index: Map<Id, Slot>)
    requires
        index.dom().finite(),
        index.len() <= usize::MAX,
        forall|id: Id| 1 <= id <= index.len() ==> index.contains_key(id),
    ensures
        ids_dense(index),
{
    let n = index.len() as int;
    let numbers = set_int_range(1, n + 1);
    let as_id = |i: int| i as Id;
    let ids = numbers.map(as_id);
    lemma_int_range(1, n + 1);
    lemma_map_size(numbers, ids, as_id);
    lemma_subset_equality(ids, index.dom());
}

/// Whether a buffer and an index make a well-formed storage.
pub fn is_well_formed(store: &Vec<Task>, id_to_slot: &BTreeMap<Id, Slot>) -> (ok: bool)
    ensures
        ok == well_formed(views(store@), id_to_slot@),
{
    let ghost slots = views(store@);
    let ghost index = id_to_slot@;
    let capacity = store.len();
    let count = id_to_slot.len();
    if capacity == 0 {
        return false;
    }
    if count > capacity {
        proof {
            if well_formed(slots, index) {
                lemma_taken_slots(slots, index);
            }
        }
        return false;
    }
    let mut seen: usize = 0;
    while seen < count
        invariant
            slots == views(store@),
            index == id_to_slot@,
            capacity == store@.len(),
            count == index.len(),
            seen <= count <= capacity,
            forall|id: Id|
                1 <= id <= seen ==> #[trigger] index.contains_key(id) && index[id] < capacity
                    && slots[index[id] as int].id == id,
        decreases count - seen,
    {
        let id = (seen + 1) as Id;
        match id_to_slot.get(&id) {
            Some(slot) => {
                if *slot >= capacity || store[*slot].id != id {
                    return false;
                }
            },
            None => {
                return false;
            },
        }
        seen = seen + 1;
    }
    proof {
        lemma_dense(index);
    }
    let mut slot: usize = 0;
    while slot < capacity
        invariant
            slots == views(store@),
            index == id_to_slot@,
            capacity == store@.len(),
            count == index.len(),
            count <= capacity,
            slot <= capacity,
            ids_dense(index),
            forall|i: int|
                0 <= i < slot && !#[trigger] slot_taken(slots, index, i) ==> slots[i]
                    == empty_task(),
        decreases capacity - slot,
    {
        let task = &store[slot];
        let taken = match id_to_slot.get(&task.id) {
            Some(at) => *at == slot,
            None => false,
        };
        assert(taken == slot_taken(slots, index, slot as int));
        if !taken && !task.is_placeholder() {
            return false;
        }
        slot = slot + 1;
    }
    true
}

impl Storage {
    /// A storage of the given parts, where they make a well-formed one.
    pub fn from_parts(store: Vec<Task>, id_to_slot: BTreeMap<Id, Slot>, is_dirty: bool) -> (made:
        Result<Storage, TaskError>)
        ensures
            match made {
                Ok(data) => {
                    &&& well_formed(views(store@), id_to_slot@)
                    &&& data.wf()
                    &&& data.slots() == views(store@)
                    &&& data.index() == id_to_slot@
                    &&& data.dirty() == is_dirty
                },
                Err(error) => {
                    &&& !well_formed(views(store@), id_to_slot@)
                    &&& error == TaskError::Corruption
                },
            },
    {
        if is_well_formed(&store, &id_to_slot) {
            Ok(Storage { store, id_to_slot, is_dirty })
        } else {
            Err(TaskError::Corruption)
        }
    }
}

} // verus!
