//! Slot allocation: the first free slot of the buffer, which is doubled
//! where none is free.
use super::{lemma_taken_slots, placeholders, slot_taken, views, well_formed, Storage};
use crate::task::{Id, Slot, Task, TaskView};
use vstd::prelude::*;

verus! {

/// The buffer as slot allocation leaves it: twice as long, the new half
/// placeholders, where every slot was taken, and as it was elsewhere.
pub open spec fn grown(slots: Seq<TaskView>, index: Map<Id, Slot>) -> Seq<TaskView> {
    if index.len() == slots.len() {
        slots + placeholders(slots.len())
    } else {
        slots
    }
}

/// Whether `slot` is the first slot of the buffer that no identifier points
/// to.
pub open spec fn is_first_free(slots: Seq<TaskView>, index: Map<Id, Slot>, slot: int) -> bool {
    &&& 0 <= slot < slots.len()
    &&& !slot_taken(slots, index, slot)
    &&& forall|i: int| 0 <= i < slot ==> slot_taken(slots, index, i)
}

/// Doubling keeps a full buffer well formed, and leaves its first new slot
/// as the first free one.
proof fn lemma_grown(slots: Seq<TaskView>, index: Map<Id, Slot>)
    requires
        well_formed(slots, index),
    ensures
        well_formed(grown(slots, index), index),
        exists|slot: int| is_first_free(grown(slots, index), index, slot),
{
    let more = grown(slots, index);
    lemma_taken_slots(slots, index);
    assert forall|i: int| 0 <= i < slots.len() implies slot_taken(more, index, i) == slot_taken(
        slots,
        index,
        i,
    ) by {}
    if index.len() == slots.len() {
        assert(!slot_taken(more, index, slots.len() as int));
    } else {
        let i = choose|i: int| 0 <= i < slots.len() && !slot_taken(slots, index, i);
        assert(!slot_taken(more, index, i));
    }
    lemma_first_free(more, index, more.len() as int);
}

/// Below a bound that not all slots under it are taken by, a first free
/// slot exists.
proof fn lemma_first_free(slots: Seq<TaskView>, index: Map<Id, Slot>, bound: int)
    requires
        0 <= bound <= slots.len(),
        exists|i: int| 0 <= i < bound && !slot_taken(slots, index, i),
    ensures
        exists|slot: int| slot < bound && is_first_free(slots, index, slot),
    decreases bound,
{
    if exists|i: int| 0 <= i < bound - 1 && !slot_taken(slots, index, i) {
        lemma_first_free(slots, index, bound - 1);
    } else {
        assert(is_first_free(slots, index, bound - 1));
    }
}

/// The first slot of the buffer that no identifier points to. Where every
/// slot is taken, the buffer is first doubled, the new slots filled with the
/// placeholder.
pub fn get_next_slot(data: &mut Storage) -> (slot: Slot)
    requires
        old(data).wf(),
        old(data).has_room(),
    ensures
        final(data).wf(),
        final(data).index() == old(data).index(),
        final(data).dirty() == old(data).dirty(),
        final(data).slots() == grown(old(data).slots(), old(data).index()),
        is_first_free(final(data).slots(), final(data).index(), slot as int),
{
    let len = data.store.len();
    if data.id_to_slot.len() == len {
        let mut added: usize = 0;
        while added < len
            invariant
                added <= len,
                2 * len <= usize::MAX,
                len == old(data).store@.len(),
                data.store@.len() == len + added,
                views(data.store@) == old(data).slots() + placeholders(added as nat),
                data.id_to_slot == old(data).id_to_slot,
                data.is_dirty == old(data).is_dirty,
            decreases len - added,
        {
            let ghost before = data.store@;
            data.store.push(Task::default());
            added = added + 1;
            assert(views(data.store@) =~= old(data).slots() + placeholders(added as nat)) by {
                assert forall|j: int| 0 <= j < len + added implies views(data.store@)[j] == (
                old(data).slots() + placeholders(added as nat))[j] by {
                    if j < len + added - 1 {
                        assert(views(before)[j] == (old(data).slots() + placeholders(
                            (added - 1) as nat,
                        ))[j]);
                    }
                }
            }
        }
    }
    proof {
        lemma_grown(old(data).slots(), old(data).index());
    }
    let ghost free = choose|slot: int| is_first_free(data.slots(), data.index(), slot);
    let capacity = data.store.len();
    let mut slot: usize = 0;
    while data.store[slot].id != 0
        invariant
            data.wf(),
            data.slots().len() == capacity,
            is_first_free(data.slots(), data.index(), free),
            slot <= free,
        decreases free - slot,
    {
        slot = slot + 1;
    }
    slot
}

} // verus!
