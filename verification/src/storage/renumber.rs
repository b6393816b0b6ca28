//! Renumbering: the identifiers `1..=n` for the tasks that a batch of
//! removals has left, in the order of the identifiers they had.
use super::{slot_taken, views, well_formed, Storage};
use crate::task::{empty_task, Id, Slot, TaskView};
use std::collections::BTreeMap;
use vstd::prelude::*;

verus! {

/// The invariant of a storage between the removals of a batch and the
/// renumbering: as `well_formed`, but the identifiers may have gaps; none
/// is above `bound`.
pub(super) open spec fn sparse(slots: Seq<TaskView>, index: Map<Id, Slot>, bound: nat) -> bool {
    &&& slots.len() > 0
    &&& index.dom().finite()
    &&& forall|id: Id| #[trigger] index.contains_key(id) ==> 1 <= id <= bound
    &&& forall|id: Id| #[trigger]
        index.contains_key(id) ==> index[id] < slots.len() && slots[index[id] as int].id == id
    &&& forall|i: int|
        0 <= i < slots.len() && !#[trigger] slot_taken(slots, index, i) ==> slots[i]
            == empty_task()
}

/// The identifiers of `index` that are at most `bound`, in increasing order.
pub(super) open spec fn known_ids(index: Map<Id, Slot>, bound: nat) -> Seq<Id>
    decreases bound,
{
    if bound == 0 {
        Seq::empty()
    } else {
        let below = known_ids(index, (bound - 1) as nat);
        if index.contains_key(bound as Id) {
            below.push(bound as Id)
        } else {
            below
        }
    }
}

/// What renumbering has done once it has looked at the identifiers up to
/// `upto`: those known are renumbered from 1 in their order and keep their
/// slots; every other slot is as it was.
pub(super) open spec fn renumbered_to(
    slots: Seq<TaskView>,
    index: Map<Id, Slot>,
    upto: nat,
    now: Seq<TaskView>,
    fresh: Map<Id, Slot>,
) -> bool {
    let ids = known_ids(index, upto);
    &&& now.len() == slots.len()
    &&& fresh.dom().finite()
    &&& fresh.len() == ids.len()
    &&& forall|j: Id| #[trigger] fresh.contains_key(j) <==> 1 <= j <= ids.len()
    &&& forall|j: int|
        0 <= j < ids.len() ==> {
            let slot = index[#[trigger] ids[j]];
            &&& fresh[(j + 1) as Id] == slot
            &&& now[slot as int] == (TaskView {
                id: (j + 1) as Id,
                head: slots[slot as int].head,
                body: slots[slot as int].body,
            })
        }
    &&& forall|i: int|
        #![trigger slot_taken(slots, index, i)]
        0 <= i < slots.len() && !(slot_taken(slots, index, i) && slots[i].id <= upto) ==> now[i]
            == slots[i]
}

/// Gives the tasks the identifiers `1..=n` in the order of the identifiers
/// they have, and leaves each in its slot.
pub(super) fn renumber(data: &mut Storage, bound: usize)
    requires
        sparse(old(data).slots(), old(data).index(), bound as nat),
    ensures
        final(data).wf(),
        final(data).dirty() == old(data).dirty(),
        final(data).slots().len() == old(data).slots().len(),
        renumbered_to(
            old(data).slots(),
            old(data).index(),
            bound as nat,
            final(data).slots(),
            final(data).index(),
        ),
{
    let ghost slots = data.slots();
    let ghost index = data.index();
    let mut gapped: BTreeMap<Id, Slot> = BTreeMap::new();
    std::mem::swap(&mut data.id_to_slot, &mut gapped);
    let capacity = data.store.len();
    let ghost mut expect: Seq<TaskView> = slots;
    let ghost mut fresh: Map<Id, Slot> = Map::empty();
    let mut next: Id = 0;
    let mut id: Id = 0;
    while id < bound as Id
        invariant
            gapped@ == index,
            sparse(slots, index, bound as nat),
            capacity == slots.len(),
            data.store@.len() == capacity,
            data.is_dirty == old(data).is_dirty,
            views(data.store@) == expect,
            data.id_to_slot@ == fresh,
            id <= bound,
            next == known_ids(index, id as nat).len(),
            next <= id,
            expect.len() == capacity,
            renumbered_to(slots, index, id as nat, expect, fresh),
        decreases bound - id,
    {
        proof {
            lemma_renumber_step(slots, index, bound as nat, id as nat, expect, fresh);
        }
        id = id + 1;
        if let Some(found) = gapped.get(&id) {
            let slot = *found;
            next = next + 1;
            data.id_to_slot.insert(next, slot);
            data.store[slot].id = next;
            proof {
                expect = expect.update(
                    slot as int,
                    TaskView {
                        id: next,
                        head: slots[slot as int].head,
                        body: slots[slot as int].body,
                    },
                );
                fresh = fresh.insert(next, slot);
            }
        }
    }
    proof {
        lemma_renumbered(slots, index, bound as nat, expect, fresh);
    }
}

/// `known_ids` lists each identifier up to the bound once, in increasing
/// order, and nothing else.
pub(super) proof fn lemma_known_ids(index: Map<Id, Slot>, bound: nat)
    requires
        bound <= u64::MAX,
    ensures
        known_ids(index, bound).len() <= bound,
        forall|j: int|
            0 <= j < known_ids(index, bound).len() ==> 1 <= #[trigger] known_ids(index, bound)[j]
                <= bound && index.contains_key(known_ids(index, bound)[j]),
        forall|i: int, j: int|
            #![trigger known_ids(index, bound)[i], known_ids(index, bound)[j]]
            0 <= i < j < known_ids(index, bound).len() ==> known_ids(index, bound)[i] < known_ids(
                index,
                bound,
            )[j],
        forall|id: Id|
            1 <= id <= bound && index.contains_key(id) ==> #[trigger] known_ids(
                index,
                bound,
            ).contains(id),
    decreases bound,
{
    if bound > 0 {
        let below = known_ids(index, (bound - 1) as nat);
        let ids = known_ids(index, bound);
        lemma_known_ids(index, (bound - 1) as nat);
        assert forall|id: Id| 1 <= id <= bound && index.contains_key(id) implies ids.contains(
            id,
        ) by {
            if id == bound {
                assert(ids[ids.len() - 1] == id);
            } else {
                assert(below.contains(id));
                let j = choose|j: int| 0 <= j < below.len() && below[j] == id;
                assert(ids[j] == id);
            }
        }
    }
}

/// One step of renumbering: looking at the identifier `upto + 1`.
proof fn lemma_renumber_step(
    slots: Seq<TaskView>,
    index: Map<Id, Slot>,
    bound: nat,
    upto: nat,
    now: Seq<TaskView>,
    fresh: Map<Id, Slot>,
)
    requires
        bound <= usize::MAX,
        upto < bound,
        sparse(slots, index, bound),
        renumbered_to(slots, index, upto, now, fresh),
    ensures
        known_ids(index, upto).len() <= upto,
        index.contains_key((upto + 1) as Id) ==> {
            let slot = index[(upto + 1) as Id];
            let next = (known_ids(index, upto).len() + 1) as Id;
            &&& known_ids(index, upto + 1).len() == known_ids(index, upto).len() + 1
            &&& now[slot as int] == slots[slot as int]
            &&& renumbered_to(
                slots,
                index,
                upto + 1,
                now.update(
                    slot as int,
                    TaskView {
                        id: next,
                        head: slots[slot as int].head,
                        body: slots[slot as int].body,
                    },
                ),
                fresh.insert(next, slot),
            )
        },
        !index.contains_key((upto + 1) as Id) ==> known_ids(index, upto + 1) == known_ids(
            index,
            upto,
        ) && renumbered_to(slots, index, upto + 1, now, fresh),
{
    let id = (upto + 1) as Id;
    let seen = known_ids(index, upto);
    let ids = known_ids(index, upto + 1);
    lemma_known_ids(index, upto);
    if index.contains_key(id) {
        let slot = index[id];
        let next = (seen.len() + 1) as Id;
        let task = TaskView {
            id: next,
            head: slots[slot as int].head,
            body: slots[slot as int].body,
        };
        let after = now.update(slot as int, task);
        let more = fresh.insert(next, slot);
        assert(slot_taken(slots, index, slot as int));
        assert forall|j: int| 0 <= j < ids.len() implies {
            let at = index[#[trigger] ids[j]];
            &&& more[(j + 1) as Id] == at
            &&& after[at as int] == (TaskView {
                id: (j + 1) as Id,
                head: slots[at as int].head,
                body: slots[at as int].body,
            })
        } by {}
        assert(renumbered_to(slots, index, upto + 1, after, more));
    } else {
        assert forall|j: int| 0 <= j < ids.len() implies {
            let at = index[#[trigger] ids[j]];
            &&& fresh[(j + 1) as Id] == at
            &&& now[at as int] == (TaskView {
                id: (j + 1) as Id,
                head: slots[at as int].head,
                body: slots[at as int].body,
            })
        } by {}
    }
}

/// Once renumbering has looked at every identifier, the storage is well
/// formed again.
proof fn lemma_renumbered(
    slots: Seq<TaskView>,
    index: Map<Id, Slot>,
    bound: nat,
    now: Seq<TaskView>,
    fresh: Map<Id, Slot>,
)
    requires
        bound <= usize::MAX,
        sparse(slots, index, bound),
        renumbered_to(slots, index, bound, now, fresh),
    ensures
        well_formed(now, fresh),
{
    let ids = known_ids(index, bound);
    lemma_known_ids(index, bound);
    assert forall|j: Id| #[trigger] fresh.contains_key(j) implies fresh[j] < now.len()
        && now[fresh[j] as int].id == j by {
        assert(index.contains_key(ids[j - 1]));
    }
    assert forall|i: int| 0 <= i < now.len() && !#[trigger] slot_taken(now, fresh, i) implies now[i]
        == empty_task() by {
        if slot_taken(slots, index, i) {
            let was = slots[i].id;
            assert(ids.contains(was));
            let j = choose|j: int| 0 <= j < ids.len() && ids[j] == was;
            assert(fresh[(j + 1) as Id] == i);
        }
    }
}

} // verus!
