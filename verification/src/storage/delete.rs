//! Deleting tasks. The tasks that are left are renumbered.
use super::renumber::{known_ids, lemma_known_ids, renumber, renumbered_to, sparse};
use super::{ids_dense, lemma_listed, listed, slot_taken, views, well_formed, Storage};
use crate::task::{empty_task, Id, Slot, Task, TaskView};
use vstd::prelude::*;

verus! {

/// The tasks of `tasks` whose identifier is not in `gone`, in their order
/// and under the identifiers they had.
pub open spec fn kept(tasks: Seq<TaskView>, gone: Set<Id>) -> Seq<TaskView> {
    tasks.filter(|task: TaskView| !gone.contains(task.id))
}

/// `tasks` under the identifiers `1..=n`, in their order.
pub open spec fn renumbered(tasks: Seq<TaskView>) -> Seq<TaskView> {
    Seq::new(
        tasks.len(),
        |i: int| TaskView { id: (i + 1) as Id, head: tasks[i].head, body: tasks[i].body },
    )
}

/// What is left of `tasks` once the identifiers in `gone` are deleted: the
/// other tasks in their order, renumbered from 1.
pub open spec fn without(tasks: Seq<TaskView>, gone: Set<Id>) -> Seq<TaskView> {
    renumbered(kept(tasks, gone))
}

/// Whether some identifier of `ids` is one of `index`.
pub open spec fn any_known(index: Map<Id, Slot>, ids: Seq<Id>) -> bool {
    exists|k: int| 0 <= k < ids.len() && index.contains_key(#[trigger] ids[k])
}

/// Deletes the tasks with the given identifiers, one after the other, and
/// says of each whether there was such a task. If any was deleted, the tasks
/// that are left are renumbered from 1 in the order they had. Each stays in
/// its slot.
pub fn delete_todos(indices: &[Id], data: &mut Storage) -> (deleted: Vec<bool>)
    requires
        old(data).wf(),
    ensures
        final(data).wf(),
        ids_dense(final(data).index()),
        deleted@.len() == indices@.len(),
        forall|k: int|
            0 <= k < indices@.len() ==> #[trigger] deleted@[k] == (old(data).index().contains_key(
                indices@[k],
            ) && !indices@.take(k).contains(indices@[k])),
        final(data)@ == without(old(data)@, indices@.to_set()),
        final(data).dirty() == (old(data).dirty() || any_known(old(data).index(), indices@)),
        !any_known(old(data).index(), indices@) ==> *final(data) == *old(data),
        final(data).slots().len() == old(data).slots().len(),
        forall|j: int|
            0 <= j < final(data)@.len() ==> final(data).index()[(j + 1) as Id] == old(
                data,
            ).index()[(#[trigger] kept(old(data)@, indices@.to_set())[j]).id],
{
    let ghost slots = data.slots();
    let ghost index = data.index();
    let bound = data.id_to_slot.len();
    let mut deleted: Vec<bool> = Vec::new();
    let mut any = false;
    let ghost mut now: Seq<TaskView> = slots;
    let ghost mut left: Map<Id, Slot> = index;
    let mut k: usize = 0;
    while k < indices.len()
        invariant
            well_formed(slots, index),
            bound == index.len(),
            k <= indices@.len(),
            deleted@.len() == k,
            views(data.store@) == now,
            data.id_to_slot@ == left,
            removed(slots, index, indices@.take(k as int), now, left),
            any == any_known(index, indices@.take(k as int)),
            data.is_dirty == (old(data).is_dirty || any),
            !any ==> *data == *old(data),
            forall|j: int|
                0 <= j < k ==> #[trigger] deleted@[j] == (index.contains_key(indices@[j])
                    && !indices@.take(j).contains(indices@[j])),
        decreases indices@.len() - k,
    {
        let id = indices[k];
        proof {
            lemma_remove_step(slots, index, indices@.take(k as int), now, left, id);
            assert(indices@.take(k as int + 1) =~= indices@.take(k as int).push(id));
        }
        let found = match data.id_to_slot.get(&id) {
            Some(slot) => Some(*slot),
            None => None,
        };
        match found {
            Some(slot) => {
                data.store[slot] = Task::default();
                data.id_to_slot.remove(&id);
                data.is_dirty = true;
                any = true;
                deleted.push(true);
                proof {
                    now = now.update(slot as int, empty_task());
                    left = left.remove(id);
                }
            },
            None => {
                deleted.push(false);
            },
        }
        k = k + 1;
    }
    assert(indices@.take(k as int) =~= indices@);
    if any {
        proof {
            lemma_removed_sparse(slots, index, indices@, now, left);
        }
        renumber(data, bound);
    }
    proof {
        lemma_deleted(slots, index, indices@, now, left, data.slots(), data.index());
    }
    deleted
}

/// Deleting the task `id` of a storage with `n` tasks leaves `n - 1`
/// tasks, numbered `1..=n-1`, with the heads and bodies of the others in
/// the order they had.
pub proof fn lemma_delete_renumbers(data: Storage, id: Id)
    requires
        data.wf(),
        data.index().contains_key(id),
    ensures
        without(data@, set![id]).len() == data@.len() - 1,
        forall|i: int|
            0 <= i < data@.len() - 1 ==> (#[trigger] without(data@, set![id])[i]).id == i + 1,
        forall|i: int|
            0 <= i < data@.len() - 1 ==> {
                let from = if i < id - 1 {
                    i
                } else {
                    i + 1
                };
                &&& (#[trigger] without(data@, set![id])[i]).head == data@[from].head
                &&& without(data@, set![id])[i].body == data@[from].body
            },
{
    lemma_listed(data);
    lemma_without_one(data@, id);
}

/// Without the one identifier `id`, tasks that are numbered from 1 are
/// those before it as they were and those after it, each one place and one
/// number lower.
pub proof fn lemma_without_one(tasks: Seq<TaskView>, id: Id)
    requires
        forall|i: int| 0 <= i < tasks.len() ==> (#[trigger] tasks[i]).id == i + 1,
        1 <= id <= tasks.len(),
    ensures
        kept(tasks, set![id]) == tasks.remove(id - 1),
        without(tasks, set![id]).len() == tasks.len() - 1,
        forall|i: int| 0 <= i < id - 1 ==> #[trigger] without(tasks, set![id])[i] == tasks[i],
        forall|i: int|
            id - 1 <= i < tasks.len() - 1 ==> #[trigger] without(tasks, set![id])[i] == (TaskView {
                id: (i + 1) as Id,
                head: tasks[i + 1].head,
                body: tasks[i + 1].body,
            }),
{
    lemma_kept_one(tasks, id, tasks.len());
    assert(tasks.take(tasks.len() as int) =~= tasks);
}

/// What removing the identifiers `gone` one by one makes of a storage,
/// before it is renumbered: their slots hold the placeholder and the index
/// has lost them; the rest is as it was.
spec fn removed(
    slots: Seq<TaskView>,
    index: Map<Id, Slot>,
    gone: Seq<Id>,
    now: Seq<TaskView>,
    left: Map<Id, Slot>,
) -> bool {
    &&& now.len() == slots.len()
    &&& left.dom().finite()
    &&& forall|id: Id| #[trigger] left.contains_key(id) <==> index.contains_key(id) && !gone.contains(id)
    &&& forall|id: Id| #[trigger] left.contains_key(id) ==> left[id] == index[id]
    &&& forall|i: int|
        0 <= i < slots.len() ==> #[trigger] now[i] == if slot_taken(slots, index, i) && gone.contains(
            slots[i].id,
        ) {
            empty_task()
        } else {
            slots[i]
        }
}

/// One removal: of `id`, after those of `gone`.
proof fn lemma_remove_step(
    slots: Seq<TaskView>,
    index: Map<Id, Slot>,
    gone: Seq<Id>,
    now: Seq<TaskView>,
    left: Map<Id, Slot>,
    id: Id,
)
    requires
        well_formed(slots, index),
        removed(slots, index, gone, now, left),
    ensures
        left.contains_key(id) <==> index.contains_key(id) && !gone.contains(id),
        left.contains_key(id) ==> left[id] < slots.len() && removed(
            slots,
            index,
            gone.push(id),
            now.update(left[id] as int, empty_task()),
            left.remove(id),
        ),
        !left.contains_key(id) ==> removed(slots, index, gone.push(id), now, left),
        any_known(index, gone.push(id)) == (any_known(index, gone) || left.contains_key(id)),
{
    let more = gone.push(id);
    assert forall|other: Id| more.contains(other) <==> gone.contains(other) || other == id by {
        if gone.contains(other) {
            let k = choose|k: int| 0 <= k < gone.len() && gone[k] == other;
            assert(more[k] == other);
        }
        if other == id {
            assert(more[gone.len() as int] == id);
        }
    }
    if left.contains_key(id) {
        let slot = left[id];
        let after = now.update(slot as int, empty_task());
        assert forall|i: int| 0 <= i < slots.len() implies #[trigger] after[i] == if slot_taken(
            slots,
            index,
            i,
        ) && more.contains(slots[i].id) {
            empty_task()
        } else {
            slots[i]
        } by {}
    } else {
        assert forall|i: int| 0 <= i < slots.len() implies #[trigger] now[i] == if slot_taken(
            slots,
            index,
            i,
        ) && more.contains(slots[i].id) {
            empty_task()
        } else {
            slots[i]
        } by {}
    }
    if any_known(index, more) && !left.contains_key(id) {
        let k = choose|k: int| 0 <= k < more.len() && index.contains_key(#[trigger] more[k]);
        if k < gone.len() {
            assert(index.contains_key(gone[k]));
        } else {
            let j = choose|j: int| 0 <= j < gone.len() && gone[j] == id;
            assert(index.contains_key(gone[j]));
        }
    }
    if any_known(index, gone) {
        let k = choose|k: int| 0 <= k < gone.len() && index.contains_key(#[trigger] gone[k]);
        assert(index.contains_key(more[k]));
    }
}

/// Between the removals and the renumbering only the gaps among the
/// identifiers keep the storage from being well formed.
proof fn lemma_removed_sparse(
    slots: Seq<TaskView>,
    index: Map<Id, Slot>,
    gone: Seq<Id>,
    now: Seq<TaskView>,
    left: Map<Id, Slot>,
)
    requires
        well_formed(slots, index),
        removed(slots, index, gone, now, left),
    ensures
        sparse(now, left, index.len()),
{
    assert forall|i: int| 0 <= i < now.len() && !#[trigger] slot_taken(now, left, i) implies now[i]
        == empty_task() by {
        if slot_taken(slots, index, i) && !gone.contains(slots[i].id) {
            assert(left.contains_key(slots[i].id));
        }
    }
}

/// The tasks that a batch of deletions leaves, as the storage lists them.
proof fn lemma_deleted(
    slots: Seq<TaskView>,
    index: Map<Id, Slot>,
    gone: Seq<Id>,
    now: Seq<TaskView>,
    left: Map<Id, Slot>,
    last: Seq<TaskView>,
    fresh: Map<Id, Slot>,
)
    requires
        well_formed(slots, index),
        index.len() <= usize::MAX,
        removed(slots, index, gone, now, left),
        any_known(index, gone) ==> renumbered_to(now, left, index.len(), last, fresh),
        !any_known(index, gone) ==> last == slots && fresh == index,
    ensures
        listed(last, fresh) == without(listed(slots, index), gone.to_set()),
        forall|j: int|
            0 <= j < listed(last, fresh).len() ==> fresh[(j + 1) as Id] == index[(#[trigger] kept(
                listed(slots, index),
                gone.to_set(),
            )[j]).id],
{
    let tasks = listed(slots, index);
    lemma_kept(slots, index, gone, left, index.len());
    lemma_known_ids(left, index.len());
    assert(tasks.take(index.len() as int) =~= tasks);
    if !any_known(index, gone) {
        assert(left =~= index);
        lemma_known_ids_dense(index, index.len());
    }
}

/// The tasks kept among the first `upto` are those of the identifiers that
/// the index still knows, in the same order.
proof fn lemma_kept(
    slots: Seq<TaskView>,
    index: Map<Id, Slot>,
    gone: Seq<Id>,
    left: Map<Id, Slot>,
    upto: nat,
)
    requires
        well_formed(slots, index),
        upto <= index.len() <= usize::MAX,
        forall|id: Id| #[trigger] left.contains_key(id) <==> index.contains_key(id) && !gone.contains(id),
    ensures
        kept(listed(slots, index).take(upto as int), gone.to_set()).len() == known_ids(
            left,
            upto,
        ).len(),
        forall|j: int|
            0 <= j < known_ids(left, upto).len() ==> #[trigger] kept(
                listed(slots, index).take(upto as int),
                gone.to_set(),
            )[j] == listed(slots, index)[known_ids(left, upto)[j] - 1],
    decreases upto,
{
    let tasks = listed(slots, index);
    let keep = |task: TaskView| !gone.to_set().contains(task.id);
    if upto > 0 {
        let below = (upto - 1) as nat;
        let id = upto as Id;
        lemma_kept(slots, index, gone, left, below);
        assert(index.contains_key(id));
        assert(tasks.take(upto as int) =~= tasks.take(below as int).push(tasks[upto - 1]));
        Seq::lemma_filter_push(tasks.take(below as int), tasks[upto - 1], keep);
    }
}

/// Of an index without gaps every identifier is known.
proof fn lemma_known_ids_dense(index: Map<Id, Slot>, upto: nat)
    requires
        upto <= usize::MAX,
        forall|id: Id| 1 <= id <= upto ==> index.contains_key(id),
    ensures
        known_ids(index, upto) == Seq::new(upto, |i: int| (i + 1) as Id),
    decreases upto,
{
    if upto > 0 {
        lemma_known_ids_dense(index, (upto - 1) as nat);
    }
}

/// Among the first `upto` of tasks that are numbered from 1, all but the
/// one with the identifier `id` are kept.
proof fn lemma_kept_one(tasks: Seq<TaskView>, id: Id, upto: nat)
    requires
        forall|i: int| 0 <= i < tasks.len() ==> (#[trigger] tasks[i]).id == i + 1,
        1 <= id,
        upto <= tasks.len(),
    ensures
        kept(tasks.take(upto as int), set![id]) == if id <= upto {
            tasks.take(upto as int).remove(id - 1)
        } else {
            tasks.take(upto as int)
        },
    decreases upto,
{
    let keep = |task: TaskView| !set![id].contains(task.id);
    if upto > 0 {
        let below = tasks.take(upto - 1);
        let last = tasks[upto - 1];
        lemma_kept_one(tasks, id, (upto - 1) as nat);
        assert(tasks.take(upto as int) =~= below.push(last));
        Seq::lemma_filter_push(below, last, keep);
    }
}

} // verus!
