//! Adding a task.
use super::slots::{get_next_slot, grown, is_first_free};
use super::{ids_dense, lemma_taken_slots, listed, slot_taken, Storage};
use crate::error::TaskError;
use crate::task::{empty_task, Id, Task, TaskView};
use crate::text::{decimal, decimal_string, trim, trimmed};
use vstd::prelude::*;

verus! {

/// The text of an optional argument: nothing where it is absent.
pub open spec fn text_of(arg: Option<String>) -> Seq<char> {
    match arg {
        Some(text) => text@,
        None => Seq::empty(),
    }
}

/// The task that `add_one` makes of two texts under the identifier `id`:
/// both trimmed.
pub open spec fn new_task(id: Id, head: Seq<char>, body: Seq<char>) -> TaskView {
    TaskView { id, head: trimmed(head), body: trimmed(body) }
}

/// Whether both texts are empty once trimmed.
pub open spec fn is_blank(head: Seq<char>, body: Seq<char>) -> bool {
    trimmed(head).len() == 0 && trimmed(body).len() == 0
}

/// The trimmed text of an optional argument.
fn trimmed_arg(arg: Option<String>) -> (text: String)
    ensures
        text@ == trimmed(text_of(arg)),
{
    match arg {
        Some(given) => trim(given.as_str()),
        None => String::new(),
    }
}

/// Adds a task with the given head and body, both trimmed, under the next
/// identifier, and returns that identifier. Where both are empty once
/// trimmed, nothing is added and nothing changes.
pub fn add_one(head: Option<String>, body: Option<String>, data: &mut Storage) -> (added: Result<
    Id,
    TaskError,
>)
    requires
        old(data).wf(),
        old(data).has_room(),
    ensures
        final(data).wf(),
        ids_dense(final(data).index()),
        match added {
            Ok(id) => {
                let slot = final(data).index()[id];
                let buffer = grown(old(data).slots(), old(data).index());
                let task = new_task(id, text_of(head), text_of(body));
                &&& !is_blank(text_of(head), text_of(body))
                &&& id == old(data).count() + 1
                &&& final(data)@ == old(data)@.push(task)
                &&& final(data).dirty()
                &&& is_first_free(buffer, old(data).index(), slot as int)
                &&& final(data).index() == old(data).index().insert(id, slot)
                &&& final(data).slots() == buffer.update(slot as int, task)
            },
            Err(error) => {
                &&& is_blank(text_of(head), text_of(body))
                &&& error == TaskError::InvalidInput
                &&& *final(data) == *old(data)
            },
        },
{
    let head_text = trimmed_arg(head);
    let body_text = trimmed_arg(body);
    if head_text.as_str().is_empty() && body_text.as_str().is_empty() {
        return Err(TaskError::InvalidInput);
    }
    let slot = get_next_slot(data);
    proof {
        lemma_taken_slots(data.slots(), data.index());
    }
    let ghost buffer = data.slots();
    let ghost index = data.index();
    let count = data.id_to_slot.len();
    assert(data.slots().len() == data.store.len());
    let new_id = (count + 1) as Id;
    let task = Task { id: new_id, head: head_text, body: body_text };
    let ghost task_view = task@;
    data.store[slot] = task;
    data.id_to_slot.insert(new_id, slot);
    data.is_dirty = true;
    proof {
        let slots = data.slots();
        let after = data.index();
        assert forall|i: int| 0 <= i < slots.len() && !slot_taken(slots, after, i) implies slots[i]
            == empty_task() by {
            if i != slot {
                assert(!slot_taken(buffer, index, i));
            }
        }
        assert(data@ =~= old(data)@.push(task_view)) by {
            assert forall|i: int| 0 <= i < index.len() implies listed(slots, after)[i] == listed(
                old(data).slots(),
                index,
            )[i] by {
                let id = (i + 1) as Id;
                assert(index.contains_key(id));
            }
        }
    }
    Ok(new_id)
}

/// Two empty texts are blank: `add_one` rejects them.
pub proof fn lemma_empty_is_blank()
    ensures
        is_blank(Seq::empty(), Seq::empty()),
{
}

/// What the user is told of the task `id` that was added.
pub open spec fn added_text(id: Id) -> Seq<char> {
    "Task "@ + decimal(id as nat) + " added!"@
}

/// What the user is told of the task `id` that was added.
pub fn added_message(id: Id) -> (text: String)
    ensures
        text@ == added_text(id),
{
    let mut text = String::from_str("Task ");
    text.append(decimal_string(id).as_str());
    text.append(" added!");
    text
}

} // verus!
