//! Replacing the head and body of a task.
use super::delete::{delete_todos, kept, without};
use super::{lemma_taken_slots, listed, slot_taken, Storage};
use crate::error::TaskError;
use crate::task::{Id, Task, TaskView};
use crate::text::{decimal, decimal_string, join_lines, joined, texts};
use vstd::prelude::*;

verus! {

/// What an update made of a task.
#[derive(Clone, Copy, Debug, PartialEq, Eq)]
pub enum Change {
    /// The task has a new head or body.
    Updated,
    /// The replacement is what the task held already.
    NotUpdated,
    /// The replacement had no lines: the task is deleted.
    Deleted,
}

/// The task that the lines of an edited text make under the identifier
/// `id`: the first line is the head, the other lines are the body.
pub open spec fn edited(id: Id, lines: Seq<Seq<char>>) -> TaskView {
    TaskView { id, head: lines[0], body: joined(lines.skip(1)) }
}

/// Replaces the head and body of the task `id` by the first and the other
/// lines of `lines`. Without lines the task is deleted and the others are
/// renumbered. A replacement that changes nothing leaves the storage as it
/// is.
pub fn update(id: Id, lines: &Vec<String>, data: &mut Storage) -> (change: Result<
    Change,
    TaskError,
>)
    requires
        old(data).wf(),
    ensures
        final(data).wf(),
        match change {
            Err(error) => {
                &&& !old(data).index().contains_key(id)
                &&& error == TaskError::NotFound(id)
                &&& *final(data) == *old(data)
            },
            Ok(Change::Deleted) => {
                &&& old(data).index().contains_key(id)
                &&& lines@.len() == 0
                &&& final(data)@ == without(old(data)@, set![id])
                &&& final(data).dirty()
                &&& final(data).slots().len() == old(data).slots().len()
                &&& forall|j: int|
                    0 <= j < final(data)@.len() ==> final(data).index()[(j + 1) as Id] == old(
                        data,
                    ).index()[(#[trigger] kept(old(data)@, set![id])[j]).id]
            },
            Ok(Change::Updated) => {
                &&& old(data).index().contains_key(id)
                &&& lines@.len() > 0
                &&& edited(id, texts(lines@)) != old(data)@[id - 1]
                &&& final(data)@ == old(data)@.update(id - 1, edited(id, texts(lines@)))
                &&& final(data).index() == old(data).index()
                &&& final(data).slots() == old(data).slots().update(
                    old(data).index()[id] as int,
                    edited(id, texts(lines@)),
                )
                &&& final(data).dirty()
            },
            Ok(Change::NotUpdated) => {
                &&& old(data).index().contains_key(id)
                &&& lines@.len() > 0
                &&& edited(id, texts(lines@)) == old(data)@[id - 1]
                &&& *final(data) == *old(data)
            },
        },
{
    let slot = match data.id_to_slot.get(&id) {
        Some(slot) => *slot,
        None => {
            return Err(TaskError::NotFound(id));
        },
    };
    if lines.len() == 0 {
        let mut ids: Vec<Id> = Vec::new();
        ids.push(id);
        delete_todos(ids.as_slice(), data);
        proof {
            assert(ids@[0] == id);
            assert(ids@.to_set() =~= set![id]);
        }
        return Ok(Change::Deleted);
    }
    let head = lines[0].clone();
    let body = join_lines(lines, 1);
    let ghost candidate = edited(id, texts(lines@));
    if data.store[slot].head == head && data.store[slot].body == body {
        return Ok(Change::NotUpdated);
    }
    let ghost slots = data.slots();
    let ghost index = data.index();
    proof {
        lemma_taken_slots(slots, index);
        assert(slots.len() == data.store.len());
    }
    data.store[slot] = Task { id, head, body };
    data.is_dirty = true;
    proof {
        let now = data.slots();
        assert forall|i: int| 0 <= i < now.len() implies slot_taken(now, index, i) == slot_taken(
            slots,
            index,
            i,
        ) by {}
        assert(data@ =~= old(data)@.update(id - 1, candidate)) by {
            assert forall|i: int| 0 <= i < index.len() && i != id - 1 implies listed(now, index)[i]
                == listed(slots, index)[i] by {
                let other = (i + 1) as Id;
                assert(index.contains_key(other));
            }
        }
    }
    Ok(Change::Updated)
}

/// What the user is told of the task `id` after a change of the kind
/// `change`.
pub open spec fn change_text(id: Id, change: Change) -> Seq<char> {
    "Task "@ + decimal(id as nat) + match change {
        Change::Updated => " updated!"@,
        Change::NotUpdated => " not updated!"@,
        Change::Deleted => " Deleted!"@,
    }
}

/// What the user is told of the task `id` after a change of the kind
/// `change`.
pub fn change_message(id: Id, change: Change) -> (text: String)
    ensures
        text@ == change_text(id, change),
{
    let mut text = String::from_str("Task ");
    text.append(decimal_string(id).as_str());
    match change {
        Change::Updated => text.append(" updated!"),
        Change::NotUpdated => text.append(" not updated!"),
        Change::Deleted => text.append(" Deleted!"),
    }
    text
}

} // verus!
