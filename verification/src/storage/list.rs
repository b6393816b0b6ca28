//! The list of the tasks, as lines of text.
use super::Storage;
use crate::task::{Id, TaskView};
use crate::text::{decimal, decimal_string, texts};
use vstd::prelude::*;

verus! {

/// One line of the list for `task`.
pub open spec fn list_line(task: TaskView) -> Seq<char> {
    decimal(task.id as nat) + (if task.body.len() == 0 {
        ". "@
    } else {
        ". HEAD: "@
    }) + task.head
}

/// The list of the tasks: a line for each, or a notice where there is none.
pub open spec fn listing(tasks: Seq<TaskView>) -> Seq<Seq<char>> {
    if tasks.len() == 0 {
        seq!["No Tasks!"@]
    } else {
        tasks.map_values(|task: TaskView| list_line(task))
    }
}

/// The lines of the list: for each task, in the order of the identifiers,
/// its identifier and its head; the head is marked where the task has a
/// body. Without tasks, one line says so.
pub fn list_all(data: &Storage) -> (lines: Vec<String>)
    requires
        data.wf(),
    ensures
        texts(lines@) == listing(data@),
        lines@.len() == listing(data@).len(),
        forall|i: int| 0 <= i < lines@.len() ==> (#[trigger] lines@[i])@ == listing(data@)[i],
{
    let mut lines: Vec<String> = Vec::new();
    let count = data.id_to_slot.len();
    if count == 0 {
        lines.push(String::from_str("No Tasks!"));
        return lines;
    }
    let mut done: usize = 0;
    while done < count
        invariant
            data.wf(),
            count == data.count(),
            done <= count,
            lines@.len() == done,
            forall|i: int| 0 <= i < done ==> (#[trigger] lines@[i])@ == list_line(data@[i]),
        decreases count - done,
    {
        let id = (done + 1) as Id;
        let slot = *data.id_to_slot.get(&id).unwrap();
        let task = &data.store[slot];
        let mut line = decimal_string(task.id);
        if task.body.as_str().is_empty() {
            line.append(". ");
        } else {
            line.append(". HEAD: ");
        }
        line.append(task.head.as_str());
        lines.push(line);
        done = done + 1;
    }
    lines
}

} // verus!
