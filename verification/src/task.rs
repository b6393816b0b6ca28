//! Tasks: a numbered head line with an optional body.
use vstd::prelude::*;
use vstd::std_specs::cmp::PartialEqSpecImpl;

verus! {

/// Identifier of a task: its position in the list, counted from 1.
pub type Id = u64;

/// Index into the slot buffer of a storage.
pub type Slot = usize;

/// What a task is to the contracts: its identifier and its two texts as
/// sequences of characters.
pub struct TaskView {
    pub id: Id,
    pub head: Seq<char>,
    pub body: Seq<char>,
}

/// A task with an identifier, a single-line head and a body that may be empty.
#[derive(Debug)]
pub struct Task {
    /// Identifier, unique within a storage; 0 marks a placeholder.
    pub id: Id,
    /// The head line.
    pub head: String,
    /// The body; may hold several lines or none.
    pub body: String,
}

/// The placeholder that fills every slot no identifier points to.
pub open spec fn empty_task() -> TaskView {
    TaskView { id: 0, head: Seq::empty(), body: Seq::empty() }
}

impl View for Task {
    type V = TaskView;

    open spec fn view(&self) -> TaskView {
        TaskView { id: self.id, head: self.head@, body: self.body@ }
    }
}

impl Default for Task {
    /// The placeholder task: identifier 0 and two empty texts.
    fn default() -> (task: Task)
        ensures
            task@ == empty_task(),
    {
        Task { id: 0, head: String::new(), body: String::new() }
    }
}

impl Clone for Task {
    fn clone(&self) -> (copy: Task)
        ensures
            copy@ == self@,
    {
        Task { id: self.id, head: self.head.clone(), body: self.body.clone() }
    }
}

impl PartialEq for Task {
    /// Structural equality: the identifiers and both texts agree.
    fn eq(&self, other: &Task) -> (equal: bool) {
        self.id == other.id && self.head == other.head && self.body == other.body
    }
}

impl PartialEqSpecImpl for Task {
    open spec fn obeys_eq_spec() -> bool {
        true
    }

    open spec fn eq_spec(&self, other: &Task) -> bool {
        self@ == other@
    }
}

impl Task {
    /// A task made of the given parts.
    pub fn new(id: Id, head: String, body: String) -> (task: Task)
        ensures
            task@ == (TaskView { id, head: head@, body: body@ }),
    {
        Task { id, head, body }
    }

    /// Whether this is the placeholder.
    pub fn is_placeholder(&self) -> (placeholder: bool)
        ensures
            placeholder == (self@ == empty_task()),
    {
        let placeholder = self.id == 0 && self.head.as_str().is_empty() && self.body.as_str().is_empty();
        proof {
            assert(self.head@.len() == 0 ==> self.head@ =~= Seq::<char>::empty());
            assert(self.body@.len() == 0 ==> self.body@ =~= Seq::<char>::empty());
        }
        placeholder
    }
}

} // verus!
