//! The editor bridge: a task as a text to edit, and the edited text as a
//! task.
//!
//! A session with the editor alternates between work that only the caller
//! can do (writing the scratch file, running the editor, reading the file
//! back) and decisions. The decisions are made here: `get_task` and
//! `add_new` take the state of a session and what has just happened, and
//! say what the state is now and what is to be done next.
use crate::error::{EditorFault, TaskError};
use crate::storage::{
    add_one, added_message, added_text, change_message, change_text, edited, grown, is_blank,
    new_task, update, without, Change, Storage,
};
use crate::task::{Id, Task, TaskView};
use crate::text::{join_lines, joined, lines_of, split_lines};
use vstd::prelude::*;

verus! {

/// What a session is for.
#[derive(Clone, Copy, Debug, PartialEq, Eq)]
pub enum Purpose {
    /// Composing a new task.
    Compose,
    /// Viewing and editing the task with this identifier.
    Revise(Id),
}

/// Where a session stands.
#[derive(Debug, PartialEq, Eq)]
pub enum EditorState {
    /// Nothing has happened yet.
    Idle,
    /// The scratch file is being written.
    Scratch,
    /// The name of the editor is being looked up.
    Lookup,
    /// The editor of this name is running.
    Running(String),
    /// The scratch file is being read back.
    Reading,
    /// The session is over.
    Closed,
}

/// What has just happened in a session.
#[derive(Debug, PartialEq, Eq)]
pub enum EditorEvent {
    /// The session begins.
    Begin,
    /// The scratch file holds the text it was to hold.
    ScratchWritten,
    /// What the variable that names the editor holds, if it is set.
    EditorVariable(Option<String>),
    /// The editor has exited; `true` for a zero status.
    Exited(bool),
    /// What the scratch file holds now.
    Content(String),
}

/// How a session ended, where it did not fail.
#[derive(Clone, Copy, Debug, PartialEq, Eq)]
pub enum Outcome {
    /// A task was added under this identifier.
    Added(Id),
    /// The text had no lines: no task was composed.
    Aborted,
    /// The text had lines, but nothing was left of them once trimmed.
    Rejected,
    /// What became of the task with this identifier.
    Changed(Id, Change),
}

impl Outcome {
    /// What the user is told of this outcome, if anything.
    pub open spec fn message_spec(self) -> Option<Seq<char>> {
        match self {
            Outcome::Added(id) => Some(added_text(id)),
            Outcome::Aborted => Some("New Task aborted!"@),
            Outcome::Rejected => None,
            Outcome::Changed(id, change) => Some(change_text(id, change)),
        }
    }

    /// What the user is told of this outcome, if anything.
    pub fn message(&self) -> (text: Option<String>)
        ensures
            match text {
                Some(words) => self.message_spec() == Some(words@),
                None => self.message_spec() is None,
            },
    {
        match self {
            Outcome::Added(id) => Some(added_message(*id)),
            Outcome::Aborted => Some(String::from_str("New Task aborted!")),
            Outcome::Rejected => None,
            Outcome::Changed(id, change) => Some(change_message(*id, *change)),
        }
    }
}

/// What is to be done next in a session.
#[derive(Debug, PartialEq, Eq)]
pub enum EditorAction {
    /// Write this text to a fresh scratch file.
    WriteScratch(String),
    /// Look up the variable that names the editor.
    ReadEditorVariable,
    /// Run the editor of this name on the scratch file and wait for it.
    Run(String),
    /// Read the scratch file.
    ReadScratch,
    /// Remove the scratch file: the session is over.
    Finish(Outcome),
    /// Remove the scratch file: the session has failed.
    Fail(TaskError),
}

/// The text that a task is edited as: the head on the first line, the body
/// after it.
pub open spec fn rendered(task: TaskView) -> Seq<char> {
    task.head + seq!['\n'] + task.body
}

/// The editor that composes a new task where none is configured.
pub open spec fn default_editor() -> Seq<char> {
    "nano"@
}

/// The first step of a session. A new task is composed from an empty text.
/// A task to revise must exist, and is edited as `rendered` writes it.
pub open spec fn begins(purpose: Purpose, before: Storage, next: (EditorState, EditorAction)) -> bool {
    match purpose {
        Purpose::Compose => {
            &&& next.0 == EditorState::Scratch
            &&& next.1 matches EditorAction::WriteScratch(text)
            &&& text@.len() == 0
        },
        Purpose::Revise(id) => if before.index().contains_key(id) {
            &&& next.0 == EditorState::Scratch
            &&& next.1 matches EditorAction::WriteScratch(text)
            &&& text@ == rendered(before@[id - 1])
        } else {
            &&& next.0 == EditorState::Closed
            &&& next.1 == EditorAction::Fail(TaskError::NotFound(id))
        },
    }
}

/// The step after the lookup of the editor. The editor that is configured
/// is run. Without one, a new task is composed in the default editor, and
/// a revision fails.
pub open spec fn looks_up(purpose: Purpose, name: Option<String>, next: (EditorState, EditorAction)) -> bool {
    match name {
        Some(editor) => {
            &&& next.0 matches EditorState::Running(running)
            &&& running@ == editor@
            &&& next.1 matches EditorAction::Run(program)
            &&& program@ == editor@
        },
        None => match purpose {
            Purpose::Compose => {
                &&& next.0 matches EditorState::Running(running)
                &&& running@ == default_editor()
                &&& next.1 matches EditorAction::Run(program)
                &&& program@ == default_editor()
            },
            Purpose::Revise(_) => {
                &&& next.0 == EditorState::Closed
                &&& next.1 == EditorAction::Fail(TaskError::Editor(EditorFault::NotConfigured))
            },
        },
    }
}

/// The step after the editor has exited: the scratch file is read where the
/// status was zero, and the session fails where it was not.
pub open spec fn exits(editor: String, success: bool, next: (EditorState, EditorAction)) -> bool {
    if success {
        &&& next.0 == EditorState::Reading
        &&& next.1 == EditorAction::ReadScratch
    } else {
        &&& next.0 == EditorState::Closed
        &&& next.1 matches EditorAction::Fail(TaskError::Editor(EditorFault::Failed(named)))
        &&& named@ == editor@
    }
}

/// The last step of a session, on the text that the editor left.
///
/// The first line of the text is the head, the other lines are the body.
/// Composing: a text without lines aborts; one that is blank once trimmed
/// is rejected; any other adds a task. Revising: a text without lines
/// deletes the task, and the tasks that are left are renumbered; any other
/// replaces head and body, unless they are what the task holds already.
pub open spec fn concludes(
    purpose: Purpose,
    text: Seq<char>,
    before: Storage,
    after: Storage,
    next: (EditorState, EditorAction),
) -> bool {
    let lines = lines_of(text);
    let head = lines[0];
    let body = joined(lines.skip(1));
    &&& next.0 == EditorState::Closed
    &&& match purpose {
        Purpose::Compose => if lines.len() == 0 {
            &&& next.1 == EditorAction::Finish(Outcome::Aborted)
            &&& after == before
        } else if is_blank(head, body) {
            &&& next.1 == EditorAction::Finish(Outcome::Rejected)
            &&& after == before
        } else {
            let id = (before.count() + 1) as Id;
            &&& next.1 == EditorAction::Finish(Outcome::Added(id))
            &&& after@ == before@.push(new_task(id, head, body))
            &&& after.slots().len() == grown(before.slots(), before.index()).len()
            &&& after.dirty()
        },
        Purpose::Revise(id) => if !before.index().contains_key(id) {
            &&& next.1 == EditorAction::Fail(TaskError::NotFound(id))
            &&& after == before
        } else if lines.len() == 0 {
            &&& next.1 == EditorAction::Finish(Outcome::Changed(id, Change::Deleted))
            &&& after@ == without(before@, set![id])
            &&& after.slots().len() == before.slots().len()
            &&& after.dirty()
        } else if edited(id, lines) == before@[id - 1] {
            &&& next.1 == EditorAction::Finish(Outcome::Changed(id, Change::NotUpdated))
            &&& after == before
        } else {
            &&& next.1 == EditorAction::Finish(Outcome::Changed(id, Change::Updated))
            &&& after@ == before@.update(id - 1, edited(id, lines))
            &&& after.index() == before.index()
            &&& after.slots().len() == before.slots().len()
            &&& after.dirty()
        },
    }
}

/// One step of a session: what the session asked for last is given by
/// `state`, what came of it by `event`.
pub open spec fn steps(
    purpose: Purpose,
    state: EditorState,
    event: EditorEvent,
    before: Storage,
    after: Storage,
    next: (EditorState, EditorAction),
) -> bool {
    match (state, event) {
        (EditorState::Idle, EditorEvent::Begin) => begins(purpose, before, next) && after
            == before,
        (EditorState::Scratch, EditorEvent::ScratchWritten) => {
            &&& next.0 == EditorState::Lookup
            &&& next.1 == EditorAction::ReadEditorVariable
            &&& after == before
        },
        (EditorState::Lookup, EditorEvent::EditorVariable(name)) => looks_up(purpose, name, next)
            && after == before,
        (EditorState::Running(editor), EditorEvent::Exited(success)) => exits(
            editor,
            success,
            next,
        ) && after == before,
        (EditorState::Reading, EditorEvent::Content(text)) => concludes(
            purpose,
            text@,
            before,
            after,
            next,
        ),
        _ => {
            &&& next.0 == EditorState::Closed
            &&& next.1 == EditorAction::Fail(TaskError::Editor(EditorFault::OutOfTurn))
            &&& after == before
        },
    }
}

/// The text that `task` is edited as.
pub fn render_task(task: &Task) -> (text: String)
    ensures
        text@ == rendered(task@),
{
    proof {
        reveal_strlit("\n");
    }
    let mut text = task.head.clone();
    text.append("\n");
    text.append(task.body.as_str());
    text
}

/// The last step of a session that composes a task.
fn conclude_new(text: &str, data: &mut Storage) -> (next: (EditorState, EditorAction))
    requires
        old(data).wf(),
        old(data).has_room(),
    ensures
        final(data).wf(),
        concludes(Purpose::Compose, text@, *old(data), *final(data), next),
{
    let lines = split_lines(text);
    if lines.len() == 0 {
        return (EditorState::Closed, EditorAction::Finish(Outcome::Aborted));
    }
    let head = lines[0].clone();
    let body = join_lines(&lines, 1);
    match add_one(Some(head), Some(body), data) {
        Ok(id) => (EditorState::Closed, EditorAction::Finish(Outcome::Added(id))),
        Err(_) => (EditorState::Closed, EditorAction::Finish(Outcome::Rejected)),
    }
}

/// The last step of a session that revises the task `id`.
fn conclude_edit(id: Id, text: &str, data: &mut Storage) -> (next: (EditorState, EditorAction))
    requires
        old(data).wf(),
    ensures
        final(data).wf(),
        concludes(Purpose::Revise(id), text@, *old(data), *final(data), next),
{
    let lines = split_lines(text);
    match update(id, &lines, data) {
        Ok(change) => (EditorState::Closed, EditorAction::Finish(Outcome::Changed(id, change))),
        Err(error) => (EditorState::Closed, EditorAction::Fail(error)),
    }
}

/// One step of a session with the editor.
pub fn edit_step(purpose: Purpose, state: EditorState, event: EditorEvent, data: &mut Storage) -> (next:
    (EditorState, EditorAction))
    requires
        old(data).wf(),
        old(data).has_room(),
    ensures
        final(data).wf(),
        steps(purpose, state, event, *old(data), *final(data), next),
{
    match (state, event) {
        (EditorState::Idle, EditorEvent::Begin) => match purpose {
            Purpose::Compose => (EditorState::Scratch, EditorAction::WriteScratch(String::new())),
            Purpose::Revise(id) => match data.get(id) {
                Ok(task) => (EditorState::Scratch, EditorAction::WriteScratch(render_task(task))),
                Err(error) => (EditorState::Closed, EditorAction::Fail(error)),
            },
        },
        (EditorState::Scratch, EditorEvent::ScratchWritten) => (
            EditorState::Lookup,
            EditorAction::ReadEditorVariable,
        ),
        (EditorState::Lookup, EditorEvent::EditorVariable(name)) => match name {
            Some(editor) => {
                let program = editor.clone();
                (EditorState::Running(editor), EditorAction::Run(program))
            },
            None => match purpose {
                Purpose::Compose => (
                    EditorState::Running(String::from_str("nano")),
                    EditorAction::Run(String::from_str("nano")),
                ),
                Purpose::Revise(_) => (
                    EditorState::Closed,
                    EditorAction::Fail(TaskError::Editor(EditorFault::NotConfigured)),
                ),
            },
        },
        (EditorState::Running(editor), EditorEvent::Exited(success)) => {
            if success {
                (EditorState::Reading, EditorAction::ReadScratch)
            } else {
                (
                    EditorState::Closed,
                    EditorAction::Fail(TaskError::Editor(EditorFault::Failed(editor))),
                )
            }
        },
        (EditorState::Reading, EditorEvent::Content(text)) => match purpose {
            Purpose::Compose => conclude_new(text.as_str(), data),
            Purpose::Revise(id) => conclude_edit(id, text.as_str(), data),
        },
        _ => (
            EditorState::Closed,
            EditorAction::Fail(TaskError::Editor(EditorFault::OutOfTurn)),
        ),
    }
}

/// One step of the session that shows the task `index` in the editor and
/// takes over what the user made of it: an emptied text deletes the task.
pub fn get_task(index: Id, state: EditorState, event: EditorEvent, data: &mut Storage) -> (next: (
    EditorState,
    EditorAction,
))
    requires
        old(data).wf(),
        old(data).has_room(),
    ensures
        final(data).wf(),
        steps(Purpose::Revise(index), state, event, *old(data), *final(data), next),
{
    edit_step(Purpose::Revise(index), state, event, data)
}

/// One step of the session that composes a new task in the editor.
pub fn add_new(state: EditorState, event: EditorEvent, data: &mut Storage) -> (next: (
    EditorState,
    EditorAction,
))
    requires
        old(data).wf(),
        old(data).has_room(),
    ensures
        final(data).wf(),
        steps(Purpose::Compose, state, event, *old(data), *final(data), next),
{
    edit_step(Purpose::Compose, state, event, data)
}

} // verus!
