//! What can go wrong, and how it is reported.
use crate::task::Id;
use crate::text::{decimal, decimal_string};
use vstd::prelude::*;

verus! {

/// Why an editor session failed.
#[derive(Debug, PartialEq, Eq)]
pub enum EditorFault {
    /// No editor is configured.
    NotConfigured,
    /// The named editor exited with a non-zero status.
    Failed(String),
    /// The session was told of something it had not asked for.
    OutOfTurn,
}

/// The errors of the task manager.
#[derive(Debug, PartialEq, Eq)]
pub enum TaskError {
    /// No task has this identifier.
    NotFound(Id),
    /// The persisted bytes cannot be read back as a storage.
    Corruption,
    /// The file system refused a read, a write or a create; holds its words.
    Io(String),
    /// The editor session failed.
    Editor(EditorFault),
    /// Content was required and none was given.
    InvalidInput,
    /// The storage could not be written out as bytes.
    Serialization,
}

impl TaskError {
    /// The text shown to the user for this error.
    pub open spec fn message_spec(self) -> Seq<char> {
        match self {
            TaskError::NotFound(id) => "Task with id "@ + decimal(id as nat) + " not found"@,
            TaskError::Corruption => "Stored tasks are corrupted"@,
            TaskError::Io(words) => words@,
            TaskError::Editor(EditorFault::NotConfigured) => "Env variable EDITOR not specified"@,
            TaskError::Editor(EditorFault::Failed(editor)) => editor@
                + " exited with non zero status"@,
            TaskError::Editor(EditorFault::OutOfTurn) => "Editor session out of turn"@,
            TaskError::InvalidInput => "No task content given"@,
            TaskError::Serialization => "failed to serialise tasks"@,
        }
    }

    /// The text shown to the user for this error.
    pub fn message(&self) -> (text: String)
        ensures
            text@ == self.message_spec(),
    {
        match self {
            TaskError::NotFound(id) => {
                let mut text = String::from_str("Task with id ");
                text.append(decimal_string(*id).as_str());
                text.append(" not found");
                text
            },
            TaskError::Corruption => String::from_str("Stored tasks are corrupted"),
            TaskError::Io(words) => words.clone(),
            TaskError::Editor(EditorFault::NotConfigured) => String::from_str(
                "Env variable EDITOR not specified",
            ),
            TaskError::Editor(EditorFault::Failed(editor)) => {
                let mut text = editor.clone();
                text.append(" exited with non zero status");
                text
            },
            TaskError::Editor(EditorFault::OutOfTurn) => String::from_str(
                "Editor session out of turn",
            ),
            TaskError::InvalidInput => String::from_str("No task content given"),
            TaskError::Serialization => String::from_str("failed to serialise tasks"),
        }
    }
}

} // verus!
