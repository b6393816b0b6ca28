use tasks::error::{EditorFault, TaskError};

#[test]
fn errors_are_told_in_words() {
    assert_eq!(TaskError::NotFound(7).message(), "Task with id 7 not found");
    assert_eq!(TaskError::NotFound(0).message(), "Task with id 0 not found");
    assert_eq!(
        TaskError::NotFound(u64::MAX).message(),
        "Task with id 18446744073709551615 not found"
    );
    assert_eq!(TaskError::Corruption.message(), "Stored tasks are corrupted");
    assert_eq!(TaskError::Io("disk full".to_string()).message(), "disk full");
    assert_eq!(
        TaskError::Editor(EditorFault::NotConfigured).message(),
        "Env variable EDITOR not specified"
    );
    assert_eq!(
        TaskError::Editor(EditorFault::Failed("vim".to_string())).message(),
        "vim exited with non zero status"
    );
    assert_eq!(TaskError::Editor(EditorFault::OutOfTurn).message(), "Editor session out of turn");
    assert_eq!(TaskError::InvalidInput.message(), "No task content given");
    assert_eq!(TaskError::Serialization.message(), "failed to serialise tasks");
}
