use tasks::editor::{
    add_new, edit_step, get_task, render_task, EditorAction, EditorEvent, EditorState, Outcome,
    Purpose,
};
use tasks::error::{EditorFault, TaskError};
use tasks::storage::{add_one, list_all, Change, Storage};
use tasks::task::Task;

fn sample() -> Storage {
    let mut data = Storage::default();
    add_one(Some("buy milk".to_string()), None, &mut data).unwrap();
    add_one(Some("call mom".to_string()), Some("ring at 5\nor at 6".to_string()), &mut data)
        .unwrap();
    add_one(Some("sleep".to_string()), None, &mut data).unwrap();
    data
}

fn content(text: &str) -> EditorEvent {
    EditorEvent::Content(text.to_string())
}

fn closed(outcome: Outcome) -> (EditorState, EditorAction) {
    (EditorState::Closed, EditorAction::Finish(outcome))
}

fn failed(error: TaskError) -> (EditorState, EditorAction) {
    (EditorState::Closed, EditorAction::Fail(error))
}

#[test]
fn a_task_is_rendered_head_first() {
    let task = Task::new(2, "call mom".to_string(), "ring at 5\nor at 6".to_string());
    assert_eq!(render_task(&task), "call mom\nring at 5\nor at 6");
    assert_eq!(render_task(&Task::new(1, "buy milk".to_string(), String::new())), "buy milk\n");
    assert_eq!(render_task(&Task::default()), "\n");
}

#[test]
fn revising_walks_through_the_session() {
    let mut data = sample();
    let step = get_task(2, EditorState::Idle, EditorEvent::Begin, &mut data);
    assert_eq!(
        step,
        (EditorState::Scratch, EditorAction::WriteScratch("call mom\nring at 5\nor at 6".to_string()))
    );
    let step = get_task(2, step.0, EditorEvent::ScratchWritten, &mut data);
    assert_eq!(step, (EditorState::Lookup, EditorAction::ReadEditorVariable));
    let step = get_task(2, step.0, EditorEvent::EditorVariable(Some("vi".to_string())), &mut data);
    assert_eq!(step, (EditorState::Running("vi".to_string()), EditorAction::Run("vi".to_string())));
    let step = get_task(2, step.0, EditorEvent::Exited(true), &mut data);
    assert_eq!(step, (EditorState::Reading, EditorAction::ReadScratch));
    let step = get_task(2, step.0, content("call dad\nring at 7\n"), &mut data);
    assert_eq!(step, closed(Outcome::Changed(2, Change::Updated)));
    assert_eq!(*data.get(2).unwrap(), Task::new(2, "call dad".to_string(), "ring at 7".to_string()));
    assert_eq!(list_all(&data), vec!["1. buy milk", "2. HEAD: call dad", "3. sleep"]);
}

#[test]
fn revising_an_unknown_task_fails_at_once() {
    let mut data = sample();
    assert_eq!(
        get_task(4, EditorState::Idle, EditorEvent::Begin, &mut data),
        failed(TaskError::NotFound(4))
    );
    assert_eq!(
        get_task(0, EditorState::Idle, EditorEvent::Begin, &mut data),
        failed(TaskError::NotFound(0))
    );
}

#[test]
fn revising_needs_a_configured_editor() {
    let mut data = sample();
    assert_eq!(
        get_task(1, EditorState::Lookup, EditorEvent::EditorVariable(None), &mut data),
        failed(TaskError::Editor(EditorFault::NotConfigured))
    );
}

#[test]
fn composing_falls_back_to_nano() {
    let mut data = sample();
    assert_eq!(
        add_new(EditorState::Lookup, EditorEvent::EditorVariable(None), &mut data),
        (EditorState::Running("nano".to_string()), EditorAction::Run("nano".to_string()))
    );
    assert_eq!(
        add_new(EditorState::Lookup, EditorEvent::EditorVariable(Some("ed".to_string())), &mut data),
        (EditorState::Running("ed".to_string()), EditorAction::Run("ed".to_string()))
    );
}

#[test]
fn an_editor_that_exits_with_an_error_fails_the_session() {
    let mut data = sample();
    let before = list_all(&data);
    assert_eq!(
        get_task(1, EditorState::Running("vi".to_string()), EditorEvent::Exited(false), &mut data),
        failed(TaskError::Editor(EditorFault::Failed("vi".to_string())))
    );
    assert_eq!(
        add_new(EditorState::Running("nano".to_string()), EditorEvent::Exited(false), &mut data),
        failed(TaskError::Editor(EditorFault::Failed("nano".to_string())))
    );
    assert_eq!(list_all(&data), before);
}

#[test]
fn an_emptied_text_deletes_the_task_and_renumbers() {
    let mut data = sample();
    let step = get_task(1, EditorState::Reading, content(""), &mut data);
    assert_eq!(step, closed(Outcome::Changed(1, Change::Deleted)));
    assert_eq!(data.len(), 2);
    assert_eq!(list_all(&data), vec!["1. HEAD: call mom", "2. sleep"]);
    assert_eq!(data.get(1).unwrap().id, 1);
    assert_eq!(data.get(2).unwrap().id, 2);
    assert!(data.is_dirty());
}

#[test]
fn a_text_of_one_empty_line_empties_the_task() {
    let mut data = sample();
    let step = get_task(2, EditorState::Reading, content("\n"), &mut data);
    assert_eq!(step, closed(Outcome::Changed(2, Change::Updated)));
    assert_eq!(*data.get(2).unwrap(), Task::new(2, String::new(), String::new()));
    assert_eq!(data.len(), 3);
}

#[test]
fn an_unchanged_text_changes_nothing() {
    let mut data = tasks::codec::decode(&tasks::codec::encode(&sample()).unwrap()).unwrap();
    let text = render_task(data.get(2).unwrap());
    let step = get_task(2, EditorState::Reading, content(&text), &mut data);
    assert_eq!(step, closed(Outcome::Changed(2, Change::NotUpdated)));
    let step = get_task(1, EditorState::Reading, content("buy milk\n"), &mut data);
    assert_eq!(step, closed(Outcome::Changed(1, Change::NotUpdated)));
    let step = get_task(1, EditorState::Reading, content("buy milk"), &mut data);
    assert_eq!(step, closed(Outcome::Changed(1, Change::NotUpdated)));
    assert_eq!(list_all(&data), list_all(&sample()));
}

#[test]
fn revised_lines_lose_their_carriage_returns() {
    let mut data = sample();
    let step = get_task(3, EditorState::Reading, content("nap\r\nfor an hour\r\nor two\r\n"), &mut data);
    assert_eq!(step, closed(Outcome::Changed(3, Change::Updated)));
    assert_eq!(*data.get(3).unwrap(), Task::new(3, "nap".to_string(), "for an hour\nor two".to_string()));
}

#[test]
fn revising_a_task_that_is_gone_fails_at_the_end() {
    let mut data = sample();
    assert_eq!(
        get_task(9, EditorState::Reading, content("text"), &mut data),
        failed(TaskError::NotFound(9))
    );
    assert_eq!(data.len(), 3);
}

#[test]
fn composing_walks_through_the_session() {
    let mut data = sample();
    let step = add_new(EditorState::Idle, EditorEvent::Begin, &mut data);
    assert_eq!(step, (EditorState::Scratch, EditorAction::WriteScratch(String::new())));
    let step = add_new(step.0, EditorEvent::ScratchWritten, &mut data);
    assert_eq!(step, (EditorState::Lookup, EditorAction::ReadEditorVariable));
    let step = add_new(step.0, EditorEvent::EditorVariable(None), &mut data);
    assert_eq!(step.1, EditorAction::Run("nano".to_string()));
    let step = add_new(step.0, EditorEvent::Exited(true), &mut data);
    assert_eq!(step, (EditorState::Reading, EditorAction::ReadScratch));
    let step = add_new(step.0, content("  water plants \nthe ferns\n\nand the cactus\n"), &mut data);
    assert_eq!(step, closed(Outcome::Added(4)));
    assert_eq!(
        *data.get(4).unwrap(),
        Task::new(4, "water plants".to_string(), "the ferns\n\nand the cactus".to_string())
    );
}

#[test]
fn composing_nothing_aborts() {
    let mut data = sample();
    assert_eq!(add_new(EditorState::Reading, content(""), &mut data), closed(Outcome::Aborted));
    assert_eq!(data.len(), 3);
}

#[test]
fn composing_only_white_space_is_rejected() {
    let mut data = Storage::default();
    assert_eq!(add_new(EditorState::Reading, content("\n"), &mut data), closed(Outcome::Rejected));
    assert_eq!(add_new(EditorState::Reading, content("  \n \t \n\n"), &mut data), closed(Outcome::Rejected));
    assert_eq!(data.len(), 0);
    assert!(!data.is_dirty());
}

#[test]
fn an_event_out_of_turn_fails_the_session() {
    let out_of_turn = || failed(TaskError::Editor(EditorFault::OutOfTurn));
    let mut data = sample();
    assert_eq!(add_new(EditorState::Idle, EditorEvent::Exited(true), &mut data), out_of_turn());
    assert_eq!(add_new(EditorState::Idle, content("x"), &mut data), out_of_turn());
    assert_eq!(add_new(EditorState::Scratch, EditorEvent::Begin, &mut data), out_of_turn());
    assert_eq!(add_new(EditorState::Lookup, EditorEvent::ScratchWritten, &mut data), out_of_turn());
    assert_eq!(
        get_task(1, EditorState::Running("vi".to_string()), content(""), &mut data),
        out_of_turn()
    );
    assert_eq!(get_task(1, EditorState::Reading, EditorEvent::Exited(true), &mut data), out_of_turn());
    assert_eq!(get_task(1, EditorState::Closed, EditorEvent::Begin, &mut data), out_of_turn());
    assert_eq!(get_task(1, EditorState::Closed, content(""), &mut data), out_of_turn());
    assert_eq!(data.len(), 3);
}

#[test]
fn a_step_goes_by_its_purpose() {
    let mut data = sample();
    assert_eq!(
        edit_step(Purpose::Revise(3), EditorState::Idle, EditorEvent::Begin, &mut data),
        get_task(3, EditorState::Idle, EditorEvent::Begin, &mut data)
    );
    assert_eq!(
        edit_step(Purpose::Compose, EditorState::Idle, EditorEvent::Begin, &mut data),
        add_new(EditorState::Idle, EditorEvent::Begin, &mut data)
    );
}

#[test]
fn outcomes_are_told_in_words() {
    assert_eq!(Outcome::Added(3).message(), Some("Task 3 added!".to_string()));
    assert_eq!(Outcome::Aborted.message(), Some("New Task aborted!".to_string()));
    assert_eq!(Outcome::Rejected.message(), None);
    assert_eq!(Outcome::Changed(2, Change::Updated).message(), Some("Task 2 updated!".to_string()));
    assert_eq!(
        Outcome::Changed(2, Change::NotUpdated).message(),
        Some("Task 2 not updated!".to_string())
    );
    assert_eq!(Outcome::Changed(10, Change::Deleted).message(), Some("Task 10 Deleted!".to_string()));
}
