use tasks::codec::{decode, encode};
use tasks::error::TaskError;
use tasks::persist::{
    file_name, get_backup_path, load_from_storage, save_to_storage, storage_file_name, Backup,
    FileRead,
};
use tasks::storage::{add_one, delete_todos, list_all, Storage};

fn is_fresh(data: &Storage) -> bool {
    data.len() == 0
        && data.capacity() == 64
        && !data.is_dirty()
        && data.store().iter().all(|task| task.is_placeholder())
}

fn sample() -> Storage {
    let mut data = Storage::default();
    add_one(Some("buy milk".to_string()), None, &mut data).unwrap();
    add_one(Some("call mom".to_string()), Some("ring at 5".to_string()), &mut data).unwrap();
    data
}

#[test]
fn loading_a_missing_file_gives_an_empty_storage() {
    let loaded = load_from_storage(FileRead::Missing);
    assert!(is_fresh(&loaded.storage));
    assert_eq!(loaded.backup, Backup::NotNeeded);
    assert_eq!(loaded.notice, None);
}

#[test]
fn loading_an_empty_file_gives_an_empty_storage() {
    let loaded = load_from_storage(FileRead::Data(Vec::new()));
    assert!(is_fresh(&loaded.storage));
    assert_eq!(loaded.backup, Backup::NotNeeded);
    assert_eq!(loaded.notice, None);
}

#[test]
fn loading_saved_bytes_gives_the_storage() {
    let data = sample();
    let bytes = save_to_storage(&data).unwrap().unwrap();
    let loaded = load_from_storage(FileRead::Data(bytes));
    assert_eq!(loaded.backup, Backup::NotNeeded);
    assert_eq!(loaded.notice, None);
    assert_eq!(loaded.storage.store(), data.store());
    assert_eq!(loaded.storage.id_to_slot(), data.id_to_slot());
    assert!(!loaded.storage.is_dirty());
    assert_eq!(list_all(&loaded.storage), vec!["1. buy milk", "2. HEAD: call mom"]);
}

#[test]
fn loading_random_bytes_gives_an_empty_storage_and_a_backup() {
    let noise: Vec<u8> = (0..4096u32).map(|i| (i.wrapping_mul(40503) >> 7) as u8).collect();
    let loaded = load_from_storage(FileRead::Data(noise.clone()));
    assert!(is_fresh(&loaded.storage));
    assert_eq!(loaded.backup, Backup::Write(noise));
    assert_eq!(loaded.notice, Some(TaskError::Corruption));
}

#[test]
fn loading_one_byte_gives_a_backup_of_that_byte() {
    let loaded = load_from_storage(FileRead::Data(vec![0]));
    assert!(is_fresh(&loaded.storage));
    assert_eq!(loaded.backup, Backup::Write(vec![0]));
    assert_eq!(loaded.notice, Some(TaskError::Corruption));
}

#[test]
fn loading_damaged_bytes_hands_them_back_for_the_backup() {
    let mut bytes = encode(&sample()).unwrap();
    bytes.truncate(bytes.len() / 2);
    let loaded = load_from_storage(FileRead::Data(bytes.clone()));
    assert!(is_fresh(&loaded.storage));
    assert_eq!(loaded.backup, Backup::Write(bytes));
    assert_eq!(loaded.notice, Some(TaskError::Corruption));
}

#[test]
fn loading_an_unreadable_file_copies_it_and_starts_empty() {
    let loaded = load_from_storage(FileRead::Failed("permission denied".to_string()));
    assert!(is_fresh(&loaded.storage));
    assert_eq!(loaded.backup, Backup::CopyFile);
    assert_eq!(loaded.notice, Some(TaskError::Io("permission denied".to_string())));
}

#[test]
fn the_session_after_a_corrupt_load_is_usable() {
    let mut loaded = load_from_storage(FileRead::Data(b"garbage".to_vec()));
    assert_eq!(add_one(Some("start over".to_string()), None, &mut loaded.storage), Ok(1));
    assert_eq!(list_all(&loaded.storage), vec!["1. start over"]);
}

#[test]
fn a_clean_storage_is_not_saved() {
    assert_eq!(save_to_storage(&Storage::default()), Ok(None));
}

#[test]
fn a_dirty_storage_is_saved_as_encode_writes_it() {
    let mut data = sample();
    delete_todos(&[1], &mut data);
    let bytes = save_to_storage(&data).unwrap().unwrap();
    assert_eq!(bytes, encode(&data).unwrap());
    let back = decode(&bytes).unwrap();
    assert_eq!(list_all(&back), vec!["1. HEAD: call mom"]);
}

#[test]
fn a_loaded_storage_has_nothing_to_persist() {
    let data = sample();
    assert!(data.is_dirty());
    let mut loaded = load_from_storage(FileRead::Data(save_to_storage(&data).unwrap().unwrap()));
    assert!(!loaded.storage.is_dirty());
    assert_eq!(save_to_storage(&loaded.storage), Ok(None));
    assert_eq!(delete_todos(&[9], &mut loaded.storage), vec![false]);
    assert_eq!(save_to_storage(&loaded.storage), Ok(None));
    assert_eq!(delete_todos(&[1], &mut loaded.storage), vec![true]);
    assert!(loaded.storage.is_dirty());
    assert!(save_to_storage(&loaded.storage).unwrap().is_some());
}

#[test]
fn a_saved_storage_can_be_marked() {
    let mut data = sample();
    let before = list_all(&data);
    data.mark_saved();
    assert!(!data.is_dirty());
    assert_eq!(list_all(&data), before);
    assert_eq!(save_to_storage(&data), Ok(None));
}

#[test]
fn backup_path_appends_a_suffix() {
    assert_eq!(get_backup_path("/home/me/.tasks.bin"), "/home/me/.tasks.bin.bak");
    assert_eq!(get_backup_path("./.dev_tasks.bin"), "./.dev_tasks.bin.bak");
    assert_eq!(get_backup_path("tasks"), "tasks.bak");
    assert_eq!(get_backup_path(""), ".bak");
}

#[test]
fn file_name_depends_on_the_mode() {
    assert_eq!(file_name(None), ".tasks.bin");
    assert_eq!(file_name(Some("DEVELOPMENT")), ".dev_tasks.bin");
    assert_eq!(file_name(Some("development")), ".tasks.bin");
    assert_eq!(file_name(Some("PRODUCTION")), ".tasks.bin");
    assert_eq!(file_name(Some("")), ".tasks.bin");
}

#[test]
fn storage_file_name_takes_the_mode_in_any_case() {
    assert_eq!(storage_file_name(None), ".tasks.bin");
    assert_eq!(storage_file_name(Some("DEVELOPMENT")), ".dev_tasks.bin");
    assert_eq!(storage_file_name(Some("development")), ".dev_tasks.bin");
    assert_eq!(storage_file_name(Some("Development")), ".dev_tasks.bin");
    assert_eq!(storage_file_name(Some("dev")), ".tasks.bin");
    assert_eq!(storage_file_name(Some("production")), ".tasks.bin");
    assert_eq!(storage_file_name(Some(" development")), ".tasks.bin");
    assert_eq!(storage_file_name(Some("")), ".tasks.bin");
}
