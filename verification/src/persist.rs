//! Persistence: what to make of the storage file when the program starts,
//! and what to write to it when the program ends.
//!
//! Reading and writing the file is left to the caller. This module decides
//! what the bytes read mean, whether a backup is due, and which bytes are to
//! be written.
use crate::codec::{bincode_serialized, decode, decoding, encode, encoding, records_of};
use crate::error::TaskError;
use crate::storage::{placeholders, Storage, INITIAL_TASKS_ARRAY_LENGTH};
use crate::task::{Id, Slot};
use vstd::prelude::*;

verus! {

/// What reading the storage file gave.
#[derive(Debug, PartialEq, Eq)]
pub enum FileRead {
    /// There is no such file.
    Missing,
    /// The bytes of the file.
    Data(Vec<u8>),
    /// The file could not be read; holds the words of the system.
    Failed(String),
}

/// What is to be done for a backup of the storage file.
#[derive(Debug, PartialEq, Eq)]
pub enum Backup {
    /// Nothing.
    NotNeeded,
    /// These bytes, which are those of the file, are to be written to the
    /// backup path.
    Write(Vec<u8>),
    /// The file could not be read: it is to be copied as it lies.
    CopyFile,
}

/// How loading ended.
#[derive(Debug)]
pub struct Loaded {
    /// The storage to work with.
    pub storage: Storage,
    /// The backup to make before going on.
    pub backup: Backup,
    /// What the user is to be told, if anything. Loading itself never fails.
    pub notice: Option<TaskError>,
}

/// Whether `data` is a storage as `Storage::default` makes it.
pub open spec fn is_fresh(data: Storage) -> bool {
    &&& data.slots() == placeholders(INITIAL_TASKS_ARRAY_LENGTH as nat)
    &&& data.index() == Map::<Id, Slot>::empty()
    &&& !data.dirty()
}

/// The path of the backup of the file at `path`.
pub open spec fn backup_path_of(path: Seq<char>) -> Seq<char> {
    path + ".bak"@
}

/// The path of the backup of the storage file at `storage_path`: the same
/// path with `.bak` appended.
pub fn get_backup_path(storage_path: &str) -> (backup_path: String)
    ensures
        backup_path@ == backup_path_of(storage_path@),
{
    String::from_str(storage_path).concat(".bak")
}

/// What `str::to_uppercase` makes of `text`.
pub uninterp spec fn uppercased(text: Seq<char>) -> Seq<char>;

/// The text in upper case, by `str::to_uppercase`. The contract names the
/// result.
#[verifier::external_body]
fn to_uppercase(text: &str) -> (upper: String)
    ensures
        upper@ == uppercased(text@),
{
    text.to_uppercase()
}

/// The name of the storage file for a mode, which is given in upper case
/// where one is given: one file for development, another for everything
/// else.
pub open spec fn file_name_for(mode: Option<Seq<char>>) -> Seq<char> {
    if mode == Some("DEVELOPMENT"@) {
        ".dev_tasks.bin"@
    } else {
        ".tasks.bin"@
    }
}

/// The name of the storage file for the mode `mode`, which is given in
/// upper case where one is given.
pub fn file_name(mode: Option<&str>) -> (name: &'static str)
    ensures
        name@ == file_name_for(
            match mode {
                Some(given) => Some(given@),
                None => None,
            },
        ),
{
    match mode {
        Some(given) => {
            if String::from_str(given) == String::from_str("DEVELOPMENT") {
                ".dev_tasks.bin"
            } else {
                ".tasks.bin"
            }
        },
        None => ".tasks.bin",
    }
}

/// The name of the storage file, given what the variable that names the
/// mode holds, if it is set: its value counts whatever its case.
pub fn storage_file_name(environment: Option<&str>) -> (name: &'static str)
    ensures
        name@ == file_name_for(
            match environment {
                Some(given) => Some(uppercased(given@)),
                None => None,
            },
        ),
{
    match environment {
        Some(given) => {
            let upper = to_uppercase(given);
            file_name(Some(upper.as_str()))
        },
        None => file_name(None),
    }
}

/// The storage to start with, given what reading the storage file gave.
///
/// A missing or empty file gives a fresh storage. Bytes that `decode` reads
/// give the storage they hold, with nothing to persist: it is what the disk
/// holds. Corrupt bytes give a fresh storage, and are handed back to be
/// written to the backup path. A file that could not be read gives a fresh
/// storage too, and is to be copied to the backup path.
pub fn load_from_storage(read: FileRead) -> (loaded: Loaded)
    ensures
        loaded.storage.wf(),
        match read {
            FileRead::Missing => {
                &&& is_fresh(loaded.storage)
                &&& loaded.backup == Backup::NotNeeded
                &&& loaded.notice is None
            },
            FileRead::Data(bytes) => if bytes@.len() == 0 {
                &&& is_fresh(loaded.storage)
                &&& loaded.backup == Backup::NotNeeded
                &&& loaded.notice is None
            } else {
                match decoding(bytes@) {
                    Some((slots, index, dirty)) => {
                        &&& loaded.storage.slots() == slots
                        &&& loaded.storage.index() == index
                        &&& !loaded.storage.dirty()
                        &&& loaded.backup == Backup::NotNeeded
                        &&& loaded.notice is None
                    },
                    None => {
                        &&& is_fresh(loaded.storage)
                        &&& loaded.backup matches Backup::Write(copy)
                        &&& copy@ == bytes@
                        &&& loaded.notice == Some(TaskError::Corruption)
                    },
                }
            },
            FileRead::Failed(words) => {
                &&& is_fresh(loaded.storage)
                &&& loaded.backup == Backup::CopyFile
                &&& loaded.notice matches Some(TaskError::Io(told))
                &&& told@ == words@
            },
        },
        read matches FileRead::Data(bytes) ==> forall|saved: Storage|
            saved.wf() && bytes@.len() > 0 && #[trigger] encoding(
                saved.slots(),
                saved.index(),
                saved.dirty(),
            ) == Some(bytes@) ==> {
                &&& loaded.storage@ == saved@
                &&& loaded.storage.slots() == saved.slots()
                &&& loaded.storage.index() == saved.index()
                &&& !loaded.storage.dirty()
                &&& loaded.backup == Backup::NotNeeded
                &&& loaded.notice is None
            },
{
    match read {
        FileRead::Missing => Loaded {
            storage: Storage::default(),
            backup: Backup::NotNeeded,
            notice: None,
        },
        FileRead::Data(bytes) => {
            if bytes.len() == 0 {
                return Loaded {
                    storage: Storage::default(),
                    backup: Backup::NotNeeded,
                    notice: None,
                };
            }
            match decode(bytes.as_slice()) {
                Ok(mut storage) => {
                    storage.mark_saved();
                    Loaded { storage, backup: Backup::NotNeeded, notice: None }
                },
                Err(error) => Loaded {
                    storage: Storage::default(),
                    backup: Backup::Write(bytes),
                    notice: Some(error),
                },
            }
        },
        FileRead::Failed(words) => Loaded {
            storage: Storage::default(),
            backup: Backup::CopyFile,
            notice: Some(TaskError::Io(words)),
        },
    }
}

/// The bytes to write to the storage file: those of `data`, if it has
/// changes that the disk has not seen; none if it has not.
pub fn save_to_storage(data: &Storage) -> (bytes: Result<Option<Vec<u8>>, TaskError>)
    ensures
        match bytes {
            Ok(Some(encoded)) => data.dirty() && encoding(
                data.slots(),
                data.index(),
                data.dirty(),
            ) == Some(encoded@),
            Ok(None) => !data.dirty(),
            Err(error) => {
                let written = bincode_serialized(
                    records_of(data.slots()),
                    data.index(),
                    data.dirty(),
                );
                &&& data.dirty()
                &&& encoding(data.slots(), data.index(), data.dirty()) is None
                &&& written is None ==> error == TaskError::Serialization
                &&& written is Some ==> error is Io
            },
        },
{
    if !data.is_dirty() {
        return Ok(None);
    }
    match encode(data) {
        Ok(encoded) => Ok(Some(encoded)),
        Err(error) => Err(error),
    }
}

} // verus!
