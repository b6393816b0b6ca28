//! The codec: a storage as bytes, and bytes as a storage.
//!
//! A storage is first written in a compact binary form and then compressed.
//! Both steps are the work of outside crates; what is proved here is what
//! happens around them, given what their contracts below say of them.
use crate::error::TaskError;
use crate::storage::{views, well_formed, Storage};
use crate::task::{Id, Slot, Task, TaskView};
use flate2::write::{ZlibDecoder, ZlibEncoder};
use flate2::Compression;
use std::collections::BTreeMap;
use std::io::Write;
use vstd::prelude::*;

verus! {

/// The error type of `bincode2`, which this module only passes on.
#[verifier::external_type_specification]
#[verifier::external_body]
pub struct ExBincodeErrorKind(bincode2::ErrorKind);

/// The error type of `std::io`, which this module only passes on.
#[verifier::external_type_specification]
#[verifier::external_body]
pub struct ExIoError(std::io::Error);

/// What `bincode2::serialize` returns for the triple of a list of
/// records, an index and a flag: the bytes, or nothing where it fails.
pub uninterp spec fn bincode_serialized(
    records: Seq<(u64, Seq<char>, Seq<char>)>,
    index: Map<u64, usize>,
    dirty: bool,
) -> Option<Seq<u8>>;

/// What `bincode2::deserialize` reads out of `bytes` as such a triple, or
/// nothing where it fails.
pub uninterp spec fn bincode_deserialized(bytes: Seq<u8>) -> Option<
    (Seq<(u64, Seq<char>, Seq<char>)>, Map<u64, usize>, bool),
>;

/// What a `ZlibEncoder` at the default level makes of `data`, or nothing
/// where it fails.
pub uninterp spec fn zlib_compressed(data: Seq<u8>) -> Option<Seq<u8>>;

/// What a `ZlibDecoder` makes of `data`, or nothing where it fails.
pub uninterp spec fn zlib_decompressed(data: Seq<u8>) -> Option<Seq<u8>>;

/// The records of a list as the contracts see them.
pub open spec fn record_views(records: Seq<(u64, String, String)>) -> Seq<
    (u64, Seq<char>, Seq<char>),
> {
    records.map_values(|record: (u64, String, String)| (record.0, record.1@, record.2@))
}

/// Compresses `data` with `flate2::write::ZlibEncoder` at the default
/// level, by `write_all` and `finish`. The contract names the result.
#[verifier::external_body]
fn compress_data(data: &[u8]) -> (out: Result<Vec<u8>, std::io::Error>)
    ensures
        match out {
            Ok(packed) => zlib_compressed(data@) == Some(packed@),
            Err(_) => zlib_compressed(data@) is None,
        },
{
    let mut encoder = ZlibEncoder::new(Vec::new(), Compression::default());
    encoder.write_all(data)?;
    encoder.finish()
}

/// Decompresses `data` with `flate2::write::ZlibDecoder`, by `write_all`
/// and `finish`. The contract names the result, and claims that the decoder
/// gives back what the encoder of `compress_data` was given.
#[verifier::external_body]
fn decompress(data: &[u8]) -> (out: Result<Vec<u8>, std::io::Error>)
    ensures
        match out {
            Ok(raw) => zlib_decompressed(data@) == Some(raw@),
            Err(_) => zlib_decompressed(data@) is None,
        },
        match out {
            Ok(found) => forall|raw: Seq<u8>| #[trigger]
                zlib_compressed(raw) == Some(data@) ==> found@ == raw,
            Err(_) => forall|raw: Seq<u8>| #[trigger] zlib_compressed(raw) != Some(data@),
        },
{
    let mut decoder = ZlibDecoder::new(Vec::new());
    decoder.write_all(data)?;
    decoder.finish()
}

/// Writes the triple out with `bincode2::serialize`. The contract names the
/// result.
#[verifier::external_body]
fn serialize(records: &Vec<(u64, String, String)>, index: &BTreeMap<u64, usize>, dirty: bool) -> (out:
    Result<Vec<u8>, Box<bincode2::ErrorKind>>)
    ensures
        match out {
            Ok(bytes) => bincode_serialized(record_views(records@), index@, dirty) == Some(
                bytes@,
            ),
            Err(_) => bincode_serialized(record_views(records@), index@, dirty) is None,
        },
{
    bincode2::serialize(&(records, index, dirty))
}

/// Reads a triple with `bincode2::deserialize`. The contract names the
/// result, and claims that the bytes `serialize` made of a triple are read
/// back as that triple.
#[verifier::external_body]
fn deserialize(bytes: &[u8]) -> (out: Result<
    (Vec<(u64, String, String)>, BTreeMap<u64, usize>, bool),
    Box<bincode2::ErrorKind>,
>)
    ensures
        match out {
            Ok(parts) => bincode_deserialized(bytes@) == Some(
                (record_views(parts.0@), parts.1@, parts.2),
            ),
            Err(_) => bincode_deserialized(bytes@) is None,
        },
        match out {
            Ok(parts) => forall|
                records: Seq<(u64, Seq<char>, Seq<char>)>,
                index: Map<u64, usize>,
                dirty: bool,
            | #[trigger]
                bincode_serialized(records, index, dirty) == Some(bytes@) ==> record_views(
                    parts.0@,
                ) == records && parts.1@ == index && parts.2 == dirty,
            Err(_) => forall|
                records: Seq<(u64, Seq<char>, Seq<char>)>,
                index: Map<u64, usize>,
                dirty: bool,
            | #[trigger] bincode_serialized(records, index, dirty) != Some(bytes@),
        },
{
    bincode2::deserialize(bytes)
}

/// The slots as the records that the binary form holds.
pub open spec fn records_of(slots: Seq<TaskView>) -> Seq<(u64, Seq<char>, Seq<char>)> {
    slots.map_values(|task: TaskView| (task.id, task.head, task.body))
}

/// The records of a binary form as slots.
pub open spec fn slots_of(records: Seq<(u64, Seq<char>, Seq<char>)>) -> Seq<TaskView> {
    records.map_values(
        |record: (u64, Seq<char>, Seq<char>)|
            TaskView { id: record.0, head: record.1, body: record.2 },
    )
}

/// The bytes of a storage: its slots, its index and its flag in the binary
/// form, compressed. Nothing where either step fails.
pub open spec fn encoding(slots: Seq<TaskView>, index: Map<Id, Slot>, dirty: bool) -> Option<
    Seq<u8>,
> {
    match bincode_serialized(records_of(slots), index, dirty) {
        Some(raw) => zlib_compressed(raw),
        None => None,
    }
}

/// The storage that bytes hold: what they decompress to, read as slots, an
/// index and a flag that make a well-formed storage. Nothing where a step
/// fails or the storage would not be well formed.
pub open spec fn decoding(bytes: Seq<u8>) -> Option<(Seq<TaskView>, Map<Id, Slot>, bool)> {
    match zlib_decompressed(bytes) {
        Some(raw) => match bincode_deserialized(raw) {
            Some((records, index, dirty)) => if well_formed(slots_of(records), index) {
                Some((slots_of(records), index, dirty))
            } else {
                None
            },
            None => None,
        },
        None => None,
    }
}

/// The tasks of a buffer as records.
fn to_records(store: &Vec<Task>) -> (records: Vec<(u64, String, String)>)
    ensures
        record_views(records@) == records_of(views(store@)),
{
    let mut records: Vec<(u64, String, String)> = Vec::new();
    let mut i: usize = 0;
    while i < store.len()
        invariant
            i <= store@.len(),
            records@.len() == i,
            record_views(records@) == records_of(views(store@)).take(i as int),
        decreases store@.len() - i,
    {
        let task = &store[i];
        records.push((task.id, task.head.clone(), task.body.clone()));
        i = i + 1;
    }
    records
}

/// The records as the tasks of a buffer.
fn to_tasks(records: &Vec<(u64, String, String)>) -> (store: Vec<Task>)
    ensures
        views(store@) == slots_of(record_views(records@)),
{
    let mut store: Vec<Task> = Vec::new();
    let mut i: usize = 0;
    while i < records.len()
        invariant
            i <= records@.len(),
            store@.len() == i,
            views(store@) == slots_of(record_views(records@)).take(i as int),
        decreases records@.len() - i,
    {
        let record = &records[i];
        store.push(Task { id: record.0, head: record.1.clone(), body: record.2.clone() });
        i = i + 1;
    }
    store
}

/// The bytes that persist `data`: its slots, its index and its flag in the
/// binary form, compressed.
pub fn encode(data: &Storage) -> (encoded: Result<Vec<u8>, TaskError>)
    ensures
        match encoded {
            Ok(bytes) => encoding(data.slots(), data.index(), data.dirty()) == Some(bytes@),
            Err(error) => {
                let written = bincode_serialized(
                    records_of(data.slots()),
                    data.index(),
                    data.dirty(),
                );
                &&& encoding(data.slots(), data.index(), data.dirty()) is None
                &&& written is None ==> error == TaskError::Serialization
                &&& written is Some ==> error is Io
            },
        },
{
    let records = to_records(data.store());
    let raw = match serialize(&records, data.id_to_slot(), data.is_dirty()) {
        Ok(raw) => raw,
        Err(_) => {
            return Err(TaskError::Serialization);
        },
    };
    match compress_data(raw.as_slice()) {
        Ok(packed) => Ok(packed),
        Err(error) => Err(TaskError::Io(error.to_string())),
    }
}

/// The storage that `bytes` persist. Bytes that do not decompress, that do
/// not hold the binary form, or that hold a storage that is not well formed
/// are corrupt. What `encode` made of a well-formed storage is read back as
/// that storage.
pub fn decode(bytes: &[u8]) -> (decoded: Result<Storage, TaskError>)
    ensures
        match decoded {
            Ok(data) => {
                &&& data.wf()
                &&& decoding(bytes@) == Some((data.slots(), data.index(), data.dirty()))
            },
            Err(error) => error == TaskError::Corruption && decoding(bytes@) is None,
        },
        forall|saved: Storage|
            saved.wf() && #[trigger] encoding(saved.slots(), saved.index(), saved.dirty()) == Some(
                bytes@,
            ) ==> (decoded matches Ok(data) && data@ == saved@ && data.slots() == saved.slots()
                && data.index() == saved.index() && data.dirty() == saved.dirty()),
{
    let raw = match decompress(bytes) {
        Ok(raw) => raw,
        Err(_) => {
            return Err(TaskError::Corruption);
        },
    };
    let parts = match deserialize(raw.as_slice()) {
        Ok(parts) => parts,
        Err(_) => {
            return Err(TaskError::Corruption);
        },
    };
    let store = to_tasks(&parts.0);
    proof {
        assert forall|saved: Storage|
            saved.wf() && #[trigger] encoding(saved.slots(), saved.index(), saved.dirty()) == Some(
                bytes@,
            ) implies views(store@) == saved.slots() && parts.1@ == saved.index() && parts.2
            == saved.dirty() by {
            let written = bincode_serialized(
                records_of(saved.slots()),
                saved.index(),
                saved.dirty(),
            );
            assert(zlib_compressed(written->0) == Some(bytes@));
            assert(slots_of(records_of(saved.slots())) == saved.slots());
        }
    }
    Storage::from_parts(store, parts.1, parts.2)
}

} // verus!
