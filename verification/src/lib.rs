//! A minimalistic task manager: tasks with a head line and a body, kept in
//! one file.
//!
//! - [`task`]: what a task is.
//! - [`storage`]: the tasks in memory, under identifiers that stay dense;
//!   adding, listing, updating and deleting them.
//! - [`codec`]: a storage as bytes and back.
//! - [`persist`]: what to make of the storage file, and what to write to it.
//! - [`editor`]: a task as a text in the user's editor, step by step.
//! - [`text`]: lines, white space and numbers in texts.
//! - [`error`]: what can go wrong.
pub mod codec;
pub mod editor;
pub mod error;
pub mod persist;
pub mod storage;
pub mod task;
pub mod text;
