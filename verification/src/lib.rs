//! A to-do list: a list of tasks with completion flags, plus a text-entry
//! buffer for the pending new task. The state can be dumped to and restored
//! from a flat file by a front end; this crate holds the data model and the
//! operations on it.

pub mod state;
