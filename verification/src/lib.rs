//! Inspection of the on-disk state of a dqlite node.

pub mod bytes;
pub mod command;
pub mod dir;
pub mod dqlite;
pub mod help;
pub mod info;
pub mod interactive;
pub mod log;
pub mod point_in_time;
pub mod prompt;
pub mod raft;
pub mod runner;
pub mod sqlite_vfs;
pub mod text;
