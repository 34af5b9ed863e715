//! An in-memory model of inode-based storage: an inode table of files and directories
//! with ten direct block pointers each, a store of fixed-size blocks, and an operation
//! journal whose undo removes the last record only.

pub mod fs;
pub mod inode;
pub mod journal;
pub mod laws;
pub mod text;
