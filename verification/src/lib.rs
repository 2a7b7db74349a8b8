//! An in-memory tree that mirrors part of a filesystem, node by node, with the
//! metadata a directory listing shows: the tree is built to a bounded depth
//! under a display mode and a set of exclusions, and the sizes of its
//! directories are then summed up over what lies beneath them.
//!
//! The library reads nothing itself. What was observed on the filesystem is
//! handed to it in a [`disk::Snapshot`]; each traversal answers with what it
//! could build from that and with the observations it still lacks.

pub mod disk;
pub mod error;
pub mod filter;
pub mod flags;
pub mod globs;
pub mod meta;
