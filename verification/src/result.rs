//! The failures a cache operation reports.

use vstd::prelude::*;

use crate::time::Duration;

verus! {

/// Why a cache operation failed.  The set is closed, and every failure is
/// handed to the caller: none is swallowed or replaced by a default.
#[derive(Debug)]
pub enum Error {
    /// The path chosen for a cache root exists and is not a directory.
    NotADirectory { path: Vec<u8> },
    /// A directory on the way to an entry resolves outside the cache root,
    /// through `..` or through a link.
    PathTraversal { path: Vec<u8>, cache_dir: Vec<u8> },
    /// The relative path of an entry names no file: it is empty, ends in a
    /// separator, or its last component is not a legible plain name.
    InvalidPath { path: Vec<u8> },
    /// A new entry was asked for where a file already is.
    FileAlreadyExists { path: Vec<u8> },
    /// The entry was locked while it was locked.
    FileAlreadyLocked,
    /// The entry was unlocked while it was unlocked.
    FileAlreadyUnlocked,
    /// The producer failed; the text is its own account of the failure.
    Callback(String),
    /// A file's modification time lies in the future, by the span given.
    SystemTime(Duration),
    /// The filesystem refused an operation; the text is its account of why.
    IO(String),
}

} // verus!
