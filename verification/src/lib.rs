//! The decision core of a filesystem-backed cache.
//!
//! Every cached entry is one file whose content a caller-supplied producer
//! (re)generates once it is older than a refresh interval.  This crate holds
//! the rules of that cache and none of its I/O: how a caller's relative path
//! is confined below the cache root, when an entry is valid, what has to
//! happen to the backing file when it is opened or refreshed, how the
//! advisory lock flag behaves and which directories are pruned on removal.
//!
//! A driver owns the filesystem, the clock and the producer.  It reports what
//! it observed as plain values and carries out what it is handed back:
//!
//! * To open a cache it looks at the chosen directory and asks
//!   [`Cache::with_dir`], creates the directory where the [`Opening`] says
//!   so, resolves the directory's canonical path and calls
//!   [`Opening::finish`].
//! * To get an entry it calls [`Cache::resolve`] and walks the [`Lookup`]:
//!   for every directory on the way it tells whether the directory exists,
//!   creates it where it is asked to, and reports its canonical path.  With
//!   the resolved path and the knowledge whether a file is there it calls
//!   [`Cache::get_lazy`] or [`Cache::get`].
//! * To open or refresh an entry it reports the file's [`FileStatus`], or
//!   its modification time and the time of day, and carries out the
//!   [`Action`] that the entry decides on.
//! * To remove an entry it walks the [`Removal`] that the entry starts,
//!   one deletion or one look into a directory at a time.
//!
//! Whatever fails on the driver's side ends the operation with the driver's
//! error.  Nothing is rolled back: directories made on the way to a refused
//! path stay, and so does the file that a failing producer leaves behind.
//!
//! Paths are byte strings with `/` as their separator, as Unix has them.
//! Times are whole nanoseconds from the Unix epoch.

pub mod cache;
pub mod file;
pub mod lexical;
pub mod name;
pub mod path;
pub mod path_lemmas;
pub mod refresh;
pub mod removal;
pub mod resolve;
pub mod result;
pub mod time;

pub use crate::cache::{default_refresh_interval, Cache, DirStatus, Opening, DEFAULT_REFRESH_SECS};
pub use crate::file::{CacheFile, CacheLazyFile};
pub use crate::refresh::{Action, FileStatus};
pub use crate::removal::Removal;
pub use crate::resolve::{Checking, Lookup, Making, Resolved, Walk};
pub use crate::result::Error;
pub use crate::time::{Duration, Timestamp};
