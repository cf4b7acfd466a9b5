//! The cache root: a directory and the refresh interval that its entries
//! start with.

use vstd::prelude::*;

use crate::file::{CacheFile, CacheLazyFile, EntryView};
use crate::path::{components_of, has_root};
use crate::refresh::Action;
use crate::removal::{lemma_removal_starts_below_root, removal_of, stays_below};
use crate::resolve::{
    destination, lemma_destination_is_below_root, lookup_of, names_a_file, Lookup, Resolved, Walk,
};
use crate::result::Error;
use crate::time::Duration;

verus! {

/// The refresh interval of a new cache, in seconds.
pub const DEFAULT_REFRESH_SECS: u64 = 5;

/// The refresh interval of a new cache.
pub fn default_refresh_interval() -> (interval: Duration)
    ensures
        interval@ == DEFAULT_REFRESH_SECS as nat * 1_000_000_000,
{
    Duration::from_secs(DEFAULT_REFRESH_SECS)
}

/// What the driver found at the path chosen for a cache root.
#[derive(Clone, Copy, Debug, PartialEq, Eq, Structural)]
pub enum DirStatus {
    /// Nothing is there.
    Missing,
    /// A directory is there.
    Directory,
    /// Something is there that is not a directory.
    Other,
}

/// A cache root that was found fit and waits for its canonical path.
#[derive(Debug)]
pub struct Opening {
    create: bool,
}

/// A cache as plain values.
pub struct CacheView {
    /// The canonical path of the root directory.
    pub root: Seq<u8>,
    /// The refresh interval that new entries get, in nanoseconds.
    pub refresh_interval: nat,
}

/// A cache: a root directory and a default refresh interval.  Neither
/// changes while the cache is in use, and entries keep what they were made
/// with.
#[derive(Debug)]
pub struct Cache {
    root: Vec<u8>,
    refresh_interval: Duration,
}

impl View for Opening {
    type V = bool;

    closed spec fn view(&self) -> bool {
        self.create
    }
}

impl View for Cache {
    type V = CacheView;

    closed spec fn view(&self) -> CacheView {
        CacheView { root: self.root@, refresh_interval: self.refresh_interval@ }
    }
}

impl Opening {
    /// Whether the driver has to create the directory, and any missing
    /// directory above it, before it resolves the canonical path.
    pub fn must_create(&self) -> (create: bool)
        ensures
            create == self@,
    {
        self.create
    }

    /// The cache in the directory whose canonical path is `root`, with the
    /// default refresh interval.
    pub fn finish(self, root: Vec<u8>) -> (cache: Cache)
        ensures
            cache@ == (CacheView {
                root: root@,
                refresh_interval: DEFAULT_REFRESH_SECS as nat * 1_000_000_000,
            }),
    {
        Cache { root, refresh_interval: default_refresh_interval() }
    }
}

impl Cache {
    /// Judges the directory `dir` as a cache root by what the driver found
    /// there.  Something that is not a directory cannot be a root; a missing
    /// directory has to be created.
    pub fn with_dir(dir: &[u8], status: DirStatus) -> (opening: Result<Opening, Error>)
        ensures
            (match opening {
                Ok(o) => status != DirStatus::Other && o@ == (status == DirStatus::Missing),
                Err(Error::NotADirectory { path }) => status == DirStatus::Other && path@ == dir@,
                Err(_) => false,
            }),
    {
        match status {
            DirStatus::Missing => Ok(Opening { create: true }),
            DirStatus::Directory => Ok(Opening { create: false }),
            DirStatus::Other => Err(Error::NotADirectory { path: vstd::slice::slice_to_vec(dir) }),
        }
    }

    /// The cache with `refresh_interval` for the entries it makes from now
    /// on.
    #[must_use]
    pub fn with_refresh_interval(self, refresh_interval: Duration) -> (cache: Cache)
        ensures
            cache@ == (CacheView { refresh_interval: refresh_interval@, ..self@ }),
    {
        Cache { root: self.root, refresh_interval }
    }

    /// The cache with the default refresh interval for the entries it makes
    /// from now on.
    #[must_use]
    pub fn with_default_refresh_interval(self) -> (cache: Cache)
        ensures
            cache@ == (CacheView {
                refresh_interval: DEFAULT_REFRESH_SECS as nat * 1_000_000_000,
                ..self@
            }),
    {
        self.with_refresh_interval(default_refresh_interval())
    }

    /// The canonical path of the root directory.
    #[must_use]
    pub fn path(&self) -> (root: &Vec<u8>)
        ensures
            root@ == self@.root,
    {
        &self.root
    }

    /// The refresh interval that new entries get.
    #[must_use]
    pub fn refresh_interval(&self) -> (interval: Duration)
        ensures
            interval@ == self@.refresh_interval,
    {
        self.refresh_interval
    }

    /// Starts the lookup of the relative path `path`.  A path that names no
    /// file is refused at once; for any other the driver walks the lookup
    /// to its end.
    pub fn resolve(&self, path: &[u8]) -> (lookup: Result<Lookup, Error>)
        ensures
            (match lookup {
                Ok(l) => names_a_file(path@) && l@ == lookup_of(self@.root, path@),
                Err(Error::InvalidPath { path: p }) => !names_a_file(path@) && p@ == path@,
                Err(_) => false,
            }),
    {
        Walk::begin(self.root.as_slice(), path)
    }

    /// The lazy entry for the file at `resolved`, where the driver found no
    /// file; its refresh interval is the cache's.
    pub fn get_lazy(&self, resolved: Resolved, present: bool) -> (entry: Result<CacheLazyFile, Error>)
        ensures
            (match entry {
                Ok(e) => !present && e@ == self@.entry_at(resolved@),
                Err(Error::FileAlreadyExists { path }) => present && path@ == resolved@,
                Err(_) => false,
            }),
    {
        CacheLazyFile::new(
            resolved.into_path(),
            present,
            self.refresh_interval,
            self.root.as_slice(),
            self.refresh_interval,
        )
    }

    /// The entry for the file at `resolved`, where the driver found no file,
    /// together with the action that puts the file on disk: the driver
    /// carries it out before it hands the entry on.
    pub fn get(&self, resolved: Resolved, present: bool) -> (entry: Result<(CacheFile, Action), Error>)
        ensures
            (match entry {
                Ok((e, action)) => !present && e@ == self@.entry_at(resolved@) && action
                    == Action::Create,
                Err(Error::FileAlreadyExists { path }) => present && path@ == resolved@,
                Err(_) => false,
            }),
    {
        match self.get_lazy(resolved, present) {
            Ok(lazy) => Ok(lazy.init(present)),
            Err(error) => Err(error),
        }
    }
}

impl CacheView {
    /// The entry that this cache makes for the file at `path`.
    pub open spec fn entry_at(self, path: Seq<u8>) -> EntryView {
        EntryView {
            path,
            refresh_interval: self.refresh_interval,
            cache_root: self.root,
            cache_refresh_interval: self.refresh_interval,
            locked: false,
        }
    }
}

/// An entry that a cache made for a relative path is removed without the
/// cache root being touched: the removal names the file and directories
/// strictly below the root, and nothing else.
pub proof fn lemma_removal_spares_the_root(cache: CacheView, path: Seq<u8>, present: bool)
    requires
        cache.root.len() > 0,
        !has_root(path),
        names_a_file(path),
    ensures
        stays_below(
            removal_of(cache.entry_at(destination(cache.root, path)).path, cache.root, present),
            components_of(cache.root),
        ),
{
    lemma_destination_is_below_root(cache.root, path);
    lemma_removal_starts_below_root(destination(cache.root, path), cache.root, present);
}

} // verus!
