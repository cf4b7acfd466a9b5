//! Cache entries: one file each, with its refresh interval and lock flag.
//!
//! An entry never touches its file.  Its driver reports what it found on disk
//! and what the clock says; the entry answers with the [`Action`] to take on
//! the file, or with the next step of a [`Removal`].  The producer that fills
//! the file stays with the driver, which runs it once for every action that
//! asks for it.
//!
//! An entry comes in two phases.  A [`CacheLazyFile`] may have no file yet;
//! a [`CacheFile`] is a lazy entry whose file the driver has seen to.  Both
//! answer alike.
//!
//! The lock flag is advisory and local to the value that holds it.  Only
//! `lock` and `unlock` read it: no refresh is held back by it.

use vstd::prelude::*;

use crate::path::{components, file_name_of, is_plain_name};
use crate::refresh::{
    expiry, is_clock_error, is_fresh, open_action, refresh_action, Action, FileStatus,
};
use crate::removal::{removal_of, FileStep, Removal};
use crate::result::Error;
use crate::time::{Duration, Timestamp};

verus! {

/// An entry as plain values.
pub struct EntryView {
    /// The absolute path of the backing file.
    pub path: Seq<u8>,
    /// The entry's refresh interval, in nanoseconds.
    pub refresh_interval: nat,
    /// The directory of the cache that made the entry.
    pub cache_root: Seq<u8>,
    /// The refresh interval that cache had then, in nanoseconds.
    pub cache_refresh_interval: nat,
    /// The advisory lock flag.
    pub locked: bool,
}

impl EntryView {
    /// The entry with its lock flag at `locked`.
    pub open spec fn with_lock(self, locked: bool) -> EntryView {
        EntryView { locked, ..self }
    }

    /// Whether the entry can be locked: its flag is clear.
    pub open spec fn can_lock(self) -> bool {
        !self.locked
    }

    /// Whether the entry can be unlocked: its flag is set.
    pub open spec fn can_unlock(self) -> bool {
        self.locked
    }
}

/// An entry whose file may not exist yet.
#[derive(Debug)]
pub struct CacheLazyFile {
    path: Vec<u8>,
    refresh_interval: Duration,
    cache_root: Vec<u8>,
    cache_refresh_interval: Duration,
    locked: bool,
}

impl View for CacheLazyFile {
    type V = EntryView;

    closed spec fn view(&self) -> EntryView {
        EntryView {
            path: self.path@,
            refresh_interval: self.refresh_interval@,
            cache_root: self.cache_root@,
            cache_refresh_interval: self.cache_refresh_interval@,
            locked: self.locked,
        }
    }
}

impl CacheLazyFile {
    /// An unlocked entry for the file at `path`, where the driver found none:
    /// an entry is never made over a file that is `present`.
    pub fn new(
        path: Vec<u8>,
        present: bool,
        refresh_interval: Duration,
        cache_root: &[u8],
        cache_refresh_interval: Duration,
    ) -> (entry: Result<CacheLazyFile, Error>)
        ensures
            (match entry {
                Ok(e) => !present && e@ == (EntryView {
                    path: path@,
                    refresh_interval: refresh_interval@,
                    cache_root: cache_root@,
                    cache_refresh_interval: cache_refresh_interval@,
                    locked: false,
                }),
                Err(Error::FileAlreadyExists { path: p }) => present && p@ == path@,
                Err(_) => false,
            }),
    {
        if present {
            Err(Error::FileAlreadyExists { path })
        } else {
            Ok(
                CacheLazyFile {
                    path,
                    refresh_interval,
                    cache_root: vstd::slice::slice_to_vec(cache_root),
                    cache_refresh_interval,
                    locked: false,
                },
            )
        }
    }

    /// The entry with `refresh_interval` in place of its own.
    #[must_use]
    pub fn with_refresh_interval(self, refresh_interval: Duration) -> (entry: CacheLazyFile)
        ensures
            entry@ == (EntryView { refresh_interval: refresh_interval@, ..self@ }),
    {
        CacheLazyFile {
            path: self.path,
            refresh_interval,
            cache_root: self.cache_root,
            cache_refresh_interval: self.cache_refresh_interval,
            locked: self.locked,
        }
    }

    /// The entry with the refresh interval that its cache had when it made
    /// the entry.
    #[must_use]
    pub fn with_default_refresh_interval(self) -> (entry: CacheLazyFile)
        ensures
            entry@ == (EntryView { refresh_interval: self@.cache_refresh_interval, ..self@ }),
    {
        CacheLazyFile {
            path: self.path,
            refresh_interval: self.cache_refresh_interval,
            cache_root: self.cache_root,
            cache_refresh_interval: self.cache_refresh_interval,
            locked: self.locked,
        }
    }

    /// The absolute path of the backing file.
    #[must_use]
    pub fn path(&self) -> (path: &Vec<u8>)
        ensures
            path@ == self@.path,
    {
        &self.path
    }

    /// The name of the backing file: the last component of its path, where
    /// that is a plain name.
    #[must_use]
    pub fn name(&self) -> (name: Option<Vec<u8>>)
        ensures
            name is Some <==> file_name_of(self@.path) is Some,
            name matches Some(n) ==> Some(n@) == file_name_of(self@.path),
    {
        let mut parts = components(self.path.as_slice());
        match parts.pop() {
            Some(last) => if is_plain_name(last.as_slice()) {
                Some(last)
            } else {
                None
            },
            None => None,
        }
    }

    /// The span within which the file counts as valid after it was modified.
    #[must_use]
    pub fn refresh_interval(&self) -> (interval: Duration)
        ensures
            interval@ == self@.refresh_interval,
    {
        self.refresh_interval
    }

    /// Whether the lock flag is set.
    #[must_use]
    pub fn is_locked(&self) -> (locked: bool)
        ensures
            locked == self@.locked,
    {
        self.locked
    }

    /// Whether the lock flag is clear.
    #[must_use]
    pub fn is_unlocked(&self) -> (unlocked: bool)
        ensures
            unlocked == !self@.locked,
    {
        !self.is_locked()
    }

    /// Whether the file, last modified at `modified`, is valid at `now`.
    /// A modification time after `now` is an error that carries the distance.
    pub fn is_valid(&self, modified: Timestamp, now: Timestamp) -> (valid: Result<bool, Error>)
        ensures
            (match valid {
                Ok(v) => modified@ <= now@ && v == is_fresh(self@.refresh_interval, modified@, now@),
                Err(error) => is_clock_error(error, modified@, now@),
            }),
    {
        match now.duration_since(&modified) {
            Ok(elapsed) => Ok(elapsed.shorter_than(&self.refresh_interval)),
            Err(ahead) => Err(Error::SystemTime(ahead)),
        }
    }

    /// Whether the file, last modified at `modified`, is stale at `now`: the
    /// opposite of [`CacheLazyFile::is_valid`], with the same error.
    pub fn is_invalid(&self, modified: Timestamp, now: Timestamp) -> (invalid: Result<bool, Error>)
        ensures
            (match invalid {
                Ok(v) => modified@ <= now@ && v == !is_fresh(
                    self@.refresh_interval,
                    modified@,
                    now@,
                ),
                Err(error) => is_clock_error(error, modified@, now@),
            }),
    {
        match self.is_valid(modified, now) {
            Ok(valid) => Ok(!valid),
            Err(error) => Err(error),
        }
    }

    /// The instant at which the file, last modified at `modified`, stops
    /// being valid.  The instant has to be one that a [`Timestamp`] can
    /// hold, which [`Timestamp::checked_add`] tells.
    pub fn valid_until(&self, modified: Timestamp) -> (until: Timestamp)
        requires
            Timestamp::representable(expiry(self@.refresh_interval, modified@)),
        ensures
            until@ == expiry(self@.refresh_interval, modified@),
    {
        match modified.checked_add(&self.refresh_interval) {
            Some(until) => until,
            None => vstd::pervasive::unreached(),
        }
    }

    /// Sets the lock flag, which must be clear.  The flag is advisory: it is
    /// local to this value and nothing else in the cache reads it.
    pub fn lock(&mut self) -> (locked: Result<(), Error>)
        ensures
            (match locked {
                Ok(_) => old(self)@.can_lock() && final(self)@ == old(self)@.with_lock(true),
                Err(Error::FileAlreadyLocked) => !old(self)@.can_lock() && final(self)@ == old(
                    self,
                )@,
                Err(_) => false,
            }),
    {
        if self.is_unlocked() {
            self.locked = true;
            Ok(())
        } else {
            Err(Error::FileAlreadyLocked)
        }
    }

    /// Clears the lock flag, which must be set.
    pub fn unlock(&mut self) -> (unlocked: Result<(), Error>)
        ensures
            (match unlocked {
                Ok(_) => old(self)@.can_unlock() && final(self)@ == old(self)@.with_lock(false),
                Err(Error::FileAlreadyUnlocked) => !old(self)@.can_unlock() && final(self)@
                    == old(self)@,
                Err(_) => false,
            }),
    {
        if self.is_locked() {
            self.locked = false;
            Ok(())
        } else {
            Err(Error::FileAlreadyUnlocked)
        }
    }

    /// What creating the file takes: the file is created anew and the
    /// producer runs once.  The driver then hands the file out for reading.
    pub fn create(&self) -> (action: Action)
        ensures
            action == Action::Create,
    {
        Action::Create
    }

    /// What has to happen before the file is handed out for reading: a
    /// missing file is created, a present one is refreshed as
    /// [`CacheLazyFile::refresh`] says.
    pub fn open(&self, status: FileStatus) -> (action: Result<Action, Error>)
        ensures
            (match action {
                Ok(a) => !(status matches FileStatus::Present { modified, now } && modified@
                    > now@) && a == open_action(self@.refresh_interval, status),
                Err(error) => status matches FileStatus::Present { modified, now }
                    && is_clock_error(error, modified@, now@),
            }),
    {
        match status {
            FileStatus::Missing => Ok(self.create()),
            FileStatus::Present { modified, now } => self.refresh(modified, now),
        }
    }

    /// What a conditional refresh does: a stale file is regenerated, a valid
    /// one is kept.  The lock flag has no part in it.
    pub fn refresh(&self, modified: Timestamp, now: Timestamp) -> (action: Result<Action, Error>)
        ensures
            (match action {
                Ok(a) => modified@ <= now@ && a == refresh_action(
                    self@.refresh_interval,
                    modified@,
                    now@,
                ),
                Err(error) => is_clock_error(error, modified@, now@),
            }),
    {
        match self.is_invalid(modified, now) {
            Ok(invalid) => if invalid {
                Ok(self.force_refresh())
            } else {
                Ok(Action::Keep)
            },
            Err(error) => Err(error),
        }
    }

    /// What an unconditional refresh does: the file is regenerated, whatever
    /// its age and whatever the lock flag.
    pub fn force_refresh(&self) -> (action: Action)
        ensures
            action == Action::Regenerate,
    {
        Action::Regenerate
    }

    /// How the entry is removed: where the file is `present`, it is deleted and
    /// the directories above it are pruned; where it does not, nothing is
    /// done.
    pub fn remove(&self, present: bool) -> (removal: Removal)
        ensures
            removal@ == removal_of(self@.path, self@.cache_root, present),
    {
        if present {
            Removal::DeleteFile(FileStep::new(self.path.as_slice(), self.cache_root.as_slice()))
        } else {
            Removal::Done
        }
    }

    /// The entry as one whose file is on disk, with what it takes to make
    /// that true: a file that does not exist yet is created first.
    pub fn init(self, present: bool) -> (initialized: (CacheFile, Action))
        ensures
            initialized.0@ == self@,
            initialized.1 == (if present {
                Action::Keep
            } else {
                Action::Create
            }),
    {
        let action = if present {
            Action::Keep
        } else {
            self.create()
        };
        (CacheFile { inner: self }, action)
    }
}

/// An entry whose file was on disk when the entry was made.
#[derive(Debug)]
pub struct CacheFile {
    inner: CacheLazyFile,
}

impl View for CacheFile {
    type V = EntryView;

    closed spec fn view(&self) -> EntryView {
        self.inner@
    }
}

impl CacheFile {
    /// The entry with `refresh_interval` in place of its own.
    #[must_use]
    pub fn with_refresh_interval(self, refresh_interval: Duration) -> (entry: CacheFile)
        ensures
            entry@ == (EntryView { refresh_interval: refresh_interval@, ..self@ }),
    {
        CacheFile { inner: self.inner.with_refresh_interval(refresh_interval) }
    }

    /// The entry with the refresh interval that its cache had when it made
    /// the entry.
    #[must_use]
    pub fn with_default_refresh_interval(self) -> (entry: CacheFile)
        ensures
            entry@ == (EntryView { refresh_interval: self@.cache_refresh_interval, ..self@ }),
    {
        CacheFile { inner: self.inner.with_default_refresh_interval() }
    }

    /// The absolute path of the backing file.
    #[must_use]
    pub fn path(&self) -> (path: &Vec<u8>)
        ensures
            path@ == self@.path,
    {
        self.inner.path()
    }

    /// The name of the backing file: the last component of its path, where
    /// that is a plain name.
    #[must_use]
    pub fn name(&self) -> (name: Option<Vec<u8>>)
        ensures
            name is Some <==> file_name_of(self@.path) is Some,
            name matches Some(n) ==> Some(n@) == file_name_of(self@.path),
    {
        self.inner.name()
    }

    /// The span within which the file counts as valid after it was modified.
    #[must_use]
    pub fn refresh_interval(&self) -> (interval: Duration)
        ensures
            interval@ == self@.refresh_interval,
    {
        self.inner.refresh_interval()
    }

    /// Whether the lock flag is set.
    #[must_use]
    pub fn is_locked(&self) -> (locked: bool)
        ensures
            locked == self@.locked,
    {
        self.inner.is_locked()
    }

    /// Whether the lock flag is clear.
    #[must_use]
    pub fn is_unlocked(&self) -> (unlocked: bool)
        ensures
            unlocked == !self@.locked,
    {
        self.inner.is_unlocked()
    }

    /// Whether the file, last modified at `modified`, is valid at `now`.
    /// A modification time after `now` is an error that carries the distance.
    pub fn is_valid(&self, modified: Timestamp, now: Timestamp) -> (valid: Result<bool, Error>)
        ensures
            (match valid {
                Ok(v) => modified@ <= now@ && v == is_fresh(self@.refresh_interval, modified@, now@),
                Err(error) => is_clock_error(error, modified@, now@),
            }),
    {
        self.inner.is_valid(modified, now)
    }

    /// Whether the file, last modified at `modified`, is stale at `now`: the
    /// opposite of [`CacheFile::is_valid`], with the same error.
    pub fn is_invalid(&self, modified: Timestamp, now: Timestamp) -> (invalid: Result<bool, Error>)
        ensures
            (match invalid {
                Ok(v) => modified@ <= now@ && v == !is_fresh(
                    self@.refresh_interval,
                    modified@,
                    now@,
                ),
                Err(error) => is_clock_error(error, modified@, now@),
            }),
    {
        self.inner.is_invalid(modified, now)
    }

    /// The instant at which the file, last modified at `modified`, stops
    /// being valid.  The instant has to be one that a [`Timestamp`] can
    /// hold, which [`Timestamp::checked_add`] tells.
    pub fn valid_until(&self, modified: Timestamp) -> (until: Timestamp)
        requires
            Timestamp::representable(expiry(self@.refresh_interval, modified@)),
        ensures
            until@ == expiry(self@.refresh_interval, modified@),
    {
        self.inner.valid_until(modified)
    }

    /// Sets the lock flag, which must be clear.  The flag is advisory: it is
    /// local to this value and nothing else in the cache reads it.
    pub fn lock(&mut self) -> (locked: Result<(), Error>)
        ensures
            (match locked {
                Ok(_) => old(self)@.can_lock() && final(self)@ == old(self)@.with_lock(true),
                Err(Error::FileAlreadyLocked) => !old(self)@.can_lock() && final(self)@ == old(
                    self,
                )@,
                Err(_) => false,
            }),
    {
        self.inner.lock()
    }

    /// Clears the lock flag, which must be set.
    pub fn unlock(&mut self) -> (unlocked: Result<(), Error>)
        ensures
            (match unlocked {
                Ok(_) => old(self)@.can_unlock() && final(self)@ == old(self)@.with_lock(false),
                Err(Error::FileAlreadyUnlocked) => !old(self)@.can_unlock() && final(self)@
                    == old(self)@,
                Err(_) => false,
            }),
    {
        self.inner.unlock()
    }

    /// What has to happen before the file is handed out for reading: a file
    /// that has gone missing is created, a present one is refreshed as
    /// [`CacheFile::refresh`] says.
    pub fn open(&self, status: FileStatus) -> (action: Result<Action, Error>)
        ensures
            (match action {
                Ok(a) => !(status matches FileStatus::Present { modified, now } && modified@
                    > now@) && a == open_action(self@.refresh_interval, status),
                Err(error) => status matches FileStatus::Present { modified, now }
                    && is_clock_error(error, modified@, now@),
            }),
    {
        self.inner.open(status)
    }

    /// What a conditional refresh does: a stale file is regenerated, a valid
    /// one is kept.  The lock flag has no part in it.
    pub fn refresh(&self, modified: Timestamp, now: Timestamp) -> (action: Result<Action, Error>)
        ensures
            (match action {
                Ok(a) => modified@ <= now@ && a == refresh_action(
                    self@.refresh_interval,
                    modified@,
                    now@,
                ),
                Err(error) => is_clock_error(error, modified@, now@),
            }),
    {
        self.inner.refresh(modified, now)
    }

    /// What an unconditional refresh does: the file is regenerated, whatever
    /// its age and whatever the lock flag.
    pub fn force_refresh(&self) -> (action: Action)
        ensures
            action == Action::Regenerate,
    {
        self.inner.force_refresh()
    }

    /// How the entry is removed: where the file is `present`, it is deleted and
    /// the directories above it are pruned; where it does not, nothing is
    /// done.
    pub fn remove(&self, present: bool) -> (removal: Removal)
        ensures
            removal@ == removal_of(self@.path, self@.cache_root, present),
    {
        self.inner.remove(present)
    }
}

/// An entry that was locked cannot be locked again before it is unlocked,
/// and one that was unlocked cannot be unlocked again before it is locked.
pub proof fn lemma_lock_alternates(entry: EntryView)
    ensures
        entry.can_lock() != entry.can_unlock(),
        !entry.with_lock(true).can_lock(),
        entry.with_lock(true).can_unlock(),
        !entry.with_lock(false).can_unlock(),
        entry.with_lock(false).can_lock(),
{
}

} // verus!
