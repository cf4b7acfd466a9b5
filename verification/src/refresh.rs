//! When a file is valid, and what refreshing and opening do to it.
//!
//! Validity is not stored.  It follows from the file's modification time,
//! the refresh interval and the time of asking: a file is valid while less
//! time than the interval has passed since it was written.

use vstd::prelude::*;

use crate::result::Error;
use crate::time::Timestamp;

verus! {

/// What the driver found at an entry's path.
#[derive(Clone, Copy, Debug)]
pub enum FileStatus {
    /// No file is there.
    Missing,
    /// A file is there, last modified at `modified`; the clock reads `now`.
    Present { modified: Timestamp, now: Timestamp },
}

/// What the driver has to do to an entry's file before the file is read.
#[derive(Clone, Copy, Debug, PartialEq, Eq, Structural)]
pub enum Action {
    /// Create the file, failing if one is there, and run the producer on it.
    Create,
    /// Empty the file and run the producer on it.
    Regenerate,
    /// Leave the file as it is.
    Keep,
}

/// The backing file of an entry, as far as the cache's rules reach.
pub struct OnDisk {
    /// Whether the file is there.
    pub present: bool,
    /// When it was last written, in nanoseconds from the epoch.
    pub modified: int,
    /// How often the producer has filled it.
    pub written: nat,
}

impl Action {
    /// How often the driver runs the producer to carry the action out.
    pub open spec fn producer_runs(self) -> nat {
        match self {
            Action::Create => 1,
            Action::Regenerate => 1,
            Action::Keep => 0,
        }
    }

    /// The file after the driver carried the action out at `now`, the
    /// producer succeeding: creating and regenerating both leave a file
    /// that was written at `now`, once more than before.
    pub open spec fn carried_out(self, file: OnDisk, now: int) -> OnDisk {
        match self {
            Action::Keep => file,
            _ => OnDisk {
                present: true,
                modified: now,
                written: file.written + self.producer_runs(),
            },
        }
    }
}

/// Whether a file last modified at `modified` is still valid at `now` under a
/// refresh interval of `interval`: less time than the interval has passed.
/// All three are in nanoseconds.
pub open spec fn is_fresh(interval: nat, modified: int, now: int) -> bool {
    now - modified < interval
}

/// The instant at which a file last modified at `modified` stops being valid
/// under a refresh interval of `interval`.
pub open spec fn expiry(interval: nat, modified: int) -> int {
    modified + interval
}

/// What a conditional refresh does to a file modified at `modified` when the
/// clock reads `now`.
pub open spec fn refresh_action(interval: nat, modified: int, now: int) -> Action {
    if is_fresh(interval, modified, now) {
        Action::Keep
    } else {
        Action::Regenerate
    }
}

/// What opening does to a file found in `status`, the clock not running
/// behind it: a missing file is created, a present one conditionally
/// refreshed.
pub open spec fn open_action(interval: nat, status: FileStatus) -> Action {
    match status {
        FileStatus::Missing => Action::Create,
        FileStatus::Present { modified, now } => refresh_action(interval, modified@, now@),
    }
}

/// Whether `error` says that a file's modification time `modified` lies after
/// `now`, and by how much.
pub open spec fn is_clock_error(error: Error, modified: int, now: int) -> bool {
    &&& modified > now
    &&& error matches Error::SystemTime(ahead)
    &&& ahead@ == modified - now
}

/// What opening an entry at `now` does to its file.
pub open spec fn open_action_at(interval: nat, file: OnDisk, now: int) -> Action {
    if file.present {
        refresh_action(interval, file.modified, now)
    } else {
        Action::Create
    }
}

/// The file after an entry was opened at `now`.
pub open spec fn opened_at(interval: nat, file: OnDisk, now: int) -> OnDisk {
    open_action_at(interval, file, now).carried_out(file, now)
}

/// What the driver reports of `file` at `now`.
pub open spec fn status_at(file: OnDisk, modified: Timestamp, now: Timestamp) -> FileStatus {
    if file.present {
        FileStatus::Present { modified, now }
    } else {
        FileStatus::Missing
    }
}

/// Opening goes by what the driver reports of the file.
pub proof fn lemma_open_goes_by_the_report(
    interval: nat,
    file: OnDisk,
    modified: Timestamp,
    now: Timestamp,
)
    requires
        modified@ == file.modified,
    ensures
        open_action(interval, status_at(file, modified, now)) == open_action_at(
            interval,
            file,
            now@,
        ),
{
}

/// Opening an entry whose file is missing creates the file and runs the
/// producer exactly once; opening it again before the refresh interval has
/// passed leaves the file as it is and does not run the producer.
pub proof fn lemma_second_open_within_interval_keeps(
    interval: nat,
    file: OnDisk,
    first: int,
    second: int,
)
    requires
        !file.present,
        first <= second < first + interval,
    ensures
        open_action_at(interval, file, first) == Action::Create,
        opened_at(interval, file, first).written == file.written + 1,
        open_action_at(interval, opened_at(interval, file, first), second) == Action::Keep,
        opened_at(interval, opened_at(interval, file, first), second) == opened_at(
            interval,
            file,
            first,
        ),
{
}

/// Once the refresh interval has passed since the file was written, opening
/// the entry runs the producer again.  Under the empty interval that is
/// every opening.
pub proof fn lemma_open_after_interval_regenerates(interval: nat, file: OnDisk, now: int)
    requires
        file.present,
        file.modified + interval <= now,
    ensures
        open_action_at(interval, file, now) == Action::Regenerate,
        opened_at(interval, file, now).written == file.written + 1,
        opened_at(interval, file, now).modified == now,
{
}

/// A file is valid right after it was created or regenerated, under any
/// refresh interval but the empty one, under which it never is.
pub proof fn lemma_written_file_is_fresh(interval: nat, file: OnDisk, action: Action, now: int)
    requires
        action != Action::Keep,
    ensures
        is_fresh(interval, action.carried_out(file, now).modified, now) <==> interval > 0,
{
}

/// An unconditional refresh runs the producer once, whenever it happens;
/// the openings that follow within the refresh interval do not.
pub proof fn lemma_forced_refresh_writes_at_once(
    interval: nat,
    file: OnDisk,
    now: int,
    later: int,
)
    requires
        now <= later < now + interval,
    ensures
        Action::Regenerate.carried_out(file, now).written == file.written + 1,
        opened_at(interval, Action::Regenerate.carried_out(file, now), later)
            == Action::Regenerate.carried_out(file, now),
{
}

/// A file is valid up to its expiry and not at it: validity is a half-open
/// span of time that starts with the last write.
pub proof fn lemma_valid_until_expiry(interval: nat, modified: int, now: int)
    ensures
        is_fresh(interval, modified, now) <==> now < expiry(interval, modified),
        modified <= now && is_fresh(interval, modified, now) ==> modified <= now < expiry(
            interval,
            modified,
        ),
{
}

/// A file is stale once its refresh interval has passed, and stays stale
/// from then on.
pub proof fn lemma_stale_once_interval_passed(interval: nat, modified: int, now: int, later: int)
    requires
        now - modified >= interval,
        now <= later,
    ensures
        !is_fresh(interval, modified, now),
        !is_fresh(interval, modified, later),
        refresh_action(interval, modified, now) == Action::Regenerate,
{
}

/// Under the empty refresh interval a file is never valid: every refresh
/// and every opening regenerates it.
pub proof fn lemma_empty_interval_never_fresh(modified: Timestamp, now: Timestamp)
    requires
        modified@ <= now@,
    ensures
        !is_fresh(0, modified@, now@),
        refresh_action(0, modified@, now@) == Action::Regenerate,
        open_action(0, FileStatus::Present { modified, now }) == Action::Regenerate,
{
}

} // verus!
