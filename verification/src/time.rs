//! Time spans and instants as plain integers.
//!
//! The cache never reads a clock.  Its driver reports instants as
//! [`Timestamp`]s and the cache answers with [`Duration`]s and `Timestamp`s of
//! its own, so every rule about time is arithmetic on these two types.

use vstd::prelude::*;

verus! {

/// Nanoseconds in one second.
pub const NANOS_PER_SEC: u32 = 1_000_000_000;

/// A span of time: whole seconds and a sub-second part in nanoseconds.
///
/// Its view is the span in nanoseconds.
#[derive(Clone, Copy, Debug, PartialEq, Eq, Structural)]
pub struct Duration {
    secs: u64,
    nanos: u32,
}

impl View for Duration {
    type V = nat;

    closed spec fn view(&self) -> nat {
        (self.secs as nat) * 1_000_000_000 + self.nanos as nat
    }
}

impl Duration {
    /// Whether the sub-second part is below one second, as it is in every
    /// `Duration` that exists at run time.
    #[verifier::type_invariant]
    pub closed spec fn normalized(self) -> bool {
        self.nanos < NANOS_PER_SEC
    }

    /// The empty span.
    pub fn zero() -> (d: Duration)
        ensures
            d@ == 0,
    {
        Duration { secs: 0, nanos: 0 }
    }

    /// The longest span.
    pub fn max() -> (d: Duration)
        ensures
            d@ == Self::spec_max(),
    {
        Duration { secs: u64::MAX, nanos: 999_999_999 }
    }

    /// The longest span a `Duration` holds, in nanoseconds.
    pub open spec fn spec_max() -> nat {
        (u64::MAX as nat) * 1_000_000_000 + 999_999_999
    }

    /// The span of `secs` seconds and `nanos` nanoseconds.  A sub-second part
    /// of a second or more is carried over into the seconds.
    pub fn new(secs: u64, nanos: u32) -> (d: Duration)
        requires
            secs as nat * 1_000_000_000 + nanos as nat <= Self::spec_max(),
        ensures
            d@ == secs as nat * 1_000_000_000 + nanos as nat,
    {
        let carry: u32 = nanos / NANOS_PER_SEC;
        let rest: u32 = nanos % NANOS_PER_SEC;
        Duration { secs: secs + carry as u64, nanos: rest }
    }

    /// The span of `secs` whole seconds.
    pub fn from_secs(secs: u64) -> (d: Duration)
        ensures
            d@ == secs as nat * 1_000_000_000,
    {
        Duration { secs, nanos: 0 }
    }

    /// The whole seconds of the span.
    pub fn as_secs(&self) -> (secs: u64)
        ensures
            secs as nat == self@ / 1_000_000_000,
    {
        proof {
            use_type_invariant(self);
        }
        self.secs
    }

    /// The part of the span below one second, in nanoseconds.
    pub fn subsec_nanos(&self) -> (nanos: u32)
        ensures
            nanos as nat == self@ % 1_000_000_000,
    {
        proof {
            use_type_invariant(self);
        }
        self.nanos
    }

    /// Whether this span is strictly shorter than `other`.
    pub fn shorter_than(&self, other: &Duration) -> (shorter: bool)
        ensures
            shorter == (self@ < other@),
    {
        proof {
            use_type_invariant(self);
            use_type_invariant(other);
        }
        self.secs < other.secs || (self.secs == other.secs && self.nanos < other.nanos)
    }
}

/// An instant, counted from the Unix epoch.
///
/// Its view is the signed distance from the epoch in nanoseconds; an instant
/// before the epoch has a negative view.
#[derive(Clone, Copy, Debug, PartialEq, Eq, Structural)]
pub struct Timestamp {
    secs: i64,
    nanos: u32,
}

impl View for Timestamp {
    type V = int;

    closed spec fn view(&self) -> int {
        (self.secs as int) * 1_000_000_000 + self.nanos as int
    }
}

impl Timestamp {
    /// Whether the sub-second part is below one second, as it is in every
    /// `Timestamp` that exists at run time.
    #[verifier::type_invariant]
    pub closed spec fn normalized(self) -> bool {
        self.nanos < NANOS_PER_SEC
    }

    /// The epoch itself.
    pub fn unix_epoch() -> (at: Timestamp)
        ensures
            at@ == 0,
    {
        Timestamp { secs: 0, nanos: 0 }
    }

    /// The earliest instant a `Timestamp` holds, in nanoseconds from the epoch.
    pub open spec fn spec_min() -> int {
        (i64::MIN as int) * 1_000_000_000
    }

    /// The latest instant a `Timestamp` holds, in nanoseconds from the epoch.
    pub open spec fn spec_max() -> int {
        (i64::MAX as int) * 1_000_000_000 + 999_999_999
    }

    /// Whether an instant `nanos` nanoseconds from the epoch fits a `Timestamp`.
    pub open spec fn representable(nanos: int) -> bool {
        Self::spec_min() <= nanos <= Self::spec_max()
    }

    /// The instant `since` after the epoch, where a `Timestamp` can hold it.
    pub fn after_epoch(since: Duration) -> (at: Option<Timestamp>)
        ensures
            at is Some <==> Self::representable(since@ as int),
            at matches Some(t) ==> t@ == since@,
    {
        proof {
            use_type_invariant(since);
        }
        if since.secs <= i64::MAX as u64 {
            Some(Timestamp { secs: since.secs as i64, nanos: since.nanos })
        } else {
            None
        }
    }

    /// The instant `until` before the epoch, where a `Timestamp` can hold it.
    pub fn before_epoch(until: Duration) -> (at: Option<Timestamp>)
        ensures
            at is Some <==> Self::representable(-(until@ as int)),
            at matches Some(t) ==> t@ == -(until@ as int),
    {
        proof {
            use_type_invariant(until);
        }
        if until.nanos == 0 {
            if until.secs <= i64::MAX as u64 {
                Some(Timestamp { secs: -(until.secs as i64), nanos: 0 })
            } else if until.secs == i64::MAX as u64 + 1 {
                Some(Timestamp { secs: i64::MIN, nanos: 0 })
            } else {
                None
            }
        } else if until.secs <= i64::MAX as u64 {
            Some(Timestamp { secs: -(until.secs as i64) - 1, nanos: NANOS_PER_SEC - until.nanos })
        } else {
            None
        }
    }

    /// The distance of this instant from the epoch: `Ok` with the span since
    /// the epoch, or `Err` with the span until the epoch for an instant
    /// before it.
    pub fn since_epoch(&self) -> (span: Result<Duration, Duration>)
        ensures
            span is Ok <==> self@ >= 0,
            span matches Ok(d) ==> d@ == self@,
            span matches Err(d) ==> d@ == -self@,
    {
        let epoch = Self::unix_epoch();
        self.duration_since(&epoch)
    }

    /// The time that passed from `earlier` to this instant: `Ok` with the
    /// span, or `Err` with the span by which `earlier` is in fact the later of
    /// the two.
    pub fn duration_since(&self, earlier: &Timestamp) -> (span: Result<Duration, Duration>)
        ensures
            span is Ok <==> earlier@ <= self@,
            span matches Ok(d) ==> d@ == self@ - earlier@,
            span matches Err(d) ==> d@ == earlier@ - self@,
    {
        proof {
            use_type_invariant(self);
            use_type_invariant(earlier);
        }
        if earlier.secs < self.secs || (earlier.secs == self.secs && earlier.nanos <= self.nanos) {
            Ok(Self::distance(earlier, self))
        } else {
            Err(Self::distance(self, earlier))
        }
    }

    /// The span from `from` to `to`, which is not the earlier of the two.
    fn distance(from: &Timestamp, to: &Timestamp) -> (d: Duration)
        requires
            from@ <= to@,
        ensures
            d@ == to@ - from@,
    {
        proof {
            use_type_invariant(from);
            use_type_invariant(to);
        }
        let whole: i128 = to.secs as i128 - from.secs as i128;
        if from.nanos <= to.nanos {
            Duration { secs: whole as u64, nanos: to.nanos - from.nanos }
        } else {
            Duration { secs: (whole - 1) as u64, nanos: NANOS_PER_SEC - from.nanos + to.nanos }
        }
    }

    /// The instant `span` after this one, where a `Timestamp` can hold it.
    pub fn checked_add(&self, span: &Duration) -> (at: Option<Timestamp>)
        ensures
            at is Some <==> Self::representable(self@ + span@),
            at matches Some(t) ==> t@ == self@ + span@,
    {
        proof {
            use_type_invariant(self);
            use_type_invariant(span);
        }
        let sum: u32 = self.nanos + span.nanos;
        let carry: i128 = if sum >= NANOS_PER_SEC { 1 } else { 0 };
        let nanos: u32 = if sum >= NANOS_PER_SEC { sum - NANOS_PER_SEC } else { sum };
        let secs: i128 = self.secs as i128 + span.secs as i128 + carry;
        if secs <= i64::MAX as i128 {
            Some(Timestamp { secs: secs as i64, nanos })
        } else {
            None
        }
    }
}

/// Two spans are the same value exactly when they are equally long.
pub proof fn lemma_duration_view_injective(a: Duration, b: Duration)
    requires
        a.normalized(),
        b.normalized(),
    ensures
        a == b <==> a@ == b@,
{
}

/// Two instants are the same value exactly when they are equally far from
/// the epoch.
pub proof fn lemma_timestamp_view_injective(a: Timestamp, b: Timestamp)
    requires
        a.normalized(),
        b.normalized(),
    ensures
        a == b <==> a@ == b@,
{
}

} // verus!
