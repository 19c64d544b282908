//! Points in time and lengths of time.
//!
//! The protocol never reads a clock. The caller hands in an [`Instant`], which
//! counts nanoseconds from a start point that the caller picked; a length of
//! time is a plain `u64` of nanoseconds.

use vstd::prelude::*;

verus! {

/// One millisecond in nanoseconds.
pub const MILLISECOND: u64 = 1_000_000;

/// One second in nanoseconds.
pub const SECOND: u64 = 1_000_000_000;

/// A point in time: nanoseconds since a start point chosen by the caller.
#[derive(Debug, Clone, Copy, PartialEq, Eq, Structural)]
pub struct Instant {
    pub nanos: i64,
}

/// The length of time from `earlier` to `later`, both in nanoseconds: zero when
/// `earlier` is not the earlier one or the distance leaves the `i64` range.
pub open spec fn nanos_between(later: int, earlier: int) -> int {
    if 0 <= later - earlier <= i64::MAX {
        later - earlier
    } else {
        0
    }
}

/// Calls `sans_io_time::Instant`'s `+ Duration`. Claims that the sum is exact;
/// the outside operator panics when it does not fit in an `i64`, which the
/// precondition leaves out.
#[verifier::external_body]
fn add_nanos(instant: i64, length: u64) -> (sum: i64)
    requires
        instant + length <= i64::MAX,
        length <= i64::MAX,
    ensures
        sum == instant + length,
{
    (sans_io_time::Instant::from_nanos(instant) + core::time::Duration::from_nanos(length))
        .as_nanos()
}

/// Calls `sans_io_time::Instant::duration_since`. Claims that the result is the
/// distance when `earlier` lies before `later` by no more than `i64::MAX`
/// nanoseconds, and zero otherwise.
#[verifier::external_body]
fn nanos_since(later: i64, earlier: i64) -> (length: u64)
    ensures
        length == nanos_between(later as int, earlier as int),
{
    sans_io_time::Instant::from_nanos(later).duration_since(
        sans_io_time::Instant::from_nanos(earlier),
    ).as_nanos() as u64
}

impl Instant {
    /// The instant `nanos` nanoseconds after the start point.
    pub fn from_nanos(nanos: i64) -> (instant: Instant)
        ensures
            instant == (Instant { nanos }),
    {
        Instant { nanos }
    }

    /// The number of nanoseconds since the start point.
    pub fn as_nanos(&self) -> (nanos: i64)
        ensures
            nanos == self.nanos,
    {
        self.nanos
    }

    /// Whether a deadline `length` nanoseconds after this instant is still an
    /// instant.
    pub open spec fn can_add(self, length: int) -> bool {
        self.nanos + length <= i64::MAX
    }

    /// The instant `length` nanoseconds later.
    pub fn plus(self, length: u64) -> (later: Instant)
        requires
            length <= i64::MAX,
            self.can_add(length as int),
        ensures
            later.nanos == self.nanos + length,
    {
        Instant { nanos: add_nanos(self.nanos, length) }
    }

    /// How much later than `earlier` this instant is, or zero if it is not.
    pub fn since(self, earlier: Instant) -> (length: u64)
        ensures
            length == nanos_between(self.nanos as int, earlier.nanos as int),
    {
        nanos_since(self.nanos, earlier.nanos)
    }

    /// Whether this instant comes before `other`.
    pub fn is_before(self, other: Instant) -> (before: bool)
        ensures
            before == (self.nanos < other.nanos),
    {
        self.nanos < other.nanos
    }
}

/// The earlier of two optional deadlines.
pub open spec fn soonest_spec(a: Option<Instant>, b: Option<Instant>) -> Option<Instant> {
    match (a, b) {
        (Some(x), Some(y)) => if y.nanos < x.nanos {
            Some(y)
        } else {
            Some(x)
        },
        (Some(x), None) => Some(x),
        (None, other) => other,
    }
}

/// The earlier of two optional deadlines, or the only one there is.
pub fn soonest(a: Option<Instant>, b: Option<Instant>) -> (first: Option<Instant>)
    ensures
        first == soonest_spec(a, b),
{
    match (a, b) {
        (Some(x), Some(y)) => if y.is_before(x) {
            Some(y)
        } else {
            Some(x)
        },
        (Some(x), None) => Some(x),
        (None, other) => other,
    }
}

} // verus!
