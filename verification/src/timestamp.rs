//! Instants on the UTC time line, as plain integers.

use vstd::prelude::*;

verus! {

/// An instant: whole seconds since the Unix epoch and the nanoseconds past
/// that second.
///
/// The instant lies `seconds * 1_000_000_000 + nanos` nanoseconds after the
/// epoch, whatever `nanos` holds: 1_000_000_000 nanoseconds or more carry
/// over into the next second. chrono writes a leap second as such large
/// nanoseconds and counts it as a second of its own when it subtracts; here
/// it is not: the time line has no leap seconds.
#[derive(Debug, Clone, Copy, PartialEq, Eq, Structural)]
pub struct Timestamp {
    /// Whole seconds since 1970-01-01 00:00:00 UTC; negative before it.
    pub seconds: i64,
    /// Nanoseconds on top of the seconds.
    pub nanos: u32,
}

/// The nanoseconds from `earlier` to `later`; negative when `later` comes
/// first. Each instant counts as its seconds plus its nanoseconds, so
/// nanoseconds of 1_000_000_000 or more count as what they are.
pub open spec fn nanos_between(earlier: Timestamp, later: Timestamp) -> int {
    (later.seconds - earlier.seconds) * 1_000_000_000 + (later.nanos - earlier.nanos)
}

/// The whole seconds from `earlier` to `later`, rounded toward zero. For
/// nanoseconds below 1_000_000_000 this is what chrono gives for the
/// difference of the two instants in whole seconds; for larger ones see
/// `Timestamp`.
pub open spec fn seconds_between(earlier: Timestamp, later: Timestamp) -> int {
    let nanos = nanos_between(earlier, later);
    if nanos >= 0 {
        nanos / 1_000_000_000
    } else {
        -((-nanos) / 1_000_000_000)
    }
}

/// Nanoseconds of 1_000_000_000 or more carry over: the instant is the same
/// as the one a second later with 1_000_000_000 nanoseconds fewer, and so
/// is every difference taken from it or to it.
pub proof fn lemma_large_nanos_carry_over(instant: Timestamp, other: Timestamp)
    requires
        instant.nanos >= 1_000_000_000,
        instant.seconds < i64::MAX,
    ensures
        ({
            let carried = Timestamp {
                seconds: (instant.seconds + 1) as i64,
                nanos: (instant.nanos - 1_000_000_000) as u32,
            };
            &&& nanos_between(instant, other) == nanos_between(carried, other)
            &&& nanos_between(other, instant) == nanos_between(other, carried)
            &&& seconds_between(instant, other) == seconds_between(carried, other)
            &&& seconds_between(other, instant) == seconds_between(other, carried)
        }),
{
}

/// Reads the system clock with `std::time::SystemTime::now`, makes a
/// `chrono::DateTime<Utc>` of it with chrono's `From<SystemTime>`, and takes
/// the instant apart with `DateTime::timestamp` and
/// `DateTime::timestamp_subsec_nanos`.
///
/// Trusted, and nothing is claimed of the result: it is whatever the clock
/// says.
#[verifier::external_body]
pub(crate) fn current_time() -> Timestamp {
    let now: chrono::DateTime<chrono::Utc> = chrono::DateTime::from(std::time::SystemTime::now());
    Timestamp { seconds: now.timestamp(), nanos: now.timestamp_subsec_nanos() }
}

impl Timestamp {
    /// The whole seconds that passed from `earlier` to `self`, rounded toward
    /// zero; negative when `self` is the earlier instant. Nanoseconds of
    /// 1_000_000_000 or more carry over into the seconds.
    pub fn seconds_since(&self, earlier: &Timestamp) -> (elapsed: i128)
        ensures
            elapsed == seconds_between(*earlier, *self),
    {
        let whole: i128 = self.seconds as i128 - earlier.seconds as i128;
        let part: i128 = self.nanos as i128 - earlier.nanos as i128;
        assert(-0x1_0000_0000_0000_0000 * 1_000_000_000 <= whole * 1_000_000_000
            <= 0x1_0000_0000_0000_0000 * 1_000_000_000) by (nonlinear_arith)
            requires
                -0x1_0000_0000_0000_0000 <= whole <= 0x1_0000_0000_0000_0000,
        ;
        let nanos: i128 = whole * 1_000_000_000 + part;
        if nanos >= 0 {
            nanos / 1_000_000_000
        } else {
            -((-nanos) / 1_000_000_000)
        }
    }
}

} // verus!
