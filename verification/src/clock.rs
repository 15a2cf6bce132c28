//! Points in time, and the retention threshold measured between them.

use vstd::prelude::*;

verus! {

/// Nanoseconds in one second.
pub const NANOS_PER_SEC: u32 = 1_000_000_000;

/// The earliest second a [`Timestamp`] can name: the first second of the
/// year -262143, counted from the Unix epoch.
pub const MIN_SECS: i64 = -8_334_601_228_800;

/// The latest second a [`Timestamp`] can name: the last second of the year
/// 262142, counted from the Unix epoch.
pub const MAX_SECS: i64 = 8_210_266_876_799;

/// How long a message may stay visible: thirty minutes, in seconds.
pub const MAX_MESSAGE_AGE_SECS: u64 = 1_800;

/// How long a message may stay visible: thirty minutes, in nanoseconds.
pub const MAX_MESSAGE_AGE_NANOS: u128 = 1_800_000_000_000;

/// The longest time between two timestamps, in nanoseconds.
pub const WIDEST_GAP_NANOS: u128 = 16_544_868_105_599_999_999_999;

/// Whether `secs` whole seconds and `nanos` further nanoseconds since the Unix
/// epoch name a point in time that a [`Timestamp`] can hold.
pub open spec fn representable(secs: int, nanos: int) -> bool {
    &&& MIN_SECS <= secs <= MAX_SECS
    &&& 0 <= nanos < NANOS_PER_SEC
}

/// The nanoseconds since the Unix epoch of the point in time that lies `nanos`
/// nanoseconds after the whole second `secs`.
pub open spec fn instant_of(secs: int, nanos: int) -> int {
    secs * NANOS_PER_SEC + nanos
}

/// A point in time on the UTC time line, to the nanosecond, without leap
/// seconds. Its view is the number of nanoseconds since the Unix epoch.
#[derive(Clone, Copy, Debug, PartialEq, Eq)]
pub struct Timestamp {
    secs: i64,
    nanos: u32,
}

impl View for Timestamp {
    type V = int;

    closed spec fn view(&self) -> int {
        instant_of(self.secs as int, self.nanos as int)
    }
}

impl Timestamp {
    #[verifier::type_invariant]
    spec fn in_range(self) -> bool {
        representable(self.secs as int, self.nanos as int)
    }

    /// The point in time `nanos` nanoseconds after the whole second `secs`
    /// of the Unix time line, if a timestamp can hold it.
    pub fn new(secs: i64, nanos: u32) -> (made: Option<Timestamp>)
        ensures
            made is Some <==> representable(secs as int, nanos as int),
            made is Some ==> made->0@ == instant_of(secs as int, nanos as int),
    {
        if MIN_SECS <= secs && secs <= MAX_SECS && nanos < NANOS_PER_SEC {
            Some(Timestamp { secs, nanos })
        } else {
            None
        }
    }

    /// The whole seconds since the Unix epoch, rounded towards the past.
    pub fn secs(&self) -> (secs: i64)
        ensures
            MIN_SECS <= secs <= MAX_SECS,
            secs * NANOS_PER_SEC <= self@ < (secs + 1) * NANOS_PER_SEC,
    {
        proof {
            use_type_invariant(self);
        }
        self.secs
    }

    /// The nanoseconds since the last whole second.
    pub fn subsec_nanos(&self) -> (nanos: u32)
        ensures
            nanos < NANOS_PER_SEC,
            nanos == self@ % (NANOS_PER_SEC as int),
    {
        proof {
            use_type_invariant(self);
            vstd::arithmetic::div_mod::lemma_fundamental_div_mod_converse(
                self@,
                NANOS_PER_SEC as int,
                self.secs as int,
                self.nanos as int,
            );
        }
        self.nanos
    }

    /// The time from `earlier` to `self` in nanoseconds; `None` where
    /// `earlier` lies after `self`.
    pub fn elapsed_since(&self, earlier: &Timestamp) -> (gap: Option<u128>)
        ensures
            gap is None <==> self@ < earlier@,
            gap is Some ==> gap->0 == self@ - earlier@,
            self@ - earlier@ <= WIDEST_GAP_NANOS,
    {
        proof {
            use_type_invariant(self);
            use_type_invariant(earlier);
        }
        signed_gap(self, earlier)
    }
}

/// Measures the time between two timestamps with chrono: both are rebuilt by
/// `DateTime::from_timestamp`, subtracted by `DateTime::signed_duration_since`,
/// and the difference is turned into an unsigned duration by
/// `TimeDelta::to_std`, which fails exactly on a negative difference.
///
/// Trusted: that for two timestamps in chrono's range, neither inside a leap
/// second, the difference is the exact number of nanoseconds between them.
#[verifier::external_body]
fn signed_gap(later: &Timestamp, earlier: &Timestamp) -> (gap: Option<u128>)
    requires
        later.in_range(),
        earlier.in_range(),
    ensures
        gap is None <==> later@ < earlier@,
        gap is Some ==> gap->0 == later@ - earlier@,
{
    let end = chrono::DateTime::from_timestamp(later.secs, later.nanos).unwrap();
    let start = chrono::DateTime::from_timestamp(earlier.secs, earlier.nanos).unwrap();
    match end.signed_duration_since(start).to_std() {
        Ok(span) => Some(span.as_nanos()),
        Err(_) => None,
    }
}

} // verus!
