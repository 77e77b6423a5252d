use vstd::prelude::*;

use chrono::{DateTime, Utc};

verus! {

/// The first second that chrono represents: 1 January of year -262143, 00:00:00 UTC.
pub open spec fn chrono_min_secs() -> int {
    -8_334_601_228_800
}

/// The last second that chrono represents: 31 December of year 262142, 23:59:59 UTC.
pub open spec fn chrono_max_secs() -> int {
    8_210_266_876_799
}

/// Whether `chrono::DateTime::<Utc>::from_timestamp(secs, nanos)` gives a date-time: the
/// second lies between chrono's first and last dates, and the nanoseconds are under a second,
/// or under two seconds in the 59th second of a minute (a leap second).
pub open spec fn chrono_accepts(secs: i64, nanos: u32) -> bool {
    &&& chrono_min_secs() <= secs <= chrono_max_secs()
    &&& (nanos < 1_000_000_000 || (nanos < 2_000_000_000 && secs % 60 == 59))
}

/// `DateTime::<Utc>::from_timestamp(secs, nanos).is_some()`: whether chrono represents the
/// instant. chrono turns `secs` into a day number, which `NaiveDate` accepts from its MIN to its
/// MAX date, and a second of the day, which `NaiveTime` accepts with the nanoseconds by the
/// leap-second rule; `chrono_accepts` states the outcome.
#[verifier::external_body]
fn chrono_from_timestamp_is_some(secs: i64, nanos: u32) -> (r: bool)
    ensures
        r == chrono_accepts(secs, nanos),
{
    DateTime::<Utc>::from_timestamp(secs, nanos).is_some()
}

/// An instant in UTC: whole seconds since the Unix epoch and the nanoseconds past them.
/// Every value is one that chrono represents, outside a leap second.
#[derive(Debug, Clone, Copy, PartialEq, Eq)]
pub struct Timestamp {
    secs: i64,
    nanos: u32,
}

/// Nanoseconds in a day.
pub open spec fn nanos_per_day() -> int {
    86_400_000_000_000
}

/// Division rounded toward zero.
pub open spec fn div_toward_zero(a: int, b: int) -> int {
    if a >= 0 {
        a / b
    } else {
        -((-a) / b)
    }
}

impl Timestamp {
    #[verifier::type_invariant]
    spec fn inv(self) -> bool {
        self.nanos < 1_000_000_000 && chrono_accepts(self.secs, self.nanos)
    }

    /// Seconds since the Unix epoch.
    pub closed spec fn secs_of(self) -> i64 {
        self.secs
    }

    /// Nanoseconds past `secs_of`.
    pub closed spec fn nanos_of(self) -> u32 {
        self.nanos
    }

    /// The instant in nanoseconds since the Unix epoch.
    pub open spec fn epoch_nanos(self) -> int {
        self.secs_of() * 1_000_000_000 + self.nanos_of()
    }

    /// Whole days from `earlier` to `self`, rounded toward zero, as chrono's
    /// `(self - earlier).num_days()` counts them.
    pub open spec fn days_since(self, earlier: Timestamp) -> int {
        div_toward_zero(self.epoch_nanos() - earlier.epoch_nanos(), nanos_per_day())
    }

    /// The instant `secs` seconds and `nanos` nanoseconds after the Unix epoch, when `nanos` is
    /// under a second and chrono represents it.
    pub fn new(secs: i64, nanos: u32) -> (r: Option<Timestamp>)
        ensures
            r is Some <==> (nanos < 1_000_000_000 && chrono_accepts(secs, nanos)),
            r matches Some(t) ==> t.secs_of() == secs && t.nanos_of() == nanos,
    {
        if nanos < 1_000_000_000 && chrono_from_timestamp_is_some(secs, nanos) {
            Some(Timestamp { secs, nanos })
        } else {
            None
        }
    }

    pub fn secs(&self) -> (r: i64)
        ensures
            r == self.secs_of(),
    {
        self.secs
    }

    pub fn nanos(&self) -> (r: u32)
        ensures
            r == self.nanos_of(),
    {
        self.nanos
    }

}

/// `Utc::now()`, read as seconds and nanoseconds. chrono builds it with
/// `DateTime::from_timestamp(secs, subsec_nanos).unwrap()` from the system clock, so the
/// nanoseconds are under a second and chrono accepts the instant: that is what every value
/// of `Timestamp` holds. Which instant comes back depends on the clock and is not stated;
/// chrono panics when the clock reads before 1970.
#[verifier::external_body]
pub(crate) fn now() -> (t: Timestamp) {
    let dt = Utc::now();
    Timestamp { secs: dt.timestamp(), nanos: dt.timestamp_subsec_nanos() }
}

/// `(later - earlier).num_days()` on the chrono date-times of two instants: whole days,
/// rounded toward zero, as `Timestamp::days_since` states.
#[verifier::external_body]
fn chrono_num_days(later: &Timestamp, earlier: &Timestamp) -> (r: i64)
    requires
        later.nanos_of() < 1_000_000_000,
        chrono_accepts(later.secs_of(), later.nanos_of()),
        earlier.nanos_of() < 1_000_000_000,
        chrono_accepts(earlier.secs_of(), earlier.nanos_of()),
    ensures
        r == later.days_since(*earlier),
{
    let a = DateTime::<Utc>::from_timestamp(later.secs, later.nanos).unwrap();
    let b = DateTime::<Utc>::from_timestamp(earlier.secs, earlier.nanos).unwrap();
    (a - b).num_days()
}

/// Whole days from `earlier` to `later`, rounded toward zero.
pub fn days_between(later: &Timestamp, earlier: &Timestamp) -> (r: i64)
    ensures
        r == later.days_since(*earlier),
{
    proof {
        use_type_invariant(later);
        use_type_invariant(earlier);
    }
    chrono_num_days(later, earlier)
}

} // verus!
