//! Instants on the UTC time line, and what the `chrono` crate computes of them.

use vstd::prelude::*;
use chrono::{DateTime, FixedOffset, Local, SecondsFormat, Utc};

verus! {

/// Nanoseconds in a second.
pub const NANOS_PER_SECOND: i128 = 1_000_000_000;

/// Seconds in a day.
pub const SECONDS_PER_DAY: i64 = 86_400;

/// The first second of the calendar that `chrono` covers, -262143-01-01.
pub const MIN_SECONDS: i64 = -8_334_601_228_800;

/// The last second of the calendar that `chrono` covers, +262142-12-31.
pub const MAX_SECONDS: i64 = 8_210_266_876_799;

/// Whether `seconds` since 1970-01-01 and `nanos` within the second denote an
/// instant.  `nanos` above a full second denote a leap second, which only
/// the last second of a minute can carry.
pub open spec fn valid_instant(seconds: int, nanos: int) -> bool {
    &&& MIN_SECONDS <= seconds <= MAX_SECONDS
    &&& 0 <= nanos < 2 * NANOS_PER_SECOND
    &&& nanos >= NANOS_PER_SECOND ==> seconds % 60 == 59
}

/// An instant in UTC.
#[derive(Clone, Copy, Debug, PartialEq, Eq, Structural)]
pub struct Timestamp {
    seconds: i64,
    nanos: u32,
}

/// The model of an instant: the seconds since 1970-01-01 and the nanoseconds
/// within the second.
pub struct Instant {
    pub seconds: int,
    pub nanos: int,
}

impl View for Timestamp {
    type V = Instant;

    closed spec fn view(&self) -> Instant {
        Instant { seconds: self.seconds as int, nanos: self.nanos as int }
    }
}

/// The second within its day that an instant falls in.
pub open spec fn second_of_day(t: Instant) -> int {
    t.seconds % (SECONDS_PER_DAY as int)
}

/// The seconds by which a leap second corrects the time from `earlier` to
/// `later`.  Only the times of day are compared, as if both were of one day:
/// the leap second of the one that comes first in the day is counted in full.
pub open spec fn leap_correction(later: Instant, earlier: Instant) -> int {
    if second_of_day(later) > second_of_day(earlier) && !ordinary(earlier) {
        1
    } else if second_of_day(later) < second_of_day(earlier) && !ordinary(later) {
        -1
    } else {
        0
    }
}

/// The nanoseconds from `earlier` to `later`.
pub open spec fn elapsed(later: Instant, earlier: Instant) -> int {
    (later.seconds - earlier.seconds + leap_correction(later, earlier)) * NANOS_PER_SECOND
        + later.nanos - earlier.nanos
}

/// Whether an instant is no leap second.
pub open spec fn ordinary(t: Instant) -> bool {
    t.nanos < NANOS_PER_SECOND
}

/// The whole seconds in a number of nanoseconds, rounded toward zero.
pub open spec fn whole_seconds(nanos: int) -> int {
    if nanos < 0 {
        -((-nanos) / NANOS_PER_SECOND as int)
    } else {
        nanos / NANOS_PER_SECOND as int
    }
}

/// The whole days in a number of seconds, rounded toward zero.
pub open spec fn whole_days(seconds: int) -> int {
    if seconds < 0 {
        -((-seconds) / SECONDS_PER_DAY as int)
    } else {
        seconds / SECONDS_PER_DAY as int
    }
}

/// The instant that `chrono` reads from an RFC 3339 text.
pub uninterp spec fn rfc3339_instant(text: Seq<char>) -> Option<(i64, u32)>;

/// The instant at an offset from UTC, as `%Y-%m-%d %H:%M %:z`.
pub uninterp spec fn minute_text(seconds: int, offset: int) -> Seq<char>;

/// The instant in UTC, as `chrono` displays it.
pub uninterp spec fn utc_text(seconds: int, nanos: int) -> Seq<char>;

/// The instant in RFC 3339 form, to the second and with a `Z`.
pub uninterp spec fn rfc3339_text(seconds: int, nanos: int) -> Seq<char>;

/// Whether `offset` is a number of seconds by which a zone can be off UTC.
pub open spec fn valid_offset(offset: int) -> bool {
    -SECONDS_PER_DAY < offset < SECONDS_PER_DAY
}

/// The difference of two `chrono::DateTime<Utc>`: `num_seconds()` and
/// `subsec_nanos()` of the `TimeDelta`.  The two together are the nanoseconds
/// between the instants, and their signs agree.  `chrono` adds the difference
/// of the dates and that of the times of day, and counts a leap second in the
/// latter alone.
#[verifier::external_body]
fn chrono_difference(
    later_seconds: i64,
    later_nanos: u32,
    earlier_seconds: i64,
    earlier_nanos: u32,
) -> (r: (i64, i32))
    requires
        valid_instant(later_seconds as int, later_nanos as int),
        valid_instant(earlier_seconds as int, earlier_nanos as int),
    ensures
        r.0 * NANOS_PER_SECOND + r.1 == elapsed(
            (Instant { seconds: later_seconds as int, nanos: later_nanos as int }),
            (Instant { seconds: earlier_seconds as int, nanos: earlier_nanos as int }),
        ),
        -NANOS_PER_SECOND < r.1 < NANOS_PER_SECOND,
        r.0 > 0 ==> r.1 >= 0,
        r.0 < 0 ==> r.1 <= 0,
{
    let later = DateTime::<Utc>::from_timestamp(later_seconds, later_nanos).unwrap();
    let earlier = DateTime::<Utc>::from_timestamp(earlier_seconds, earlier_nanos).unwrap();
    let delta = later - earlier;
    (delta.num_seconds(), delta.subsec_nanos())
}

/// `DateTime::parse_from_rfc3339`, taken to UTC: `timestamp()` and
/// `timestamp_subsec_nanos()` of what it reads, or nothing where it fails.
#[verifier::external_body]
fn chrono_parse_rfc3339(s: &str) -> (r: Option<(i64, u32)>)
    ensures
        r == rfc3339_instant(s@),
        r matches Some((seconds, nanos)) ==> valid_instant(seconds as int, nanos as int),
{
    let t = DateTime::parse_from_rfc3339(s).ok()?.with_timezone(&Utc);
    Some((t.timestamp(), t.timestamp_subsec_nanos()))
}

/// `DateTime::format` with `%Y-%m-%d %H:%M %:z`, in the zone at `offset`
/// seconds east of UTC.
#[verifier::external_body]
fn chrono_format_minute(seconds: i64, offset: i32) -> (r: String)
    requires
        valid_instant(seconds as int, 0),
        valid_offset(offset as int),
    ensures
        r@ == minute_text(seconds as int, offset as int),
{
    let zone = FixedOffset::east_opt(offset).unwrap();
    let t = DateTime::<Utc>::from_timestamp(seconds, 0).unwrap().with_timezone(&zone);
    t.format("%Y-%m-%d %H:%M %:z").to_string()
}

/// The offset from UTC, in seconds, that `chrono::Local` has at an instant.
/// It depends on the machine; any offset is less than a day either way.  Where
/// the time-zone data of the machine (`TZ`, `/etc/localtime` or the zone files)
/// give the instant no offset, or one of a day or more, `chrono` panics.  No
/// zone in use does; that is a condition on the machine, not on the arguments.
#[verifier::external_body]
fn chrono_local_offset(seconds: i64) -> (r: i32)
    requires
        valid_instant(seconds as int, 0),
    ensures
        valid_offset(r as int),
{
    let t = DateTime::<Utc>::from_timestamp(seconds, 0).unwrap().with_timezone(&Local);
    t.offset().local_minus_utc()
}

/// `Display` of a `chrono::DateTime<Utc>`.
#[verifier::external_body]
fn chrono_display(seconds: i64, nanos: u32) -> (r: String)
    requires
        valid_instant(seconds as int, nanos as int),
    ensures
        r@ == utc_text(seconds as int, nanos as int),
{
    DateTime::<Utc>::from_timestamp(seconds, nanos).unwrap().to_string()
}

/// `DateTime::to_rfc3339_opts` with `SecondsFormat::Secs` and a `Z`.
#[verifier::external_body]
fn chrono_rfc3339(seconds: i64, nanos: u32) -> (r: String)
    requires
        valid_instant(seconds as int, nanos as int),
    ensures
        r@ == rfc3339_text(seconds as int, nanos as int),
{
    let t = DateTime::<Utc>::from_timestamp(seconds, nanos).unwrap();
    t.to_rfc3339_opts(SecondsFormat::Secs, true)
}

impl Timestamp {
    #[verifier::type_invariant]
    spec fn valid(self) -> bool {
        valid_instant(self.seconds as int, self.nanos as int)
    }

    /// The instant `seconds` after 1970-01-01 and `nanos` into that second,
    /// where there is such an instant.
    pub fn new(seconds: i64, nanos: u32) -> (r: Option<Timestamp>)
        ensures
            r is Some <==> valid_instant(seconds as int, nanos as int),
            r matches Some(t) ==> t@ == (Instant { seconds: seconds as int, nanos: nanos as int }),
    {
        if MIN_SECONDS <= seconds && seconds <= MAX_SECONDS && (nanos < 1_000_000_000 || (nanos
            < 2_000_000_000 && (seconds - MIN_SECONDS) % 60 == 59)) {
            Some(Timestamp { seconds, nanos })
        } else {
            None
        }
    }

    /// The first instant of the calendar.
    pub fn min() -> (t: Timestamp)
        ensures
            t@ == (Instant { seconds: MIN_SECONDS as int, nanos: 0 }),
    {
        Timestamp { seconds: MIN_SECONDS, nanos: 0 }
    }

    /// The seconds since 1970-01-01.
    pub fn seconds(&self) -> (s: i64)
        ensures
            s == self@.seconds,
            valid_instant(self@.seconds, self@.nanos),
    {
        proof {
            use_type_invariant(self);
        }
        self.seconds
    }

    /// The nanoseconds within the second.
    pub fn nanos(&self) -> (n: u32)
        ensures
            n == self@.nanos,
            valid_instant(self@.seconds, self@.nanos),
    {
        proof {
            use_type_invariant(self);
        }
        self.nanos
    }

    /// The instant that an RFC 3339 text denotes, where it denotes one.
    pub fn parse_rfc3339(s: &str) -> (r: Option<Timestamp>)
        ensures
            match rfc3339_instant(s@) {
                Some((seconds, nanos)) => r matches Some(t) && t@ == (Instant {
                    seconds: seconds as int,
                    nanos: nanos as int,
                }),
                None => r is None,
            },
    {
        match chrono_parse_rfc3339(s) {
            Some((seconds, nanos)) => Some(Timestamp { seconds, nanos }),
            None => None,
        }
    }

    /// The nanoseconds from `earlier` to this instant.
    pub fn nanos_since(&self, earlier: &Timestamp) -> (n: i128)
        ensures
            n == elapsed(self@, earlier@),
            ordinary(self@) && ordinary(earlier@) ==> n == (self@.seconds - earlier@.seconds)
                * NANOS_PER_SECOND + self@.nanos - earlier@.nanos,
    {
        proof {
            use_type_invariant(self);
            use_type_invariant(earlier);
        }
        let (s, n): (i64, i32) = chrono_difference(
            self.seconds,
            self.nanos,
            earlier.seconds,
            earlier.nanos,
        );
        s as i128 * NANOS_PER_SECOND + n as i128
    }

    /// The whole seconds from `earlier` to this instant.
    pub fn seconds_since(&self, earlier: &Timestamp) -> (s: i64)
        ensures
            s == whole_seconds(elapsed(self@, earlier@)),
            -20_000_000_000_000 <= s <= 20_000_000_000_000,
    {
        proof {
            use_type_invariant(self);
            use_type_invariant(earlier);
        }
        let (s, _): (i64, i32) = chrono_difference(
            self.seconds,
            self.nanos,
            earlier.seconds,
            earlier.nanos,
        );
        s
    }

    /// The whole days from `earlier` to this instant.
    pub fn days_since(&self, earlier: &Timestamp) -> (d: i64)
        ensures
            d == whole_days(whole_seconds(elapsed(self@, earlier@))),
    {
        let s: i64 = self.seconds_since(earlier);
        if s < 0 {
            -((-s) / SECONDS_PER_DAY)
        } else {
            s / SECONDS_PER_DAY
        }
    }

    /// The instant in the zone at `offset` seconds east of UTC, to the minute.
    pub fn to_minute_text(&self, offset: i32) -> (r: String)
        requires
            valid_offset(offset as int),
        ensures
            r@ == minute_text(self@.seconds, offset as int),
    {
        proof {
            use_type_invariant(self);
        }
        chrono_format_minute(self.seconds, offset)
    }

    /// The seconds by which the machine's zone is east of UTC at this instant.
    pub fn local_offset(&self) -> (r: i32)
        ensures
            valid_offset(r as int),
    {
        proof {
            use_type_invariant(self);
        }
        chrono_local_offset(self.seconds)
    }

    /// The instant in UTC, for a reader.
    pub fn to_utc_text(&self) -> (r: String)
        ensures
            r@ == utc_text(self@.seconds, self@.nanos),
    {
        proof {
            use_type_invariant(self);
        }
        chrono_display(self.seconds, self.nanos)
    }

    /// The instant in RFC 3339 form, to the second.
    pub fn to_rfc3339(&self) -> (r: String)
        ensures
            r@ == rfc3339_text(self@.seconds, self@.nanos),
    {
        proof {
            use_type_invariant(self);
        }
        chrono_rfc3339(self.seconds, self.nanos)
    }
}

/// Whole seconds and whole days are full ones: what is left over is less than
/// one, and times back count like times ahead.
pub proof fn law_whole_units_are_full(n: int)
    ensures
        n >= 0 ==> whole_seconds(n) * 1_000_000_000 <= n < (whole_seconds(n) + 1) * 1_000_000_000,
        whole_seconds(-n) == -whole_seconds(n),
        n >= 0 ==> whole_days(n) * 86_400 <= n < (whole_days(n) + 1) * 86_400,
        whole_days(-n) == -whole_days(n),
{
}

/// The time from one instant to another is the opposite of the time back.
/// Unless a leap second is involved, it is the difference of the clocks, and
/// times add up; within a second it is the difference of the nanoseconds.
pub proof fn law_elapsed_times(a: Instant, b: Instant, c: Instant)
    ensures
        elapsed(a, b) == -elapsed(b, a),
        a.nanos < 1_000_000_000 && b.nanos < 1_000_000_000 ==> elapsed(a, b) == (a.seconds
            * 1_000_000_000 + a.nanos) - (b.seconds * 1_000_000_000 + b.nanos),
        a.nanos < 1_000_000_000 && b.nanos < 1_000_000_000 && c.nanos < 1_000_000_000 ==> elapsed(
            a,
            b,
        ) + elapsed(b, c) == elapsed(a, c),
        a.seconds == b.seconds ==> elapsed(a, b) == a.nanos - b.nanos,
{
}

/// A leap second is counted: the time from within it to the start of the next
/// second is what is left of it.  (One that ends the day is not.)
pub proof fn law_leap_seconds_are_counted(leap: Instant, next: Instant)
    requires
        1_000_000_000 <= leap.nanos < 2_000_000_000,
        next.nanos == 0,
        next.seconds == leap.seconds + 1,
        leap.seconds % 86_400 != 86_399,
    ensures
        elapsed(next, leap) == 2_000_000_000 - leap.nanos,
        elapsed(next, (Instant { seconds: leap.seconds, nanos: 0 })) == 1_000_000_000,
{
    assert(next.seconds % 86_400 == leap.seconds % 86_400 + 1);
}

/// Any second of the calendar has its nanoseconds; only the last second of a
/// minute can be a leap second.
pub proof fn law_instants(seconds: int, nanos: int)
    ensures
        -8_334_601_228_800 <= seconds <= 8_210_266_876_799 && 0 <= nanos < 1_000_000_000
            ==> valid_instant(seconds, nanos),
        valid_instant(seconds, nanos) && nanos >= 1_000_000_000 ==> seconds % 60 == 59 && nanos
            < 2_000_000_000,
        valid_instant(seconds, nanos) ==> -8_334_601_228_800 <= seconds <= 8_210_266_876_799 && 0
            <= nanos,
{
}

} // verus!
