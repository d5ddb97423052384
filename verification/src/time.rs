//! Instants in UTC, as seconds and nanoseconds since the Unix epoch, within
//! the calendar range of the `chrono` crate.
use vstd::prelude::*;

verus! {

/// Seconds since the epoch of the first instant of the calendar
/// (January 1st of year -262143, 00:00:00 UTC).
pub const EARLIEST_SECS: i64 = -8334601228800i64;

/// Seconds since the epoch of the last second of the calendar
/// (December 31st of year 262142, 23:59:59 UTC).
pub const LATEST_SECS: i64 = 8210266876799i64;

/// Largest magnitude, in seconds, of a time span.
pub const MAX_SPAN_SECS: i64 = 9223372036854775i64;

/// A second count and a nanosecond count that name an instant of the calendar.
pub open spec fn in_calendar(secs: int, nanos: int) -> bool {
    EARLIEST_SECS <= secs <= LATEST_SECS && 0 <= nanos < 1_000_000_000
}

/// A whole number of minutes that makes a valid time span.
pub open spec fn minutes_span_ok(minutes: int) -> bool {
    -MAX_SPAN_SECS <= minutes * 60 <= MAX_SPAN_SECS
}

/// `t` is an instant that the system clock gave: only `Timestamp::now`
/// hands one out, so an instant counts as one only where it was read from
/// the clock. What is known of every reading is in
/// `lemma_clock_reading`: an instant of the calendar, not before the epoch.
#[verifier::opaque]
pub closed spec fn is_clock_reading(t: (int, int)) -> bool {
    t.0 >= 0 && in_calendar(t.0, t.1)
}

/// A reading of the clock is an instant of the calendar, not before the
/// epoch.
pub proof fn lemma_clock_reading(t: (int, int))
    requires
        is_clock_reading(t),
    ensures
        t.0 >= 0,
        in_calendar(t.0, t.1),
{
    reveal(is_clock_reading);
}

/// An instant in UTC.
#[derive(Debug, Clone, Copy)]
pub struct Timestamp {
    secs: i64,
    nanos: u32,
}

impl View for Timestamp {
    /// Seconds and nanoseconds since the epoch.
    type V = (int, int);

    closed spec fn view(&self) -> (int, int) {
        (self.secs as int, self.nanos as int)
    }
}

/// `a` comes strictly after `b`.
pub open spec fn is_later(a: (int, int), b: (int, int)) -> bool {
    a.0 > b.0 || (a.0 == b.0 && a.1 > b.1)
}

/// The instant `minutes` minutes after `t`.
pub open spec fn add_minutes(t: (int, int), minutes: int) -> (int, int) {
    (t.0 + 60 * minutes, t.1)
}

impl Timestamp {
    #[verifier::type_invariant]
    spec fn inv(self) -> bool {
        in_calendar(self.secs as int, self.nanos as int)
    }

    /// The instant `secs` seconds and `nanos` nanoseconds after the epoch,
    /// where that is an instant of the calendar.
    pub fn from_parts(secs: i64, nanos: u32) -> (r: Option<Timestamp>)
        ensures
            r is Some <==> in_calendar(secs as int, nanos as int),
            r matches Some(t) ==> t@ == (secs as int, nanos as int),
    {
        if EARLIEST_SECS <= secs && secs <= LATEST_SECS && nanos < 1_000_000_000 {
            Some(Timestamp { secs, nanos })
        } else {
            None
        }
    }

    /// Whole seconds since the epoch.
    pub fn secs(&self) -> (r: i64)
        ensures
            r == self@.0,
    {
        self.secs
    }

    /// Nanoseconds past the whole second.
    pub fn nanos(&self) -> (r: u32)
        ensures
            r == self@.1,
    {
        self.nanos
    }

    /// A copy of this instant.
    pub fn copy(&self) -> (r: Timestamp)
        ensures
            r@ == self@,
    {
        proof {
            use_type_invariant(self);
        }
        Timestamp { secs: self.secs, nanos: self.nanos }
    }

    /// Whether this instant comes strictly after `other`.
    pub fn is_after(&self, other: &Timestamp) -> (r: bool)
        ensures
            r == is_later(self@, other@),
    {
        self.secs > other.secs || (self.secs == other.secs && self.nanos > other.nanos)
    }

    /// The instant `minutes` minutes later (earlier where `minutes` is
    /// negative), or `None` where that falls outside the calendar.
    pub fn plus_minutes(&self, minutes: i64) -> (r: Option<Timestamp>)
        requires
            minutes_span_ok(minutes as int),
        ensures
            r is Some <==> in_calendar(add_minutes(self@, minutes as int).0, self@.1),
            r matches Some(t) ==> t@ == add_minutes(self@, minutes as int),
            r matches Some(t) ==> t@.0 == self@.0 + 60 * minutes && t@.1 == self@.1,
            r is Some <==> EARLIEST_SECS <= self@.0 + 60 * minutes <= LATEST_SECS,
    {
        proof {
            use_type_invariant(self);
        }
        let span: i64 = minutes * 60;
        let secs: i64 = self.secs + span;
        if EARLIEST_SECS <= secs && secs <= LATEST_SECS {
            Some(Timestamp { secs, nanos: self.nanos })
        } else {
            None
        }
    }

    /// The current instant, by the system clock: an instant of the
    /// calendar, not before the Unix epoch, with nanoseconds below one
    /// second. Which instant depends on the clock.
    pub fn now() -> (r: Timestamp)
        ensures
            is_clock_reading(r@),
            r@.0 >= 0,
            in_calendar(r@.0, r@.1),
    {
        let (secs, nanos) = utc_now();
        Timestamp { secs, nanos }
    }

    /// The instant written as RFC 3339 text, such as
    /// `2024-05-01T12:00:00.5+00:00`.
    pub fn to_rfc3339(&self) -> (r: String)
        ensures
            r@ == rfc3339(self@.0 as i64, self@.1 as u32),
    {
        proof {
            use_type_invariant(self);
        }
        rfc3339_text(self.secs, self.nanos)
    }
}

/// `chrono::Utc::now()`, taken apart into whole seconds and nanoseconds since
/// the epoch: an instant of the calendar, not before the epoch (`chrono`
/// panics where the system clock reads earlier; the clock's seconds since the
/// epoch fit in an `i64`), with nanoseconds below one second (the clock gives
/// no leap second); a reading of the clock. Which instant is not stated.
#[verifier::external_body]
fn utc_now() -> (r: (i64, u32))
    ensures
        is_clock_reading((r.0 as int, r.1 as int)),
        0 <= r.0,
        in_calendar(r.0 as int, r.1 as int),
{
    let now = chrono::Utc::now();
    (now.timestamp(), now.timestamp_subsec_nanos())
}

/// The RFC 3339 text that `chrono` writes for the UTC instant `secs` seconds
/// and `nanos` nanoseconds after the epoch.
pub uninterp spec fn rfc3339(secs: i64, nanos: u32) -> Seq<char>;

/// `chrono::DateTime::<Utc>::from_timestamp(secs, nanos)` followed by
/// `to_rfc3339`: the text that `rfc3339` names. `from_timestamp` gives an
/// instant for every pair of the calendar, which `requires` asks for.
#[verifier::external_body]
fn rfc3339_text(secs: i64, nanos: u32) -> (r: String)
    requires
        in_calendar(secs as int, nanos as int),
    ensures
        r@ == rfc3339(secs, nanos),
{
    chrono::DateTime::<chrono::Utc>::from_timestamp(secs, nanos).unwrap().to_rfc3339()
}

/// Adding minutes moves an instant by sixty seconds for each minute, later
/// for a positive count and earlier for a negative one, and keeps its
/// nanoseconds; adding none leaves it where it was, and adding in two steps
/// is adding the sum.
pub proof fn law_add_minutes(t: (int, int), a: int, b: int)
    ensures
        add_minutes(t, a) == (t.0 + 60 * a, t.1),
        add_minutes(t, 0) == t,
        a > 0 ==> is_later(add_minutes(t, a), t),
        a < 0 ==> is_later(t, add_minutes(t, a)),
        add_minutes(add_minutes(t, a), b) == add_minutes(t, a + b),
{
}

} // verus!
