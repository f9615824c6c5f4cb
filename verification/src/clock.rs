//! Points in time, counted from the beginning of 1970 in UTC.
use vstd::prelude::*;

verus! {

/// The first second that the calendar of `chrono` can name (in the year -262143).
pub const FIRST_SECOND: i64 = -8_334_601_228_800;

/// The last second that the calendar of `chrono` can name (in the year 262142).
pub const LAST_SECOND: i64 = 8_210_266_876_799;

/// A point in time: whole seconds, and the nanoseconds after them.
#[derive(Debug, Clone, Copy, PartialEq, Eq, Structural)]
pub struct Timestamp {
    pub secs: i64,
    pub nanos: u32,
}

impl Timestamp {
    /// The calendar can name this point in time.
    pub open spec fn in_calendar(self) -> bool {
        FIRST_SECOND <= self.secs <= LAST_SECOND && self.nanos < 1_000_000_000
    }

    /// This point in time is earlier than `other`.
    pub open spec fn earlier(self, other: Timestamp) -> bool {
        self.secs < other.secs || (self.secs == other.secs && self.nanos < other.nanos)
    }

    /// Whether this point in time is earlier than `other`.
    pub fn is_before(&self, other: &Timestamp) -> (b: bool)
        ensures
            b == self.earlier(*other),
    {
        self.secs < other.secs || (self.secs == other.secs && self.nanos < other.nanos)
    }
}

/// `chrono::Utc::now`: some point in time from 1970 on that the calendar can name.
#[verifier::external_body]
pub(crate) fn now() -> (t: Timestamp)
    ensures
        t.in_calendar(),
        t.secs >= 0,
{
    let t = chrono::Utc::now();
    Timestamp { secs: t.timestamp(), nanos: t.timestamp_subsec_nanos() }
}

/// The year and the month of a second of the calendar.
pub uninterp spec fn month_of(secs: i64) -> (i32, u32);

/// `chrono::DateTime::from_timestamp`, then `chrono::Datelike::year` and `month`: a second that
/// the calendar can name has a year and a month, which depend on the second alone, and the
/// month is one of twelve. No other second has them.
#[verifier::external_body]
pub(crate) fn year_and_month(secs: i64) -> (r: Option<(i32, u32)>)
    ensures
        match r {
            Some(ym) => FIRST_SECOND <= secs <= LAST_SECOND && ym == month_of(secs) && 1 <= ym.1
                <= 12,
            None => !(FIRST_SECOND <= secs <= LAST_SECOND),
        },
{
    chrono::DateTime::from_timestamp(secs, 0).map(
        |d| (chrono::Datelike::year(&d), chrono::Datelike::month(&d)),
    )
}

/// The RFC 3339 text of a point in time.
pub uninterp spec fn rfc3339_text(secs: i64, nanos: u32) -> Seq<char>;

/// `chrono::DateTime::to_rfc3339` of a point in time that the calendar can name: a text that
/// depends on that point in time alone.
#[verifier::external_body]
pub(crate) fn rfc3339(t: Timestamp) -> (text: String)
    requires
        t.in_calendar(),
    ensures
        text@ == rfc3339_text(t.secs, t.nanos),
{
    chrono::DateTime::from_timestamp(t.secs, t.nanos).map(|d| d.to_rfc3339()).unwrap_or_default()
}

/// The whole seconds from `now` to the second `target`, rounded toward zero.
pub open spec fn whole_seconds(target: int, now: Timestamp) -> int {
    if target > now.secs && now.nanos > 0 {
        target - now.secs - 1
    } else {
        target - now.secs
    }
}

/// The whole seconds from `now` to the second `target`, rounded toward zero.
pub fn seconds_until(target: i64, now: Timestamp) -> (secs: i64)
    requires
        i64::MIN <= target - now.secs <= i64::MAX,
    ensures
        secs == whole_seconds(target as int, now),
{
    let gap: i64 = target - now.secs;
    if gap > 0 && now.nanos > 0 {
        gap - 1
    } else {
        gap
    }
}

/// The point in time `secs` seconds after `t`, where the calendar can still name it.
pub open spec fn shifted(t: Timestamp, secs: int) -> Option<Timestamp> {
    if FIRST_SECOND <= t.secs + secs <= LAST_SECOND {
        Some(Timestamp { secs: (t.secs + secs) as i64, nanos: t.nanos })
    } else {
        None
    }
}

/// The point in time `secs` seconds after `t`, where the calendar can still name it.
pub fn shift(t: Timestamp, secs: i64) -> (r: Option<Timestamp>)
    ensures
        r == shifted(t, secs as int),
{
    match t.secs.checked_add(secs) {
        Some(sum) => if FIRST_SECOND <= sum && sum <= LAST_SECOND {
            Some(Timestamp { secs: sum, nanos: t.nanos })
        } else {
            None
        },
        None => None,
    }
}


/// Of two points in time that are not the same just one is earlier, and what is earlier than
/// something earlier is earlier.
pub proof fn time_goes_one_way(a: Timestamp, b: Timestamp, c: Timestamp)
    ensures
        !a.earlier(a),
        !(a.earlier(b) && b.earlier(a)),
        a != b ==> a.earlier(b) || b.earlier(a),
        a.earlier(b) && b.earlier(c) ==> a.earlier(c),
        a.secs < b.secs ==> a.earlier(b),
        a.secs == b.secs ==> (a.earlier(b) <==> a.nanos < b.nanos),
{
}

/// The seconds to a point in time, in nanoseconds, come within a second of the time that is really
/// left, and never go beyond it, whether it lies ahead or behind.
pub proof fn seconds_left_are_whole(target: int, now: Timestamp)
    requires
        now.nanos < 1_000_000_000,
    ensures
        ({
            let left = (target - now.secs) * 1_000_000_000 - now.nanos;
            let told = whole_seconds(target, now) * 1_000_000_000;
            &&& left >= 0 ==> told <= left < told + 1_000_000_000
            &&& left <= 0 ==> told - 1_000_000_000 < left <= told
        }),
{
}

/// Going so many seconds on moves the second by as many and keeps the nanoseconds; it fails only
/// where the calendar ends, and going back undoes it.
pub proof fn shifting_moves_the_second(t: Timestamp, secs: int)
    ensures
        shifted(t, secs) matches Some(r) ==> r.secs == t.secs + secs && r.nanos == t.nanos,
        shifted(t, secs) is Some <==> -8_334_601_228_800 <= t.secs + secs <= 8_210_266_876_799,
        shifted(t, secs) is Some && -8_334_601_228_800 <= t.secs <= 8_210_266_876_799 ==> shifted(
            shifted(t, secs)->0,
            -secs,
        ) == Some(t),
{
}

} // verus!
