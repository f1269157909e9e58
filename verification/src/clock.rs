//! Points in time, and how they are printed.

use vstd::prelude::*;

verus! {

/// Seconds since the Unix epoch and nanoseconds within the second, in the range
/// of times that the calendar functions can express.
#[derive(Clone, Copy, Debug, PartialEq, Eq, Structural)]
pub struct Timestamp {
    secs: i64,
    nanos: u32,
}

/// Whether the pair is a time between the first second of the year -262143 and
/// the last of 262142. A leap second runs on past one thousand million
/// nanoseconds, and only at the end of a minute.
pub open spec fn representable(secs: int, nanos: int) -> bool {
    &&& -8_334_601_228_800 <= secs <= 8_210_266_876_799
    &&& 0 <= nanos
    &&& nanos < 1_000_000_000 || (nanos < 2_000_000_000 && secs % 60 == 59)
}

impl Timestamp {
    #[verifier::type_invariant]
    spec fn in_range(self) -> bool {
        representable(self.secs as int, self.nanos as int)
    }

    pub closed spec fn spec_secs(self) -> i64 {
        self.secs
    }

    pub closed spec fn spec_nanos(self) -> u32 {
        self.nanos
    }

    /// A time from its parts, if it is in range.
    pub fn new(secs: i64, nanos: u32) -> (t: Option<Timestamp>)
        ensures
            t is Some <==> representable(secs as int, nanos as int),
            t matches Some(t) ==> t.spec_secs() == secs && t.spec_nanos() == nanos,
    {
        if secs < -8_334_601_228_800 || secs > 8_210_266_876_799 {
            return None;
        }
        if nanos >= 2_000_000_000 {
            return None;
        }
        if nanos >= 1_000_000_000 {
            let from_first: i64 = secs + 8_334_601_228_800;
            assert(secs as int % 60 == from_first as int % 60);
            if from_first % 60 != 59 {
                return None;
            }
        }
        Some(Timestamp { secs, nanos })
    }

    pub fn secs(&self) -> (r: i64)
        ensures
            r == self.spec_secs(),
    {
        self.secs
    }

    pub fn nanos(&self) -> (r: u32)
        ensures
            r == self.spec_nanos(),
    {
        self.nanos
    }

    /// Whether this time comes before `other`.
    pub fn before(&self, other: &Timestamp) -> (b: bool)
        ensures
            b == before(*self, *other),
    {
        self.secs < other.secs || (self.secs == other.secs && self.nanos < other.nanos)
    }
}

/// `a` comes before `b`.
pub open spec fn before(a: Timestamp, b: Timestamp) -> bool {
    a.spec_secs() < b.spec_secs() || (a.spec_secs() == b.spec_secs() && a.spec_nanos()
        < b.spec_nanos())
}

/// `chrono::Utc::now`, with the seconds and the nanoseconds of what it returns.
/// The clock decides: nothing is said of the values but that they are a time.
/// A clock set before 1970 makes it panic.
#[verifier::external_body]
fn utc_now() -> (t: (i64, u32))
    ensures
        representable(t.0 as int, t.1 as int),
{
    let t = chrono::Utc::now();
    (t.timestamp(), t.timestamp_subsec_nanos())
}

/// The current time.
pub fn now() -> (t: Timestamp)
    ensures
        representable(t.spec_secs() as int, t.spec_nanos() as int),
{
    let (secs, nanos) = utc_now();
    Timestamp { secs, nanos }
}

/// What `chrono` prints for a time in UTC under a pattern.
pub uninterp spec fn utc_text(secs: i64, nanos: u32, pattern: Seq<char>) -> Seq<char>;

/// The pattern of times in reports.
pub open spec fn report_pattern() -> Seq<char> {
    "%Y-%m-%d %H:%M:%S UTC"@
}

/// The pattern of times in handoffs.
pub open spec fn minute_pattern() -> Seq<char> {
    "%Y-%m-%d %H:%M UTC"@
}

/// `chrono::DateTime::from_timestamp`, then `DateTime::format` with `to_string`.
/// The text is that of `utc_text`; a pattern that `format` cannot read is left out,
/// as it makes `to_string` panic.
#[verifier::external_body]
fn format_utc(secs: i64, nanos: u32, pattern: &str) -> (out: String)
    requires
        representable(secs as int, nanos as int),
        pattern@ == report_pattern() || pattern@ == minute_pattern(),
    ensures
        out@ == utc_text(secs, nanos, pattern@),
{
    chrono::DateTime::from_timestamp(secs, nanos).unwrap().format(pattern).to_string()
}

/// The time as reports show it.
pub open spec fn report_text(t: Timestamp) -> Seq<char> {
    utc_text(t.spec_secs(), t.spec_nanos(), report_pattern())
}

/// The time as reports show it.
pub fn format_report(t: &Timestamp) -> (out: String)
    ensures
        out@ == report_text(*t),
{
    proof {
        use_type_invariant(t);
    }
    format_utc(t.secs, t.nanos, "%Y-%m-%d %H:%M:%S UTC")
}

/// The time to the minute.
pub open spec fn minute_text(t: Timestamp) -> Seq<char> {
    utc_text(t.spec_secs(), t.spec_nanos(), minute_pattern())
}

/// The time to the minute.
pub fn format_minute(t: &Timestamp) -> (out: String)
    ensures
        out@ == minute_text(*t),
{
    proof {
        use_type_invariant(t);
    }
    format_utc(t.secs, t.nanos, "%Y-%m-%d %H:%M UTC")
}

/// What `chrono` prints for a time in UTC by RFC 3339.
pub uninterp spec fn utc_rfc3339(secs: i64, nanos: u32) -> Seq<char>;

/// `chrono::DateTime::from_timestamp`, then `DateTime::to_rfc3339`. The text is that of
/// `utc_rfc3339`.
#[verifier::external_body]
fn to_rfc3339(secs: i64, nanos: u32) -> (out: String)
    requires
        representable(secs as int, nanos as int),
    ensures
        out@ == utc_rfc3339(secs, nanos),
{
    chrono::DateTime::from_timestamp(secs, nanos).unwrap().to_rfc3339()
}

/// The time by RFC 3339.
pub open spec fn rfc3339_text(t: Timestamp) -> Seq<char> {
    utc_rfc3339(t.spec_secs(), t.spec_nanos())
}

/// The time by RFC 3339.
pub fn format_rfc3339(t: &Timestamp) -> (out: String)
    ensures
        out@ == rfc3339_text(*t),
{
    proof {
        use_type_invariant(t);
    }
    to_rfc3339(t.secs, t.nanos)
}

/// Times are ordered by their seconds, and within a second by their nanoseconds: one of two
/// times is before the other, or they are the same, and what is before something that is before
/// a time is before that time.
pub proof fn times_are_ordered(a: Timestamp, b: Timestamp, c: Timestamp)
    ensures
        !before(a, a),
        before(a, b) ==> !before(b, a),
        before(a, b) && before(b, c) ==> before(a, c),
        before(a, b) || before(b, a) || (a.spec_secs() == b.spec_secs() && a.spec_nanos()
            == b.spec_nanos()),
        a.spec_secs() < b.spec_secs() ==> before(a, b),
{
}

/// Reports show a time to the second, handoffs to the minute, both as year, month, day and time
/// of day in UTC.
pub proof fn times_are_shown_in_utc(t: Timestamp)
    ensures
        report_text(t) == utc_text(t.spec_secs(), t.spec_nanos(), "%Y-%m-%d %H:%M:%S UTC"@),
        minute_text(t) == utc_text(t.spec_secs(), t.spec_nanos(), "%Y-%m-%d %H:%M UTC"@),
        rfc3339_text(t) == utc_rfc3339(t.spec_secs(), t.spec_nanos()),
{
}

} // verus!
