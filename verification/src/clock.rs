//! Calendar time through `chrono`.
use chrono::TimeZone;
use crate::text::i64_text;
use crate::text;
use vstd::prelude::*;

verus! {

/// A point in time: seconds since the epoch and nanoseconds.
#[derive(Clone, Copy, Debug, PartialEq, Eq, Structural)]
pub struct Instant {
    pub secs: i64,
    pub nanos: u32,
}

impl Instant {
    /// Whether a time comes after another one.
    pub open spec fn later_than(self, other: Instant) -> bool {
        self.secs > other.secs || (self.secs == other.secs && self.nanos > other.nanos)
    }

    /// Whether a time comes after another one.
    pub fn is_after(&self, other: &Instant) -> (r: bool)
        ensures
            r == self.later_than(*other),
    {
        self.secs > other.secs || (self.secs == other.secs && self.nanos > other.nanos)
    }
}

/// What `chrono` writes for `secs` seconds since the epoch, in UTC and by a
/// pattern; nothing for a time beyond its calendar.
pub uninterp spec fn utc_formatted(secs: i64, pattern: Seq<char>) -> Option<Seq<char>>;

/// The pattern of a time of day.
pub const TIME_OF_DAY: &'static str = "%H:%M UTC";

/// The pattern of a day and a time of day.
pub const DAY_AND_TIME: &'static str = "%b %d %H:%M";

/// The first second of `chrono`'s calendar, in the year -262143.
pub const FIRST_SECOND: i64 = -8334601228800;

/// The last second of `chrono`'s calendar, in the year 262142.
pub const LAST_SECOND: i64 = 8210266876799;

/// Whether a time stands in `chrono`'s calendar.
pub open spec fn in_calendar(secs: i64) -> bool {
    FIRST_SECOND <= secs <= LAST_SECOND
}

/// A number of at most two digits, written with two.
pub open spec fn two_digits(n: int) -> Seq<char> {
    if n < 10 {
        "0"@ + text::dec_int(n)
    } else {
        text::dec_int(n)
    }
}

/// The hour and the minute of a time in UTC, as `HH:MM UTC`.
pub open spec fn time_of_day(secs: int) -> Seq<char> {
    two_digits(secs % 86400 / 3600) + ":"@ + two_digits(secs % 3600 / 60) + " UTC"@
}

/// `Utc.timestamp_opt(secs, 0)`, written by `DateTime::format`: the text depends
/// on the two arguments alone, and there is one for every time of the calendar.
/// By the first pattern it is the hour and the minute, in two digits each. Only
/// the two patterns of this module are passed, since `chrono` panics on one that
/// it cannot read.
#[verifier::external_body]
pub(crate) fn format_utc(secs: i64, pattern: &str) -> (r: Option<String>)
    requires
        pattern@ == TIME_OF_DAY@ || pattern@ == DAY_AND_TIME@,
    ensures
        text::opt_text(r) == utc_formatted(secs, pattern@),
        r is Some <==> in_calendar(secs),
        r matches Some(t) ==> (pattern@ == TIME_OF_DAY@ ==> t@ == time_of_day(secs as int)),
{
    match chrono::Utc.timestamp_opt(secs, 0) {
        chrono::LocalResult::Single(dt) => Some(dt.format(pattern).to_string()),
        _ => None,
    }
}

/// The day, counted from the epoch, that a time falls on.
pub open spec fn day_of(secs: int) -> int {
    secs / 86400
}

/// Whether two times fall on the same day.
pub fn same_day(a: i64, b: i64) -> (r: bool)
    ensures
        r == (day_of(a as int) == day_of(b as int)),
{
    let x: i128 = a as i128 + 9223372036854806400;
    let y: i128 = b as i128 + 9223372036854806400;
    assert(x / 86400 == day_of(a as int) + 106751991167301);
    assert(y / 86400 == day_of(b as int) + 106751991167301);
    x / 86400 == y / 86400
}

/// The pattern by which a time is shown: the time of day on the current day,
/// the day as well on any other.
pub open spec fn stamp_pattern(secs: i64, now: i64) -> Seq<char> {
    if day_of(secs as int) == day_of(now as int) {
        TIME_OF_DAY@
    } else {
        DAY_AND_TIME@
    }
}

/// The pattern by which a time is shown.
pub fn timestamp_pattern(secs: i64, now: i64) -> (r: &'static str)
    ensures
        r@ == stamp_pattern(secs, now),
{
    if same_day(secs, now) {
        TIME_OF_DAY
    } else {
        DAY_AND_TIME
    }
}

/// A time as it is shown: the hour and the minute on the current day, the day as
/// well on any other; a dash where the calendar does not reach.
pub open spec fn stamp(secs: i64, now: i64) -> Seq<char> {
    if !in_calendar(secs) {
        "-"@
    } else if day_of(secs as int) == day_of(now as int) {
        time_of_day(secs as int)
    } else {
        match utc_formatted(secs, DAY_AND_TIME@) {
            Some(t) => t,
            None => "-"@,
        }
    }
}

/// A formatted time, or a dash.
pub fn or_dash(formatted: Option<String>) -> (r: String)
    ensures
        r@ == match formatted {
            Some(t) => t@,
            None => "-"@,
        },
{
    match formatted {
        Some(t) => t,
        None => "-".to_owned(),
    }
}

/// The time `ts_secs` (seconds since the epoch) as shown at `now_secs`: `HH:MM UTC`
/// on the same day, `Mon DD HH:MM` otherwise.
pub fn format_timestamp(ts_secs: i64, now_secs: i64) -> (r: String)
    ensures
        r@ == stamp(ts_secs, now_secs),
{
    let pattern: &'static str = timestamp_pattern(ts_secs, now_secs);
    or_dash(format_utc(ts_secs, pattern))
}

// ── ISO 8601 ─────────────────────────────────────────────────────────────────

/// What `chrono` writes for a time in UTC by RFC 3339; nothing for a time beyond
/// its calendar.
pub uninterp spec fn utc_rfc3339(secs: i64, nanos: u32) -> Option<Seq<char>>;

/// `DateTime::from_timestamp`, written by `DateTime::to_rfc3339`: the text
/// depends on the two arguments alone.
#[verifier::external_body]
pub(crate) fn write_rfc3339(secs: i64, nanos: u32) -> (r: Option<String>)
    ensures
        text::opt_text(r) == utc_rfc3339(secs, nanos),
{
    match chrono::DateTime::from_timestamp(secs, nanos) {
        Some(dt) => Some(dt.to_rfc3339()),
        None => None,
    }
}

/// A time as it was formatted, or its number of seconds where the calendar does
/// not reach.
pub open spec fn text_or_number(formatted: Option<Seq<char>>, secs: i64) -> Seq<char> {
    match formatted {
        Some(t) => t,
        None => text::dec_int(secs as int),
    }
}

/// A time as it was formatted, or its number of seconds.
pub fn formatted_or_number(formatted: Option<String>, secs: i64) -> (r: String)
    ensures
        r@ == text_or_number(text::opt_text(formatted), secs),
{
    match formatted {
        Some(t) => t,
        None => i64_text(secs),
    }
}

/// A time as an ISO 8601 text.
pub open spec fn iso(t: Instant) -> Seq<char> {
    text_or_number(utc_rfc3339(t.secs, t.nanos), t.secs)
}

/// A time as an ISO 8601 text.
pub fn iso_text(t: Instant) -> (r: String)
    ensures
        r@ == iso(t),
{
    formatted_or_number(write_rfc3339(t.secs, t.nanos), t.secs)
}

/// The time that `chrono` reads by its relaxed form of RFC 3339, in UTC; nothing
/// where it cannot.
pub uninterp spec fn relaxed_time(s: Seq<char>) -> Option<Instant>;

/// `str::parse::<DateTime<Utc>>`, which accepts a relaxed form of RFC 3339. What
/// it reads depends on the text alone.
#[verifier::external_body]
fn parse_relaxed(s: &str) -> (r: Option<Instant>)
    ensures
        r == relaxed_time(s@),
{
    match s.parse::<chrono::DateTime<chrono::Utc>>() {
        Ok(dt) => Some(Instant { secs: dt.timestamp(), nanos: dt.timestamp_subsec_nanos() }),
        Err(_) => None,
    }
}

/// The time that `chrono` reads by RFC 3339, or what it says of the text.
pub uninterp spec fn rfc3339_time(s: Seq<char>) -> Result<Instant, Seq<char>>;

/// `DateTime::parse_from_rfc3339`. What it reads, and the error as `Display`
/// writes it, depend on the text alone.
#[verifier::external_body]
fn parse_rfc3339(s: &str) -> (r: Result<Instant, String>)
    ensures
        match r {
            Ok(t) => rfc3339_time(s@) == Ok::<Instant, Seq<char>>(t),
            Err(e) => rfc3339_time(s@) == Err::<Instant, Seq<char>>(e@),
        },
{
    match chrono::DateTime::parse_from_rfc3339(s) {
        Ok(dt) => Ok(Instant { secs: dt.timestamp(), nanos: dt.timestamp_subsec_nanos() }),
        Err(e) => Err(e.to_string()),
    }
}

/// The time that a text stands for: by the relaxed form, else by the strict one.
pub open spec fn time_of(s: Seq<char>) -> Result<Instant, Seq<char>> {
    match relaxed_time(s) {
        Some(t) => Ok(t),
        None => rfc3339_time(s),
    }
}

/// The time that a text stands for.
pub fn read_time(s: &str) -> (r: Result<Instant, String>)
    ensures
        match r {
            Ok(t) => time_of(s@) == Ok::<Instant, Seq<char>>(t),
            Err(e) => time_of(s@) == Err::<Instant, Seq<char>>(e@),
        },
{
    match parse_relaxed(s) {
        Some(t) => Ok(t),
        None => parse_rfc3339(s),
    }
}

/// A time on the same day is shown by its hour and minute, in four digits; on
/// another day with the day; one that no calendar holds as a dash.
pub proof fn law_stamps(day: int, hour: int, minute: int, second: int, secs: i64, now: i64)
    requires
        0 <= hour < 24,
        0 <= minute < 60,
        0 <= second < 60,
        secs == 86400 * day + 3600 * hour + 60 * minute + second,
        in_calendar(secs),
        86400 * day <= now < 86400 * (day + 1),
    ensures
        stamp(secs, now) == two_digits(hour) + ":"@ + two_digits(minute) + " UTC"@,
        hour < 10 ==> two_digits(hour) == seq!['0', text::digit(hour as nat)],
        hour >= 10 ==> two_digits(hour) == seq![
            text::digit((hour / 10) as nat),
            text::digit((hour % 10) as nat),
        ],
        stamp_pattern(secs, now) == "%H:%M UTC"@,
{
    assert(secs % 86400 == 3600 * hour + 60 * minute + second);
    assert(secs % 86400 / 3600 == hour);
    assert(secs % 3600 == 60 * minute + second);
    assert(secs % 3600 / 60 == minute);
    assert(day_of(secs as int) == day && day_of(now as int) == day);
    reveal_strlit("0");
    reveal_with_fuel(text::dec, 3);
    if hour < 10 {
        assert(two_digits(hour) =~= seq!['0', text::digit(hour as nat)]);
    } else {
        assert(two_digits(hour) =~= seq![
            text::digit((hour / 10) as nat),
            text::digit((hour % 10) as nat),
        ]);
    }
}

/// On another day the day is shown too, and a time that no calendar holds is a
/// dash.
pub proof fn law_stamps_of_other_days(secs: i64, now: i64)
    ensures
        !in_calendar(secs) ==> stamp(secs, now) == "-"@,
        in_calendar(secs) && (now - secs >= 86400 || secs - now >= 86400) ==> stamp(secs, now)
            == match utc_formatted(secs, "%b %d %H:%M"@) {
            Some(t) => t,
            None => "-"@,
        },
        now - secs >= 86400 || secs - now >= 86400 ==> stamp_pattern(secs, now)
            == "%b %d %H:%M"@,
{
}

/// Of two instants one is later, unless they are the same; later by a second is
/// later whatever the rest.
pub proof fn law_one_instant_is_later(a: Instant, b: Instant)
    ensures
        a.secs > b.secs ==> a.later_than(b) && !b.later_than(a),
        a.secs == b.secs ==> (a.later_than(b) <==> a.nanos > b.nanos),
        a == b || a.later_than(b) || b.later_than(a),
        !(a.later_than(b) && b.later_than(a)),
{
}

/// A time is read in the relaxed form first, and in the strict form where that
/// fails; its error is the strict form's.
pub proof fn law_times_are_read(s: Seq<char>, t: Instant)
    ensures
        relaxed_time(s) == Some(t) ==> time_of(s) == Ok::<Instant, Seq<char>>(t),
        relaxed_time(s) is None && rfc3339_time(s) == Ok::<Instant, Seq<char>>(t) ==> time_of(s)
            == Ok::<Instant, Seq<char>>(t),
        time_of(s) is Err ==> relaxed_time(s) is None && time_of(s) == rfc3339_time(s),
        utc_rfc3339(t.secs, t.nanos) is None ==> iso(t) == text::dec_int(t.secs as int),
        utc_rfc3339(t.secs, t.nanos) matches Some(x) ==> iso(t) == x,
{
}

} // verus!
