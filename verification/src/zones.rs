//! Days and clocks in the viewer's zone.
//!
//! A day is a number: the days since the first of January of the year one,
//! that day being day one. An instant is a number too: Unix seconds.

use crate::text;
use crate::text::two_places_of;
use chrono::{Datelike, NaiveDate, NaiveDateTime, NaiveTime, Offset, TimeDelta, TimeZone, Timelike};
use chrono_tz::Tz;
use vstd::prelude::*;

verus! {

/// The first day there is.
pub const FIRST_DAY: i32 = -95_746_129;

/// The last day there is.
pub const LAST_DAY: i32 = 95_745_399;

/// The first of January 1970.
pub const EPOCH_DAY: i32 = 719_163;

/// The seconds of a day.
pub const DAY_SECONDS: u32 = 86_400;

/// How a day is written in an address: `2026-09-06`.
pub const ISO_DAY: &'static str = "%Y-%m-%d";

/// How a day is written beside another: `Sun 6 Sep`.
pub const SHORT_DAY: &'static str = "%a %-d %b";

/// How a day is written above everything that happened on it: `Sunday, 6
/// September 2026`.
pub const LONG_DAY: &'static str = "%A, %-d %B %Y";

/// How an instant is written in a date field: `2027-01-05T10:30`.
pub const FIELD_STAMP: &'static str = "%Y-%m-%dT%H:%M";

/// A zone of the zone table.
pub struct Zone {
    /// The name the table spells it by.
    pub name: String,
}

// ---------------------------------------------------------------------------
// The zone table and the calendar
// ---------------------------------------------------------------------------

/// Whether the zone table has a zone of this name.
pub uninterp spec fn zone_known(name: Seq<char>) -> bool;

/// What a zone's clock shows at an instant: the hour and the minute.
pub uninterp spec fn zone_clock(zone: Seq<char>, at: int) -> Option<(int, int)>;

/// Which day it is in a zone at an instant.
pub uninterp spec fn zone_day(zone: Seq<char>, at: int) -> Option<int>;

/// The first instant at which a zone's clock shows a second of a day.
pub uninterp spec fn zone_earliest(zone: Seq<char>, day: int, second: int) -> Option<int>;

/// The day that a text names, read by a format.
pub uninterp spec fn day_parsed(written: Seq<char>, format: Seq<char>) -> Option<int>;

/// The day and the second of it that a text names, read by a format.
pub uninterp spec fn stamp_parsed(written: Seq<char>, format: Seq<char>) -> Option<(int, int)>;

/// A day written out by a format.
pub uninterp spec fn day_written(day: int, format: Seq<char>) -> Seq<char>;

/// `Tz::from_str` and `Tz::name` of chrono-tz: a name is a zone exactly where
/// the compiled-in table has it, and the zone it gives goes by that very name.
#[verifier::external_body]
fn table_name(name: &str) -> (r: Option<String>)
    ensures
        r is Some <==> zone_known(name@),
        r matches Some(s) ==> s@ == name@,
{
    name.parse::<Tz>().ok().map(|tz| tz.name().to_string())
}

/// `Tz::UTC` of chrono-tz, which the table has under the name `UTC`.
#[verifier::external_body]
fn utc_name() -> (r: String)
    ensures
        r@ == "UTC"@,
        zone_known(r@),
{
    Tz::UTC.name().to_string()
}

/// `TimeZone::timestamp_opt` and `DateTime::time` of chrono: the clock of a
/// zone at an instant, none where the table has no such zone or the calendar
/// no such instant. An hour is less than 24 and a minute less than 60.
#[verifier::external_body]
fn clock(zone: &str, at: i64) -> (r: Option<(u32, u32)>)
    ensures
        r is Some <==> zone_clock(zone@, at as int) is Some,
        r matches Some(t) ==> zone_clock(zone@, at as int) == Some((t.0 as int, t.1 as int)) && t.0
            < 24 && t.1 < 60,
{
    let there = zone.parse::<Tz>().ok()?.timestamp_opt(at, 0).single()?;
    Some((there.time().hour(), there.time().minute()))
}

/// `TimeZone::timestamp_opt` and `NaiveDateTime::checked_add_offset` of
/// chrono: the day of a zone at an instant, none where the table has no such
/// zone or the calendar no such day. A day lies between the first and the
/// last that chrono has.
#[verifier::external_body]
fn local_day(zone: &str, at: i64) -> (r: Option<i32>)
    ensures
        r is Some <==> zone_day(zone@, at as int) is Some,
        r matches Some(d) ==> zone_day(zone@, at as int) == Some(d as int) && FIRST_DAY <= d
            <= LAST_DAY,
{
    let there = zone.parse::<Tz>().ok()?.timestamp_opt(at, 0).single()?;
    let local = there.naive_utc().checked_add_offset(there.offset().fix())?;
    Some(local.date().num_days_from_ce())
}

/// Whether `at` stands among the first instants of a zone's local times as the
/// `second`th second of a day stands among those times.
pub open spec fn in_order(zone: Seq<char>, day: int, second: int, at: int) -> bool {
    forall|d: int, s: int|
        0 <= s < DAY_SECONDS && (#[trigger] zone_earliest(zone, d, s)) is Some ==> {
            let ahead = d * DAY_SECONDS + s;
            let here = day * DAY_SECONDS + second;
            &&& ahead < here ==> zone_earliest(zone, d, s)->0 < at
            &&& here < ahead ==> at < zone_earliest(zone, d, s)->0
        }
}

/// `TimeZone::from_local_datetime` and `MappedLocalTime::earliest` of chrono:
/// the first instant at which a zone's clock shows the `second`th second of a
/// day, none where it never does. Of two local times that a zone has, the later
/// comes later: no zone of the compiled-in table ever turns its clock back over
/// what it skipped.
#[verifier::external_body]
fn earliest(zone: &str, day: i32, second: u32) -> (r: Option<i64>)
    ensures
        r is Some <==> zone_earliest(zone@, day as int, second as int) is Some,
        r matches Some(t) ==> zone_earliest(zone@, day as int, second as int) == Some(t as int)
            && in_order(zone@, day as int, second as int, t as int),
{
    let date = NaiveDate::from_num_days_from_ce_opt(day)?;
    let time = NaiveTime::from_num_seconds_from_midnight_opt(second, 0)?;
    let tz = zone.parse::<Tz>().ok()?;
    tz.from_local_datetime(&date.and_time(time)).earliest().map(|d| d.timestamp())
}

/// `NaiveDate::checked_add_signed` of chrono: the day so many days on, none
/// where there is no such day.
#[verifier::external_body]
fn days_on(day: i32, by: i64) -> (r: Option<i32>)
    requires
        FIRST_DAY <= day <= LAST_DAY,
        -1 <= by <= 1,
    ensures
        r is Some <==> FIRST_DAY <= day + by <= LAST_DAY,
        r matches Some(d) ==> d == day + by,
{
    let date = NaiveDate::from_num_days_from_ce_opt(day)?;
    date.checked_add_signed(TimeDelta::days(by)).map(|d| d.num_days_from_ce())
}

/// `Datelike::weekday` of chrono: how many days a day is after a Monday. The
/// first of January of the year one was a Monday.
#[verifier::external_body]
fn weekday(day: i32) -> (r: u32)
    requires
        FIRST_DAY <= day <= LAST_DAY,
    ensures
        r == (day - 1) % 7,
{
    NaiveDate::from_num_days_from_ce_opt(day).unwrap().weekday().num_days_from_monday()
}

/// `NaiveDate::parse_from_str` of chrono: the day a text names, read the way an
/// address has it, none where it names none.
#[verifier::external_body]
fn read_iso(written: &str, format: &str) -> (r: Option<i32>)
    requires
        format@ == ISO_DAY@,
    ensures
        r is Some <==> day_parsed(written@, format@) is Some,
        r matches Some(d) ==> day_parsed(written@, format@) == Some(d as int) && FIRST_DAY <= d
            <= LAST_DAY,
{
    NaiveDate::parse_from_str(written, format).ok().map(|d| d.num_days_from_ce())
}

/// `NaiveDateTime::parse_from_str` of chrono: the day and the second of it that
/// a text names, read the way a date field has them, none where it names none.
#[verifier::external_body]
fn read_field(written: &str, format: &str) -> (r: Option<(i32, u32)>)
    requires
        format@ == FIELD_STAMP@,
    ensures
        r is Some <==> stamp_parsed(written@, format@) is Some,
        r matches Some(t) ==> stamp_parsed(written@, format@) == Some((t.0 as int, t.1 as int))
            && FIRST_DAY <= t.0 <= LAST_DAY && t.1 < DAY_SECONDS,
{
    let t = NaiveDateTime::parse_from_str(written, format).ok()?;
    Some((t.date().num_days_from_ce(), t.time().num_seconds_from_midnight()))
}

/// `NaiveDate::format` of chrono: a day written out. Written the way an
/// address has it, it reads back as the same day.
#[verifier::external_body]
fn written(day: i32, format: &str) -> (r: String)
    requires
        FIRST_DAY <= day <= LAST_DAY,
        format@ == ISO_DAY@ || format@ == SHORT_DAY@ || format@ == LONG_DAY@,
    ensures
        r@ == day_written(day as int, format@),
        format@ == ISO_DAY@ ==> day_parsed(r@, format@) == Some(day as int),
{
    NaiveDate::from_num_days_from_ce_opt(day).unwrap().format(format).to_string()
}

/// `DateTime::from_timestamp` of chrono: whether an instant is on the calendar,
/// which is whether its day is one of the days there are.
#[verifier::external_body]
pub(crate) fn on_calendar(at: i64) -> (r: bool)
    ensures
        r <==> FIRST_DAY <= at as int / 86_400 + EPOCH_DAY <= LAST_DAY,
{
    chrono::DateTime::from_timestamp(at, 0).is_some()
}

// ---------------------------------------------------------------------------
// What is made of them
// ---------------------------------------------------------------------------

/// The day that a text names, read the way an address has it.
pub open spec fn day_read(written: Seq<char>) -> Option<int> {
    day_parsed(written, ISO_DAY@)
}

/// The day and the second of it that a text names, read the way a date field
/// has them.
pub open spec fn stamp_read(written: Seq<char>) -> Option<(int, int)> {
    stamp_parsed(written, FIELD_STAMP@)
}

/// The zone that a name stands for: the one the table has under it, and UTC
/// for a name the table cannot spell and for no name at all.
pub open spec fn zone_of(name: Option<Seq<char>>) -> Seq<char> {
    match name {
        Some(n) => if zone_known(n) {
            n
        } else {
            "UTC"@
        },
        None => "UTC"@,
    }
}

/// Reads a zone's name. What comes back is always spelled as the table spells
/// it, so it may stand in an address or in a header; a name the table does not
/// have is UTC and never echoed.
pub fn zone(name: Option<&str>) -> (r: Zone)
    ensures
        r.name@ == zone_of(text::borrowed(name)),
        zone_known(r.name@),
{
    match name {
        Some(n) => match table_name(n) {
            Some(s) => Zone { name: s },
            None => Zone { name: utc_name() },
        },
        None => Zone { name: utc_name() },
    }
}

/// A zone's name as the table spells it, where the table has it.
pub fn zone_named(name: &str) -> (r: Option<String>)
    ensures
        r is Some <==> zone_known(name@),
        r matches Some(s) ==> s@ == name@,
{
    table_name(name)
}

/// A clock's reading: `09:05`, and nothing where there is none.
pub open spec fn clock_words(reading: Option<(int, int)>) -> Seq<char> {
    match reading {
        Some((h, m)) => text::two_places(h as nat) + ":"@ + text::two_places(m as nat),
        None => Seq::empty(),
    }
}

/// What a clock that reads `reading` shows.
pub fn clock_face(reading: Option<(u32, u32)>) -> (r: String)
    ensures
        r@ == clock_words(
            match reading {
                Some((h, m)) => Some((h as int, m as int)),
                None => None,
            },
        ),
{
    match reading {
        Some((h, m)) => {
            let mut r = two_places_of(h as u64);
            r.append(":");
            r.append(two_places_of(m as u64).as_str());
            r
        },
        None => String::new(),
    }
}

/// What a zone's clock shows at an instant: `14:32`.
pub fn hm(at: i64, tz: &Zone) -> (r: String)
    ensures
        r@ == clock_words(zone_clock(tz.name@, at as int)),
{
    clock_face(clock(tz.name.as_str(), at))
}

/// Which day it is in a zone at an instant.
pub fn day_at(at: i64, tz: &Zone) -> (r: Option<i32>)
    ensures
        r is Some <==> zone_day(tz.name@, at as int) is Some,
        r matches Some(d) ==> zone_day(tz.name@, at as int) == Some(d as int) && FIRST_DAY <= d
            <= LAST_DAY,
{
    local_day(tz.name.as_str(), at)
}

/// The day a text names.
pub fn read_day(written: &str) -> (r: Option<i32>)
    ensures
        r is Some <==> day_read(written@) is Some,
        r matches Some(d) ==> day_read(written@) == Some(d as int) && FIRST_DAY <= d <= LAST_DAY,
{
    read_iso(written, ISO_DAY)
}

/// The day and the second of it that a date field names.
pub fn read_stamp(written: &str) -> (r: Option<(i32, u32)>)
    ensures
        r is Some <==> stamp_read(written@) is Some,
        r matches Some(t) ==> stamp_read(written@) == Some((t.0 as int, t.1 as int)) && FIRST_DAY
            <= t.0 <= LAST_DAY && t.1 < DAY_SECONDS,
{
    read_field(written, FIELD_STAMP)
}

/// A day as an address has it. It reads back as the same day.
pub fn iso_of(day: i32) -> (r: String)
    requires
        FIRST_DAY <= day <= LAST_DAY,
    ensures
        r@ == day_written(day as int, ISO_DAY@),
        day_read(r@) == Some(day as int),
{
    written(day, ISO_DAY)
}

/// A day as it is written beside another.
pub fn short_of(day: i32) -> (r: String)
    requires
        FIRST_DAY <= day <= LAST_DAY,
    ensures
        r@ == day_written(day as int, SHORT_DAY@),
{
    written(day, SHORT_DAY)
}

/// A day as it is written above everything that happened on it.
pub fn long_of(day: i32) -> (r: String)
    requires
        FIRST_DAY <= day <= LAST_DAY,
    ensures
        r@ == day_written(day as int, LONG_DAY@),
{
    written(day, LONG_DAY)
}

/// The day after, none after the last.
pub fn next_day(day: i32) -> (r: Option<i32>)
    requires
        FIRST_DAY <= day <= LAST_DAY,
    ensures
        r is Some <==> day < LAST_DAY,
        r matches Some(d) ==> d == day + 1,
{
    days_on(day, 1)
}

/// The day before, none before the first.
pub fn previous_day(day: i32) -> (r: Option<i32>)
    requires
        FIRST_DAY <= day <= LAST_DAY,
    ensures
        r is Some <==> day > FIRST_DAY,
        r matches Some(d) ==> d == day - 1,
{
    days_on(day, -1)
}

/// The first Monday on or after a day.
pub open spec fn monday_from(day: int) -> int {
    day + (7 - (day - 1) % 7) % 7
}

/// The first Monday on or after a day, none where the calendar ends before it.
pub fn monday_of(day: i32) -> (r: Option<i32>)
    requires
        FIRST_DAY <= day <= LAST_DAY,
    ensures
        r is Some <==> monday_from(day as int) <= LAST_DAY,
        r matches Some(d) ==> d == monday_from(day as int),
{
    let mut d: i32 = day;
    while weekday(d) != 0
        invariant
            FIRST_DAY <= day <= d <= LAST_DAY,
            d <= monday_from(day as int),
            monday_from(d as int) == monday_from(day as int),
        decreases LAST_DAY - d,
    {
        match days_on(d, 1) {
            Some(n) => {
                d = n;
            },
            None => {
                return None;
            },
        }
    }
    Some(d)
}

/// The first instant of a day that a zone has, from the `second`th second of it
/// on.
pub open spec fn start_from(zone: Seq<char>, day: int, second: int) -> Option<int>
    decreases DAY_SECONDS - second,
{
    if second >= DAY_SECONDS {
        None
    } else {
        match zone_earliest(zone, day, second) {
            Some(t) => Some(t),
            None => start_from(zone, day, second + 1),
        }
    }
}

/// Where a day starts in a zone: local midnight, or where there is none the
/// first instant of the day there is.
pub open spec fn start_of(zone: Seq<char>, day: int) -> Option<int> {
    start_from(zone, day, 0)
}

/// A day starts at an instant of its own.
proof fn a_start_is_shown(zone: Seq<char>, day: int, second: int)
    requires
        0 <= second,
        start_from(zone, day, second) is Some,
    ensures
        exists|s: int|
            second <= s < DAY_SECONDS && #[trigger] zone_earliest(zone, day, s) == start_from(
                zone,
                day,
                second,
            ),
    decreases DAY_SECONDS - second,
{
    if zone_earliest(zone, day, second) is None {
        a_start_is_shown(zone, day, second + 1);
    }
}

/// Where a day starts in a zone: at the first instant that the zone has of it,
/// and after every day ahead of it.
///
/// A zone whose clocks go forward at midnight has one day a year without one,
/// and that day is a day all the same.
pub fn day_start(day: i32, tz: &Zone) -> (r: Option<i64>)
    ensures
        r is Some <==> start_of(tz.name@, day as int) is Some,
        r matches Some(t) ==> start_of(tz.name@, day as int) == Some(t as int),
        r matches Some(t) ==> forall|d: int|
            d < day && (#[trigger] start_of(tz.name@, d)) is Some ==> start_of(tz.name@, d)->0 < t,
        r matches Some(t) ==> forall|s: int|
            0 <= s < DAY_SECONDS && (#[trigger] zone_earliest(tz.name@, day as int, s)) is Some
                ==> t <= zone_earliest(tz.name@, day as int, s)->0,
{
    let mut second: u32 = 0;
    while second < DAY_SECONDS
        invariant
            second <= DAY_SECONDS,
            start_from(tz.name@, day as int, second as int) == start_of(tz.name@, day as int),
            forall|s: int| 0 <= s < second ==> zone_earliest(tz.name@, day as int, s) is None,
        decreases DAY_SECONDS - second,
    {
        match earliest(tz.name.as_str(), day, second) {
            Some(t) => {
                proof {
                    let zone = tz.name@;
                    assert forall|d: int| d < day && (#[trigger] start_of(zone, d)) is Some implies
                        start_of(zone, d)->0 < t by {
                        a_start_is_shown(zone, d, 0);
                        let s = choose|s: int|
                            0 <= s < DAY_SECONDS && #[trigger] zone_earliest(zone, d, s)
                                == start_from(zone, d, 0);
                        assert(zone_earliest(zone, d, s) is Some);
                    }
                }
                return Some(t);
            },
            None => {},
        }
        second = second + 1;
    }
    None
}

/// The instants of a day in a zone: from where it starts up to where the next
/// one does.
pub open spec fn bounds_of(zone: Seq<char>, day: int) -> Option<(int, int)> {
    if day >= LAST_DAY {
        None
    } else {
        match (start_of(zone, day), start_of(zone, day + 1)) {
            (Some(from), Some(to)) => Some((from, to)),
            _ => None,
        }
    }
}

/// The instants of a day in a zone, none for the last day there is. A day ends
/// after it begins, also where the clocks change on it.
pub fn bounds(day: i32, tz: &Zone) -> (r: Option<(i64, i64)>)
    requires
        FIRST_DAY <= day <= LAST_DAY,
    ensures
        r is Some <==> bounds_of(tz.name@, day as int) is Some,
        r matches Some(b) ==> bounds_of(tz.name@, day as int) == Some((b.0 as int, b.1 as int)),
        r matches Some(b) ==> b.0 < b.1,
{
    match next_day(day) {
        Some(next) => match (day_start(day, tz), day_start(next, tz)) {
            (Some(from), Some(to)) => {
                assert(start_of(tz.name@, day as int) is Some);
                Some((from, to))
            },
            _ => None,
        },
        None => None,
    }
}

/// The first instant a zone's clock shows the `second`th second of a day, or
/// failing that the first it shows of the seconds after it, over one day.
pub open spec fn resolved(zone: Seq<char>, day: int, second: int, left: int) -> Option<int>
    decreases left + 1,
{
    if left < 0 {
        None
    } else {
        match zone_earliest(zone, day, second) {
            Some(t) => Some(t),
            None => if second + 1 < DAY_SECONDS {
                resolved(zone, day, second + 1, left - 1)
            } else {
                resolved(zone, day + 1, 0, left - 1)
            },
        }
    }
}

/// A local time as an instant, choosing where the zone cannot: the first
/// reading of an hour that happens twice, and the first instant the zone has
/// again after one that does not happen.
pub fn resolve_local(day: i32, second: u32, tz: &Zone) -> (r: Option<i64>)
    requires
        FIRST_DAY <= day <= LAST_DAY,
        second < DAY_SECONDS,
    ensures
        r is Some <==> resolved(tz.name@, day as int, second as int, DAY_SECONDS as int) is Some,
        r matches Some(t) ==> resolved(tz.name@, day as int, second as int, DAY_SECONDS as int)
            == Some(t as int),
{
    let mut d: i32 = day;
    let mut s: u32 = second;
    let mut tried: u32 = 0;
    while tried <= DAY_SECONDS
        invariant
            tried <= DAY_SECONDS + 1,
            s < DAY_SECONDS,
            FIRST_DAY <= d <= day + tried,
            day <= LAST_DAY,
            resolved(tz.name@, d as int, s as int, DAY_SECONDS - tried) == resolved(
                tz.name@,
                day as int,
                second as int,
                DAY_SECONDS as int,
            ),
        decreases DAY_SECONDS + 1 - tried,
    {
        match earliest(tz.name.as_str(), d, s) {
            Some(t) => {
                return Some(t);
            },
            None => {},
        }
        if s + 1 < DAY_SECONDS {
            s = s + 1;
        } else {
            s = 0;
            d = d + 1;
        }
        tried = tried + 1;
    }
    None
}

/// One day ends where the next begins: nothing that happens falls between two
/// days, or into both.
pub proof fn one_day_ends_where_the_next_begins(zone: Seq<char>, day: int)
    ensures
        match (bounds_of(zone, day), bounds_of(zone, day + 1)) {
            (Some((_, to)), Some((from, _))) => to == from,
            _ => true,
        },
{
}

/// The Monday from a day on is a Monday, and less than a week away.
pub proof fn a_monday_is_near(day: int)
    ensures
        day <= monday_from(day) < day + 7,
        (monday_from(day) - 1) % 7 == 0,
{
}

/// A zone is the one that was named where there is such a one, and UTC where
/// there is none or none was named.
pub proof fn a_zone_falls_back_to_utc(name: Seq<char>)
    ensures
        zone_known(name) ==> zone_of(Some(name)) == name,
        !zone_known(name) ==> zone_of(Some(name)) == "UTC"@,
        zone_of(None) == "UTC"@,
{
}

/// A clock is said as two digits of hours and two of minutes, and reads back as
/// both.
pub proof fn a_clock_reads_back(h: int, m: int)
    requires
        0 <= h < 24,
        0 <= m < 60,
    ensures
        clock_words(Some((h, m))).len() == 5,
        text::reads(clock_words(Some((h, m))).take(2)) == h,
        clock_words(Some((h, m)))[2] == ':',
        text::reads(clock_words(Some((h, m))).skip(3)) == m,
        clock_words(None).len() == 0,
{
    reveal_strlit(":");
    text::two_places_read_back(h as nat);
    text::two_places_read_back(m as nat);
    assert(clock_words(Some((h, m))).take(2) =~= text::two_places(h as nat));
    assert(clock_words(Some((h, m))).skip(3) =~= text::two_places(m as nat));
}

/// A day is read as a year, a month and a day of it; an instant of a form field
/// as a day, a `T`, an hour and a minute.
pub proof fn dates_are_written_one_way(written: Seq<char>)
    ensures
        day_read(written) == day_parsed(written, "%Y-%m-%d"@),
        stamp_read(written) == stamp_parsed(written, "%Y-%m-%dT%H:%M"@),
{
}

/// The first second of a day from `second` on that a zone has.
proof fn a_start_is_the_first(zone: Seq<char>, day: int, second: int)
    requires
        0 <= second <= 86400,
    ensures
        start_from(zone, day, second) is None <==> forall|s: int|
            second <= s < 86400 ==> (#[trigger] zone_earliest(zone, day, s)) is None,
        start_from(zone, day, second) matches Some(t) ==> exists|s: int|
            second <= s < 86400 && #[trigger] zone_earliest(zone, day, s) == Some(t) && (forall|
                u: int,
            |
                second <= u < s ==> (#[trigger] zone_earliest(zone, day, u)) is None),
    decreases 86400 - second,
{
    if second < 86400 {
        if zone_earliest(zone, day, second) is None {
            a_start_is_the_first(zone, day, second + 1);
        }
    }
}

/// A day starts at the first second of it that the zone has, and has no start
/// exactly where the zone has no second of it; it ends where the day after it
/// starts.
pub proof fn a_day_starts_at_its_first_second(zone: Seq<char>, day: int)
    ensures
        start_of(zone, day) is None <==> forall|s: int|
            0 <= s < 86400 ==> (#[trigger] zone_earliest(zone, day, s)) is None,
        start_of(zone, day) matches Some(t) ==> exists|s: int|
            0 <= s < 86400 && #[trigger] zone_earliest(zone, day, s) == Some(t) && (forall|u: int|
                0 <= u < s ==> (#[trigger] zone_earliest(zone, day, u)) is None),
        bounds_of(zone, day) matches Some((from, to)) ==> start_of(zone, day) == Some(from)
            && start_of(zone, day + 1) == Some(to),
        bounds_of(zone, day) is Some <==> day < 95_745_399 && start_of(zone, day) is Some
            && start_of(zone, day + 1) is Some,
{
    a_start_is_the_first(zone, day, 0);
}

/// A reading of the clock is the instant that the zone has of it. One that the
/// zone skips is the first that it has after it, over midnight where it must,
/// for as many seconds as are looked through; and none where there is none.
pub proof fn a_skipped_reading_is_the_next_there_is(
    zone: Seq<char>,
    day: int,
    second: int,
    left: int,
)
    requires
        0 <= second < 86400,
    ensures
        resolved(zone, day, second, left) is None <==> forall|k: int|
            0 <= k <= left ==> (#[trigger] at_second(zone, day, second + k)) is None,
        resolved(zone, day, second, left) matches Some(t) ==> exists|k: int|
            0 <= k <= left && #[trigger] at_second(zone, day, second + k) == Some(t) && (forall|
                j: int,
            |
                0 <= j < k ==> (#[trigger] at_second(zone, day, second + j)) is None),
    decreases left + 1,
{
    if left >= 0 {
        assert(at_second(zone, day, second + 0) == zone_earliest(zone, day, second));
        if zone_earliest(zone, day, second) is None {
            let (d, s) = if second + 1 < 86400 {
                (day, second + 1)
            } else {
                (day + 1, 0int)
            };
            a_skipped_reading_is_the_next_there_is(zone, d, s, left - 1);
            assert forall|k: int| 0 <= k implies #[trigger] at_second(zone, d, s + k) == at_second(
                zone,
                day,
                second + (k + 1),
            ) by {
                if second + 1 >= 86400 {
                    assert((86400 + k) / 86400 == k / 86400 + 1);
                    assert((86400 + k) % 86400 == k % 86400);
                }
            }
            if resolved(zone, d, s, left - 1) is None {
                assert forall|k: int| 0 <= k <= left implies (#[trigger] at_second(
                    zone,
                    day,
                    second + k,
                )) is None by {
                    if k > 0 {
                        assert(at_second(zone, d, s + (k - 1)) is None);
                        assert(second + ((k - 1) + 1) == second + k);
                    }
                }
            } else {
                let t = resolved(zone, d, s, left - 1)->0;
                let k = choose|k: int|
                    0 <= k <= left - 1 && #[trigger] at_second(zone, d, s + k) == Some(t) && (forall|
                        j: int,
                    |
                        0 <= j < k ==> (#[trigger] at_second(zone, d, s + j)) is None);
                assert(at_second(zone, day, second + (k + 1)) == Some(t));
                assert forall|j: int| 0 <= j < k + 1 implies (#[trigger] at_second(
                    zone,
                    day,
                    second + j,
                )) is None by {
                    if j > 0 {
                        assert(at_second(zone, d, s + (j - 1)) is None);
                        assert(second + ((j - 1) + 1) == second + j);
                    }
                }
            }
        }
    }
}

/// The instant a zone has of a second counted from the start of a day, over as
/// many midnights as it takes.
pub open spec fn at_second(zone: Seq<char>, day: int, second: int) -> Option<int> {
    zone_earliest(zone, day + second / 86400, second % 86400)
}

} // verus!
