//! The band under the recommendation: what is due, in the viewer's zone, and
//! the writes a person makes on it with a button.

use crate::records::{DueRow, Moment};
use crate::text;
use crate::text::{decimal_of, same, two_places_of};
use crate::zones;
use crate::zones::{
    day_at, monday_of, next_day, read_stamp, resolve_local, short_of, zone, Zone,
    FIRST_DAY, LAST_DAY, SHORT_DAY,
};
use vstd::prelude::*;

verus! {

/// How many rows the band draws before it starts counting instead.
pub const BAND_ROWS: usize = 8;

/// The longest the band waits before it asks again, whatever is coming: rows
/// also arrive from doors the page did not open.
pub const POLL_CAP: i64 = 300;

/// How long the band waits while a capture is still being read, whose reminder
/// does not exist yet.
pub const POLL_QUEUE: i64 = 2;

/// Where the ramp starts. Further out than this and a row is on the list
/// because it exists, not because anything is about to happen.
pub const HEAT_HOURS: i64 = 6;

/// The ramp in seconds.
pub const HEAT_WINDOW: i64 = HEAT_HOURS * 3_600;

/// The hour that a day without one means.
pub const DEFAULT_HOUR: u32 = 9;

/// How close a row is.
#[derive(Clone, Copy, PartialEq, Eq, Structural, Debug)]
pub enum Warmth {
    /// Nothing is about to happen.
    Neutral,
    /// So many seconds ahead, of a window of so many.
    Rising { ahead: i64, window: i64 },
    /// It is due, or past.
    Full,
}

/// One reminder on the band.
pub struct DueView {
    pub id: String,
    pub artifact_id: String,
    pub title: String,
    pub when: String,
    /// The time in full, always: `when` drops the date once it counts down.
    pub full: String,
    /// The instant; nothing on an undated row.
    pub at: i64,
    /// How close it is; none on an undated row.
    pub heat: Option<Warmth>,
    pub overdue: bool,
    pub undated: bool,
    pub recurring: bool,
    pub source: &'static str,
    /// Created since the band was last drawn.
    pub fresh: bool,
}

/// One event on the band.
pub struct EventView {
    pub artifact_id: String,
    pub title: String,
    pub when: String,
    pub span: String,
}

/// The row the viewer just acted on: what happened to it, and the whole
/// address that takes it back.
pub struct Just {
    pub verb: &'static str,
    pub undo: String,
}

/// The band.
pub struct DueTemplate {
    pub rows: Vec<DueView>,
    pub events: Vec<EventView>,
    pub tz: String,
    pub just: Option<Just>,
    /// When this was drawn, sent back with the next request so that a row the
    /// viewer has already seen does not announce itself again.
    pub since: i64,
    /// How many rows are behind the fold.
    pub hidden: usize,
    /// Whether the fold is open.
    pub all: bool,
    /// Seconds until this should ask again.
    pub refresh_in: Option<i64>,
}

impl Just {
    /// `j` says `verb` of a moment, and `undo` takes it back.
    pub open spec fn says(self, id: Seq<char>, verb: Seq<char>, undo: Seq<char>) -> bool {
        &&& self.verb@ == verb
        &&& self.undo@ == "/ui/moments/"@ + id + "/"@ + undo
    }

    /// What happened to a moment, and what takes it back.
    pub fn moment(id: &str, verb: &'static str, undo: &str) -> (r: Just)
        ensures
            r.says(id@, verb@, undo@),
    {
        let mut path = "/ui/moments/".to_owned();
        path.append(id);
        path.append("/");
        path.append(undo);
        Just { verb, undo: path }
    }
}

// ---------------------------------------------------------------------------
// When to ask again
// ---------------------------------------------------------------------------

/// When the band asks again: soon while a capture is being read, at the second
/// something changes where that is near, and at the cap otherwise.
pub open spec fn asks_again(queue_active: bool, next_at: Option<i64>, now: i64) -> int {
    if queue_active {
        POLL_QUEUE as int
    } else {
        match next_at {
            Some(at) => if now < at && at - now < POLL_CAP {
                at - now
            } else {
                POLL_CAP as int
            },
            None => POLL_CAP as int,
        }
    }
}

/// When the band asks again. It always does: with nothing due there may still
/// be something coming, and one read every five minutes is what that is worth.
pub fn refresh_in(queue_active: bool, next_at: Option<i64>, now: i64) -> (r: Option<i64>)
    ensures
        r matches Some(s) && s == asks_again(queue_active, next_at, now),
{
    if queue_active {
        return Some(POLL_QUEUE);
    }
    match next_at {
        Some(at) => {
            let ahead: i128 = at as i128 - now as i128;
            if 0 < ahead && ahead < POLL_CAP as i128 {
                Some(ahead as i64)
            } else {
                Some(POLL_CAP)
            }
        },
        None => Some(POLL_CAP),
    }
}

/// The band never waits longer than the cap, never asks twice in a second, and
/// never sleeps past the second at which something it is waiting for changes.
pub proof fn the_band_never_sleeps_past_a_change(
    queue_active: bool,
    next_at: Option<i64>,
    now: i64,
)
    ensures
        1 <= asks_again(queue_active, next_at, now) <= POLL_CAP,
        next_at matches Some(at) ==> now < at && !queue_active ==> now + asks_again(
            queue_active,
            next_at,
            now,
        ) <= at,
        queue_active ==> asks_again(queue_active, next_at, now) == POLL_QUEUE,
{
}

// ---------------------------------------------------------------------------
// How it is said
// ---------------------------------------------------------------------------

/// A length of time in the coarsest unit that still says something: `45s`,
/// `12m`, `3h 05m`, `2d 4h`, `9d`.
pub open spec fn span_said(secs: int) -> Seq<char> {
    if secs < 0 {
        text::decimal(0) + "s"@
    } else if secs < 60 {
        text::decimal(secs as nat) + "s"@
    } else if secs < 3600 {
        text::decimal((secs / 60) as nat) + "m"@
    } else if secs < 86400 {
        text::decimal((secs / 3600) as nat) + "h "@ + text::two_places(
            ((secs % 3600) / 60) as nat,
        ) + "m"@
    } else if secs < 604800 {
        text::decimal((secs / 86400) as nat) + "d "@ + text::decimal(
            ((secs % 86400) / 3600) as nat,
        ) + "h"@
    } else {
        text::decimal((secs / 86400) as nat) + "d"@
    }
}

/// A length of time in the coarsest unit that still says something. The
/// minutes are zero-padded so that a counter ticking down does not shift the
/// text either side of it.
pub fn span_words(secs: i64) -> (r: String)
    ensures
        r@ == span_said(secs as int),
{
    let s: u64 = if secs < 0 {
        0
    } else {
        secs as u64
    };
    if s < 60 {
        let mut r = decimal_of(s);
        r.append("s");
        return r;
    }
    let m: u64 = s / 60;
    if m < 60 {
        let mut r = decimal_of(m);
        r.append("m");
        return r;
    }
    let h: u64 = m / 60;
    if h < 24 {
        let mut r = decimal_of(h);
        r.append("h ");
        r.append(two_places_of(m % 60).as_str());
        r.append("m");
        assert(h == s / 3600);
        assert(m % 60 == (s % 3600) / 60);
        return r;
    }
    let d: u64 = h / 24;
    assert(d == s / 86400);
    if d < 7 {
        let mut r = decimal_of(d);
        r.append("d ");
        r.append(decimal_of(h % 24).as_str());
        r.append("h");
        assert(h % 24 == (s % 86400) / 3600);
        return r;
    }
    let mut r = decimal_of(d);
    r.append("d");
    r
}

/// How a time is said on the day `today`, `late` where it is past: `today
/// 14:00`, `tomorrow 09:00`, `Fri 4 Sep 09:00`, `overdue since Thu 27 Aug
/// 12:00`.
pub open spec fn when_said(
    late: bool,
    day: int,
    today: int,
    clock: Seq<char>,
    label: Seq<char>,
) -> Seq<char> {
    if late {
        "overdue since "@ + label + " "@ + clock
    } else if day == today {
        "today "@ + clock
    } else if day == today + 1 {
        "tomorrow "@ + clock
    } else {
        label + " "@ + clock
    }
}

/// How a time is said on the day `today`, given its day, its clock and what
/// that day is called.
pub fn say_when(late: bool, day: i32, today: i32, clock: &str, label: &str) -> (r: String)
    requires
        FIRST_DAY <= today <= LAST_DAY,
    ensures
        r@ == when_said(late, day as int, today as int, clock@, label@),
{
    if late {
        let mut r = "overdue since ".to_owned();
        r.append(label);
        r.append(" ");
        r.append(clock);
        r
    } else if day == today {
        let mut r = "today ".to_owned();
        r.append(clock);
        r
    } else if day == today + 1 {
        let mut r = "tomorrow ".to_owned();
        r.append(clock);
        r
    } else {
        let mut r = label.to_owned();
        r.append(" ");
        r.append(clock);
        r
    }
}

/// How a time is said in a zone; nothing where the calendar does not have it.
pub open spec fn when_in(zone: Seq<char>, at: i64, now: i64) -> Seq<char> {
    match (zones::zone_day(zone, at as int), zones::zone_day(zone, now as int)) {
        (Some(day), Some(today)) => when_said(
            at < now,
            day,
            today,
            zones::clock_words(zones::zone_clock(zone, at as int)),
            zones::day_written(day, SHORT_DAY@),
        ),
        _ => Seq::empty(),
    }
}

/// How a time is said in a zone.
pub fn when_words(at: i64, now: i64, tz: &Zone) -> (r: String)
    ensures
        r@ == when_in(tz.name@, at, now),
{
    match (day_at(at, tz), day_at(now, tz)) {
        (Some(day), Some(today)) => {
            let clock = zones::hm(at, tz);
            let label = short_of(day);
            say_when(at < now, day, today, clock.as_str(), label.as_str())
        },
        _ => String::new(),
    }
}

/// How close a time is: neutral at the far edge of the window and beyond it,
/// full at the moment it is due and every moment after.
pub open spec fn warmth_of(at: i64, now: i64) -> Warmth {
    if at <= now {
        Warmth::Full
    } else if at - now >= HEAT_WINDOW {
        Warmth::Neutral
    } else {
        Warmth::Rising { ahead: (at - now) as i64, window: HEAT_WINDOW }
    }
}

/// How close a time is.
pub fn warmth(at: i64, now: i64) -> (r: Warmth)
    requires
        i64::MIN <= at - now <= i64::MAX,
    ensures
        r == warmth_of(at, now),
{
    let ahead: i64 = at - now;
    if ahead <= 0 {
        Warmth::Full
    } else if ahead >= HEAT_WINDOW {
        Warmth::Neutral
    } else {
        Warmth::Rising { ahead, window: HEAT_WINDOW }
    }
}

/// What a row says of when it is due: how late once it is, how soon inside the
/// window, and the time outside it.
pub open spec fn due_said(zone: Seq<char>, at: i64, now: i64) -> Seq<char> {
    if at <= now {
        span_said(now - at) + " overdue"@
    } else if at - now < HEAT_WINDOW {
        "in "@ + span_said(at - now)
    } else {
        when_in(zone, at, now)
    }
}

/// What a row says of when it is due. Inside the window it counts down, which
/// is what a person acts on; outside it a time, which is what one plans
/// around; and once past, by how much.
pub fn due_words(at: i64, now: i64, tz: &Zone) -> (r: String)
    requires
        i64::MIN < at - now <= i64::MAX,
    ensures
        r@ == due_said(tz.name@, at, now),
{
    let ahead: i64 = at - now;
    if ahead <= 0 {
        let mut r = span_words(-ahead);
        r.append(" overdue");
        r
    } else if ahead < HEAT_WINDOW {
        let mut r = "in ".to_owned();
        r.append(span_words(ahead).as_str());
        r
    } else {
        when_words(at, now, tz)
    }
}

// ---------------------------------------------------------------------------
// The band
// ---------------------------------------------------------------------------

/// Whether the arithmetic of the band can be done on a row: it has no time, or
/// one whose distance from now is a number.
pub open spec fn drawable(r: DueRow, now: i64) -> bool {
    r.moment.at matches Some(at) ==> i64::MIN < at - now <= i64::MAX
}

/// `v` is the row `r` on the band.
pub open spec fn is_due_view(v: DueView, r: DueRow, zone: Seq<char>, now: i64, since: i64) -> bool {
    let m = r.moment;
    &&& v.id@ == m.id@
    &&& v.artifact_id@ == m.artifact_id@
    &&& v.title@ == r.title@
    &&& v.when@ == (match m.at {
        Some(at) => due_said(zone, at, now),
        None => "when?"@,
    })
    &&& v.full@ == (match m.at {
        Some(at) => when_in(zone, at, now),
        None => Seq::empty(),
    })
    &&& v.at == (match m.at {
        Some(at) => at,
        None => 0,
    })
    &&& v.heat == (match m.at {
        Some(at) => Some(warmth_of(at, now)),
        None => None,
    })
    &&& v.overdue == (m.at matches Some(at) && at < now)
    &&& v.undated == (m.at is None)
    &&& v.recurring == (m.rule is Some)
    &&& v.source@ == m.source.word()
    &&& v.fresh == (m.created_at > since)
}

/// `v` is the event `r` on the band.
pub open spec fn is_event_view(v: EventView, r: DueRow, zone: Seq<char>, now: i64) -> bool {
    &&& v.artifact_id@ == r.moment.artifact_id@
    &&& v.title@ == r.title@
    &&& v.when@ == (match r.moment.at {
        Some(at) => when_in(zone, at, now),
        None => Seq::empty(),
    })
    &&& v.span@ == text::or_empty(r.moment.span)
}

/// How many rows the band draws.
pub open spec fn drawn(open: nat, all: bool) -> nat {
    if all || open < BAND_ROWS {
        open
    } else {
        BAND_ROWS as nat
    }
}

/// What the band is drawn from.
pub struct BandRows<'a> {
    /// The open reminders, the most urgent first.
    pub open: &'a [DueRow],
    /// The events coming up.
    pub events: &'a [DueRow],
    /// Whether a capture is still being read.
    pub queue_active: bool,
    /// The next second at which what is due changes.
    pub next_at: Option<i64>,
}

/// What is on the band.
pub open spec fn is_band(
    t: DueTemplate,
    rows: BandRows,
    zone: Seq<char>,
    just: Option<Just>,
    now: i64,
    since: i64,
    all: bool,
) -> bool {
    &&& t.rows@.len() == drawn(rows.open@.len(), all)
    &&& forall|i: int|
        0 <= i < t.rows@.len() ==> is_due_view(
            #[trigger] t.rows@[i],
            rows.open@[i],
            zone,
            now,
            since,
        )
    &&& t.events@.len() == rows.events@.len()
    &&& forall|i: int|
        0 <= i < t.events@.len() ==> is_event_view(
            #[trigger] t.events@[i],
            rows.events@[i],
            zone,
            now,
        )
    &&& t.tz@ == zone
    &&& t.just == just
    &&& t.since == now
    &&& t.hidden == rows.open@.len() - drawn(rows.open@.len(), all)
    &&& t.all == all
    &&& t.refresh_in matches Some(s) && s == asks_again(rows.queue_active, rows.next_at, now)
}

/// One row of the band.
pub fn due_view(r: &DueRow, tz: &Zone, now: i64, since: i64) -> (v: DueView)
    requires
        drawable(*r, now),
    ensures
        is_due_view(v, *r, tz.name@, now, since),
{
    let m = &r.moment;
    let (when, full, at, heat, overdue) = match m.at {
        Some(at) => (
            due_words(at, now, tz),
            when_words(at, now, tz),
            at,
            Some(warmth(at, now)),
            at < now,
        ),
        None => ("when?".to_owned(), String::new(), 0, None, false),
    };
    DueView {
        id: m.id.clone(),
        artifact_id: m.artifact_id.clone(),
        title: r.title.clone(),
        when,
        full,
        at,
        heat,
        overdue,
        undated: m.at.is_none(),
        recurring: m.rule.is_some(),
        source: m.source.as_str(),
        fresh: m.created_at > since,
    }
}

/// One event of the band.
pub fn event_view(r: &DueRow, tz: &Zone, now: i64) -> (v: EventView)
    ensures
        is_event_view(v, *r, tz.name@, now),
{
    EventView {
        artifact_id: r.moment.artifact_id.clone(),
        title: r.title.clone(),
        when: match r.moment.at {
            Some(at) => when_words(at, now, tz),
            None => String::new(),
        },
        span: match &r.moment.span {
            Some(s) => s.clone(),
            None => String::new(),
        },
    }
}

/// The band.
///
/// What is folded away is rows, and the ones kept are the ones that came
/// first: overdue, then nearest, then the undated. The zone goes back out as
/// the zone table spells it.
pub fn render(
    rows: &BandRows,
    tz_name: &str,
    just: Option<Just>,
    now: i64,
    since: i64,
    all: bool,
) -> (r: DueTemplate)
    requires
        forall|i: int|
            0 <= i < drawn(rows.open@.len(), all) ==> drawable(#[trigger] rows.open@[i], now),
    ensures
        is_band(r, *rows, zones::zone_of(Some(tz_name@)), just, now, since, all),
{
    let tz = zone(Some(tz_name));
    let count: usize = if all || rows.open.len() < BAND_ROWS {
        rows.open.len()
    } else {
        BAND_ROWS
    };
    let mut views: Vec<DueView> = Vec::new();
    let mut i: usize = 0;
    while i < count
        invariant
            i <= count <= rows.open@.len(),
            views@.len() == i,
            forall|j: int| 0 <= j < count ==> drawable(#[trigger] rows.open@[j], now),
            forall|j: int|
                0 <= j < views@.len() ==> is_due_view(
                    #[trigger] views@[j],
                    rows.open@[j],
                    tz.name@,
                    now,
                    since,
                ),
        decreases count - i,
    {
        views.push(due_view(&rows.open[i], &tz, now, since));
        i = i + 1;
    }
    let mut events: Vec<EventView> = Vec::new();
    let mut i: usize = 0;
    while i < rows.events.len()
        invariant
            i <= rows.events@.len(),
            events@.len() == i,
            forall|j: int|
                0 <= j < events@.len() ==> is_event_view(
                    #[trigger] events@[j],
                    rows.events@[j],
                    tz.name@,
                    now,
                ),
        decreases rows.events.len() - i,
    {
        events.push(event_view(&rows.events[i], &tz, now));
        i = i + 1;
    }
    DueTemplate {
        rows: views,
        events,
        hidden: rows.open.len() - count,
        tz: tz.name,
        just,
        since: now,
        all,
        refresh_in: refresh_in(rows.queue_active, rows.next_at, now),
    }
}

/// Whether a form asks for the fold to be open.
pub fn wants_all(all: &str) -> (r: bool)
    ensures
        r == (all@ == "1"@),
{
    same(all, "1")
}

/// How far ahead the band looks for what is due.
pub fn due_until(now: i64, hours: u32) -> (r: i64)
    requires
        now + hours * 3600 <= i64::MAX,
    ensures
        r == now + hours * 3600,
{
    now + hours as i64 * 3600
}

/// How far ahead the band looks for what is coming up.
pub fn coming_until(now: i64, days: u32) -> (r: i64)
    requires
        now + days * 86400 <= i64::MAX,
    ensures
        r == now + days * 86400,
{
    now + days as i64 * 86400
}

/// Nothing is lost to the fold: what is drawn and what is counted are all
/// there is, and an open fold hides nothing.
pub proof fn the_fold_loses_nothing(
    t: DueTemplate,
    rows: BandRows,
    zone: Seq<char>,
    just: Option<Just>,
    now: i64,
    since: i64,
    all: bool,
)
    requires
        is_band(t, rows, zone, just, now, since, all),
    ensures
        t.rows@.len() + t.hidden == rows.open@.len(),
        all ==> t.hidden == 0,
        !all ==> t.rows@.len() <= BAND_ROWS,
        t.hidden > 0 ==> t.rows@.len() == BAND_ROWS,
{
}

/// A row is overdue, undated or still to come; an overdue row is at full
/// warmth, and an undated one has none.
pub proof fn a_row_is_one_of_three(v: DueView, r: DueRow, zone: Seq<char>, now: i64, since: i64)
    requires
        is_due_view(v, r, zone, now, since),
    ensures
        !(v.overdue && v.undated),
        v.overdue ==> v.heat == Some(Warmth::Full),
        v.undated <==> v.heat is None,
        v.undated ==> v.when@ == "when?"@,
{
}

// ---------------------------------------------------------------------------
// The buttons
// ---------------------------------------------------------------------------

/// The day that a snooze word means on the day `today`: tomorrow, or the first
/// Monday from tomorrow on.
pub open spec fn snooze_day(word: Seq<char>, today: int) -> Option<int> {
    if today >= LAST_DAY {
        None
    } else if word == "tomorrow"@ {
        Some(today + 1)
    } else if word == "monday"@ && zones::monday_from(today + 1) <= LAST_DAY {
        Some(zones::monday_from(today + 1))
    } else {
        None
    }
}

/// The day that a snooze word means on the day `today`.
pub fn snooze_day_of(word: &str, today: i32) -> (r: Option<i32>)
    requires
        FIRST_DAY <= today <= LAST_DAY,
    ensures
        r is Some <==> snooze_day(word@, today as int) is Some,
        r matches Some(d) ==> snooze_day(word@, today as int) == Some(d as int) && FIRST_DAY <= d
            <= LAST_DAY,
{
    proof {
        reveal_strlit("tomorrow");
        reveal_strlit("monday");
        assert("tomorrow"@.len() != "monday"@.len());
    }
    match next_day(today) {
        Some(d) => if same(word, "tomorrow") {
            Some(d)
        } else if same(word, "monday") {
            monday_of(d)
        } else {
            None
        },
        None => None,
    }
}

/// Until when a snooze word puts a reminder aside in a zone: an hour on, or
/// nine in the morning of the day it means. Any other word hides nothing.
pub open spec fn snoozed_until(word: Seq<char>, now: i64, zone: Seq<char>) -> Option<int> {
    if word == "hour"@ {
        Some(now + 3600)
    } else if word != "tomorrow"@ && word != "monday"@ {
        None
    } else {
        match zones::zone_day(zone, now as int) {
            Some(today) => match snooze_day(word, today) {
                Some(d) => zones::resolved(
                    zone,
                    d,
                    DEFAULT_HOUR * 3600,
                    zones::DAY_SECONDS as int,
                ),
                None => None,
            },
            None => None,
        }
    }
}

/// Until when a snooze word puts a reminder aside. The three words are all
/// there are: a typo, or no word at all, must not take a row off the band and
/// report it snoozed.
pub fn snooze_until(word: &str, now: i64, tz: &Zone) -> (r: Option<i64>)
    requires
        word@ == "hour"@ ==> now + 3600 <= i64::MAX,
    ensures
        r is Some <==> snoozed_until(word@, now, tz.name@) is Some,
        r matches Some(t) ==> snoozed_until(word@, now, tz.name@) == Some(t as int),
{
    if same(word, "hour") {
        return Some(now + 3600);
    }
    if !same(word, "tomorrow") && !same(word, "monday") {
        return None;
    }
    match day_at(now, tz) {
        Some(today) => match snooze_day_of(word, today) {
            Some(d) => resolve_local(d, DEFAULT_HOUR * 3600, tz),
            None => None,
        },
        None => None,
    }
}

/// What a press of snooze does: until when the reminder is put aside, and what
/// the band says of it.
pub fn snooze(id: &str, word: &str, now: i64, tz_name: &str) -> (r: Option<(i64, Just)>)
    requires
        word@ == "hour"@ ==> now + 3600 <= i64::MAX,
    ensures
        r is Some <==> snoozed_until(word@, now, zones::zone_of(Some(tz_name@))) is Some,
        r matches Some(s) ==> snoozed_until(word@, now, zones::zone_of(Some(tz_name@))) == Some(
            s.0 as int,
        ) && s.1.says(id@, "Snoozed"@, "unsnooze"@),
{
    let tz = zone(Some(tz_name));
    match snooze_until(word, now, &tz) {
        Some(until) => Some((until, Just::moment(id, "Snoozed", "unsnooze"))),
        None => None,
    }
}

/// What the band says of a reminder that was marked done.
pub fn done(id: &str) -> (r: Just)
    ensures
        r.says(id@, "Done"@, "undone"@),
{
    Just::moment(id, "Done", "undone")
}

/// The instant a date field names in a zone.
pub open spec fn date_named(when: Seq<char>, zone: Seq<char>) -> Option<int> {
    match zones::stamp_read(when) {
        Some((day, second)) => zones::resolved(zone, day, second, zones::DAY_SECONDS as int),
        None => None,
    }
}

/// The move that a date field asks for.
pub struct Move {
    pub at: i64,
    /// The zone it was asked for in, as the zone table spells it.
    pub tz: String,
}

/// Where a date field moves a reminder to, where it names a time and there is
/// such a reminder.
pub fn set_date(when: &str, tz_name: &str, exists: bool) -> (r: Option<Move>)
    ensures
        r is Some <==> exists && date_named(when@, zones::zone_of(Some(tz_name@))) is Some,
        r matches Some(m) ==> date_named(when@, zones::zone_of(Some(tz_name@))) == Some(
            m.at as int,
        ) && m.tz@ == zones::zone_of(Some(tz_name@)),
{
    if !exists {
        return None;
    }
    let tz = zone(Some(tz_name));
    match read_stamp(when) {
        Some((day, second)) => match resolve_local(day, second, &tz) {
            Some(at) => Some(Move { at, tz: tz.name }),
            None => None,
        },
        None => None,
    }
}

/// What the band says where a reading was taken back: that it was, and the
/// address that hands the note back to be read. Drawn on what happened, not on
/// what was asked for: a reminder somebody set is never removed.
pub fn not_a_reminder(moment: Option<&Moment>, withdrawn: bool) -> (r: Option<Just>)
    ensures
        r is Some <==> moment is Some && withdrawn,
        r matches Some(j) ==> j.verb@ == "Not a reminder"@ && j.undo@ == "/ui/artifacts/"@
            + moment->0.artifact_id@ + "/is-a-reminder"@,
{
    match moment {
        Some(m) => if withdrawn {
            let mut undo = "/ui/artifacts/".to_owned();
            undo.append(m.artifact_id.as_str());
            undo.append("/is-a-reminder");
            Some(Just { verb: "Not a reminder", undo })
        } else {
            None
        },
        None => None,
    }
}

/// A snooze by a word is always for later: an hour on is, and tomorrow and
/// Monday are days that come after today.
pub proof fn a_snooze_word_means_a_later_day(word: Seq<char>, today: int)
    ensures
        snooze_day(word, today) matches Some(d) ==> today < d <= today + 7,
        snooze_day(word, today) matches Some(d) ==> word == "monday"@ ==> (d - 1) % 7 == 0,
{
    reveal_strlit("tomorrow");
    reveal_strlit("monday");
    assert("tomorrow"@.len() != "monday"@.len());
}

// ---------------------------------------------------------------------------
// What holds of every row
// ---------------------------------------------------------------------------

/// How long a span is, is said in whole units, none of them more than the unit
/// ahead of it holds, and the last of them is the last that still fits: seconds
/// up to a minute, minutes up to an hour, hours and minutes up to a day, days
/// and hours up to a week, and days from there on. Nothing is less than no
/// seconds.
pub proof fn a_span_says_how_long_it_is(secs: int)
    ensures
        secs < 0 ==> span_said(secs) == span_said(0),
        0 <= secs < 60 ==> span_said(secs) == text::decimal(secs as nat) + "s"@,
        60 <= secs < 3600 ==> exists|m: nat|
            span_said(secs) == #[trigger] text::decimal(m) + "m"@ && m * 60 <= secs < (m + 1) * 60,
        3600 <= secs < 86400 ==> exists|h: nat, m: nat|
            span_said(secs) == #[trigger] text::decimal(h) + "h "@ + #[trigger] text::two_places(m)
                + "m"@ && m < 60 && h * 3600 + m * 60 <= secs < h * 3600 + (m + 1) * 60,
        86400 <= secs < 604800 ==> exists|d: nat, h: nat|
            span_said(secs) == #[trigger] text::decimal(d) + "d "@ + #[trigger] text::decimal(h)
                + "h"@ && h < 24 && d * 86400 + h * 3600 <= secs < d * 86400 + (h + 1) * 3600,
        604800 <= secs ==> exists|d: nat|
            span_said(secs) == #[trigger] text::decimal(d) + "d"@ && d * 86400 <= secs < (d + 1)
                * 86400,
{
    if 60 <= secs < 3600 {
        let m = (secs / 60) as nat;
        assert(span_said(secs) == text::decimal(m) + "m"@);
    } else if 3600 <= secs < 86400 {
        let h = (secs / 3600) as nat;
        let m = ((secs % 3600) / 60) as nat;
        assert(span_said(secs) == text::decimal(h) + "h "@ + text::two_places(m) + "m"@);
    } else if 86400 <= secs < 604800 {
        let d = (secs / 86400) as nat;
        let h = ((secs % 86400) / 3600) as nat;
        assert(span_said(secs) == text::decimal(d) + "d "@ + text::decimal(h) + "h"@);
    } else if 604800 <= secs {
        let d = (secs / 86400) as nat;
        assert(span_said(secs) == text::decimal(d) + "d"@);
    }
}

/// A row counts up once it is due, counts down within six hours of that, and
/// names the day and the hour before.
pub proof fn a_row_counts_down_within_six_hours(zone: Seq<char>, at: i64, now: i64)
    ensures
        at <= now ==> due_said(zone, at, now) == span_said(now - at) + " overdue"@,
        now < at < now + 21600 ==> due_said(zone, at, now) == "in "@ + span_said(at - now),
        now + 21600 <= at ==> due_said(zone, at, now) == when_in(zone, at, now),
{
}

/// A row is cold until six hours ahead, warms over those by the seconds that
/// are left of them, and is hot once it is due.
pub proof fn a_row_warms_over_six_hours(at: i64, now: i64)
    ensures
        warmth_of(at, now) is Full <==> at <= now,
        warmth_of(at, now) is Neutral <==> at >= now + 21600,
        now < at < now + 21600 ==> (warmth_of(at, now) matches Warmth::Rising { ahead, window }
            && now + ahead == at && window == 21600),
{
}

/// A day is named by where it lies: today, tomorrow, or by its own name; and
/// one that is past says since when.
pub proof fn a_time_names_its_day(
    day: int,
    today: int,
    clock: Seq<char>,
    label: Seq<char>,
)
    ensures
        when_said(true, day, today, clock, label) == "overdue since "@ + label + " "@ + clock,
        when_said(false, today, today, clock, label) == "today "@ + clock,
        when_said(false, today + 1, today, clock, label) == "tomorrow "@ + clock,
        day != today && day != today + 1 ==> when_said(false, day, today, clock, label) == label
            + " "@ + clock,
{
}

/// A time is said in the reader's zone: the day and the clock are those that
/// the zone has at the instant, and it is late exactly where the instant is
/// past.
pub proof fn a_time_is_said_in_its_zone(zone: Seq<char>, at: i64, now: i64, day: int, today: int)
    ensures
        zones::zone_day(zone, at as int) == Some(day) && zones::zone_day(zone, now as int) == Some(
            today,
        ) ==> when_in(zone, at, now) == when_said(
            at < now,
            day,
            today,
            zones::clock_words(zones::zone_clock(zone, at as int)),
            zones::day_written(day, "%a %-d %b"@),
        ),
        zones::zone_day(zone, at as int) is None || zones::zone_day(zone, now as int) is None
            ==> when_in(zone, at, now).len() == 0,
{
}

/// A row shows the reminder that it stands for.
pub proof fn a_row_shows_its_reminder(
    v: DueView,
    r: DueRow,
    zone: Seq<char>,
    now: i64,
    since: i64,
)
    requires
        is_due_view(v, r, zone, now, since),
    ensures
        v.id@ == r.moment.id@,
        v.artifact_id@ == r.moment.artifact_id@,
        v.title@ == r.title@,
        v.undated <==> r.moment.at is None,
        v.recurring <==> r.moment.rule is Some,
        v.fresh <==> since < r.moment.created_at,
        r.moment.source is ByHand ==> v.source@ == "set"@,
        r.moment.source is Cue ==> v.source@ == "cue"@,
        r.moment.source is Extracted ==> v.source@ == "extracted"@,
        r.moment.at is None ==> v.when@ == "when?"@ && v.full@.len() == 0 && v.at == 0 && v.heat
            is None && !v.overdue,
        r.moment.at matches Some(at) ==> {
            &&& v.at == at
            &&& v.overdue <==> at < now
            &&& v.full@ == when_in(zone, at, now)
            &&& v.when@ == due_said(zone, at, now)
            &&& v.heat == Some(warmth_of(at, now))
        },
{
}

/// An event shows what it is on, when it is, and the words it was read from.
pub proof fn an_event_shows_when_it_is(v: EventView, r: DueRow, zone: Seq<char>, now: i64)
    requires
        is_event_view(v, r, zone, now),
    ensures
        v.artifact_id@ == r.moment.artifact_id@,
        v.title@ == r.title@,
        r.moment.at matches Some(at) ==> v.when@ == when_in(zone, at, now),
        r.moment.at is None ==> v.when@.len() == 0,
        r.moment.span matches Some(words) ==> v.span@ == words@,
        r.moment.span is None ==> v.span@.len() == 0,
{
}

/// The band draws the first eight reminders, or all of them where they are
/// fewer or all were asked for, and counts the rest; it draws every event, and
/// says when it was drawn.
pub proof fn the_band_folds_at_eight(
    t: DueTemplate,
    rows: BandRows,
    zone: Seq<char>,
    just: Option<Just>,
    now: i64,
    since: i64,
    all: bool,
    i: int,
)
    requires
        is_band(t, rows, zone, just, now, since, all),
    ensures
        all || rows.open@.len() <= 8 ==> t.rows@.len() == rows.open@.len(),
        !all && rows.open@.len() > 8 ==> t.rows@.len() == 8,
        t.hidden + t.rows@.len() == rows.open@.len(),
        0 <= i < t.rows@.len() ==> is_due_view(t.rows@[i], rows.open@[i], zone, now, since),
        t.events@.len() == rows.events@.len(),
        0 <= i < t.events@.len() ==> is_event_view(t.events@[i], rows.events@[i], zone, now),
        t.tz@ == zone,
        t.just == just,
        t.since == now,
        t.all == all,
        rows.queue_active ==> t.refresh_in == Some(2i64),
        !rows.queue_active && rows.next_at is None ==> t.refresh_in == Some(300i64),
        !rows.queue_active ==> (rows.next_at matches Some(next) ==> if now < next <= now + 300 {
            t.refresh_in == Some((next - now) as i64)
        } else {
            t.refresh_in == Some(300i64)
        }),
{
}

/// What was just done can be taken back at one address, which names the moment
/// and what takes it back.
pub proof fn what_was_done_can_be_taken_back(
    j: Just,
    id: Seq<char>,
    verb: Seq<char>,
    undo: Seq<char>,
)
    requires
        j.says(id, verb, undo),
    ensures
        j.verb@ == verb,
        j.undo@ == "/ui/moments/"@ + id + "/"@ + undo,
{
}

/// A snooze of an hour is an hour. Tomorrow is the day after today, and monday
/// the first Monday after today; both are at nine in the reader's zone, or at
/// the first instant after it where the zone skips that. No other word is a
/// snooze.
pub proof fn a_snooze_is_until_nine(word: Seq<char>, now: i64, zone: Seq<char>, today: int)
    ensures
        snoozed_until("hour"@, now, zone) == Some(now + 3600),
        word != "hour"@ && word != "tomorrow"@ && word != "monday"@ ==> snoozed_until(
            word,
            now,
            zone,
        ) is None,
        today < 95_745_399 ==> snooze_day("tomorrow"@, today) == Some(today + 1),
        snooze_day("monday"@, today) matches Some(d) ==> today < d <= today + 7 && (d - 1) % 7 == 0,
        today + 7 <= 95_745_399 ==> snooze_day("monday"@, today) is Some,
        word != "tomorrow"@ && word != "monday"@ ==> snooze_day(word, today) is None,
        today >= 95_745_399 ==> snooze_day(word, today) is None,
        zones::zone_day(zone, now as int) == Some(today) && (word == "tomorrow"@ || word
            == "monday"@) ==> match snooze_day(word, today) {
            Some(d) => snoozed_until(word, now, zone) == zones::resolved(zone, d, 32400, 86400),
            None => snoozed_until(word, now, zone) is None,
        },
        zones::zone_day(zone, now as int) is None && word != "hour"@ ==> snoozed_until(
            word,
            now,
            zone,
        ) is None,
{
    reveal_strlit("hour");
    reveal_strlit("tomorrow");
    reveal_strlit("monday");
    assert("tomorrow"@.len() != "monday"@.len());
    assert("hour"@.len() != "monday"@.len());
    assert("tomorrow"@.len() != "hour"@.len());
    zones::a_monday_is_near(today + 1);
}

/// A date that was picked is the instant that the reader's zone has of it, or
/// the first after it where the zone skips that; what is no date is none.
pub proof fn a_picked_date_is_in_its_zone(when: Seq<char>, zone: Seq<char>, day: int, second: int)
    ensures
        zones::stamp_parsed(when, "%Y-%m-%dT%H:%M"@) == Some((day, second)) ==> date_named(
            when,
            zone,
        ) == zones::resolved(zone, day, second, 86400),
        zones::stamp_parsed(when, "%Y-%m-%dT%H:%M"@) is None ==> date_named(when, zone) is None,
{
}

// ---------------------------------------------------------------------------
// What holds of every call
// ---------------------------------------------------------------------------

/// The fold is opened by a one and by nothing else; what is due is looked for
/// so many hours ahead, and what is coming so many days.
pub proof fn how_far_the_band_looks(
    all: &str,
    opened: bool,
    now: i64,
    hours: u32,
    until: i64,
    days: u32,
    coming: i64,
)
    requires
        call_ensures(wants_all, (all,), opened),
        call_ensures(due_until, (now, hours), until),
        call_ensures(coming_until, (now, days), coming),
    ensures
        opened <==> all@ == seq!['1'],
        until - now == 3600 * hours,
        coming - now == 86400 * days,
{
    reveal_strlit("1");
    assert("1"@ =~= seq!['1']);
}

/// What was done to a reminder is said in a word, and the address beside it
/// takes exactly that back.
pub proof fn what_was_done_says_what_takes_it_back(
    id: &str,
    did: Just,
    word: &str,
    now: i64,
    tz: &str,
    put_off: Option<(i64, Just)>,
    m: &Moment,
    withdrawn: bool,
    none: Option<Just>,
)
    requires
        call_ensures(done, (id,), did),
        call_ensures(snooze, (id, word, now, tz), put_off),
        call_ensures(not_a_reminder, (Some(m), withdrawn), none),
    ensures
        did.verb@ == "Done"@,
        did.undo@ == "/ui/moments/"@ + id@ + "/"@ + "undone"@,
        put_off matches Some((until, j)) ==> j.verb@ == "Snoozed"@ && j.undo@ == "/ui/moments/"@
            + id@ + "/"@ + "unsnooze"@,
        word@ == "hour"@ ==> (put_off matches Some((until, j)) && until == now + 3600),
        word@ != "hour"@ && word@ != "tomorrow"@ && word@ != "monday"@ ==> put_off is None,
        none is Some <==> withdrawn,
        none matches Some(j) ==> j.verb@ == "Not a reminder"@ && j.undo@ == "/ui/artifacts/"@
            + m.artifact_id@ + "/is-a-reminder"@,
{
}

/// There is nothing to withdraw where there is no reminder.
pub proof fn no_reminder_is_no_reminder_to_withdraw(withdrawn: bool, r: Option<Just>)
    requires
        call_ensures(not_a_reminder, (None::<&Moment>, withdrawn), r),
    ensures
        r is None,
{
}

/// A reminder is moved where there is one and a date was picked, to the instant
/// that was picked in the zone it was picked in.
pub proof fn a_reminder_moves_to_the_date_picked(
    when: &str,
    tz: &str,
    exists_one: bool,
    r: Option<Move>,
)
    requires
        call_ensures(set_date, (when, tz, exists_one), r),
    ensures
        !exists_one ==> r is None,
        date_named(when@, zones::zone_of(Some(tz@))) is None ==> r is None,
        exists_one ==> (date_named(when@, zones::zone_of(Some(tz@))) matches Some(at) ==> (
        r matches Some(m) && m.at == at && m.tz@ == zones::zone_of(Some(tz@)))),
{
}

/// The band that is drawn shows the reminders that are open, in their order, in
/// the zone that was named; and what it does not show it counts.
pub proof fn the_band_shows_what_is_open(
    rows: &BandRows,
    tz: &str,
    just: Option<Just>,
    now: i64,
    since: i64,
    all: bool,
    t: DueTemplate,
    i: int,
)
    requires
        call_ensures(render, (rows, tz, just, now, since, all), t),
        0 <= i < t.rows@.len(),
    ensures
        t.rows@.len() + t.hidden == rows.open@.len(),
        t.rows@[i].id@ == rows.open@[i].moment.id@,
        t.rows@[i].title@ == rows.open@[i].title@,
        t.rows@[i].overdue <==> (rows.open@[i].moment.at matches Some(at) && at < now),
        t.events@.len() == rows.events@.len(),
        t.tz@ == zones::zone_of(Some(tz@)),
        t.since == now,
        t.just == just,
{
    assert(is_due_view(t.rows@[i], rows.open@[i], zones::zone_of(Some(tz@)), now, since));
}

/// A span of days is said in the days and the hours that it holds, and in
/// nothing it does not hold.
pub proof fn days_are_said_with_their_hours(secs: i64, r: String, d: nat, h: nat)
    requires
        call_ensures(span_words, (secs,), r),
        86400 <= secs < 604800,
        h < 24,
        d * 86400 + h * 3600 <= secs < d * 86400 + (h + 1) * 3600,
    ensures
        r@ == text::decimal(d) + "d "@ + text::decimal(h) + "h"@,
{
    a_span_says_how_long_it_is(secs as int);
    let (e, k) = choose|e: nat, k: nat|
        span_said(secs as int) == #[trigger] text::decimal(e) + "d "@ + #[trigger] text::decimal(k)
            + "h"@ && k < 24 && e * 86400 + k * 3600 <= secs < e * 86400 + (k + 1) * 3600;
    assert(e == d && k == h);
}

} // verus!
