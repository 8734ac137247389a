use engram::due::{
    coming_until, done, due_until, due_view, due_words, event_view, not_a_reminder, refresh_in,
    render, set_date, snooze, snooze_until, span_words, wants_all, warmth, when_words, BandRows,
    Just, Warmth, BAND_ROWS, HEAT_HOURS,
};
use engram::records::{DueRow, Kind, Moment, Source};
use engram::zones::{day_start, hm, read_day, zone, Zone};

fn berlin() -> Zone {
    zone(Some("Europe/Berlin"))
}

/// Noon of the thirtieth of August 2026 in Berlin.
fn noon() -> i64 {
    day_start(read_day("2026-08-30").unwrap(), &berlin()).unwrap() + 12 * 3_600
}

fn heat(at: i64, now: i64) -> f32 {
    match warmth(at, now) {
        Warmth::Neutral => 0.0,
        Warmth::Full => 1.0,
        Warmth::Rising { ahead, window } => 1.0 - ahead as f32 / window as f32,
    }
}

fn row(id: &str, at: Option<i64>) -> DueRow {
    DueRow {
        moment: Moment {
            id: id.into(),
            artifact_id: format!("art-{id}"),
            kind: Kind::Due,
            at,
            snoozed_until: None,
            done_at: None,
            created_at: 0,
            rule: None,
            source: Source::Extracted,
            span: None,
        },
        title: format!("title {id}"),
        named: true,
    }
}

#[test]
fn the_cadence_is_the_soonest_thing_worth_asking_about() {
    assert_eq!(refresh_in(true, None, 1_000), Some(2), "a capture is still being read");
    assert_eq!(
        refresh_in(false, None, 1_000),
        Some(300),
        "nothing pending is not nothing coming: the band also shows events, \
         and rows arrive from doors this page did not open"
    );
    assert_eq!(refresh_in(false, Some(1_090), 1_000), Some(90), "polled at the second it lands");
    assert_eq!(refresh_in(false, Some(20_000), 1_000), Some(300), "and no later than the cap");
    assert_eq!(
        refresh_in(false, Some(900), 1_000),
        Some(300),
        "already past and on screen, so the cap is the whole answer"
    );
}

#[test]
fn when_words_read_like_a_person_would_say_them() {
    let tz = berlin();
    let now = noon();
    assert_eq!(when_words(now + 2 * 3_600, now, &tz), "today 14:00");
    assert_eq!(when_words(now + 21 * 3_600, now, &tz), "tomorrow 09:00");
    assert_eq!(when_words(now + 5 * 86_400, now, &tz), "Fri 4 Sep 12:00");
    assert_eq!(when_words(now - 3 * 86_400, now, &tz), "overdue since Thu 27 Aug 12:00");
}

#[test]
fn a_row_counts_down_inside_the_window_and_names_the_day_outside_it() {
    let tz = berlin();
    let now = noon();
    assert_eq!(due_words(now + 45, now, &tz), "in 45s");
    assert_eq!(due_words(now + 12 * 60, now, &tz), "in 12m");
    assert_eq!(due_words(now + 3 * 3_600 + 300, now, &tz), "in 3h 05m");
    assert_eq!(due_words(now + HEAT_HOURS * 3_600, now, &tz), "today 18:00");
    assert_eq!(due_words(now + 5 * 86_400, now, &tz), "Fri 4 Sep 12:00");
    assert_eq!(due_words(now - 90 * 60, now, &tz), "1h 30m overdue");
    assert_eq!(due_words(now - 3 * 86_400, now, &tz), "3d 0h overdue");
    assert_eq!(due_words(now - 30 * 86_400, now, &tz), "30d overdue");
}

#[test]
fn heat_is_nothing_at_the_window_and_everything_once_due() {
    let now = 1_000_000;
    assert_eq!(heat(now + HEAT_HOURS * 3_600, now), 0.0);
    assert_eq!(heat(now + 30 * 86_400, now), 0.0);
    assert_eq!(heat(now, now), 1.0);
    assert_eq!(heat(now - 86_400, now), 1.0);
    let half = heat(now + HEAT_HOURS * 1_800, now);
    assert!((half - 0.5).abs() < 0.001, "halfway through the window: {half}");
}

#[test]
fn a_span_is_said_in_its_two_largest_parts() {
    assert_eq!(span_words(45), "45s");
    assert_eq!(span_words(12 * 60), "12m");
    assert_eq!(span_words(3 * 3_600 + 300), "3h 05m");
    assert_eq!(span_words(3 * 86_400), "3d 0h");
    assert_eq!(span_words(30 * 86_400), "30d");
}

#[test]
fn nothing_due_renders_nothing_at_all() {
    let t = render(
        &BandRows { open: &[], events: &[], queue_active: false, next_at: None },
        "Europe/Berlin",
        None,
        1_000,
        0,
        false,
    );
    assert!(t.rows.is_empty() && t.events.is_empty() && t.just.is_none());
    assert_eq!(t.hidden, 0);
    assert_eq!(t.refresh_in, Some(300));
}

#[test]
fn a_row_is_overdue_coming_or_undated() {
    let now = noon();
    let tz = berlin();
    let late = due_view(&row("late", Some(now - 3_600)), &tz, now, 0);
    assert!(late.overdue && !late.undated);
    let soon = due_view(&row("soon", Some(now + 3 * 3_600)), &tz, now, 0);
    assert!(!soon.overdue && !soon.undated);
    assert_eq!(soon.when, "in 3h 00m");
    assert_eq!(soon.at, now + 3 * 3_600);
    assert!(matches!(
        soon.heat,
        Some(Warmth::Rising { ahead: 10_800, window: 21_600 })
    ));
    let never = due_view(&row("never", None), &tz, now, 0);
    assert!(never.undated && !never.overdue && never.heat.is_none());
}

#[test]
fn a_band_longer_than_it_can_be_read_folds_the_rest_into_a_count() {
    let now = noon();
    let open: Vec<DueRow> =
        (0..12).map(|i| row(&format!("r{i}"), Some(now + i * 60))).collect();
    let rows = BandRows { open: &open, events: &[], queue_active: false, next_at: None };
    let folded = render(&rows, "Europe/Berlin", None, now, 0, false);
    assert_eq!(folded.rows.len(), BAND_ROWS);
    assert_eq!(folded.hidden, 4);
    let unfolded = render(&rows, "Europe/Berlin", None, now, 0, true);
    assert_eq!(unfolded.rows.len(), 12);
    assert_eq!(unfolded.hidden, 0);
    assert!(wants_all("1"));
    assert!(!wants_all(""));
}

#[test]
fn a_band_inside_the_cap_says_nothing_about_folding() {
    let now = noon();
    let open: Vec<DueRow> =
        (0..8).map(|i| row(&format!("r{i}"), Some(now + i * 60))).collect();
    let rows = BandRows { open: &open, events: &[], queue_active: false, next_at: None };
    assert_eq!(render(&rows, "UTC", None, now, 0, false).hidden, 0);
}

#[test]
fn the_zone_is_echoed_as_the_zone_table_spells_it() {
    let rows = BandRows { open: &[], events: &[], queue_active: false, next_at: None };
    assert_eq!(render(&rows, "Europe/Berlin", None, 0, 0, false).tz, "Europe/Berlin");
    assert_eq!(render(&rows, "\r\nSet-Cookie: x", None, 0, 0, false).tz, "UTC");
}

#[test]
fn a_row_the_viewer_has_already_seen_does_not_announce_itself_again() {
    let now = noon();
    let mut r = row("new", Some(now + 60));
    r.moment.created_at = now - 10;
    assert!(due_view(&r, &berlin(), now, now - 20).fresh);
    assert!(!due_view(&r, &berlin(), now, now).fresh);
}

#[test]
fn an_event_says_what_it_was_read_from() {
    let now = noon();
    let mut r = row("fair", Some(now + 21 * 3_600));
    r.moment.span = Some("tomorrow at nine".into());
    let e = event_view(&r, &berlin(), now);
    assert_eq!(e.when, "tomorrow 09:00");
    assert_eq!(e.span, "tomorrow at nine");
    assert_eq!(e.artifact_id, "art-fair");
}

#[test]
fn snooze_until_tomorrow_is_nine_in_the_viewers_zone() {
    let tz = berlin();
    let now = noon();
    let midnight = day_start(read_day("2026-08-31").unwrap(), &tz).unwrap();
    assert_eq!(snooze_until("tomorrow", now, &tz), Some(midnight + 9 * 3_600));
    let (at, just) = snooze("m1", "tomorrow", now, "Europe/Berlin").unwrap();
    assert_eq!(at, midnight + 9 * 3_600);
    assert_eq!(just.undo, "/ui/moments/m1/unsnooze");
}

#[test]
fn a_snooze_word_nobody_recognises_hides_nothing() {
    assert!(snooze("m1", "tomorow", noon(), "Europe/Berlin").is_none());
    assert_eq!(snooze_until("", noon(), &berlin()), None);
}

#[test]
fn an_hour_is_an_hour_and_monday_is_the_next_one() {
    let tz = berlin();
    let now = noon();
    assert_eq!(snooze_until("hour", now, &tz), Some(now + 3_600));
    // The thirtieth of August 2026 is a Sunday.
    assert_eq!(snooze_until("monday", now, &tz), snooze_until("tomorrow", now, &tz));
    // On a Monday, Monday is a week away.
    let monday = day_start(read_day("2026-09-07").unwrap(), &tz).unwrap();
    assert_eq!(snooze_until("monday", now + 86_400, &tz), Some(monday + 9 * 3_600));
}

#[test]
fn a_done_row_can_be_undone() {
    let Just { verb, undo } = done("m7");
    assert_eq!(verb, "Done");
    assert_eq!(undo, "/ui/moments/m7/undone");
}

#[test]
fn setting_a_date_moves_the_row_it_was_given() {
    let m = set_date("2027-01-05T10:30", "Europe/Berlin", true).unwrap();
    let midnight = day_start(read_day("2027-01-05").unwrap(), &berlin()).unwrap();
    assert_eq!(m.at, midnight + 10 * 3_600 + 1_800);
    assert_eq!(m.tz, "Europe/Berlin");
    assert!(set_date("not a date", "Europe/Berlin", true).is_none());
    assert!(set_date("2027-01-05T10:30", "Europe/Berlin", false).is_none());
}

#[test]
fn a_date_in_the_hour_the_clocks_go_back_is_still_set() {
    // 02:30 comes twice on the 25th of October 2026 in Berlin.
    let m = set_date("2026-10-25T02:30", "Europe/Berlin", true).unwrap();
    let midnight = day_start(read_day("2026-10-25").unwrap(), &berlin()).unwrap();
    assert_eq!(m.at, midnight + 2 * 3_600 + 1_800);
    assert_eq!(hm(m.at, &berlin()), "02:30");
}

#[test]
fn a_date_in_the_hour_the_clocks_skip_is_still_set() {
    // 02:30 on 28 March 2027 never happens in Berlin: the clocks jump from
    // 02:00 to 03:00, and the first instant the zone has again is taken.
    let m = set_date("2027-03-28T02:30", "Europe/Berlin", true).unwrap();
    let midnight = day_start(read_day("2027-03-28").unwrap(), &berlin()).unwrap();
    assert_eq!(m.at, midnight + 2 * 3_600);
    assert_eq!(hm(m.at, &berlin()), "03:00");
}

#[test]
fn a_reminder_that_was_none_can_be_given_back() {
    let m = row("m", None).moment;
    let just = not_a_reminder(Some(&m), true).unwrap();
    assert_eq!(just.verb, "Not a reminder");
    assert_eq!(just.undo, "/ui/artifacts/art-m/is-a-reminder");
    assert!(not_a_reminder(Some(&m), false).is_none());
    assert!(not_a_reminder(None, true).is_none());
}

#[test]
fn the_band_looks_hours_and_days_ahead() {
    assert_eq!(due_until(1_000, 48), 1_000 + 48 * 3_600);
    assert_eq!(coming_until(1_000, 14), 1_000 + 14 * 86_400);
}
