use engram::day::{
    corpus_line, day_address_of, entry, facts, page, set_entry, sitting_line, today, which_day,
    DayCorpus, DayRows, DaySitting, Pursuit,
};
use engram::json::Json;
use engram::links::{leads_here, read_link, same_origin_path, way_back_of};
use engram::records::{
    ArtifactStatus, Chunk, Corpus, CorpusStatus, DueRow, Error, Kind, Moment, Provenance, Source,
};
use engram::zones::{
    bounds, clock_face, day_at, day_start, hm, iso_of, long_of, monday_of, next_day, previous_day,
    read_day, read_stamp, resolve_local, short_of, zone, zone_named, Zone, EPOCH_DAY, FIRST_DAY,
    LAST_DAY,
};

fn berlin() -> Zone {
    zone(Some("Europe/Berlin"))
}

fn corpus(id: &str, text: &str, origin: &str, day: Option<&str>, at: i64) -> Corpus {
    Corpus {
        id: id.into(),
        raw_text: text.into(),
        origin: origin.into(),
        status: CorpusStatus::Ready,
        title_hint: None,
        label: text.into(),
        source_url: None,
        created_at: at,
        restored_at: None,
        coverage: None,
        metadata: match day {
            Some(d) => Json::Object(vec![("day".into(), Json::Text(d.into()))]),
            None => Json::Null,
        },
    }
}

fn chunk(id: &str, title: Option<&str>, opening: &str, provenance: Provenance) -> Chunk {
    Chunk {
        id: id.into(),
        text: opening.into(),
        title: title.map(str::to_string),
        opening: opening.into(),
        html: String::new(),
        category: None,
        tags: vec![],
        flags: vec![],
        flag_detail: None,
        caveats: vec![],
        cues: vec![],
        status: ArtifactStatus::Active,
        superseded_by: None,
        last_verified_at: None,
        provenance,
        corpus_id: None,
        corpus_span: None,
        segment_idx: None,
        ordinal: 0,
        created_at: 0,
    }
}

fn due(id: &str, kind: Kind, at: Option<i64>) -> DueRow {
    DueRow {
        moment: Moment {
            id: id.into(),
            artifact_id: format!("art-{id}"),
            kind,
            at,
            snoozed_until: None,
            done_at: None,
            created_at: 0,
            rule: None,
            source: Source::ByHand,
            span: None,
        },
        title: format!("title {id}"),
        named: true,
    }
}

#[test]
fn a_day_with_no_local_midnight_still_has_bounds() {
    let tz = zone(Some("America/Havana"));
    let day = read_day("2026-03-08").unwrap();
    let (from, to) = bounds(day, &tz).expect("the day starts at 01:00, not never");
    assert!(from < to);
    assert_eq!(hm(from, &tz), "01:00");
}

#[test]
fn the_edge_of_representable_time_is_a_404_not_a_panic() {
    assert!(bounds(LAST_DAY, &zone(Some("UTC"))).is_none());
    assert!(matches!(
        which_day("+262142-12-31", &zone(Some("UTC"))),
        Err(Error::NotFound)
    ));
}

#[test]
fn a_referer_keeps_its_path_and_never_its_origin() {
    assert_eq!(
        same_origin_path("/ui/day/2026-08-15?tz=UTC").as_deref(),
        Some("/ui/day/2026-08-15?tz=UTC")
    );
    assert_eq!(
        same_origin_path("https://evil.example/ui/day/today?tz=UTC").as_deref(),
        Some("/ui/day/today?tz=UTC")
    );
    assert_eq!(same_origin_path("//evil.example/ui/"), None);
    assert_eq!(same_origin_path("not a url at all"), None);
}

#[test]
fn the_entry_toggle_does_not_redirect_off_site() {
    assert_eq!(set_entry(Some("https://evil.example/ui/")), "/ui/");
    assert_eq!(set_entry(Some("//evil.example/ui/")), "/ui/day/today");
    assert_eq!(set_entry(None), "/ui/day/today");
    assert_eq!(set_entry(Some("https://a.example//b.example/")), "/ui/day/today");
    assert_eq!(set_entry(Some("mailto:x")), "/ui/day/today");
    assert_eq!(set_entry(Some("https://a.example?q=//b")), "/?q=//b");
}

#[test]
fn what_comes_back_is_a_path_on_this_server() {
    for referer in [
        "https://a.example//b.example/",
        "https://a.example///x?y",
        "mailto:x",
        "data:text/plain,//x",
        "//b.example/",
        "nonsense",
        "",
    ] {
        assert_eq!(same_origin_path(referer), None, "{referer}");
    }
    for (referer, back) in
        [("/", "/"), ("https://a.example", "/"), ("https://a.example/x//y", "/x//y")]
    {
        assert_eq!(same_origin_path(referer).as_deref(), Some(back), "{referer}");
    }
    assert!(leads_here("/a") && !leads_here("//a") && !leads_here("a") && !leads_here(""));
}

#[test]
fn the_entry_toggle_comes_back_to_the_day_it_was_pressed_on() {
    assert_eq!(
        set_entry(Some("http://localhost:7777/ui/day/2026-08-15?tz=Europe/Berlin")),
        "/ui/day/2026-08-15?tz=Europe/Berlin"
    );
}

#[test]
fn what_an_address_is_decides_the_way_back() {
    let read = read_link("https://a.example/b?c=d");
    assert_eq!(
        way_back_of("https://a.example/b?c=d", &read).as_deref(),
        Some("/b?c=d")
    );
    assert_eq!(way_back_of("nonsense", &Err("no".into())), None);
    assert_eq!(way_back_of("/kept", &Err("no".into())).as_deref(), Some("/kept"));
}

#[test]
fn today_redirects_to_the_date() {
    let tz = berlin();
    let now = day_start(read_day("2026-08-30").unwrap(), &tz).unwrap() + 3_600;
    assert_eq!(today(now, &tz), "/ui/day/2026-08-30?tz=Europe/Berlin");
}

#[test]
fn a_zone_the_table_cannot_spell_never_reaches_a_location_header() {
    assert_eq!(zone(Some("Europe/Berlin\r\nSet-Cookie: a=b")).name, "UTC");
    assert_eq!(zone(None).name, "UTC");
    assert_eq!(
        day_address_of("2026-08-30", &zone(Some("nowhere"))),
        "/ui/day/2026-08-30?tz=UTC"
    );
    assert_eq!(zone_named("Europe/Berlim"), None);
    assert_eq!(zone_named("Europe/Berlin").as_deref(), Some("Europe/Berlin"));
}

#[test]
fn a_day_that_is_not_a_date_stores_nothing_and_answers_404() {
    assert!(matches!(entry("not-a-day", "Long day.", "UTC", "en"), Err(Error::NotFound)));
    assert!(matches!(which_day("not-a-day", &berlin()), Err(Error::NotFound)));
}

#[test]
fn an_entry_written_on_the_day_page_belongs_to_that_day_whenever_it_was_written() {
    let plan = entry("2026-08-15", "Long day.", "Europe/Berlin", "de").unwrap();
    assert_eq!(plan.back, "/ui/day/2026-08-15?tz=Europe/Berlin");
    let c = plan.capture.unwrap();
    assert_eq!(c.text, "Long day.");
    assert_eq!(c.origin, "journal");
    assert_eq!(c.channel, Some("web"));
    assert_eq!(c.day.as_deref(), Some("2026-08-15"));
    assert_eq!(c.tz.as_deref(), Some("Europe/Berlin"));
}

#[test]
fn a_journal_entry_is_stamped_with_the_language_it_will_be_read_in() {
    let plan = entry("2026-08-15", "Ein langer Tag.", "Europe/Berlin", "de").unwrap();
    assert_eq!(plan.capture.unwrap().lang.as_deref(), Some("de"));
}

#[test]
fn an_empty_entry_is_kept_nowhere() {
    let plan = entry("2026-08-15", " \n\t", "Europe/Berlin", "de").unwrap();
    assert!(plan.capture.is_none());
    assert_eq!(plan.back, "/ui/day/2026-08-15?tz=Europe/Berlin");
}

#[test]
fn a_leniently_spelled_day_still_shows_the_day_it_names() {
    let d = which_day("2026-8-5", &berlin()).unwrap();
    assert_eq!(d.date, "2026-08-05");
    let plan = entry("2026-8-5", "Long day.", "Europe/Berlin", "en").unwrap();
    assert_eq!(plan.capture.unwrap().day.as_deref(), Some("2026-08-05"));
}

#[test]
fn a_captured_row_on_a_day_carries_no_body_and_an_entry_still_does() {
    let tz = berlin();
    let asked = which_day("2026-08-30", &tz).unwrap();
    let between = vec![
        corpus("e", "Long day.", "journal", Some("2026-08-30"), asked.from + 60),
        corpus("c", "A whole book.", "web", None, asked.from + 120),
        corpus("o", "Another day.", "journal", Some("2026-08-29"), asked.from + 180),
    ];
    let by_day = vec![
        corpus("e", "Long day.", "journal", Some("2026-08-30"), asked.from + 60),
        corpus("l", "Written later.", "journal", Some("2026-08-30"), asked.to + 60),
    ];
    let d = facts(
        &asked,
        &tz,
        &DayRows {
            between: &between,
            by_day: &by_day,
            moments: &[],
            searches: &[],
            pursuits: &[],
            artifacts: &[],
        },
    );
    let entries: Vec<(&str, &str)> =
        d.entries.iter().map(|r| (r.id.as_str(), r.text.as_str())).collect();
    assert_eq!(entries, vec![("e", "Long day."), ("l", "Written later.")]);
    let captured: Vec<(&str, &str)> =
        d.captured.iter().map(|r| (r.id.as_str(), r.text.as_str())).collect();
    assert_eq!(captured, vec![("c", "")]);
}

#[test]
fn the_day_shows_captures_what_was_due_what_refers_to_it_and_sittings() {
    let tz = berlin();
    let asked = which_day("2026-08-30", &tz).unwrap();
    let noon = asked.from + 12 * 3_600;
    let moments = vec![
        due("d", Kind::Due, Some(noon)),
        due("e", Kind::Event, Some(noon + 3_600)),
    ];
    let pursuits = vec![Pursuit {
        opened_at: noon,
        closed_at: Some(noon + 600),
        queries: vec!["journal replay".into()],
        sources: vec!["p".into(), "gone".into(), "n".into()],
    }];
    let artifacts = vec![
        chunk("p", Some("Kapitel 3"), "Der Vorgang", Provenance::Passage),
        chunk("n", Some("Named"), "how it opens", Provenance::Captured),
    ];
    let searches = vec![noon - 1, noon, noon + 300, noon + 600, noon + 601];
    let d = facts(
        &asked,
        &tz,
        &DayRows {
            between: &[],
            by_day: &[],
            moments: &moments,
            searches: &searches,
            pursuits: &pursuits,
            artifacts: &artifacts,
        },
    );
    assert_eq!(d.was_due.len(), 1);
    assert_eq!(d.was_due[0].artifact_id, "art-d");
    assert_eq!(d.refers.len(), 1);
    assert_eq!(d.sittings[0].searches, 3);
    assert_eq!(d.sittings[0].query, "journal replay");
    let opened: Vec<(&str, &str, bool)> = d.sittings[0]
        .opened
        .iter()
        .map(|o| (o.id.as_str(), o.label.as_str(), o.named))
        .collect();
    assert_eq!(opened, vec![("p", "Der Vorgang", false), ("n", "Named", true)]);

    let t = page(d, &tz).unwrap();
    assert!(!t.is_empty());
    assert_eq!(t.section(), "");
    assert_eq!(t.heading, "Sunday, 30 August 2026");
    assert_eq!(t.prev, "2026-08-29");
    assert_eq!(t.next, "2026-08-31");
    assert_eq!(t.prev_label, "Sat 29 Aug");
    assert_eq!(t.next_label, "Mon 31 Aug");
    assert_eq!(t.was_due[0].href, "/ui/artifacts/art-d");
    assert_eq!(t.was_due[0].when, "12:00");
    assert_eq!(t.sittings[0].span, "12:00–12:10");
}

#[test]
fn an_empty_day_says_so_and_still_offers_the_box() {
    let tz = berlin();
    let asked = which_day("2026-08-30", &tz).unwrap();
    let d = facts(
        &asked,
        &tz,
        &DayRows {
            between: &[],
            by_day: &[],
            moments: &[],
            searches: &[],
            pursuits: &[],
            artifacts: &[],
        },
    );
    let t = page(d, &tz).unwrap();
    assert!(t.is_empty());
    assert_eq!(t.date, "2026-08-30");
}

#[test]
fn a_line_links_to_what_it_names() {
    let l = corpus_line(
        DayCorpus { id: "c1".into(), label: "A book".into(), named: true, at: 0, text: String::new() },
        "09:30".into(),
    );
    assert_eq!(l.href, "/ui/corpora/c1");
    assert_eq!(l.when, "09:30");
    let s = sitting_line(
        DaySitting { opened_at: 0, closed_at: 9, query: "q".into(), searches: 2, opened: vec![] },
        "09:30".into(),
        "09:45".into(),
    );
    assert_eq!(s.span, "09:30–09:45");
    assert_eq!(s.searches, 2);
}

#[test]
fn a_sitting_counts_no_fewer_searches_than_it_kept_questions() {
    let tz = berlin();
    let asked = which_day("2026-08-30", &tz).unwrap();
    let pursuits = vec![Pursuit {
        opened_at: asked.from,
        closed_at: None,
        queries: vec!["a".into(), "b".into()],
        sources: vec![],
    }];
    let d = facts(
        &asked,
        &tz,
        &DayRows {
            between: &[],
            by_day: &[],
            moments: &[],
            searches: &[],
            pursuits: &pursuits,
            artifacts: &[],
        },
    );
    assert_eq!(d.sittings[0].searches, 2);
    assert_eq!(d.sittings[0].closed_at, asked.from);
}

#[test]
fn the_calendar_reads_and_writes_a_day() {
    let d = read_day("2026-09-06").unwrap();
    assert_eq!(iso_of(d), "2026-09-06");
    assert_eq!(short_of(d), "Sun 6 Sep");
    assert_eq!(long_of(d), "Sunday, 6 September 2026");
    assert_eq!(next_day(d).map(iso_of).as_deref(), Some("2026-09-07"));
    assert_eq!(previous_day(d).map(iso_of).as_deref(), Some("2026-09-05"));
    assert_eq!(monday_of(d).map(iso_of).as_deref(), Some("2026-09-07"));
    assert_eq!(read_day("1970-01-01"), Some(EPOCH_DAY));
    assert_eq!(read_day("2026-13-01"), None);
    assert_eq!(next_day(LAST_DAY), None);
    assert_eq!(previous_day(FIRST_DAY), None);
    // The last day there is is a Monday.
    assert_eq!(monday_of(LAST_DAY), Some(LAST_DAY));
    assert_eq!(monday_of(LAST_DAY - 1), Some(LAST_DAY));
}

#[test]
fn every_day_of_the_calendar_reads_back() {
    for day in [FIRST_DAY, -1, 0, 1, EPOCH_DAY, 3_652_059, 3_652_060, LAST_DAY] {
        assert_eq!(read_day(&iso_of(day)), Some(day));
    }
}

#[test]
fn a_clock_shows_hours_and_minutes() {
    assert_eq!(clock_face(Some((9, 5))), "09:05");
    assert_eq!(clock_face(None), "");
    assert_eq!(hm(0, &zone(Some("UTC"))), "00:00");
    assert_eq!(hm(i64::MAX, &zone(Some("UTC"))), "");
    assert_eq!(day_at(0, &zone(Some("UTC"))), Some(EPOCH_DAY));
    assert_eq!(day_at(-1, &zone(Some("UTC"))), Some(EPOCH_DAY - 1));
    assert_eq!(day_at(i64::MAX, &zone(Some("UTC"))), None);
}

#[test]
fn a_local_time_is_an_instant() {
    assert_eq!(read_stamp("1970-01-01T01:30"), Some((EPOCH_DAY, 5_400)));
    assert_eq!(read_stamp("tomorrow"), None);
    assert_eq!(resolve_local(EPOCH_DAY, 5_400, &zone(Some("UTC"))), Some(5_400));
    // Berlin was an hour ahead.
    assert_eq!(resolve_local(EPOCH_DAY, 5_400, &berlin()), Some(1_800));
}

#[test]
fn one_day_ends_where_the_next_begins() {
    for name in ["UTC", "Europe/Berlin", "America/Havana", "Pacific/Apia"] {
        let tz = zone(Some(name));
        let mut day = read_day("2026-03-01").unwrap();
        for _ in 0..40 {
            let (began, to) = bounds(day, &tz).unwrap();
            assert!(began < to, "{name}");
            let (from, _) = bounds(day + 1, &tz).unwrap();
            assert_eq!(to, from, "{name}");
            day += 1;
        }
    }
}

#[test]
fn a_day_starts_at_its_first_instant() {
    // Apia had no thirtieth of December that year.
    let apia = zone(Some("Pacific/Apia"));
    assert_eq!(day_start(read_day("2011-12-30").unwrap(), &apia), None);
    assert_eq!(bounds(read_day("2011-12-30").unwrap(), &apia), None);
    let (from, to) = bounds(read_day("2011-12-31").unwrap(), &apia).unwrap();
    assert_eq!((hm(from, &apia), to - from), ("00:00".to_string(), 86_400));
    // Berlin left its own time for that of the zone at midnight, by less than
    // seven minutes.
    let day = read_day("1893-04-01").unwrap();
    let (from, to) = bounds(day, &berlin()).unwrap();
    assert_eq!(hm(from, &berlin()), "00:06");
    assert_eq!(to - from, 86_400 - 392);
}
