use engram::corpus::{
    band_address, corpus_address, corpus_detail, coverage_final, coverage_of, deal, exif_tag_rows,
    metadata_rows, offer_of, placed_of, reread, unread_of, LineRange, RereadForm,
};
use engram::json::{shape, Json, Number};
use engram::records::{
    ArtifactStatus, Chunk, Corpus, CorpusSpan, CorpusStatus, Provenance, Segment, SegmentState,
};

fn corpus(raw: &str, status: CorpusStatus) -> Corpus {
    Corpus {
        id: "s".into(),
        raw_text: raw.into(),
        origin: "web".into(),
        status,
        title_hint: Some("A title".into()),
        label: "A title".into(),
        source_url: None,
        created_at: 0,
        restored_at: None,
        coverage: None,
        metadata: Json::Null,
    }
}

fn chunk(id: &str, span: Option<(i64, i64)>) -> Chunk {
    Chunk {
        id: id.into(),
        text: id.into(),
        title: Some(format!("title {id}")),
        opening: format!("opening {id}"),
        html: format!("<p>{id}</p>"),
        category: None,
        tags: vec![],
        flags: vec![],
        flag_detail: None,
        caveats: vec![],
        cues: vec![],
        status: ArtifactStatus::Active,
        superseded_by: None,
        last_verified_at: None,
        provenance: Provenance::Captured,
        corpus_id: Some("s".into()),
        corpus_span: span.map(|(a, b)| CorpusSpan { start_line: a, end_line: b }),
        segment_idx: None,
        ordinal: 0,
        created_at: 0,
    }
}

fn window(idx: i64, a: i64, b: i64) -> Segment {
    Segment { idx, start_line: a, end_line: b, state: SegmentState::Done }
}

fn whole_page() -> LineRange {
    LineRange { from: None, to: None }
}

fn object(members: Vec<(&str, Json)>) -> Json {
    Json::Object(members.into_iter().map(|(k, v)| (k.to_string(), v)).collect())
}

fn text(t: &str) -> Json {
    Json::Text(t.into())
}

fn number(shown: &str, whole: Option<u64>) -> Json {
    Json::Number(Number { shown: shown.into(), whole })
}

#[test]
fn a_loss_crossing_a_window_boundary_re_reads_both_windows() {
    let s = corpus("one\ntwo\nthree\nfour\nfive\nsix", CorpusStatus::Partial);
    let segments = vec![window(0, 1, 3), window(1, 4, 6)];
    let read = reread(&s, &[], &segments, &[], &RereadForm { from: 1, to: 6 });
    assert_eq!(read, vec![0, 1], "the tail of the loss was left unread");
}

#[test]
fn a_window_already_queued_is_not_re_read_a_second_time() {
    let s = corpus("one\ntwo\nthree\nfour\nfive\nsix", CorpusStatus::Partial);
    let segments = vec![window(0, 1, 3), window(1, 4, 6)];
    let read = reread(&s, &[], &segments, &[0], &RereadForm { from: 1, to: 6 });
    assert_eq!(read, vec![1]);
}

#[test]
fn re_reading_one_passage_leaves_the_other_windows_alone() {
    let lines: Vec<String> = (1..=400).map(|i| format!("line {i} of the document")).collect();
    let s = corpus(&lines.join("\n"), CorpusStatus::Ready);
    let segments = vec![window(0, 1, 100), window(1, 101, 200), window(2, 201, 400)];
    let chunks = vec![chunk("a", Some((1, 1))), chunk("b", Some((4, 400)))];
    let read = reread(&s, &chunks, &segments, &[], &RereadForm { from: 1, to: 100 });
    assert_eq!(read, vec![0], "exactly the window holding that line, and no other");
}

#[test]
fn re_reading_a_line_in_no_window_is_not_a_500() {
    let s = corpus("alpha line", CorpusStatus::Ready);
    let read = reread(
        &s,
        &[chunk("a", Some((1, 1)))],
        &[window(0, 1, 1)],
        &[],
        &RereadForm { from: 99_999, to: 99_999 },
    );
    assert!(read.is_empty());
}

#[test]
fn a_re_read_of_a_range_that_lost_nothing_queues_nothing() {
    let s = corpus("one\ntwo\nthree", CorpusStatus::Ready);
    let chunks = vec![chunk("a", Some((1, 3)))];
    let read = reread(&s, &chunks, &[window(0, 1, 3)], &[], &RereadForm { from: 1, to: 3 });
    assert!(read.is_empty());
}

#[test]
fn a_capture_still_being_read_names_no_loss_and_offers_no_re_read() {
    let s = corpus("one\ntwo\nthree", CorpusStatus::Segmenting);
    assert!(!coverage_final(&s.status));
    let page = corpus_detail(&s, &[], &[window(0, 1, 3)], &[], &whole_page());
    assert!(page.bands.iter().all(|b| !b.gap && b.reread.is_none()));
    let read = reread(&s, &[], &[window(0, 1, 3)], &[], &RereadForm { from: 1, to: 3 });
    assert!(read.is_empty());
}

#[test]
fn an_unclaimed_passage_is_a_gap_band_with_its_own_button() {
    let s = corpus("one\ntwo\nthree\nfour", CorpusStatus::Ready);
    let chunks = vec![chunk("a", Some((1, 2)))];
    let page = corpus_detail(&s, &chunks, &[window(0, 1, 4)], &[], &whole_page());
    let gaps: Vec<(i64, i64)> =
        page.bands.iter().filter(|b| b.gap).map(|b| (b.from, b.to)).collect();
    assert_eq!(gaps, vec![(3, 4)]);
    assert_eq!(page.bands[1].reread.as_deref(), Some("reads lines 1–4"));
    assert_eq!(page.section(), "");
}

#[test]
fn a_fully_covered_corpus_marks_nothing_red() {
    let s = corpus("one\ntwo", CorpusStatus::Ready);
    let page =
        corpus_detail(&s, &[chunk("a", Some((1, 2)))], &[window(0, 1, 2)], &[], &whole_page());
    assert!(page.bands.iter().all(|b| !b.gap));
}

#[test]
fn nothing_is_a_loss_while_an_artifact_names_no_lines() {
    let s = corpus("one\ntwo\nthree", CorpusStatus::Ready);
    let chunks = vec![chunk("a", Some((1, 1))), chunk("loose", None)];
    let page = corpus_detail(&s, &chunks, &[window(0, 1, 3)], &[], &whole_page());
    assert!(page.bands.iter().all(|b| !b.gap));
    assert_eq!(page.unplaced.len(), 1);
    assert_eq!(page.unplaced[0].id, "loose");
}

#[test]
fn an_overlapping_artifact_has_exactly_one_card() {
    let s = corpus("one\ntwo\nthree", CorpusStatus::Ready);
    let chunks = vec![chunk("a", Some((1, 2))), chunk("b", Some((2, 3)))];
    let page = corpus_detail(&s, &chunks, &[window(0, 1, 3)], &[], &whole_page());
    let cards: Vec<&str> =
        page.bands.iter().flat_map(|b| b.artifacts.iter().map(|a| a.id.as_str())).collect();
    assert_eq!(cards, vec!["a", "b"]);
    assert_eq!(page.bands[1].echoes[0].id, "a");
    assert_eq!(page.bands[1].echoes[0].label, "title a");
    assert!(page.bands[1].echoes[0].named);
}

#[test]
fn a_band_echo_for_a_passage_points_at_it_by_how_its_text_opens() {
    let s = corpus("eins\nzwei\ndrei\nvier", CorpusStatus::Ready);
    let mut p = chunk("p", Some((1, 3)));
    p.provenance = Provenance::Passage;
    let chunks = vec![p, chunk("b", Some((2, 2)))];
    let page = corpus_detail(&s, &chunks, &[window(0, 1, 4)], &[], &whole_page());
    let echo = &page.bands[1].echoes[0];
    assert_eq!(echo.label, "opening p");
    assert!(!echo.named);
}

#[test]
fn a_restored_corpus_is_not_banded_and_still_shows_its_artifacts() {
    let mut s = corpus("one\ntwo", CorpusStatus::Ready);
    s.restored_at = Some(9);
    let page =
        corpus_detail(&s, &[chunk("a", Some((1, 2)))], &[window(0, 1, 2)], &[], &whole_page());
    assert!(page.restored && page.bands.is_empty());
    assert_eq!(page.unplaced.len(), 1);
}

#[test]
fn a_merge_is_listed_under_each_corpus_it_drew_from() {
    let s = corpus("one", CorpusStatus::Ready);
    let mut gone = chunk("gone", None);
    gone.superseded_by = Some("m".into());
    let page = corpus_detail(
        &s,
        &[chunk("a", Some((1, 1)))],
        &[window(0, 1, 1)],
        &[chunk("m", None), gone],
        &whole_page(),
    );
    let written: Vec<&str> = page.written_from.iter().map(|a| a.id.as_str()).collect();
    assert_eq!(written, vec!["m"]);
}

#[test]
fn the_lines_asked_for_are_marked() {
    let s = corpus("one\ntwo\nthree", CorpusStatus::Ready);
    let range = LineRange { from: Some(2), to: Some(2) };
    let page = corpus_detail(&s, &[chunk("a", Some((1, 3)))], &[window(0, 1, 3)], &[], &range);
    let marked: Vec<i64> = page.bands[0]
        .lines
        .iter()
        .filter(|l| l.in_span)
        .map(|l| l.number)
        .collect();
    assert_eq!(marked, vec![2]);
}

#[test]
fn the_page_states_the_coverage_the_recent_list_warned_about() {
    let mut s = corpus("one", CorpusStatus::Ready);
    s.coverage = Some(40);
    assert_eq!(coverage_of(&s, &[chunk("a", None)]).as_deref(), Some("40%"));
    let mut p = chunk("p", None);
    p.provenance = Provenance::Passage;
    assert_eq!(coverage_of(&s, &[p]), None);
}

#[test]
fn an_unread_image_is_unread_and_an_empty_paste_is_not() {
    let mut s = corpus("", CorpusStatus::Describing);
    s.origin = "image".into();
    assert!(unread_of(&s));
    s.origin = "web".into();
    assert!(!unread_of(&s));
    s.origin = "pdf".into();
    assert!(unread_of(&s));
}

#[test]
fn the_facts_of_a_photo_are_rows_in_reading_order() {
    let m = object(vec![
        (
            "exif",
            object(vec![
                ("taken_at", text("2026-08-30 12:00")),
                ("camera", text("Pixel")),
                ("gps", object(vec![("lat", number("52.5", None)), ("lon", number("13.4", None))])),
                ("tags", object(vec![("Z", text("z")), ("A", text("a")), ("N", number("1", Some(1)))])),
            ]),
        ),
        (
            "file",
            object(vec![
                ("name", text("a.jpg")),
                ("width", number("640", Some(640))),
                ("height", number("480", Some(480))),
            ]),
        ),
        ("describe", object(vec![("error", text("too dark"))])),
        ("extract", object(vec![("error", text("no text"))])),
    ]);
    let rows = metadata_rows(&m);
    let rows: Vec<(&str, &str)> = rows.iter().map(|(a, b)| (a.as_str(), b.as_str())).collect();
    assert_eq!(
        rows,
        vec![
            ("Taken", "2026-08-30 12:00"),
            ("Camera", "Pixel"),
            ("Location", "52.5, 13.4"),
            ("File", "a.jpg"),
            ("Size", "640×480"),
            ("Reading", "too dark"),
            ("Extraction", "no text"),
        ]
    );
    let tags = exif_tag_rows(&m);
    let tags: Vec<(&str, &str)> = tags.iter().map(|(a, b)| (a.as_str(), b.as_str())).collect();
    assert_eq!(tags, vec![("A", "a"), ("Z", "z")]);
    assert!(metadata_rows(&Json::Null).is_empty());
    assert!(exif_tag_rows(&Json::Null).is_empty());
}

#[test]
fn a_promoted_window_is_listed() {
    let s = corpus("one\ntwo", CorpusStatus::Ready);
    let mut old = chunk("old", Some((1, 2)));
    old.provenance = Provenance::Passage;
    old.superseded_by = Some("new".into());
    old.segment_idx = Some(0);
    let page = corpus_detail(
        &s,
        &[old, chunk("new", Some((1, 2)))],
        &[window(0, 1, 2)],
        &[],
        &whole_page(),
    );
    let promoted: Vec<(i64, i64, i64)> =
        page.promoted.iter().map(|w| (w.idx, w.from, w.to)).collect();
    assert_eq!(promoted, vec![(0, 1, 2)]);
}

#[test]
fn a_card_is_dealt_once() {
    let mut carded = vec!["a".to_string()];
    let ids = ["a".to_string(), "b".to_string(), "b".to_string()];
    let (fresh, seen) = deal(&ids, &mut carded);
    assert_eq!(fresh, vec!["b"]);
    assert_eq!(seen, vec!["a", "b"]);
    assert_eq!(carded, vec!["a", "b"]);
}

#[test]
fn a_re_read_is_offered_over_the_windows_a_loss_touches() {
    let segments = [window(0, 1, 3), window(1, 4, 6)];
    assert_eq!(offer_of(true, 3, 4, &segments, true).as_deref(), Some("reads lines 1–6"));
    assert_eq!(offer_of(true, 9, 9, &segments, true), None);
    assert_eq!(offer_of(false, 3, 4, &segments, true), None);
    assert_eq!(offer_of(true, 3, 4, &segments, false), None);
    assert_eq!(placed_of(&[chunk("a", Some((1, 2))), chunk("b", None)]).len(), 1);
    assert_eq!(corpus_address("s1"), "/ui/corpora/s1");
    assert_eq!(band_address("s1", &RereadForm { from: 118, to: 141 }), "/ui/corpora/s1#L118");
}

#[test]
fn the_shape_of_a_document_is_its_paths() {
    let v = object(vec![
        ("id", text("x")),
        ("rows", Json::Array(vec![object(vec![("a", Json::Null)]), object(vec![("b", Json::Null)])])),
    ]);
    let mut out = Vec::new();
    shape(&v, "", &mut out);
    out.sort();
    assert_eq!(out, vec![".id: string", ".rows[].a: null", ".rows[].b: null"]);
    shape(&v, "", &mut out);
    assert_eq!(out.len(), 3, "what is listed already is not listed again");
}
