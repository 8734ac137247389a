use engram::corpus_view::{bands, slice, Band, CorpusSlice};
use engram::json::Json;
use engram::records::{Corpus, CorpusSpan, CorpusStatus};

fn a_corpus(raw: &str, origin: &str) -> Corpus {
    Corpus {
        id: "s".into(),
        raw_text: raw.into(),
        origin: origin.into(),
        status: CorpusStatus::Ready,
        title_hint: None,
        label: "s".into(),
        source_url: None,
        created_at: 0,
        restored_at: None,
        coverage: None,
        metadata: Json::Null,
    }
}

fn span(a: i64, b: i64) -> CorpusSpan {
    CorpusSpan { start_line: a, end_line: b }
}

/// `(from, to, ids)` for each band.
fn shape(bs: &[Band]) -> Vec<(i64, i64, Vec<&str>)> {
    bs.iter()
        .map(|b| (b.from, b.to, b.artifact_ids.iter().map(String::as_str).collect()))
        .collect()
}

#[test]
fn adjacent_spans_are_two_bands() {
    let out = bands("a\nb\nc\nd", &[("x".into(), span(1, 2)), ("y".into(), span(3, 4))], None);
    assert_eq!(shape(&out), vec![(1, 2, vec!["x"]), (3, 4, vec!["y"])]);
}

#[test]
fn an_overlap_is_its_own_band() {
    let out = bands("a\nb\nc\nd\ne", &[("x".into(), span(1, 3)), ("y".into(), span(3, 5))], None);
    assert_eq!(shape(&out), vec![(1, 2, vec!["x"]), (3, 3, vec!["x", "y"]), (4, 5, vec!["y"])]);
}

#[test]
fn a_run_nothing_claims_is_a_gap_band() {
    let out = bands("a\nb\nc\nd", &[("x".into(), span(1, 2))], None);
    assert_eq!(shape(&out), vec![(1, 2, vec!["x"]), (3, 4, vec![])]);
    assert!(!out[0].gap());
    assert!(out[1].gap());
}

#[test]
fn a_gap_at_the_head_is_an_ordinary_band() {
    let out = bands("a\nb\nc", &[("x".into(), span(3, 3))], None);
    assert_eq!(shape(&out), vec![(1, 2, vec![]), (3, 3, vec!["x"])]);
}

#[test]
fn blank_lines_between_two_spans_join_the_band_before_them() {
    let out = bands("a\n\n\nb", &[("x".into(), span(1, 1)), ("y".into(), span(4, 4))], None);
    assert_eq!(shape(&out), vec![(1, 3, vec!["x"]), (4, 4, vec!["y"])]);
}

#[test]
fn a_corpus_nothing_was_written_from_is_one_gap() {
    let out = bands("a\nb\nc", &[], None);
    assert_eq!(shape(&out), vec![(1, 3, vec![])]);
}

#[test]
fn one_artifact_over_the_whole_document_is_one_band() {
    let out = bands("a\nb\nc", &[("x".into(), span(1, 3))], None);
    assert_eq!(shape(&out), vec![(1, 3, vec!["x"])]);
}

#[test]
fn a_span_past_the_end_does_not_invent_lines() {
    let out = bands("a\nb", &[("x".into(), span(1, 9))], None);
    assert_eq!(shape(&out), vec![(1, 2, vec!["x"])]);
    assert_eq!(out[0].lines.len(), 2);
}

#[test]
fn the_highlight_marks_its_lines_wherever_they_fall() {
    let out = bands("a\nb\nc", &[("x".into(), span(1, 3))], Some((2, 3)));
    let marked: Vec<i64> =
        out[0].lines.iter().filter(|l| l.in_span).map(|l| l.number).collect();
    assert_eq!(marked, vec![2, 3]);
}

#[test]
fn a_one_line_span_is_not_a_range() {
    let src = a_corpus("l1\nl2\nl3", "web");
    assert_eq!(slice(&src, Some(&span(2, 2)), 0).label, "line 2");
}

#[test]
fn a_real_range_still_reads_as_one() {
    let src = a_corpus("l1\nl2\nl3", "web");
    assert_eq!(slice(&src, Some(&span(1, 3)), 0).label, "lines 1–3");
}

#[test]
fn the_slice_marks_the_span_and_carries_context_around_it() {
    let src = a_corpus("l1\nl2\nl3\nl4\nl5\nl6", "web");
    let slice = slice(&src, Some(&span(3, 4)), 1);
    assert_eq!(slice.label, "lines 3–4");
    assert_eq!(slice.lines.first().unwrap().number, 2);
    assert_eq!(slice.lines.last().unwrap().number, 5);
    let marked: Vec<i64> = slice.lines.iter().filter(|l| l.in_span).map(|l| l.number).collect();
    assert_eq!(marked, vec![3, 4]);
}

#[test]
fn a_chunk_without_a_span_gets_the_head_of_the_source() {
    let src = a_corpus("l1\nl2\nl3", "web");
    let slice = slice(&src, None, 1);
    assert_eq!(slice.label, "corpus");
    assert!(slice.lines.iter().all(|l| !l.in_span));
    assert_eq!(slice.lines.len(), 3);
}

#[test]
fn the_head_of_a_long_source_is_forty_lines() {
    let raw: Vec<String> = (1..=100).map(|i| format!("l{i}")).collect();
    let slice = slice(&a_corpus(&raw.join("\n"), "web"), None, 1);
    assert_eq!(slice.lines.len(), 40);
    assert_eq!(slice.lines[39].text, "l40");
}

#[test]
fn a_span_past_the_end_clamps_instead_of_panicking() {
    let src = a_corpus("l1\nl2", "web");
    let slice = slice(&src, Some(&span(5, 9)), 2);
    assert!(slice.lines.iter().all(|l| l.number <= 2));
}

#[test]
fn a_pdf_corpus_labels_its_lines_as_an_extraction() {
    let src = a_corpus("a\nb\nc", "pdf");
    assert_eq!(slice(&src, None, 0).label, "extraction");
    assert_eq!(slice(&src, Some(&span(2, 3)), 0).label, "extraction lines 2–3");
}

#[test]
fn an_image_corpus_labels_its_lines_as_transcription() {
    let src = a_corpus("a\nb\nc", "image");
    assert_eq!(slice(&src, Some(&span(2, 2)), 0).label, "transcription line 2");
    assert_eq!(slice(&src, None, 0).label, "transcription");
}

#[test]
fn every_line_is_in_exactly_one_band_and_in_order() {
    let raw = "a\n\nb\nc\n\n\nd\ne";
    let out = bands(
        raw,
        &[("x".into(), span(1, 3)), ("y".into(), span(3, 4)), ("z".into(), span(7, 7))],
        None,
    );
    let numbers: Vec<i64> = out.iter().flat_map(|b| b.lines.iter().map(|l| l.number)).collect();
    assert_eq!(numbers, vec![1, 2, 3, 4, 5, 6, 7, 8]);
    for b in &out {
        assert_eq!(b.from, b.lines.first().unwrap().number);
        assert_eq!(b.to, b.lines.last().unwrap().number);
    }
    assert_eq!(
        shape(&out),
        vec![(1, 2, vec!["x"]), (3, 3, vec!["x", "y"]), (4, 6, vec!["y"]), (7, 7, vec!["z"]), (8, 8, vec![])]
    );
}

#[test]
fn an_empty_source_has_no_bands() {
    assert!(bands("", &[("x".into(), span(1, 1))], None).is_empty());
    assert!(slice(&a_corpus("", "web"), None, 2).lines.is_empty());
}

#[test]
fn a_source_of_blank_lines_is_one_band_that_lost_nothing_else() {
    let out = bands("\n \n\t\n", &[], None);
    assert_eq!(shape(&out), vec![(1, 3, vec![])]);
}

#[test]
fn a_line_ending_in_a_carriage_return_is_shown_without_it() {
    let out = bands("a\r\nb", &[("x".into(), span(1, 2))], None);
    assert_eq!(out[0].lines[0].text, "a");
    assert_eq!(out[0].lines[1].text, "b");
}

#[test]
fn the_opening_of_a_source_does_not_depend_on_the_context() {
    let src = a_corpus("a\nb\nc", "web");
    for context in [0, 1, usize::MAX] {
        let s = slice(&src, None, context);
        let lines: Vec<(i64, &str, bool)> =
            s.lines.iter().map(|l| (l.number, l.text.as_str(), l.in_span)).collect();
        assert_eq!(lines, vec![(1, "a", false), (2, "b", false), (3, "c", false)]);
        assert_eq!(s.label, "corpus");
    }
}

#[test]
fn a_wider_slice_holds_a_narrower() {
    let src = a_corpus("1\n2\n3\n4\n5\n6\n7\n8\n9", "web");
    let a = slice(&src, Some(&span(4, 5)), 1);
    let b = slice(&src, Some(&span(4, 5)), 3);
    let rows = |s: &CorpusSlice| -> Vec<(i64, String, bool)> {
        s.lines.iter().map(|l| (l.number, l.text.clone(), l.in_span)).collect()
    };
    assert_eq!(rows(&a), rows(&b)[2..6].to_vec());
    assert_eq!((a.lines.len(), b.lines.len()), (4, 8));
    assert_eq!(a.label, b.label);
}

#[test]
fn what_is_marked_does_not_move_the_cut() {
    let raw = "a\nb\n\nc\nd";
    let spans = [("x".into(), span(1, 2)), ("y".into(), span(2, 4))];
    let plain = bands(raw, &spans, None);
    let marked = bands(raw, &spans, Some((2, 4)));
    assert_eq!(shape(&plain), shape(&marked));
    for (a, b) in plain.iter().zip(&marked) {
        assert_eq!(a.gap(), a.artifact_ids.is_empty());
        for (l, m) in a.lines.iter().zip(&b.lines) {
            assert_eq!((l.number, &l.text), (m.number, &m.text));
            assert!(!l.in_span);
            assert_eq!(m.in_span, 2 <= m.number && m.number <= 4);
        }
    }
}
