use engram::artifact::{
    artifact_view, build_artifact_detail, delete_artifact, due_instant, link_citations, may_count,
    neighbour_title, opened, probe_words, put_artifact, reviewed_accepts_loss, row_label,
    search_event, source_at_lines, tag_words, title_of, Adjacent, ArtifactDetail,
    ArtifactDetailPage, EditShape,
    Integration, LinkRow, LinkedArtifact, Opened, PaneRows, Probe, Tag, VectorPayload,
};
use engram::json::Json;
use engram::records::{
    in_results, ArtifactStatus, Chunk, Corpus, CorpusSpan, CorpusStatus, Error, Kind, Moment,
    Provenance, Source,
};

fn chunk(id: &str, title: Option<&str>, opening: &str, provenance: Provenance) -> Chunk {
    Chunk {
        id: id.into(),
        text: opening.into(),
        title: title.map(str::to_string),
        opening: opening.into(),
        html: format!("<p>{opening}</p>"),
        category: None,
        tags: vec![],
        flags: vec![],
        flag_detail: None,
        caveats: vec![],
        cues: vec![],
        status: ArtifactStatus::Active,
        superseded_by: None,
        last_verified_at: None,
        provenance,
        corpus_id: Some("s".into()),
        corpus_span: None,
        segment_idx: None,
        ordinal: 0,
        created_at: 0,
    }
}

fn corpus(raw: &str) -> Corpus {
    Corpus {
        id: "s".into(),
        raw_text: raw.into(),
        origin: "web".into(),
        status: CorpusStatus::Ready,
        title_hint: None,
        label: "s".into(),
        source_url: None,
        created_at: 0,
        restored_at: None,
        coverage: None,
        metadata: Json::Null,
    }
}

fn pane(r: PaneRows<&'static str>, terms: &str) -> ArtifactDetail<&'static str> {
    build_artifact_detail(r, terms).expect("there is such an artifact")
}

fn reminder(at: Option<i64>, snoozed_until: Option<i64>) -> Moment {
    Moment {
        id: "m".into(),
        artifact_id: "a".into(),
        kind: Kind::Due,
        at,
        snoozed_until,
        done_at: None,
        created_at: 0,
        rule: None,
        source: Source::Cue,
        span: None,
    }
}

fn rows(c: Chunk, s: Option<Corpus>) -> PaneRows<&'static str> {
    PaneRows {
        chunk: Some(c),
        corpus: Some(s.unwrap_or_else(|| corpus(""))),
        lineage: Some("kept"),
        no_lineage: "none",
        neighbours: Some(vec![]),
        associating: true,
        links: Some(vec![]),
        mid_sentence: false,
        adjacent: Some(vec![]),
        due: Some(None),
        due_in: None,
        integration: None,
        probes: vec![],
        versions: vec![],
        condensed: None,
    }
}

#[test]
fn a_neighbouring_passage_is_listed_without_a_name() {
    let payload = |provenance: &str, title: Option<&str>| VectorPayload {
        artifact_id: "a".into(),
        corpus_id: "c".into(),
        text: "Der Vorgang setzt voraus, dass das Journal noch steht.".into(),
        title: title.map(str::to_string),
        provenance: Some(provenance.into()),
        ..Default::default()
    };
    assert_eq!(neighbour_title(&payload("passage", Some("Kapitel 3"))), "");
    assert_eq!(neighbour_title(&payload("note", None)), "");
    assert_eq!(
        neighbour_title(&payload("captured", Some("Wie ein Journal steht"))),
        "Wie ein Journal steht",
        "a name a writer gave this text is still shown"
    );
}

#[test]
fn only_a_bracket_naming_an_excerpt_that_exists_becomes_a_link() {
    let out = link_citations("<p>see [1] and [2] but not [9] or [x]</p>", 2);
    assert!(out.contains(r##"<a class="cite" href="#cite-1">[1]</a>"##), "{out}");
    assert!(out.contains(r##"<a class="cite" href="#cite-2">[2]</a>"##), "{out}");
    assert!(out.contains("[9]"), "{out}");
    assert!(!out.contains("#cite-9"), "{out}");
    assert!(out.contains("[x]"), "{out}");
}

#[test]
fn an_array_index_inside_a_code_span_is_not_turned_into_a_citation() {
    let out = link_citations("<p>see [1]</p><pre><code>argv[1]</code></pre>", 2);
    assert!(
        out.contains(r##"<p>see <a class="cite" href="#cite-1">[1]</a></p>"##),
        "prose still links: {out}"
    );
    assert!(out.contains("<code>argv[1]</code>"), "code was linked: {out}");
    assert_eq!(out.matches("cite-1").count(), 1, "{out}");
}

#[test]
fn a_zero_padded_citation_links_to_the_anchor_the_rail_will_carry() {
    let out = link_citations("<p>see [01]</p>", 2);
    assert!(out.contains(r##"href="#cite-1""##), "{out}");
    assert!(!out.contains("cite-01"), "{out}");
}

#[test]
fn citation_linking_leaves_the_inside_of_a_tag_alone() {
    let out = link_citations(r#"<a href="/x?q=[1]">[1]</a>"#, 1);
    assert_eq!(
        out, r##"<a href="/x?q=[1]"><a class="cite" href="#cite-1">[1]</a></a>"##,
        "{out}"
    );
}

#[test]
fn a_page_that_cites_nothing_is_left_as_it_is() {
    for html in ["", "<p>no brackets</p>", "<p>[1</p>", "<p>[]</p>", "[0]", "<b", "<code>[1]"] {
        assert_eq!(link_citations(html, 3), html);
    }
    assert_eq!(link_citations("<p>[1] [2]</p>", 0), "<p>[1] [2]</p>");
    let long = "[99999999999999999999999999]";
    assert_eq!(link_citations(long, 9), long);
}

#[test]
fn a_passage_shows_no_heading_even_when_the_document_gave_it_one() {
    let p = chunk("p", Some("Kapitel 3"), "Der Vorgang", Provenance::Passage);
    assert_eq!(artifact_view(&p).title, "");
    let label = row_label(&p);
    assert_eq!(label.text, "Der Vorgang");
    assert!(!label.named);
    let c = chunk("c", Some("Wie ein Journal steht"), "Der Vorgang", Provenance::Captured);
    assert_eq!(title_of(&c), "Wie ein Journal steht");
    assert!(row_label(&c).named);
}

#[test]
fn the_page_title_of_a_passage_is_how_its_text_opens() {
    let d = pane(
        rows(chunk("p", Some("Kapitel 3"), "Der Vorgang", Provenance::Passage), None),
        "",
    );
    assert_eq!(d.title, "");
    assert_eq!(d.tab, "Der Vorgang");
}

#[test]
fn the_detail_view_pairs_a_chunk_with_the_lines_it_claims() {
    let mut c = chunk("a", None, "l3", Provenance::Captured);
    c.corpus_span = Some(CorpusSpan { start_line: 3, end_line: 4 });
    let d = pane(rows(c, Some(corpus("l1\nl2\nl3\nl4\nl5\nl6\nl7\nl8"))), "l3");
    assert_eq!(d.slice_label, "lines 3–4");
    assert_eq!(d.terms, "l3");
    let marked: Vec<i64> =
        d.slice_lines.iter().filter(|l| l.in_span).map(|l| l.number).collect();
    assert_eq!(marked, vec![3, 4]);
    assert_eq!(d.slice_lines.first().unwrap().number, 1);
    assert_eq!(d.slice_lines.last().unwrap().number, 7);
    assert_eq!(d.source_at_lines, "/ui/corpora/s?from=3&to=4#L3");
}

#[test]
fn a_chunk_whose_source_vanished_is_not_a_500() {
    let mut r = rows(chunk("a", None, "x", Provenance::Captured), None);
    r.corpus = None;
    assert!(matches!(build_artifact_detail(r, ""), Err(Error::NotFound)));
    let mut r = rows(chunk("a", None, "x", Provenance::Captured), None);
    r.chunk = None;
    assert!(matches!(build_artifact_detail(r, ""), Err(Error::NotFound)));
    // Written from others, it names no source that could be gone.
    let mut c = chunk("m", None, "x", Provenance::Merged);
    c.corpus_id = None;
    let d = pane(rows(c, Some(corpus("l1"))), "");
    assert!(d.slice_lines.is_empty());
    assert_eq!(d.slice_label, "");
}

#[test]
fn a_layer_that_cannot_be_read_is_empty_and_the_rest_is_as_it_was() {
    let mut r = rows(chunk("a", Some("A"), "x", Provenance::Captured), Some(corpus("l1")));
    assert_eq!(pane(rows(chunk("a", None, "x", Provenance::Captured), None), "").lineage, "kept");
    r.lineage = None;
    r.neighbours = None;
    r.links = None;
    r.adjacent = None;
    r.mid_sentence = true;
    r.due = None;
    r.due_in = Some("in 2 h".into());
    r.condensed = Some("c1".into());
    let d = pane(r, "t");
    assert_eq!(d.lineage, "none");
    assert!(d.related.is_empty() && d.seen_together.is_empty());
    assert_eq!((d.continues_at, d.due_at, d.due_in), (None, None, None));
    assert_eq!((d.title.as_str(), d.terms.as_str()), ("A", "t"));
    assert_eq!(d.condensed.as_deref(), Some("c1"));
}

#[test]
fn a_passage_cut_mid_sentence_points_at_the_one_that_carries_the_rest() {
    let mut c = chunk("a", None, "x", Provenance::Passage);
    c.ordinal = 4;
    let mut r = rows(c, Some(corpus("x")));
    r.mid_sentence = true;
    r.adjacent = Some(vec![
        Adjacent { id: "before".into(), ordinal: 3 },
        Adjacent { id: "after".into(), ordinal: 5 },
    ]);
    assert_eq!(pane(r, "").continues_at.as_deref(), Some("after"));
}

#[test]
fn the_pane_lists_the_nearest_other_artifacts() {
    let mut r = rows(chunk("a", None, "x", Provenance::Captured), None);
    r.neighbours = Some(vec![
        VectorPayload {
            artifact_id: "p".into(),
            title: Some("Kapitel 3".into()),
            provenance: Some("passage".into()),
            snippet: "Der Vorgang".into(),
            ..Default::default()
        },
        VectorPayload {
            artifact_id: "b".into(),
            title: Some("Other".into()),
            provenance: Some("captured".into()),
            snippet: "how it opens".into(),
            ..Default::default()
        },
    ]);
    let d = pane(r, "");
    let related: Vec<(&str, &str, &str)> = d
        .related
        .iter()
        .map(|x| (x.id.as_str(), x.title.as_str(), x.snippet.as_str()))
        .collect();
    assert_eq!(related, vec![("p", "", "Der Vorgang"), ("b", "Other", "how it opens")]);
}

#[test]
fn a_judged_link_shows_the_judges_line_instead_of_the_query() {
    let mut r = rows(chunk("a", None, "x", Provenance::Captured), None);
    let other = |id: &str| {
        Some(LinkedArtifact {
            chunk: chunk(id, Some("Other"), "o", Provenance::Captured),
            snippet: "o".into(),
            corpus_title: Some("A source".into()),
        })
    };
    r.links = Some(vec![
        LinkRow {
            other: other("b"),
            reason: Some("both are about journals".into()),
            cues: vec!["how".into()],
            cross_corpus: true,
        },
        LinkRow {
            other: other("c"),
            reason: None,
            cues: vec!["the query".into()],
            cross_corpus: false,
        },
        LinkRow { other: None, reason: None, cues: vec![], cross_corpus: false },
    ]);
    let d = pane(r, "");
    assert_eq!(d.seen_together.len(), 2);
    assert_eq!(d.seen_together[0].why.as_deref(), Some("both are about journals"));
    assert!(d.seen_together[0].cross_corpus);
    assert!(d.seen_together[1].why.as_deref() == Some("when asking: the query"));
    assert!(!d.seen_together[1].cross_corpus);
}

#[test]
fn a_deprecated_result_is_never_asked_about() {
    let mut c = chunk("a", None, "x", Provenance::Captured);
    c.status = ArtifactStatus::Deprecated;
    let d = pane(rows(c, None), "");
    assert!(!d.in_results());
    assert!(!may_count(d.in_results(), true, Some("ev")));
    assert_eq!(search_event(d.in_results(), true, Some("ev"), true, true), None);
}

#[test]
fn a_result_opened_from_the_rail_asks_whether_it_was_the_one() {
    let d = pane(rows(chunk("a", None, "x", Provenance::Captured), None), "");
    assert!(may_count(d.in_results(), true, Some("ev")));
    assert_eq!(search_event(d.in_results(), true, Some("ev"), true, true).as_deref(), Some("ev"));
    assert_eq!(search_event(d.in_results(), false, Some("ev"), true, true), None);
    assert_eq!(search_event(d.in_results(), true, Some("ev"), false, true), None);
    assert_eq!(search_event(d.in_results(), true, Some("ev"), true, false), None);
    assert_eq!(search_event(d.in_results(), true, None, true, true), None);
}

#[test]
fn an_edit_that_says_nothing_is_refused_and_one_that_does_comes_back_in_its_shape() {
    assert!(matches!(put_artifact("  ", "detail"), Err(Error::Validation(_))));
    assert!(matches!(put_artifact("new text", "detail"), Ok(EditShape::Pane)));
    assert!(matches!(put_artifact("new text", ""), Ok(EditShape::Card)));
}

#[test]
fn deleting_leads_back_to_the_source_or_to_insights() {
    assert_eq!(delete_artifact(true, Some("s")), None);
    assert_eq!(delete_artifact(false, Some("s")).as_deref(), Some("/ui/corpora/s"));
    assert_eq!(delete_artifact(false, None).as_deref(), Some("/ui/insights"));
}

#[test]
fn accepting_a_review_accepts_the_loss_of_a_source() {
    assert!(reviewed_accepts_loss(&["orphaned_source".into()]));
    assert!(!reviewed_accepts_loss(&["unsupported".into()]));
}

#[test]
fn what_the_base_found_is_a_sentence() {
    let i = |tag, nearest: Option<&str>, detail: Option<&str>| Integration {
        tag,
        nearest: nearest.map(str::to_string),
        detail: detail.map(str::to_string),
    };
    assert_eq!(
        tag_words(&i(Tag::Novel, None, None)),
        "When it arrived, nothing in the base was near it."
    );
    assert_eq!(
        tag_words(&i(Tag::Known, Some("Other"), None)),
        "When it arrived, the base already held something like it (Other)."
    );
    assert_eq!(
        tag_words(&i(Tag::Conflict, None, Some("60 and not 30"))),
        "When it arrived, it disagreed with something the base held: 60 and not 30"
    );
}

#[test]
fn a_probe_is_one_line() {
    let p = |query: &str, last| Probe { class: "cue".into(), query: query.into(), last };
    assert_eq!(probe_words(&p("how", Some(Some(3)))), "cue · “how” · rank 3");
    assert_eq!(probe_words(&p("how", Some(None))), "cue · “how” · not found");
    assert_eq!(probe_words(&p("how", None)), "cue · “how” · not yet rehearsed");
    let long = "x".repeat(65);
    assert_eq!(
        probe_words(&p(&long, None)),
        format!("cue · “{}…” · not yet rehearsed", "x".repeat(64))
    );
}

#[test]
fn a_snoozed_reminder_reads_the_same_in_the_pane_as_in_the_row() {
    let m = reminder(Some(100), Some(900));
    assert_eq!(due_instant(Some(&m)), Some(900));
    assert_eq!(due_instant(None), None);
    assert_eq!(m.source.as_str(), "cue");
    let mut r = rows(chunk("a", None, "x", Provenance::Captured), None);
    r.due = Some(Some(m));
    r.due_in = Some("in 7 days".into());
    let d = pane(r, "");
    assert_eq!(d.due_at, Some(900));
    assert_eq!(d.due_in.as_deref(), Some("in 7 days"));
}

#[test]
fn a_reminder_with_no_time_and_no_reminder_carry_no_badge() {
    for due in [None, Some(reminder(None, None))] {
        let mut r = rows(chunk("a", None, "x", Provenance::Captured), None);
        r.due = due.map(Some);
        r.due_in = Some("in 2 h".into());
        let d = pane(r, "");
        assert_eq!(d.due_at, None);
        assert_eq!(d.due_in, None);
    }
}

#[test]
fn an_artifact_of_no_single_source_leads_to_none() {
    assert_eq!(source_at_lines(&None, &None), "");
    assert_eq!(source_at_lines(&Some("s".into()), &None), "/ui/corpora/s");
}

#[test]
fn what_was_superseded_or_deprecated_is_in_no_result() {
    assert!(in_results(ArtifactStatus::Active, None));
    assert!(!in_results(ArtifactStatus::Active, Some("b")));
    assert!(!in_results(ArtifactStatus::Deprecated, None));
}

#[test]
fn the_artifact_page_hangs_off_a_section() {
    let d = pane(rows(chunk("a", None, "x", Provenance::Captured), None), "");
    let page = ArtifactDetailPage { d };
    assert_eq!(page.section(), "search");
}

/// Everything of a page but its tags.
fn seen(html: &str) -> String {
    let mut out = String::new();
    let mut in_tag = false;
    for c in html.chars() {
        match c {
            '<' => in_tag = true,
            '>' if in_tag => in_tag = false,
            _ if !in_tag => out.push(c),
            _ => {}
        }
    }
    out
}

#[test]
fn linking_changes_no_word() {
    for html in [
        "<p>see [1] and [2] but not [9] or [x]</p>",
        "<p>[01][[2]]</p><pre><code>argv[1]</code></pre>[3]",
        "[1] plain [2]",
    ] {
        let out = link_citations(html, 2);
        assert_eq!(seen(&out), seen(html));
        for rest in out.split("#cite-").skip(1) {
            assert!(rest.starts_with("1\"") || rest.starts_with("2\""), "{rest}");
        }
    }
}

#[test]
fn a_rung_the_ladder_does_not_have_is_an_ordinary_open() {
    let ladder = vec!["edge".to_string(), "floor".to_string()];
    for word in [Some("made_up"), Some(""), Some("Edge"), None] {
        match opened(&ladder, word.map(|w| w.to_string()), Some(2), Some("a".into())) {
            Opened::Ordinary { via } => assert_eq!(via.as_deref(), Some("a")),
            Opened::Recommended { rung, .. } => panic!("{rung}"),
        }
    }
}

#[test]
fn taking_an_offer_is_not_an_ordinary_open() {
    let ladder = vec!["edge".to_string(), "floor".to_string()];
    for (name, at) in [("edge", Some(2)), ("floor", None)] {
        match opened(&ladder, Some(name.into()), at, Some("a".into())) {
            Opened::Recommended { kind, rung, slot } => {
                assert_eq!(kind, "recommended_open");
                assert_eq!(rung, name);
                assert_eq!(slot, at);
            }
            Opened::Ordinary { .. } => panic!("{name}"),
        }
    }
}
