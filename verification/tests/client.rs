use engram::artifact::{Integration, Probe, Tag};
use engram::capture::{Code, IngestOutcome};
use engram::client::{
    artifact_about, ask_carried, ask_keep, ask_verdict, ask_verdict_answer, corpus_bands,
    day_entry, feedback, kept_answer, lang_setting, moment_date, not_a_reminder, put_lang,
    reread_code, search_verdict, test_notify, AskVerdict, AskVerdictBody, Asked, AskedRecorded,
    DateBody, DayEntryBody, Judgement, LangBody, LangRow, Recorded,
};
use engram::corpus::{corpus_detail, LineRange};
use engram::json::{Json, Number};
use engram::records::{
    ArtifactStatus, Chunk, Corpus, CorpusSpan, CorpusStatus, Error, Kind, Moment, Provenance,
    Segment, SegmentState, Source,
};

fn corpus(raw: &str) -> Corpus {
    Corpus {
        id: "s".into(),
        raw_text: raw.into(),
        origin: "web".into(),
        status: CorpusStatus::Ready,
        title_hint: None,
        label: "s".into(),
        source_url: None,
        created_at: 0,
        restored_at: None,
        coverage: Some(75),
        metadata: Json::Object(vec![("note".into(), Json::Text("why".into()))]),
    }
}

fn chunk(id: &str, span: Option<(i64, i64)>) -> Chunk {
    Chunk {
        id: id.into(),
        text: id.into(),
        title: Some(id.into()),
        opening: id.into(),
        html: String::new(),
        category: None,
        tags: vec![],
        flags: vec![],
        flag_detail: None,
        caveats: vec![],
        cues: vec![],
        status: ArtifactStatus::Active,
        superseded_by: None,
        last_verified_at: None,
        provenance: Provenance::Captured,
        corpus_id: Some("s".into()),
        corpus_span: span.map(|(a, b)| CorpusSpan { start_line: a, end_line: b }),
        segment_idx: Some(0),
        ordinal: 0,
        created_at: 0,
    }
}

fn window(idx: i64, a: i64, b: i64) -> Segment {
    Segment { idx, start_line: a, end_line: b, state: SegmentState::Done }
}

fn words<T>(r: Result<T, Error>) -> String {
    match r {
        Err(Error::Validation(m)) => m,
        _ => panic!("refused"),
    }
}

#[test]
fn the_corpus_page_as_data() {
    let s = corpus("a\nb\nc\nd\ne\nf");
    let chunks = vec![chunk("x", Some((1, 3))), chunk("y", Some((3, 4)))];
    let segments = vec![window(0, 1, 3), window(1, 4, 6)];
    let p = corpus_bands(&s, &chunks, &segments, &[chunk("m", None)]);
    let shape: Vec<(i64, i64, bool)> = p.bands.iter().map(|b| (b.from, b.to, b.gap)).collect();
    assert_eq!(shape, vec![(1, 2, false), (3, 3, false), (4, 4, false), (5, 6, true)]);
    assert_eq!(p.bands[0].artifact_ids, vec!["x"]);
    assert_eq!(p.bands[1].artifact_ids, vec!["y"]);
    assert_eq!(p.bands[1].echoes, vec!["x"]);
    assert_eq!(p.bands[2].echoes, vec!["y"]);
    assert_eq!(p.bands[3].reread.as_deref(), Some("reads lines 4–6"));
    assert_eq!(p.bands[0].reread, None);
    assert_eq!(p.bands[0].lines[1].text, "b");
    assert_eq!(p.note.as_deref(), Some("why"));
    assert_eq!(p.coverage.as_deref(), Some("75%"));
    assert!(p.unplaced.is_empty() && !p.image && !p.pdf && !p.unread && !p.restored);
    assert_eq!(p.written_from, vec!["m"]);
    assert_eq!(p.promoted.len(), 1);
}

#[test]
fn a_phone_and_a_browser_show_the_same_red() {
    let s = corpus("a\nb\nc\n\nd\ne\nf");
    let chunks = vec![chunk("x", Some((2, 3))), chunk("y", Some((3, 5)))];
    let segments = vec![window(0, 1, 4), window(1, 5, 7)];
    let phone = corpus_bands(&s, &chunks, &segments, &[]);
    for range in [LineRange { from: None, to: None }, LineRange { from: Some(2), to: Some(5) }] {
        let page = corpus_detail(&s, &chunks, &segments, &[], &range);
        assert_eq!(phone.bands.len(), page.bands.len());
        assert_eq!(phone.coverage, page.coverage);
        for (a, b) in phone.bands.iter().zip(&page.bands) {
            assert_eq!((a.from, a.to, a.gap), (b.from, b.to, b.gap));
            assert_eq!(a.reread, b.reread);
            let cards: Vec<&String> = b.artifacts.iter().map(|c| &c.id).collect();
            assert_eq!(a.artifact_ids.iter().collect::<Vec<_>>(), cards);
            let echoes: Vec<&String> = b.echoes.iter().map(|e| &e.id).collect();
            assert_eq!(a.echoes.iter().collect::<Vec<_>>(), echoes);
            for (l, m) in a.lines.iter().zip(&b.lines) {
                assert_eq!((l.number, &l.text), (m.number, &m.text));
            }
        }
    }
}

#[test]
fn a_search_is_judged_once() {
    let a = search_verdict(Some("hit"));
    assert_eq!((a.state, a.already), ("hit", false));
    let a = search_verdict(None);
    assert_eq!((a.state, a.already), ("", true));
}

#[test]
fn a_question_from_the_app_is_judged_and_kept() {
    let b = |v: &str| AskVerdictBody { verdict: v.into() };
    assert!(matches!(ask_verdict(true, &b("right")), Ok(Judgement::Judged(AskVerdict::Right))));
    assert!(matches!(ask_verdict(true, &b("wrong")), Ok(Judgement::Judged(AskVerdict::Wrong))));
    assert!(matches!(
        ask_verdict(true, &b("nothing_here")),
        Ok(Judgement::Judged(AskVerdict::NothingHere))
    ));
    assert!(matches!(ask_verdict(true, &b("none")), Ok(Judgement::TakenBack)));
    assert_eq!(words(ask_verdict(true, &b("maybe"))), "unknown verdict maybe");
    assert!(matches!(ask_verdict(false, &b("right")), Err(Error::NotFound)));

    let a = ask_verdict_answer(Some(Some(AskVerdict::NothingHere))).ok().unwrap();
    assert_eq!(a.verdict.as_deref(), Some("nothing here"));
    assert!(matches!(ask_verdict_answer(Some(None)), Ok(a) if a.verdict.is_none()));
    assert!(matches!(ask_verdict_answer(None), Err(Error::NotFound)));
    let a = ask_carried(true, Some(Some(AskVerdict::Right))).ok().unwrap();
    assert!(a.carried);
    assert_eq!(a.verdict.as_deref(), Some("right"));
    assert!(matches!(ask_carried(true, None), Err(Error::NotFound)));

    let asked = || Asked {
        id: "q1".into(),
        question: "how".into(),
        answer: "so".into(),
        citations: vec!["a".into()],
    };
    let k = ask_keep(true, Some(asked())).ok().unwrap();
    assert_eq!(k.text, "so");
    assert_eq!(k.origin, "ask");
    let note = k.ask.unwrap();
    assert_eq!(note.event_id, "q1");
    assert_eq!(note.question, "how");
    assert_eq!(note.citations, vec!["a"]);
    assert!(matches!(ask_keep(false, Some(asked())), Err(Error::NotFound)));
    assert!(matches!(ask_keep(true, None), Err(Error::NotFound)));
    let out = |duplicate| IngestOutcome { id: "s9".into(), duplicate, status: CorpusStatus::Raw };
    let a = kept_answer(out(false), Some(93));
    assert_eq!((a.id.as_str(), a.duplicate, a.parked, a.near_dupe_percent), ("s9", false, true, 93));
    let a = kept_answer(out(true), None);
    assert_eq!((a.duplicate, a.parked, a.near_dupe_percent), (true, false, 0));
}

#[test]
fn a_reminder_can_be_given_a_date() {
    let b = DateBody { at: 5, tz: "Europe/Berlin".into() };
    assert!(matches!(moment_date(true, &b), Ok((5, tz)) if tz == "Europe/Berlin"));
    assert!(matches!(moment_date(false, &b), Err(Error::NotFound)));
    let b = DateBody { at: 5, tz: "Nowhere".into() };
    assert!(matches!(moment_date(true, &b), Ok((5, tz)) if tz == "UTC"));
}

#[test]
fn a_set_reminder_is_never_retracted() {
    assert_eq!(not_a_reminder("a".into(), true, true).undo.as_deref(), Some("a"));
    assert_eq!(not_a_reminder("a".into(), false, true).undo, None);
    assert_eq!(not_a_reminder("a".into(), true, false).undo, None);
}

#[test]
fn what_is_about_an_artifact_is_said_in_lines() {
    let i = Integration { tag: Tag::Novel, nearest: None, detail: None };
    let p = Probe { class: "cue".into(), query: "how".into(), last: Some(Some(1)) };
    let m = Moment {
        id: "m".into(),
        artifact_id: "a".into(),
        kind: Kind::Due,
        at: Some(100),
        snoozed_until: None,
        done_at: None,
        created_at: 0,
        rule: None,
        source: Source::Cue,
        span: None,
    };
    let a = artifact_about(Some(&i), &[p], Some("c1".into()), Some(&m), Some("in 2 h".into()));
    assert!(a.tag.unwrap().starts_with("When it arrived"));
    assert_eq!(a.probes, vec!["cue · “how” · rank 1"]);
    assert_eq!(a.condensed.as_deref(), Some("c1"));
    assert_eq!(a.due_in.as_deref(), Some("in 2 h"));
    assert_eq!(artifact_about(None, &[], None, None, None).tag, None);
    assert_eq!(artifact_about(None, &[], None, None, Some("in 2 h".into())).due_in, None);
}

#[test]
fn a_re_read_answers_whether_anything_is_read() {
    assert_eq!(reread_code(&[3]), Code::Accepted);
    assert_eq!(reread_code(&[]).number(), 204);
}

#[test]
fn an_entry_goes_into_its_day() {
    let b = |text: &str| DayEntryBody { text: text.into(), tz: "Europe/Berlin".into() };
    let c = day_entry("2026-8-15", &b("Long day."), "de").ok().unwrap();
    assert_eq!(c.day.as_deref(), Some("2026-08-15"));
    assert_eq!(c.origin, "journal");
    assert_eq!(c.channel, Some("web"));
    assert_eq!(c.tz.as_deref(), Some("Europe/Berlin"));
    assert_eq!(c.lang.as_deref(), Some("de"));
    assert!(matches!(day_entry("today", &b("x"), "de"), Err(Error::NotFound)));
    assert_eq!(words(day_entry("2026-08-15", &b("  "), "de")), "the entry is empty");
}

#[test]
fn what_is_recorded_is_said_only_while_something_is() {
    let r = || Recorded { captured: 1, pending: 2, judged: 3 };
    let a = || AskedRecorded { asked: 4, judged: 5 };
    let f = feedback(true, r(), a());
    assert_eq!(f.searches.unwrap().pending, 2);
    assert_eq!(f.asks.unwrap().asked, 4);
    let f = feedback(false, r(), a());
    assert!(f.searches.is_none() && f.asks.is_none());
}

#[test]
fn a_language_is_one_of_those_there_are() {
    let b = |lang: &str| LangBody { lang: lang.into() };
    assert!(matches!(put_lang(&b(" de "), Some(7)), Ok(Some(7))));
    assert!(matches!(put_lang(&b("  "), Some(7)), Ok(None)));
    assert_eq!(words(put_lang::<u8>(&b(" xx "), None)), "lang: `xx` is not one of the ten");
    let s = lang_setting(Some("de"), vec![LangRow { value: "de", label: "Deutsch" }]);
    assert_eq!((s.chosen.as_str(), s.langs.len()), ("de", 1));
    assert_eq!(lang_setting(None, vec![]).chosen, "");
}

#[test]
fn trying_a_channel_says_why_not() {
    let t = test_notify(Ok(()));
    assert!(t.sent && t.error.is_none());
    let t = test_notify(Err("no endpoint".into()));
    assert!(!t.sent);
    assert_eq!(t.error.as_deref(), Some("no endpoint"));
}

#[test]
fn a_photo_nothing_has_read_is_unread() {
    let mut s = corpus("");
    s.origin = "image".into();
    s.status = CorpusStatus::Describing;
    s.metadata = Json::Object(vec![(
        "width".into(),
        Json::Number(Number { shown: "640".into(), whole: Some(640) }),
    )]);
    let p = corpus_bands(&s, &[], &[], &[]);
    assert!(p.image && p.unread && p.bands.is_empty());
    assert_eq!(p.note, None);
}
