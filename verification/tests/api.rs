use engram::api::{
    after_patch, api_sse_event, attachment, ask_door, ask_origin, clean_optional, clean_tags, consolidation,
    error_frame, get_artifact, kind_of, list_moments, listed, may_snooze, page_of, patch_artifact,
    plan_moment, query_flag, reap_of, reprocess, resurface_limit, search, search_answer, search_request,
    search_sse_event, set_moment, snoozed, stage_asked, stale_limit, status as lib_status, wants_original,
    AfterPatch, AskEvent, Consolidation, Door, Frame, Held, LastKept, Learning, ListParams, MomentsQuery,
    NewMomentBody, OpenedFrom, PatchArtifactRequest, ResurfaceParams, SearchEvent, SearchParams, SnoozeBody,
    SourceRef, StaleParams, StatusResponse, StatusRows, Window, END_OF_9999, YEAR_ONE,
};
use engram::json::Json;
use engram::records::{ArtifactStatus, Chunk, Error, Kind, Moment, Provenance, Source};

fn words<T>(r: Result<T, Error>) -> String {
    match r {
        Err(Error::Validation(m)) => m,
        _ => panic!("refused"),
    }
}

fn chunk(corpus_id: Option<&str>) -> Chunk {
    Chunk {
        id: "a".into(),
        text: "a body".into(),
        title: Some("a title".into()),
        opening: "a body".into(),
        html: String::new(),
        category: Some("concept".into()),
        tags: vec!["fresh".into()],
        flags: vec![],
        flag_detail: None,
        caveats: vec![],
        cues: vec![],
        status: ArtifactStatus::Active,
        superseded_by: None,
        last_verified_at: None,
        provenance: Provenance::Captured,
        corpus_id: corpus_id.map(str::to_string),
        corpus_span: None,
        segment_idx: None,
        ordinal: 0,
        created_at: 77,
    }
}

fn patch() -> PatchArtifactRequest {
    PatchArtifactRequest { text: None, title: None, category: None, tags: None }
}

fn params(q: &str) -> SearchParams {
    SearchParams {
        q: q.into(),
        limit: None,
        tags: None,
        category: None,
        include_deprecated: false,
        include_superseded: false,
        door: None,
        rerank: None,
        explain: None,
    }
}

fn members(v: &Json) -> Vec<&str> {
    match v {
        Json::Object(m) => m.iter().map(|(k, _)| k.as_str()).collect(),
        _ => panic!("an object"),
    }
}

fn strings(v: &[&str]) -> Vec<String> {
    v.iter().map(|s| s.to_string()).collect()
}

#[test]
fn tags_are_trimmed_deduplicated_and_bounded() {
    let tags = strings(&["  linux ", "linux", "", "   ", "forensics"]);
    assert_eq!(clean_tags(&tags).ok(), Some(strings(&["linux", "forensics"])));
    let cleaned = clean_tags(&tags).ok().unwrap();
    assert_eq!(clean_tags(&cleaned).ok(), Some(cleaned.clone()));
}

#[test]
fn an_unbounded_tag_list_is_refused() {
    let many: Vec<String> = (0..500).map(|i| format!("t{i}")).collect();
    assert_eq!(words(clean_tags(&many)), "a chunk may carry at most 32 tags, got 500");
    assert!(clean_tags(&many[..32]).is_ok());
    let repeated = vec!["t".to_string(); 500];
    assert_eq!(clean_tags(&repeated).ok(), Some(strings(&["t"])));
}

#[test]
fn an_overlong_tag_is_refused() {
    assert_eq!(words(clean_tags(&["x".repeat(500)])), "tag is longer than 64 characters");
    assert!(clean_tags(&["é".repeat(64)]).is_ok());
    assert!(clean_tags(&["x".repeat(65)]).is_err());
}

#[test]
fn a_field_is_cleaned_cleared_or_refused() {
    assert_eq!(clean_optional(Some("  a  "), 5, "title").ok(), Some(Some("a".into())));
    assert_eq!(clean_optional(Some("   "), 5, "title").ok(), Some(None));
    assert_eq!(clean_optional(None, 5, "title").ok(), Some(None));
    assert_eq!(words(clean_optional(Some("abcdef"), 5, "title")), "title is longer than 5 characters");
}

#[test]
fn editing_only_tags_rewrites_the_payload_without_re_embedding() {
    let plan = patch_artifact(&PatchArtifactRequest {
        tags: Some(strings(&["fresh"])),
        ..patch()
    })
    .ok()
    .unwrap();
    assert!(!plan.revectorize);
    assert_eq!(plan.tags, Some(strings(&["fresh"])));
    match after_patch(plan.revectorize, true, &chunk(Some("s"))) {
        AfterPatch::Rewrite(p) => {
            assert_eq!(p.artifact_id, "a");
            assert_eq!(p.corpus_id, "s");
            assert_eq!(p.tags, strings(&["fresh"]));
            assert_eq!(p.category.as_deref(), Some("concept"));
            assert_eq!(p.created_at, 77);
        }
        _ => panic!("rewritten in place"),
    }
    assert!(matches!(after_patch(false, false, &chunk(None)), AfterPatch::Nothing));
}

#[test]
fn editing_the_title_does_queue_a_re_embed() {
    let plan = patch_artifact(&PatchArtifactRequest {
        title: Some(Some("a better title".into())),
        ..patch()
    })
    .ok()
    .unwrap();
    assert!(plan.revectorize);
    assert!(matches!(after_patch(true, true, &chunk(None)), AfterPatch::Embed));
}

#[test]
fn editing_the_text_still_queues_a_re_embed() {
    let plan = patch_artifact(&PatchArtifactRequest {
        text: Some(" different body ".into()),
        ..patch()
    })
    .ok()
    .unwrap();
    assert!(plan.revectorize);
    assert_eq!(plan.text.as_deref(), Some("different body"));
}

#[test]
fn a_patch_that_changes_nothing_is_rejected() {
    assert_eq!(words(patch_artifact(&patch())), "no fields to update");
}

#[test]
fn a_field_can_be_cleared_with_an_explicit_null() {
    let plan = patch_artifact(&PatchArtifactRequest { category: Some(None), ..patch() });
    assert!(matches!(plan, Ok(p) if p.category == Some(None) && !p.revectorize));
}

#[test]
fn an_untouched_field_keeps_its_value() {
    let plan = patch_artifact(&PatchArtifactRequest {
        tags: Some(strings(&["fresh"])),
        ..patch()
    });
    assert!(matches!(plan, Ok(p) if p.category.is_none() && p.title.is_none() && p.text.is_none()));
}

#[test]
fn a_rejected_field_leaves_the_other_fields_alone() {
    let r = patch_artifact(&PatchArtifactRequest {
        title: Some(Some("a new title".into())),
        tags: Some(vec!["x".repeat(500)]),
        ..patch()
    });
    assert_eq!(words(r), "tag is longer than 64 characters");
    let r = patch_artifact(&PatchArtifactRequest {
        title: Some(Some("x".repeat(513))),
        ..patch()
    });
    assert_eq!(words(r), "title is longer than 512 characters");
    let r = patch_artifact(&PatchArtifactRequest {
        category: Some(Some("x".repeat(65))),
        ..patch()
    });
    assert_eq!(words(r), "category is longer than 64 characters");
    let many: Vec<String> = (0..33).map(|i| format!("t{i}")).collect();
    let r = patch_artifact(&PatchArtifactRequest { tags: Some(many), ..patch() });
    assert_eq!(words(r), "a chunk may carry at most 32 tags, got 33");
}

#[test]
fn a_blank_title_clears_it_rather_than_storing_whitespace() {
    let plan = patch_artifact(&PatchArtifactRequest { title: Some(Some("   ".into())), ..patch() });
    assert!(matches!(plan, Ok(p) if p.title == Some(None) && p.revectorize));
}

#[test]
fn an_empty_text_is_still_rejected() {
    let r = patch_artifact(&PatchArtifactRequest { text: Some("   ".into()), ..patch() });
    assert_eq!(words(r), "chunk text is empty");
}

#[test]
fn a_flag_is_on_in_the_spellings_a_query_carries() {
    for on in ["", "1", "true", "yes", "on", " 1 "] {
        assert_eq!(query_flag(Some(on)), Some(true), "{on}");
    }
    for off in ["0", "false", "True", "2"] {
        assert_eq!(query_flag(Some(off)), Some(false), "{off}");
    }
    assert_eq!(query_flag(None), None);
    assert!(wants_original(Some("1")) && wants_original(Some("true")));
    assert!(!wants_original(Some("yes")) && !wants_original(None));
}

#[test]
fn the_preview_and_the_original_are_served() {
    let a = attachment(Some(("image/png".into(), b"png".to_vec()))).ok().unwrap();
    assert_eq!((a.mime.as_str(), a.cache_control), ("image/png", "private, max-age=3600"));
    assert_eq!(a.bytes, b"png");
    assert!(matches!(attachment(None), Err(Error::NotFound)));
}

#[test]
fn a_list_has_at_least_one_row_and_at_most_two_hundred() {
    assert_eq!(page_of(&ListParams { limit: 50, offset: 3 }), (50, 3));
    assert_eq!(page_of(&ListParams { limit: 0, offset: -1 }), (1, 0));
    assert_eq!(page_of(&ListParams { limit: 9_999, offset: 0 }), (200, 0));
    assert_eq!(stale_limit(&StaleParams { limit: None }), 20);
    assert_eq!(stale_limit(&StaleParams { limit: Some(3) }), 3);
    assert_eq!(resurface_limit(&ResurfaceParams { limit: None }), 5);
    assert_eq!(resurface_limit(&ResurfaceParams { limit: Some(9) }), 9);
}

#[test]
fn one_artifact_is_readable_in_full_with_the_document_it_came_from() {
    let source = || SourceRef {
        id: "s".into(),
        title: Some("A book".into()),
        origin: "web".into(),
        source_url: None,
    };
    let plain = OpenedFrom { learning: true, event: None, mine: false, taken: false };
    let d = get_artifact(chunk(Some("s")), Some(source()), &plain);
    assert_eq!(d.artifact.text, "a body");
    assert_eq!(d.source.unwrap().id, "s");
    assert_eq!(d.search_event, None);
    assert!(get_artifact(chunk(Some("s")), None, &plain).source.is_none());
    assert!(get_artifact(chunk(None), Some(source()), &plain).source.is_none());
}

#[test]
fn an_open_over_the_api_names_the_search_it_is_attributed_to() {
    let from = |event, learning, mine, taken| OpenedFrom { learning, event, mine, taken };
    let named = |from: &OpenedFrom| get_artifact(chunk(Some("s")), None, from).search_event;
    assert_eq!(named(&from(Some("ev"), true, true, true)).as_deref(), Some("ev"));
    assert_eq!(named(&from(None, true, true, true)), None);
    assert_eq!(named(&from(Some("ev"), false, true, true)), None);
    assert_eq!(named(&from(Some("ev"), true, false, true)), None);
    assert_eq!(named(&from(Some("ev"), true, true, false)), None);
    let mut gone = chunk(Some("s"));
    gone.status = ArtifactStatus::Deprecated;
    assert_eq!(get_artifact(gone, None, &from(Some("ev"), true, true, true)).search_event, None);
}

#[test]
fn a_search_from_the_app_is_recorded_and_the_result_it_opens_can_be_judged() {
    let (_, o) = search_request("user-1", params("invoice"));
    assert_eq!((o.door, o.scope), (Door::Api, None));
    let hits = || Json::Array(vec![]);
    let ev = || Some("ev-search".to_string());
    // Without the door, a bearer search is an agent's: nothing to judge.
    let v = search(Door::Api, hits(), Json::Null, false, ev());
    assert!(v.get("event").is_none());
    assert!(matches!(v, Json::Array(_)));
    let (q, o) =
        search_request("user-1", SearchParams { door: Some("app".into()), ..params("invoice") });
    assert_eq!((o.door, o.scope.as_deref()), (Door::App, Some("user-1")));
    assert!(q.mark && q.rerank);
    let v = search(o.door, hits(), Json::Null, false, ev());
    assert_eq!(members(&v), vec!["results", "event"]);
    assert!(matches!(v.get("event"), Some(Json::Text(t)) if t == "ev-search"));
    assert!(matches!(v.get("results"), Some(Json::Array(_))));
    let v = search(Door::App, hits(), Json::Bool(true), true, ev());
    assert_eq!(members(&v), vec!["results", "explanation", "event"]);
    assert!(matches!(search(Door::App, hits(), Json::Null, false, None), Json::Array(_)));
    for door in [Door::Api, Door::Cli, Door::Extension] {
        let v = search(door, hits(), Json::Null, true, ev());
        assert_eq!(members(&v), vec!["results", "explanation"]);
    }
}

#[test]
fn an_unknown_reprocess_stage_is_a_400() {
    let req = stage_asked(Some("nope".into()));
    assert_eq!(words(reprocess::<u8>(&req, None)), "unknown stage `nope`");
    assert_eq!(stage_asked(None).stage, "segment");
    assert!(matches!(reprocess(&stage_asked(None), Some(4)), Ok(4)));
}

#[test]
fn search_passes_filters_through_to_core() {
    let (q, o) = search_request(
        "user-1",
        SearchParams {
            limit: Some(7),
            tags: Some(" linux, ,forensics,linux".into()),
            category: Some("concept".into()),
            include_deprecated: true,
            explain: Some(true),
            ..params("journal")
        },
    );
    assert_eq!(q.q, "journal");
    assert_eq!(q.limit, 7);
    assert_eq!(q.tags, strings(&["linux", "forensics", "linux"]));
    assert_eq!(q.category.as_deref(), Some("concept"));
    assert!(q.include_deprecated && !q.include_superseded);
    assert!(q.mark && q.rerank && q.explain);
    assert_eq!(o.door, Door::Api);
    let (q, _) = search_request("u", SearchParams { category: Some("".into()), ..params("x") });
    assert_eq!(q.category, None);
    assert_eq!(q.limit, 0);
    assert!(q.tags.is_empty() && !q.explain);
    assert_eq!(listed("a,,b "), strings(&["a", "b"]));
}

#[test]
fn a_cli_search_is_recorded_against_whoever_ran_it() {
    let (q, o) = search_request("user-1", SearchParams { door: Some("cli".into()), ..params("x") });
    assert_eq!(o.door, Door::Cli);
    assert_eq!(o.scope.as_deref(), Some("user-1"));
    assert!(q.mark && q.rerank);
}

#[test]
fn a_bearer_token_is_still_not_a_person() {
    let (_, o) = search_request("user-1", params("x"));
    assert_eq!((o.door, o.scope), (Door::Api, None));
}

#[test]
fn a_search_from_the_panel_does_not_stamp_what_a_prefix_matched() {
    let door = || Some("extension".to_string());
    let (q, o) = search_request("user-1", SearchParams { door: door(), ..params("loo") });
    assert!(!q.mark && !q.rerank);
    assert_eq!(o.scope.as_deref(), Some("user-1"));
    let (q, _) =
        search_request("user-1", SearchParams { door: door(), rerank: Some(true), ..params("l") });
    assert!(q.rerank && !q.mark);
}

#[test]
fn a_client_cannot_claim_a_door_that_would_launder_its_query() {
    let (_, o) = search_request(
        "user-1",
        SearchParams { door: Some("judge".into()), ..params("loop device") },
    );
    assert_eq!(o.door, Door::Api);
    assert_eq!(o.scope, None);
}

#[test]
fn a_shell_question_is_recorded_and_the_panel_is_unchanged() {
    let o = ask_origin(Some("cli"), "user-1", Door::Extension);
    assert_eq!((o.door, o.scope.as_deref()), (Door::Cli, Some("user-1")));
    let o = ask_origin(None, "user-1", Door::Extension);
    assert_eq!((o.door, o.scope.as_deref()), (Door::Extension, Some("user-1")));
    let o = ask_origin(None, "user-1", Door::Api);
    assert_eq!((o.door, o.scope), (Door::Api, None));
}

#[test]
fn api_ask_is_not_found_without_an_ask_model() {
    assert!(matches!(ask_door(false), Err(Error::NotFound)));
    assert!(ask_door(true).is_ok());
}

#[test]
fn moments_are_listed_from_now_and_events_from_where_the_window_opens() {
    let q = |from, to, kind: Option<&str>| MomentsQuery {
        from,
        to,
        kind: kind.map(str::to_string),
    };
    assert!(matches!(
        list_moments(&q(Some(5_000), None, None), 1_000, 48),
        Ok(Window::Due { now: 1_000, to: 173_800 })
    ));
    assert!(matches!(
        list_moments(&q(Some(5_000), Some(9_000), Some("due")), 1_000, 48),
        Ok(Window::Due { now: 1_000, to: 9_000 })
    ));
    assert!(matches!(
        list_moments(&q(Some(5_000), Some(9_000), Some("event")), 1_000, 48),
        Ok(Window::Events { from: 5_000, to: 9_000 })
    ));
    assert!(matches!(
        list_moments(&q(None, None, Some("event")), 1_000, 1),
        Ok(Window::Events { from: 1_000, to: 4_600 })
    ));
    assert_eq!(
        words(list_moments(&q(None, None, Some("all")), 0, 1)),
        "kind=all: `due` or `event`"
    );
    assert!(matches!(kind_of(None), Ok(Kind::Due)));
}

#[test]
fn a_snooze_into_the_past_is_refused_and_an_unknown_row_is_a_404() {
    let now = 1_800_000_000;
    for until in [0, -1, now] {
        assert_eq!(
            words(may_snooze(&SnoozeBody { until }, now, None)),
            "until must be in the future; to put a reminder back on the band, DELETE the snooze \
             instead"
        );
    }
    assert_eq!(
        words(may_snooze(&SnoozeBody { until: i64::MAX }, now, None)),
        "until=9223372036854775807: outside the range a date can be spelled in"
    );
    let mut m = Moment {
        id: "m".into(),
        artifact_id: "a".into(),
        kind: Kind::Due,
        at: None,
        snoozed_until: None,
        done_at: None,
        created_at: 0,
        rule: None,
        source: Source::ByHand,
        span: None,
    };
    assert!(words(may_snooze(&SnoozeBody { until: now + 1 }, now, Some(&m)))
        .starts_with("this reminder has no date"));
    m.at = Some(now);
    assert!(may_snooze(&SnoozeBody { until: now + 1 }, now, Some(&m)).is_ok());
    assert!(matches!(snoozed(false), Err(Error::NotFound)));
    assert!(matches!(snoozed(true), Ok(c) if c.number() == 204));
}

#[test]
fn setting_a_moment_refuses_an_instant_no_reader_can_do_arithmetic_in() {
    let body = |at, kind: Option<&str>| NewMomentBody {
        at,
        tz: None,
        kind: kind.map(str::to_string),
        rule: None,
    };
    for at in [i64::MIN, i64::MAX, -62_135_596_801i64, 253_402_300_800i64] {
        assert_eq!(
            words(set_moment("a", body(at, None), None)),
            format!("at={at}: seconds since the epoch, within the years 1 to 9999")
        );
    }
    for at in [YEAR_ONE, END_OF_9999] {
        assert!(set_moment("a", body(at, None), None).is_ok());
    }
    let m = set_moment("a", body(-2_208_988_800, Some("event")), None).ok().unwrap();
    assert_eq!(m.at, Some(-2_208_988_800));
    assert_eq!(m.kind, Kind::Event);
    assert_eq!(m.tz, "UTC");
    assert_eq!(m.artifact_id, "a");
    assert_eq!(m.source.as_str(), "set");
}

#[test]
fn setting_a_moment_refuses_a_zone_the_table_does_not_know() {
    let body = |tz: &str| NewMomentBody {
        at: 1_800_000_000,
        tz: Some(tz.into()),
        kind: None,
        rule: None,
    };
    assert_eq!(
        words(set_moment("a", body("Europe/Berlim"), None)),
        "tz=Europe/Berlim: not an IANA zone name"
    );
    let m = set_moment("a", body(" Europe/Berlin "), None).ok().unwrap();
    assert_eq!(m.tz, "Europe/Berlin");
    assert!(plan_moment("a", body("Nowhere"), None, None).is_err());
    let m = plan_moment("a", body("Nowhere"), None, Some("Nowhere".into()));
    assert!(matches!(m, Ok(m) if m.tz == "Nowhere"));
}

#[test]
fn a_rule_outside_the_subset_is_a_400_with_the_reason() {
    let body = NewMomentBody {
        at: 1,
        tz: None,
        kind: None,
        rule: Some("FREQ=HOURLY".into()),
    };
    let why = words(set_moment("a", body, Some("FREQ=HOURLY is not a rule".into())));
    assert!(why.contains("HOURLY"), "{why}");
    let body = NewMomentBody { at: 1, tz: None, kind: Some("x".into()), rule: None };
    assert_eq!(words(set_moment("a", body, None)), "kind=x: `due` or `event`");
    let body = NewMomentBody {
        at: 1,
        tz: None,
        kind: None,
        rule: Some("FREQ=MONTHLY;BYMONTHDAY=1".into()),
    };
    let m = set_moment("a", body, None).ok().unwrap();
    assert_eq!(m.rule.as_deref(), Some("FREQ=MONTHLY;BYMONTHDAY=1"));
}

fn status(rows: StatusRows) -> StatusResponse {
    lib_status(rows, "en")
}

fn rows() -> StatusRows {
    StatusRows {
        sources: vec![("ready".into(), 2)],
        jobs: vec![("pending".into(), 1)],
        failed: vec![],
        oldest_pending_secs: Some(9),
        chunks: 4,
        vectors: None,
        learns: true,
        learning: Learning {
            pursuits_open: 1,
            pursuits_unsatisfied: 2,
            from_pursuits: 3,
            gaps_open: 4,
        },
        reap_enabled: true,
        has_judge: true,
        last_reap: None,
        retired_waiting: 6,
        asks: true,
        vision: false,
        recommend: true,
        held: Held { corpora: 1 },
        last_kept: Some(LastKept { id: "s".into() }),
        teach: true,
    }
}

#[test]
fn status_reports_queue_and_corpus_counts() {
    let s = status(rows());
    assert_eq!(s.sources, vec![("ready".to_string(), 2)]);
    assert_eq!(s.jobs, vec![("pending".to_string(), 1)]);
    assert_eq!(s.chunks, 4);
    assert_eq!(s.oldest_pending_secs, Some(9));
    assert_eq!(s.vectors, 0, "a store that cannot be reached takes nothing else away");
    assert_eq!(status(StatusRows { vectors: Some(8), ..rows() }).vectors, 8);
}

#[test]
fn status_says_nothing_about_learning_while_the_layer_is_off() {
    let s = status(rows());
    assert!(s.learn);
    assert_eq!(s.learning.unwrap().gaps_open, 4);
    let s = status(StatusRows { learns: false, ..rows() });
    assert!(!s.learn);
    assert!(s.learning.is_none());
}

#[test]
fn the_status_says_what_the_base_can_do_and_in_whose_language() {
    let s = lib_status(rows(), "de");
    assert!(s.learn && s.asks && !s.vision && s.recommend && s.teach);
    assert_eq!(s.held.corpora, 1);
    assert_eq!(s.last_kept.unwrap().id, "s");
    assert_eq!(s.examples.lang, "de");
    let s = lib_status(StatusRows { last_kept: None, teach: false, ..rows() }, "en");
    assert!(s.last_kept.is_none() && !s.teach);
    assert_eq!(s.examples.lang, "en");
}

#[test]
fn a_sweep_is_counted_from_what_it_noted() {
    let noted = |d: &str| {
        let s = status(StatusRows { last_reap: Some(d.into()), ..rows() });
        let r = s.reap.unwrap();
        (r.judged, r.reaped, r.rescued, r.retired_waiting)
    };
    assert_eq!(noted(r#"{"judged": 5, "reaped": 3, "rescued": -2}"#), (5, 3, -2, 6));
    assert_eq!(noted(r#"{"judged": "5", "reaped": 1.5}"#), (0, 0, 0, 6));
    assert_eq!(noted("not json"), (0, 0, 0, 6));
    let r = status(rows()).reap.unwrap();
    assert_eq!((r.judged, r.retired_waiting), (0, 6));
    assert!(status(StatusRows { has_judge: false, ..rows() }).reap.is_none());
    assert!(status(StatusRows { reap_enabled: false, ..rows() }).reap.is_none());
    let r = reap_of(Some(1), None, Some(2), 3);
    assert_eq!((r.judged, r.reaped, r.rescued, r.retired_waiting), (1, 0, 2, 3));
}

#[test]
fn the_consolidation_report_still_carries_every_key_it_ever_had() {
    let list = || Json::Array(vec![Json::Null]);
    let report = consolidation(Consolidation {
        superseded: list(),
        contradictions: list(),
        supersede_proposals: list(),
        discard_proposals: list(),
        pairs: list(),
    });
    assert_eq!(
        members(&report),
        vec![
            "superseded",
            "contradictions",
            "supersede_proposals",
            "discard_proposals",
            "merge_proposals",
            "pairs",
        ]
    );
    assert!(matches!(report.get("merge_proposals"), Some(Json::Array(v)) if v.is_empty()));
}

#[test]
fn the_bare_search_response_is_still_an_array() {
    let hits = || Json::Array(vec![]);
    assert!(matches!(search_answer(hits(), Json::Null, false, None), Json::Array(_)));
}

#[test]
fn explain_wraps_the_results_and_adds_the_pool() {
    let r = search_answer(Json::Array(vec![]), Json::Bool(true), true, None);
    assert_eq!(members(&r), vec!["results", "explanation"]);
}

#[test]
fn the_streaming_door_names_its_stages_and_then_answers() {
    let frames = [
        search_sse_event(SearchEvent::Stages(Json::Null)),
        search_sse_event(SearchEvent::Stage(Json::Null)),
        search_sse_event(SearchEvent::Results(Json::Null)),
    ];
    let names: Vec<&str> = frames.iter().map(|f| f.name).collect();
    assert_eq!(names, vec!["stages", "stage", "results"]);
    for Frame { name, data } in &frames {
        assert_eq!(members(data), vec![*name]);
    }
}

#[test]
fn an_ask_streams_the_answer_in_json_frames() {
    let f = api_sse_event(AskEvent::Retrieved {
        round: 1,
        retrieved: 20,
        shown: 8,
        dropped: 12,
        cliff_at: None,
    });
    assert_eq!(f.name, "retrieved");
    assert_eq!(members(&f.data), vec!["round", "retrieved", "shown", "dropped", "cliff_at"]);
    assert!(matches!(f.data.get("retrieved"), Some(Json::Number(n)) if n.whole == Some(20)
        && n.shown == "20"));
    assert!(matches!(f.data.get("cliff_at"), Some(Json::Null)));
    let f = api_sse_event(AskEvent::Token("hello".into()));
    assert_eq!(f.name, "token");
    assert!(matches!(f.data.get("text"), Some(Json::Text(t)) if t == "hello"));
    assert_eq!(api_sse_event(AskEvent::Reasoning("r".into())).name, "reasoning");
    assert_eq!(members(&api_sse_event(AskEvent::Needs(Json::Null)).data), vec!["queries"]);
    assert_eq!(members(&api_sse_event(AskEvent::Citations(Json::Null)).data), vec!["hits"]);
    let done = api_sse_event(AskEvent::Done(Json::Text("all".into())));
    assert_eq!(done.name, "done");
    assert!(matches!(done.data, Json::Text(t) if t == "all"));
}

#[test]
fn a_failure_is_a_frame_with_words() {
    let f = error_frame("no such model".into());
    assert_eq!(f.name, "error");
    assert!(matches!(f.data.get("error"), Some(Json::Text(t)) if t == "no such model"));
}
