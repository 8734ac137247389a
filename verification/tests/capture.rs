use engram::capture::{
    body_of, capture, capture_file, capture_parts, capture_text, capture_time, captured, code_for,
    code_for_all, extracted, field_of, floor_exempt, ingest, kept_code, only_a_url, plan_ingest,
    plan_parts, put_field, refuse_time_fields, share_files, share_part, stored_code, upload, upload_image,
    upload_kind_of, upload_part, Body, CapturePlan, CaptureQuery, Captured, Code, FilePart,
    IngestOutcome, IngestPlan, IngestRequest, PartUse, UploadKind, UploadPlan, MAX_BODY_BYTES,
};
use engram::links::Link;
use engram::records::{AskNote, CorpusStatus, Error, Intent};

fn query() -> CaptureQuery {
    CaptureQuery {
        title: None,
        note: None,
        tz: None,
        origin: None,
        intent: None,
        from_ask: None,
    }
}

fn request(text: Option<&str>, html: Option<&str>, url: Option<&str>) -> IngestRequest {
    IngestRequest {
        text: text.map(str::to_string),
        html: html.map(str::to_string),
        url: url.map(str::to_string),
        title: None,
        scope: None,
    }
}

fn words<T>(r: Result<T, Error>) -> String {
    match r {
        Err(Error::Validation(m)) => m,
        _ => panic!("refused"),
    }
}

fn outcome(duplicate: bool, status: CorpusStatus) -> IngestOutcome {
    IngestOutcome { id: "c".into(), duplicate, status }
}

fn file(filename: Option<&str>, declared: &str, bytes: &[u8]) -> FilePart {
    FilePart {
        filename: filename.map(str::to_string),
        declared: declared.into(),
        bytes: bytes.to_vec(),
    }
}

fn form(pairs: &[(&str, &str)]) -> Vec<(String, String)> {
    let mut fields = Vec::new();
    for (k, v) in pairs {
        put_field(&mut fields, k.to_string(), v.to_string());
    }
    fields
}

#[test]
fn only_a_supplied_fragment_is_exempt_from_the_extraction_floor() {
    let req = |html: Option<&str>, url: Option<&str>, scope: Option<&str>| IngestRequest {
        text: None,
        html: html.map(str::to_string),
        url: url.map(str::to_string),
        title: None,
        scope: scope.map(str::to_string),
    };

    assert!(floor_exempt(&req(
        Some("<p>three sentences</p>"),
        Some("https://example.test/a"),
        Some("selection"),
    )));
    assert!(!floor_exempt(&req(None, Some("https://example.test/a"), Some("selection"))));
    assert!(!floor_exempt(&req(Some("<p>a whole page</p>"), None, None)));
}

#[test]
fn capture_accepts_exactly_one_of_text_html_or_url() {
    assert!(matches!(
        ingest(request(None, Some("<article></article>"), None), 200, "en"),
        Ok(IngestPlan::Extract { floor: 200, .. })
    ));
    for req in [
        request(None, None, None),
        request(Some("a"), None, Some("https://example.test/")),
        request(Some("a"), Some("<p>b</p>"), None),
    ] {
        assert_eq!(
            words(ingest(req, 200, "en")),
            "supply exactly one of `text`, `html` or `url`"
        );
    }
}

#[test]
fn an_html_capture_records_its_url_as_provenance_not_as_origin() {
    let req = request(None, Some("<article/>"), Some("https://example.test/notes"));
    match ingest(req, 200, "en") {
        Ok(IngestPlan::Extract { html, base, floor, title, lang }) => {
            assert_eq!(html, "<article/>");
            assert_eq!(base.as_deref(), Some("https://example.test/notes"));
            assert_eq!(floor, 200);
            let c = extracted("## Mounting".into(), Some("Page".into()), title, base, lang);
            assert_eq!(c.origin, "extension");
            assert_eq!(c.source_url.as_deref(), Some("https://example.test/notes"));
            assert_eq!(c.title.as_deref(), Some("Page"));
            assert_eq!(c.lang.as_deref(), Some("en"));
        }
        _ => panic!("a page to extract"),
    }
}

#[test]
fn a_title_that_was_sent_wins_over_the_pages_own() {
    let c = extracted("x".into(), Some("Page".into()), Some("Mine".into()), None, "en".into());
    assert_eq!(c.title.as_deref(), Some("Mine"));
}

#[test]
fn a_source_url_is_refused_unless_it_is_one_a_page_is_read_over() {
    for (bad, scheme) in [
        ("javascript:fetch('/api/v1/tokens')", "javascript"),
        ("data:text/html,<script>1</script>", "data"),
        ("file:///etc/passwd", "file"),
    ] {
        let req = request(None, Some("<article><p>a body</p></article>"), Some(bad));
        assert_eq!(
            words(ingest(req, 200, "en")),
            format!("url: `{scheme}` is not a scheme a page is read over")
        );
    }
    assert!(words(ingest(request(None, None, Some("not a url")), 200, "en")).starts_with("url: "));
}

#[test]
fn a_selection_is_not_held_to_the_whole_page_extraction_floor() {
    let mut req = request(None, Some("<p>The loop device is what makes this work.</p>"), None);
    req.scope = Some("selection".into());
    assert!(matches!(ingest(req, 200, "en"), Ok(IngestPlan::Extract { floor: 0, .. })));
}

#[test]
fn a_link_is_fetched_from_where_it_reads_to() {
    let mut req = request(None, None, Some("HTTPS://Example.test"));
    req.title = Some("A title".into());
    match ingest(req, 200, "de") {
        Ok(IngestPlan::Fetch { url, title, lang }) => {
            assert_eq!(url, "https://example.test/");
            assert_eq!(title.as_deref(), Some("A title"));
            assert_eq!(lang, "de");
        }
        _ => panic!("a fetch"),
    }
}

#[test]
fn what_an_address_was_read_as_decides_a_plan() {
    let link = |scheme: &str| Link {
        whole: format!("{scheme}://h/p"),
        scheme: scheme.into(),
        path: "/p".into(),
        query: None,
    };
    let req = || request(None, None, Some("raw"));
    assert!(matches!(
        plan_ingest(req(), Some(Ok(link("http"))), 9, "en"),
        Ok(IngestPlan::Fetch { url, .. }) if url == "http://h/p"
    ));
    assert_eq!(
        words(plan_ingest(req(), Some(Ok(link("ftp"))), 9, "en")),
        "url: `ftp` is not a scheme a page is read over"
    );
    assert_eq!(words(plan_ingest(req(), Some(Err("bad".into())), 9, "en")), "url: bad");
}

#[test]
fn a_bare_url_in_a_text_body_is_captured_as_a_link() {
    match capture_text(query(), b"  https://example.test/a\n".to_vec(), "en", None) {
        Ok(CapturePlan::Fetch { url, .. }) => assert_eq!(url, "https://example.test/a"),
        _ => panic!("a fetch"),
    }
    assert!(only_a_url("ftp://example.test/a").is_none());
    assert!(only_a_url("").is_none());
}

#[test]
fn a_line_that_merely_begins_with_a_url_is_prose() {
    let body = "https://example.test/a is where the procedure lives";
    match capture_text(query(), body.as_bytes().to_vec(), "en", None) {
        Ok(CapturePlan::Store(c)) => assert_eq!(c.text, body),
        _ => panic!("a text"),
    }
}

#[test]
fn a_title_and_note_ride_on_the_query_string() {
    let q = CaptureQuery { title: Some("A title".into()), note: Some("why".into()), ..query() };
    match capture_text(q, b"a procedure worth keeping".to_vec(), "en", None) {
        Ok(CapturePlan::Store(c)) => {
            assert_eq!(c.title.as_deref(), Some("A title"));
            assert_eq!(c.note.as_deref(), Some("why"));
            assert_eq!(c.origin, "web");
            assert_eq!(c.channel, Some("web"));
        }
        _ => panic!("a text"),
    }
}

#[test]
fn every_door_that_takes_text_stamps_the_language() {
    match ingest(request(Some("eine notiz durch die json-tür"), None, None), 200, "de") {
        Ok(IngestPlan::Store(c)) => assert_eq!(c.lang.as_deref(), Some("de")),
        _ => panic!("a text"),
    }
    match capture_text(query(), "eine notiz durch die rohe tür".as_bytes().to_vec(), "de", None) {
        Ok(CapturePlan::Store(c)) => assert_eq!(c.lang.as_deref(), Some("de")),
        _ => panic!("a text"),
    }
    let fields = form(&[("text", "eine notiz durch die teilen-tür")]);
    match capture_parts(query(), &fields, 0, "de", None).ok().and_then(|p| p.first) {
        Some(CapturePlan::Store(c)) => assert_eq!(c.lang.as_deref(), Some("de")),
        _ => panic!("a text"),
    }
}

#[test]
fn capture_accepts_tz_origin_and_intent_and_refuses_other_origins() {
    let q = CaptureQuery {
        tz: Some("Europe/Berlin".into()),
        origin: Some("journal".into()),
        ..query()
    };
    match capture_text(q, b"Long day.".to_vec(), "en", None) {
        Ok(CapturePlan::Store(c)) => {
            assert_eq!(c.origin, "journal");
            assert_eq!(c.channel, Some("web"));
            assert_eq!(c.tz.as_deref(), Some("Europe/Berlin"));
        }
        _ => panic!("a text"),
    }
    let q = CaptureQuery { intent: Some("remind".into()), ..query() };
    match capture_text(q, b"call the bank tomorrow".to_vec(), "en", None) {
        Ok(CapturePlan::Store(c)) => assert_eq!(c.intent, Some(Intent::Remind)),
        _ => panic!("a text"),
    }
    let q = CaptureQuery { origin: Some("mcp".into()), ..query() };
    assert_eq!(
        words(capture_text(q, b"x".to_vec(), "en", None)),
        "origin=mcp: only `journal` can be asked for"
    );
    assert_eq!(
        words(capture_time(None, None, Some("forget"), "web")),
        "intent=forget: only `remind` can be asked for"
    );
}

#[test]
fn a_zone_the_table_does_not_know_is_refused_and_not_quietly_read_in_utc() {
    let q = CaptureQuery { tz: Some("Europe/Berlim".into()), ..query() };
    assert_eq!(
        words(capture_text(q, b"call the bank tomorrow".to_vec(), "en", None)),
        "tz=Europe/Berlim: not an IANA zone name"
    );
    let t = capture_time(Some(" Europe/Berlin "), Some(" "), None, "web");
    assert!(matches!(t, Ok(t) if t.tz.as_deref() == Some("Europe/Berlin") && t.origin == "web"));
}

#[test]
fn the_time_fields_are_refused_where_they_would_be_dropped() {
    let only = |what: &str| {
        format!(
            "{what} only applies to a text capture — a link or a file is read by the server, \
             and its origin and any date in it come from what it turns out to be"
        )
    };
    let link = b"https://example.com/a".to_vec();
    let q = CaptureQuery { tz: Some("Europe/Berlin".into()), ..query() };
    assert_eq!(words(capture_text(q, link.clone(), "en", None)), only("tz"));
    let q = CaptureQuery { origin: Some("journal".into()), ..query() };
    assert_eq!(words(capture_text(q, link.clone(), "en", None)), only("origin"));
    let q = CaptureQuery { intent: Some("remind".into()), ..query() };
    assert_eq!(words(capture_text(q, link, "en", None)), only("intent"));
    let q = CaptureQuery { tz: Some("Europe/Berlin".into()), ..query() };
    assert_eq!(words(capture_file(q, "image", 100, vec![0; 10], "en")), only("tz"));
    let q = CaptureQuery { tz: Some("Europe/Berlin".into()), ..query() };
    assert_eq!(words(capture_parts(q, &[], 1, "en", None)), only("tz"));
    assert_eq!(
        words(refuse_time_fields(Some("a"), Some("b"), Some("c"))),
        only("tz, origin, intent")
    );
    assert!(refuse_time_fields(Some(" "), None, None).is_ok());

    let fields = form(&[("text", "Heute war ein langer Tag."), ("tz", "Europe/Berlin")]);
    match capture_parts(query(), &fields, 0, "en", None).ok().and_then(|p| p.first) {
        Some(CapturePlan::Store(c)) => assert_eq!(c.tz.as_deref(), Some("Europe/Berlin")),
        _ => panic!("a text"),
    }
}

#[test]
fn a_text_body_is_bounded_and_is_utf8() {
    assert_eq!(
        words(capture_text(query(), vec![b'x'; MAX_BODY_BYTES + 1], "en", None)),
        "that text is over the 8 MB limit for a text capture"
    );
    assert!(capture_text(query(), vec![b'x'; MAX_BODY_BYTES], "en", None).is_ok());
    assert_eq!(
        words(capture_text(query(), vec![0xff, 0xfe, 0x00, 0x41], "en", None)),
        "that body is not valid UTF-8 text"
    );
    match capture_text(query(), "müde — 日".as_bytes().to_vec(), "de", None) {
        Ok(CapturePlan::Store(c)) => assert_eq!(c.text, "müde — 日"),
        _ => panic!("a text"),
    }
}

#[test]
fn a_multipart_share_may_carry_a_url_or_text_instead_of_a_file() {
    let fields = form(&[("url", "https://example.test/a"), ("text", "Mounting")]);
    match capture_parts(query(), &fields, 0, "en", None).ok().and_then(|p| p.first) {
        Some(CapturePlan::Fetch { url, .. }) => assert_eq!(url, "https://example.test/a"),
        _ => panic!("the link won"),
    }
    let fields = form(&[("text", "https://example.test/a")]);
    assert!(matches!(
        capture_parts(query(), &fields, 0, "en", None).ok().and_then(|p| p.first),
        Some(CapturePlan::Fetch { .. })
    ));
    let fields = form(&[("url", "file:///etc/passwd")]);
    assert_eq!(
        words(capture_parts(query(), &fields, 0, "en", None)),
        "url: `file` is not a scheme a page is read over"
    );
}

#[test]
fn a_multipart_body_with_nothing_in_it_is_refused() {
    let fields = form(&[("title", "only a title")]);
    assert_eq!(
        words(capture_parts(query(), &fields, 0, "en", None)),
        "nothing to capture: send `text`, `url`, or at least one file part"
    );
}

#[test]
fn a_share_of_files_alone_keeps_what_was_said_of_them() {
    let fields = form(&[("title", "A title"), ("note", "why")]);
    let plan = capture_parts(query(), &fields, 3, "en", None).ok().unwrap();
    assert!(plan.first.is_none());
    assert_eq!(plan.title.as_deref(), Some("A title"));
    assert_eq!(plan.note.as_deref(), Some("why"));
    let q = CaptureQuery { title: Some("From the query".into()), ..query() };
    let plan = capture_parts(q, &fields, 3, "en", None).ok().unwrap();
    assert_eq!(plan.title.as_deref(), Some("From the query"));
    let files = share_files(
        vec![file(Some("a.txt"), "text/plain", b"one"), file(None, "image/png", b"two")],
        &plan.title,
        &plan.note,
        "de",
    );
    assert_eq!(files.len(), 2);
    assert_eq!(files[0].filename.as_deref(), Some("a.txt"));
    assert_eq!(files[1].bytes, b"two");
    assert!(files.iter().all(|f| f.title.as_deref() == Some("From the query")
        && f.note.as_deref() == Some("why")
        && f.lang == "de"));
}

#[test]
fn a_share_is_planned_over_what_its_address_was_read_as() {
    let fields = form(&[("url", "raw")]);
    assert_eq!(
        words(plan_parts(query(), &fields, 0, None, None, Err("bad".into()), "en", None)),
        "url: bad"
    );
    let link = Link {
        whole: "http://h/".into(),
        scheme: "http".into(),
        path: "/".into(),
        query: None,
    };
    assert!(matches!(
        plan_parts(query(), &fields, 0, None, None, Ok(link), "en", None).ok().and_then(|p| p.first),
        Some(CapturePlan::Fetch { url, .. }) if url == "http://h/"
    ));
}

#[test]
fn a_field_sent_again_says_what_it_said_last() {
    let fields = form(&[("note", "one"), ("note", "two"), ("note", "  ")]);
    assert_eq!(field_of(&fields, "note").as_deref(), Some("two"));
    assert_eq!(field_of(&fields, "title"), None);
}

#[test]
fn each_branch_is_bounded_by_its_own_ceiling_not_the_widest_one() {
    assert_eq!(
        words(capture_file(query(), "image", 2 * 1024 * 1024, vec![0; 2 * 1024 * 1024 + 1], "en")),
        "that image is over the 2 MB limit for a image capture"
    );
    let q = CaptureQuery { title: Some("A title".into()), ..query() };
    let c = capture_file(q, "PDF", 10, vec![7; 10], "de").ok().unwrap();
    assert_eq!(c.bytes, vec![7; 10]);
    assert_eq!(c.title.as_deref(), Some("A title"));
    assert_eq!((c.filename, c.note, c.origin, c.lang.as_str()), (None, None, "web", "de"));
    assert!(matches!(
        body_of(Some("Application/PDF; x"), 7, 3),
        Ok(Body::File { what: "PDF", ceiling: 7 })
    ));
    assert!(matches!(
        body_of(Some("image/png"), 7, 3),
        Ok(Body::File { what: "image", ceiling: 3 })
    ));
    assert!(matches!(body_of(Some("TEXT/PLAIN; charset=utf-8"), 7, 3), Ok(Body::Text)));
    assert!(matches!(body_of(Some("multipart/form-data; boundary=x"), 7, 3), Ok(Body::Parts)));
}

#[test]
fn a_capture_with_no_content_type_is_refused_rather_than_guessed() {
    assert_eq!(
        words(body_of(None, 7, 3)),
        "`` is not a type this door reads — send text/plain, application/pdf, an image, or \
         multipart/form-data"
    );
    assert!(words(body_of(Some("Text/CSV"), 7, 3)).starts_with("`text/csv` is not"));
    assert!(words(capture(&query(), Some("text/csv"), 7, 3)).starts_with("`text/csv` is not"));
    let q = CaptureQuery { tz: Some("Europe/Berlim".into()), ..query() };
    assert_eq!(
        words(capture(&q, Some("text/csv"), 7, 3)),
        "tz=Europe/Berlim: not an IANA zone name"
    );
    assert!(matches!(capture(&query(), Some("text/plain"), 7, 3), Ok(Body::Text)));
}

#[test]
fn the_code_says_whether_a_capture_is_held_read_or_new() {
    assert_eq!(code_for(&outcome(true, CorpusStatus::Extracting)).number(), 200);
    assert_eq!(code_for(&outcome(false, CorpusStatus::Extracting)), Code::Accepted);
    assert_eq!(code_for(&outcome(false, CorpusStatus::Describing)).number(), 202);
    assert_eq!(code_for(&outcome(false, CorpusStatus::Raw)).number(), 201);
    assert_eq!(kept_code(true), Code::Held);
    assert_eq!(kept_code(false), Code::Created);
    assert_eq!(stored_code(false), Code::Accepted);
    assert_eq!(stored_code(true), Code::Held);
    assert_eq!(Code::Done.number(), 204);
}

#[test]
fn a_share_answers_the_weakest_true_statement_about_its_parts() {
    let held = || outcome(true, CorpusStatus::Ready);
    let reading = || outcome(false, CorpusStatus::Extracting);
    let new = || outcome(false, CorpusStatus::Raw);
    assert_eq!(code_for_all(&[held(), held()]), Code::Held);
    assert_eq!(code_for_all(&[held(), reading(), new()]), Code::Accepted);
    assert_eq!(code_for_all(&[held(), new()]), Code::Created);
    for one in [held(), reading(), new()] {
        let alone = code_for(&one);
        assert_eq!(code_for_all(&[one]), alone);
    }
}

#[test]
fn one_file_in_a_multipart_body_answers_with_one_object() {
    let (code, body) = captured(vec![outcome(false, CorpusStatus::Raw)]).ok().unwrap();
    assert_eq!(code, Code::Created);
    assert!(matches!(body, Captured::One(o) if o.id == "c"));
}

#[test]
fn a_multipart_share_of_three_files_is_three_corpora() {
    let three = vec![
        outcome(false, CorpusStatus::Raw),
        outcome(false, CorpusStatus::Raw),
        outcome(false, CorpusStatus::Describing),
    ];
    let (code, body) = captured(three).ok().unwrap();
    assert_eq!(code, Code::Accepted);
    assert!(matches!(body, Captured::Many(v) if v.len() == 3));
    assert_eq!(
        words(captured(vec![])),
        "nothing to capture: send `text`, `url`, or at least one file part"
    );
}

#[test]
fn the_upload_door_takes_a_pdf_and_answers_accepted() {
    match upload(Some(file(Some("b.pdf"), "application/pdf", b"%PDF-")), Some("n".into()), "en") {
        Ok(UploadPlan::Pdf { bytes, filename, note, lang }) => {
            assert_eq!(bytes, b"%PDF-");
            assert_eq!(filename.as_deref(), Some("b.pdf"));
            assert_eq!(note.as_deref(), Some("n"));
            assert_eq!(lang, "en");
        }
        _ => panic!("a PDF"),
    }
}

#[test]
fn a_pdf_named_pdf_but_declaring_nothing_is_still_taken() {
    assert!(matches!(
        upload(Some(file(Some("b.PDF"), "", b"%PDF-")), None, "en"),
        Ok(UploadPlan::Pdf { .. })
    ));
}

#[test]
fn a_text_upload_records_its_note_and_file_facts() {
    let f = file(Some("notes.txt"), "text/plain", b"alpha para");
    match upload(Some(f), Some("why".into()), "en") {
        Ok(UploadPlan::Text(c)) => {
            assert_eq!(c.text, "alpha para");
            assert_eq!(c.origin, "upload");
            assert_eq!(c.note.as_deref(), Some("why"));
            assert_eq!(c.title, None);
            assert_eq!(c.lang.as_deref(), Some("en"));
            let note = c.file.unwrap();
            assert_eq!(note.name.as_deref(), Some("notes.txt"));
            assert_eq!(note.size, 10);
            assert_eq!(note.mime, "text/plain");
        }
        _ => panic!("a text"),
    }
}

#[test]
fn an_upload_that_is_not_utf8_is_refused() {
    let f = file(Some("notes.txt"), "text/plain", &[0xff, 0xfe, 0x00, 0x41]);
    assert_eq!(words(upload(Some(f), None, "en")), "that file is not valid UTF-8 text");
}

#[test]
fn an_upload_of_the_wrong_type_is_refused_with_the_reason() {
    let msg = words(upload(Some(file(Some("rows.csv"), "text/csv", b"a,b\n1,2\n")), None, "en"));
    assert!(msg.contains("text/csv"), "got {msg}");
    assert!(msg.contains("application/pdf"), "got {msg}");
    assert_eq!(words(upload(None, None, "en")), "no file in the upload");
}

#[test]
fn an_upload_with_no_declared_type_is_judged_by_its_name() {
    let csv = file(Some("rows.csv"), "", b"id,name\n1,alpha\n2,beta");
    assert_eq!(
        words(upload(Some(csv), None, "en")),
        "that upload declares no type and is named neither `.txt` nor `.pdf` — only text/plain \
         and application/pdf are accepted"
    );
    let txt = file(Some("NOTES.TXT"), "", b"alpha para\n\nbeta para");
    assert!(matches!(upload(Some(txt), None, "en"), Ok(UploadPlan::Text(_))));
    assert!(matches!(upload_kind_of("", Some("a.txt")), Ok(UploadKind::Text)));
}

#[test]
fn a_zip_is_refused_by_type_and_by_name() {
    assert!(upload(Some(file(Some("a.zip"), "application/zip", b"PK")), None, "en").is_err());
    assert!(upload(Some(file(Some("a.zip"), "", b"PK")), None, "en").is_err());
}

#[test]
fn a_text_file_does_not_ride_on_the_ceiling_of_a_pdf() {
    let f = file(Some("a.txt"), "text/plain", &vec![b'x'; MAX_BODY_BYTES + 1]);
    assert_eq!(
        words(upload(Some(f), None, "en")),
        "that text file is over the 8 MB limit for a text capture"
    );
}

#[test]
fn an_upload_with_two_file_parts_is_refused() {
    let texts = ["note".to_string()];
    assert!(matches!(upload_part(Some("file"), "file", &texts, false), Ok(PartUse::File)));
    assert_eq!(
        words(upload_part(Some("file"), "file", &texts, true)),
        "more than one `file` part — send one file per request"
    );
    assert!(matches!(upload_part(Some("note"), "file", &texts, true), Ok(PartUse::Field)));
    assert!(matches!(upload_part(Some("other"), "file", &texts, false), Ok(PartUse::Ignored)));
    assert!(matches!(upload_part(None, "file", &texts, false), Ok(PartUse::Ignored)));
    assert_eq!(share_part(Some("file"), Some("a.png")), PartUse::File);
    assert_eq!(share_part(Some("text"), None), PartUse::Field);
    assert_eq!(share_part(None, Some("a.png")), PartUse::Ignored);
}

#[test]
fn an_image_upload_is_kept_with_what_was_said_of_it() {
    let c = upload_image(Some(file(Some("x.png"), "image/png", b"png")), Some("T".into()), None, "en");
    assert!(matches!(c, Ok(c) if c.bytes == b"png" && c.title_hint.as_deref() == Some("T")
        && c.filename.as_deref() == Some("x.png") && c.lang == "en"));
    assert_eq!(words(upload_image(None, None, None, "en")), "no image in the upload");
}

#[test]
fn a_capture_that_answers_a_question_carries_it() {
    let note = |id: &str| AskNote {
        event_id: id.into(),
        question: "where does the invoice go".into(),
        citations: vec!["a".into()],
    };
    let asked = |id: &str| CaptureQuery { from_ask: Some(id.into()), ..query() };
    let body = || b"my own wording of the answer".to_vec();
    match capture_text(asked("q1"), body(), "en", Some(note("q1"))) {
        Ok(CapturePlan::Store(c)) => {
            let n = c.ask.unwrap();
            assert_eq!(n.event_id, "q1");
            assert_eq!(n.question, "where does the invoice go");
        }
        _ => panic!("a text"),
    }
    let none = |q, a| match capture_text(q, body(), "en", a) {
        Ok(CapturePlan::Store(c)) => c.ask.is_none(),
        _ => panic!("a text"),
    };
    assert!(none(asked("q1"), None));
    assert!(none(asked("q1"), Some(note("q2"))));
    assert!(none(query(), Some(note("q1"))));
    let fields = vec![("text".to_string(), "my own wording".to_string())];
    match capture_parts(asked("q1"), &fields, 0, "en", Some(note("q1"))).ok().unwrap().first {
        Some(CapturePlan::Store(c)) => assert_eq!(c.ask.unwrap().event_id, "q1"),
        _ => panic!("a text"),
    }
}

#[test]
fn only_a_plain_text_tells_the_door_it_came_in_by() {
    let journal = || CaptureQuery { origin: Some("journal".into()), ..query() };
    for (q, filed) in [(query(), "web"), (journal(), "journal")] {
        let fields = form(&[("text", "Long day.")]);
        match capture_parts(q, &fields, 0, "en", None).ok().and_then(|p| p.first) {
            Some(CapturePlan::Store(c)) => {
                assert_eq!(c.origin, filed);
                assert_eq!(c.channel, None);
            }
            _ => panic!("a text"),
        }
    }
    match capture_text(journal(), b"Long day.".to_vec(), "en", None) {
        Ok(CapturePlan::Store(c)) => assert_eq!(c.channel, Some("web")),
        _ => panic!("a text"),
    }
}
