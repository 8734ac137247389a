use engram::etag::{
    answer, layer, not_modified, quoted, stamp, tag_of, taggable, Reply, NOT_MODIFIED, OK,
    REVALIDATE,
};

fn reply(status: u16, content_type: &str, body: &[u8]) -> Reply {
    Reply {
        status,
        content_type: Some(content_type.into()),
        etag: None,
        cache_control: None,
        body: body.to_vec(),
    }
}

#[test]
fn a_tag_is_quoted_and_stable() {
    assert_eq!(tag_of(b"x"), tag_of(b"x"));
    assert_ne!(tag_of(b"x"), tag_of(b"y"));
    assert!(tag_of(b"x").starts_with('"') && tag_of(b"x").ends_with('"'));
}

#[test]
fn if_none_match_takes_a_list_a_weak_tag_and_a_star() {
    let t = tag_of(b"x");
    assert!(engram::etag::matches(&t, &t));
    assert!(engram::etag::matches(&format!("\"other\", W/{t}"), &t));
    assert!(engram::etag::matches("*", &t));
    assert!(!engram::etag::matches("\"other\"", &t));
}

#[test]
fn a_tag_is_the_first_half_of_a_digest_in_hex() {
    // SHA-256 of nothing begins e3b0c44298fc1c149afbf4c8996fb924.
    assert_eq!(tag_of(b""), "\"e3b0c44298fc1c149afbf4c8996fb924\"");
    let bytes: Vec<u8> = (0..32).collect();
    assert_eq!(quoted(&bytes), "\"000102030405060708090a0b0c0d0e0f\"");
}

#[test]
fn nothing_asked_matches_nothing() {
    assert!(!engram::etag::matches("", &tag_of(b"x")));
    assert!(engram::etag::matches("  *  ", &tag_of(b"x")));
}

#[test]
fn a_read_that_was_held_already_is_answered_without_its_body() {
    let body = b"{\"a\":1}";
    let first = layer(reply(OK, "application/json", body), true, None);
    assert_eq!(first.status, OK);
    assert_eq!(first.body, body);
    let tag = first.etag.clone().unwrap();
    assert_eq!(tag, tag_of(body));
    assert_eq!(first.cache_control.as_deref(), Some(REVALIDATE));

    let again = layer(reply(OK, "application/json", body), true, Some(&tag));
    assert_eq!(again.status, NOT_MODIFIED);
    assert!(again.body.is_empty());
    assert_eq!(again.etag, Some(tag));
}

#[test]
fn a_read_that_changed_is_answered_in_full() {
    let old = tag_of(b"{\"a\":1}");
    let now = layer(reply(OK, "application/json", b"{\"a\":2}"), true, Some(&old));
    assert_eq!(now.status, OK);
    assert_eq!(now.body, b"{\"a\":2}");
}

#[test]
fn only_a_successful_read_of_a_document_is_tagged() {
    assert!(taggable(true, &reply(OK, "application/json", b"{}")));
    assert!(!taggable(false, &reply(OK, "application/json", b"{}")));
    assert!(!taggable(true, &reply(404, "application/json", b"{}")));
    assert!(!taggable(true, &reply(OK, "text/event-stream", b"")));
    let out = layer(reply(OK, "text/event-stream", b"data: x"), true, Some("*"));
    assert_eq!(out.status, OK);
    assert_eq!(out.etag, None);
    assert_eq!(out.body, b"data: x");
}

#[test]
fn a_tag_stands_on_the_reply_it_is_stamped_on() {
    let mut r = reply(OK, "application/json", b"{}");
    stamp(&mut r, "\"t\"");
    assert_eq!(r.etag.as_deref(), Some("\"t\""));
    assert_eq!(r.cache_control.as_deref(), Some(REVALIDATE));
    assert_eq!(r.body, b"{}");
    let n = not_modified("\"t\"");
    assert_eq!(n.status, NOT_MODIFIED);
    assert_eq!(n.etag.as_deref(), Some("\"t\""));
}

#[test]
fn a_tag_no_header_can_carry_is_left_off() {
    let mut r = reply(OK, "application/json", b"{}");
    for bad in ["\"a\nb\"", "\u{7f}", "\r", "\u{0}", "\u{1f}"] {
        stamp(&mut r, bad);
        assert_eq!(r.etag, None, "{bad:?}");
    }
    for fine in ["", "\t", " ~", "é", "日\u{80}"] {
        stamp(&mut r, fine);
        assert_eq!(r.etag.as_deref(), Some(fine));
        r.etag = None;
    }
}

#[test]
fn a_given_tag_decides_what_is_answered() {
    let r = answer(reply(OK, "application/json", b"{}"), true, Some("\"t\""), "\"t\"");
    assert_eq!(r.status, NOT_MODIFIED);
    let r = answer(reply(OK, "application/json", b"{}"), true, Some("\"u\""), "\"t\"");
    assert_eq!(r.status, OK);
    assert_eq!(r.etag.as_deref(), Some("\"t\""));
}
