use engram::app::{app_grant, app_page, pair_uri, pictured, qr_svg, urlencode, VERSION};
use engram::records::Error;

#[test]
fn the_uri_carries_origin_code_and_version_and_the_fingerprint_only_when_set() {
    let plain = pair_uri("https://engram.test", "abc", None);
    assert_eq!(
        plain,
        format!("engram://pair?o=https%3A%2F%2Fengram.test&c=abc&v={}", VERSION)
    );
    let pinned = pair_uri("https://engram.test", "abc", Some("FPFPFP"));
    assert!(pinned.ends_with("&f=FPFPFP"), "{pinned}");
}

#[test]
fn the_qr_is_an_svg_that_encodes_something() {
    let svg = qr_svg("engram://pair?o=x&c=y&v=0").unwrap();
    assert!(svg.starts_with("<svg") || svg.starts_with("<?xml"), "{svg}");
    assert!(svg.contains("<path") || svg.contains("<rect"), "{svg}");
}

#[test]
fn two_codes_are_two_pictures() {
    assert_ne!(qr_svg("engram://pair?c=a").unwrap(), qr_svg("engram://pair?c=b").unwrap());
}

#[test]
fn a_text_too_long_for_a_picture_is_an_error() {
    assert!(matches!(qr_svg(&"x".repeat(10_000)), Err(Error::Internal(_))));
    assert!(matches!(pictured(Err("too long".into())), Err(Error::Internal(_))));
    assert!(matches!(pictured(Ok("<svg/>".into())), Ok(s) if s == "<svg/>"));
}

#[test]
fn opening_the_page_mints_nothing() {
    let t = app_page(Some("https://engram.test".into()));
    assert_eq!(t.origin, "https://engram.test");
    assert!(t.code.is_none());
}

#[test]
fn pressing_draws_a_code_for_this_origin() {
    let t = app_grant(Some("https://engram.test".into()), "abc", None).unwrap();
    let (uri, svg) = t.code.unwrap();
    assert_eq!(uri, pair_uri("https://engram.test", "abc", None));
    assert_eq!(svg, qr_svg(&uri).unwrap());
}

#[test]
fn what_is_not_plain_is_escaped() {
    assert_eq!(urlencode("a-b_c.d~e"), "a-b_c.d~e");
    assert_eq!(urlencode("a b&c=d"), "a%20b%26c%3Dd");
    assert_eq!(urlencode("é"), "%C3%A9");
}

#[test]
fn no_two_texts_are_written_alike() {
    let texts = ["", "%", "%25", "a b", "a%20b", "a+b", "\u{0}", "ü", "u\u{308}"];
    for a in texts {
        for b in texts {
            assert_eq!(urlencode(a) == urlencode(b), a == b, "{a:?} {b:?}");
        }
    }
}
