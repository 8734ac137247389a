use engram::assets::{
    cache_control, content_type, declare, serve, service_worker, stamp, Assets, Served,
};
use engram::files::{extension_named, named, named_pdf, named_txt};

fn assets() -> Assets {
    Assets {
        stamp: "3f9c".into(),
        files: vec![
            ("app.css".into(), b"body {}".to_vec()),
            ("sw.js".into(), b"self".to_vec()),
            ("manifest.webmanifest".into(), b"{}".to_vec()),
            ("extension/firefox.xpi".into(), b"zip".to_vec()),
        ],
    }
}

#[test]
fn serves_the_stylesheet_with_the_right_content_type() {
    match serve(&assets(), "app.css") {
        Served::File { content_type, data, .. } => {
            assert!(content_type.starts_with("text/css"), "{content_type}");
            assert_eq!(content_type, "text/css; charset=utf-8");
            assert_eq!(data, b"body {}");
        }
        _ => panic!("the stylesheet is there"),
    }
}

#[test]
fn assets_are_public_and_cacheable() {
    match serve(&assets(), "app.css") {
        Served::File { cache_control, .. } => {
            assert_eq!(cache_control, "public, max-age=31536000")
        }
        _ => panic!("the stylesheet is there"),
    }
}

#[test]
fn the_extension_packages_are_not_reachable_through_assets() {
    assert!(matches!(serve(&assets(), "extension/firefox.xpi"), Served::Missing));
}

#[test]
fn the_manifest_is_served_as_a_manifest() {
    match serve(&assets(), "manifest.webmanifest") {
        Served::File { content_type, cache_control, .. } => {
            assert_eq!(content_type, "application/manifest+json");
            assert_eq!(cache_control, "public, max-age=3600");
        }
        _ => panic!("the manifest is there"),
    }
    assert_eq!(cache_control("manifest.webmanifest"), "public, max-age=3600");
}

#[test]
fn the_service_worker_is_served_from_the_root_and_is_not_cached() {
    match service_worker(&assets()) {
        Served::File { content_type, cache_control, data } => {
            assert_eq!(content_type, "text/javascript; charset=utf-8");
            assert_eq!(cache_control, "no-cache");
            assert_eq!(data, b"self");
        }
        _ => panic!("the worker is there"),
    }
    assert!(matches!(service_worker(&Assets { stamp: String::new(), files: vec![] }), Served::Missing));
}

#[test]
fn a_missing_asset_is_404_not_a_panic() {
    assert!(matches!(serve(&assets(), "nope.css"), Served::Missing));
}

#[test]
fn path_traversal_is_refused() {
    assert!(matches!(serve(&assets(), "../Cargo.toml"), Served::Refused));
    assert!(matches!(serve(&assets(), "extension/../app.css"), Served::Refused));
}

#[test]
fn a_type_is_declared_by_the_extension() {
    assert_eq!(content_type("a/b.png"), "image/png");
    assert_eq!(content_type("notes"), "application/octet-stream");
    assert_eq!(declare("text", "text/plain".into()), "text/plain; charset=utf-8");
    assert_eq!(declare("image", "image/png".into()), "image/png");
    assert_eq!(content_type("a.dir/notes"), "application/octet-stream");
    assert_eq!(content_type(".png"), "application/octet-stream");
    assert_eq!(content_type("A.CSS"), "text/css; charset=utf-8");
}

#[test]
fn the_stamp_is_the_one_that_came_with_the_files() {
    assert_eq!(stamp(&assets()), "3f9c");
}

#[test]
fn a_name_says_what_a_file_is() {
    assert_eq!(extension_named("a/b.tar.gz").as_deref(), Some("gz"));
    assert_eq!(extension_named(".profile"), None);
    assert_eq!(extension_named("a."). as_deref(), Some(""));
    assert_eq!(extension_named(".."), None);
    assert_eq!(extension_named(""), None);
    assert!(named_txt(Some("NOTES.TXT")));
    assert!(named_pdf(Some("book.Pdf")));
    assert!(!named_txt(Some("notes.txt.csv")));
    assert!(!named_pdf(None));
    assert!(named(Some("a.csv"), "csv"));
}
