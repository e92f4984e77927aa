use mime_to_ext::{
    ext_to_mime, from_json, load, mime_to_ext, mime_to_preferred_ext, status, MimeDb, ReverseIndex,
    Unavailable,
};

fn owned(v: &[&str]) -> Vec<String> {
    v.iter().map(|s| s.to_string()).collect()
}

fn embedded() -> MimeDb {
    load().expect("embedded table parses")
}

#[test]
fn db_loads_successfully() {
    assert!(load().is_ok(), "embedded JSON database failed to parse");
}

#[test]
fn mime_with_multiple_extensions() {
    let db = embedded();
    assert_eq!(mime_to_ext(&db, "audio/mpeg"), Some(&owned(&["mp3", "mp1", "mp2"])[..]));
}

#[test]
fn lookup_works() {
    let db = embedded();
    let rev = ReverseIndex::build(&db);
    assert_eq!(mime_to_ext(&db, "image/png"), Some(&owned(&["png"])[..]));
    assert_eq!(ext_to_mime(&rev, "png"), Some("image/png"));
    assert_eq!(ext_to_mime(&rev, "mp1"), Some("audio/mpeg"));
}

#[test]
fn unknown_gives_none() {
    let db = embedded();
    let rev = ReverseIndex::build(&db);
    assert_eq!(mime_to_ext(&db, "foo/bar"), None);
    assert_eq!(ext_to_mime(&rev, "qqq"), None);
}

#[test]
fn status_reports_success() {
    assert_eq!(status(), Ok(()));
}

#[test]
fn preferred_extension_is_first() {
    let db = embedded();
    assert_eq!(mime_to_preferred_ext(&db, "image/png"), Some("png"));
    assert_eq!(mime_to_preferred_ext(&db, "audio/mpeg"), Some("mp3"));
    assert_eq!(mime_to_preferred_ext(&db, "image/jpeg"), Some("jpeg"));
    assert_eq!(mime_to_preferred_ext(&db, "foo/bar"), None);
}

#[test]
fn extension_lookup_is_exact() {
    let db = embedded();
    let rev = ReverseIndex::build(&db);
    assert_eq!(ext_to_mime(&rev, "PNG"), None);
    assert_eq!(ext_to_mime(&rev, ".png"), None);
    assert_eq!(ext_to_mime(&rev, ""), None);
    assert_eq!(mime_to_ext(&db, "IMAGE/PNG"), None);
}

#[test]
fn embedded_collisions_go_to_first_claim() {
    let db = embedded();
    let rev = ReverseIndex::build(&db);
    assert_eq!(ext_to_mime(&rev, "wav"), Some("audio/wav"));
    assert_eq!(ext_to_mime(&rev, "ico"), Some("image/vnd.microsoft.icon"));
    assert_eq!(ext_to_mime(&rev, "js"), Some("application/javascript"));
    assert_eq!(ext_to_mime(&rev, "xml"), Some("application/xml"));
}

#[test]
fn first_claim_wins_in_document_order() {
    let db = from_json(r#"{"z/late": ["a", "b"], "a/early": ["b", "c"], "m/mid": ["c", "a", "d"]}"#)
        .expect("valid table");
    let rev = ReverseIndex::build(&db);
    assert_eq!(ext_to_mime(&rev, "a"), Some("z/late"));
    assert_eq!(ext_to_mime(&rev, "b"), Some("z/late"));
    assert_eq!(ext_to_mime(&rev, "c"), Some("a/early"));
    assert_eq!(ext_to_mime(&rev, "d"), Some("m/mid"));
    assert_eq!(ext_to_mime(&rev, "e"), None);
}

#[test]
fn extension_order_is_kept() {
    let db = from_json(r#"{"x/y": ["zz", "aa", "mm"]}"#).expect("valid table");
    assert_eq!(mime_to_ext(&db, "x/y"), Some(&owned(&["zz", "aa", "mm"])[..]));
    assert_eq!(mime_to_preferred_ext(&db, "x/y"), Some("zz"));
}

#[test]
fn empty_list_is_present_but_has_no_preferred() {
    let db = from_json(r#"{"x/none": [], "x/one": ["one"]}"#).expect("valid table");
    let empty: &[String] = &[];
    assert_eq!(mime_to_ext(&db, "x/none"), Some(empty));
    assert_eq!(mime_to_preferred_ext(&db, "x/none"), None);
    assert_eq!(mime_to_preferred_ext(&db, "x/one"), Some("one"));
}

#[test]
fn empty_table_knows_nothing() {
    let db = from_json("{}").expect("valid table");
    let rev = ReverseIndex::build(&db);
    assert_eq!(mime_to_ext(&db, "image/png"), None);
    assert_eq!(ext_to_mime(&rev, "png"), None);
}

#[test]
fn malformed_table_is_unavailable() {
    assert!(matches!(from_json("{\"image/png\": [\"png\""), Err(Unavailable)));
    assert!(matches!(from_json("[\"png\"]"), Err(Unavailable)));
    assert!(matches!(from_json("{\"image/png\": \"png\"}"), Err(Unavailable)));
    assert!(matches!(from_json("{\"image/png\": [1, 2]}"), Err(Unavailable)));
    assert!(matches!(from_json(""), Err(Unavailable)));
}

#[test]
fn repeated_calls_agree() {
    let db = embedded();
    let rev = ReverseIndex::build(&db);
    let rev2 = ReverseIndex::build(&db);
    for _ in 0..3 {
        assert_eq!(mime_to_ext(&db, "audio/mpeg"), Some(&owned(&["mp3", "mp1", "mp2"])[..]));
        assert_eq!(ext_to_mime(&rev, "mp2"), Some("audio/mpeg"));
        assert_eq!(ext_to_mime(&rev2, "mp2"), Some("audio/mpeg"));
    }
    assert!(load().is_ok());
    assert_eq!(status(), Ok(()));
}

#[test]
fn every_record_round_trips() {
    let db = from_json(r#"{"image/png": ["png"], "audio/mpeg": ["mp3", "mp1", "mp2"]}"#)
        .expect("valid table");
    let rev = ReverseIndex::build(&db);
    assert_eq!(mime_to_preferred_ext(&db, "image/png"), Some("png"));
    assert_eq!(mime_to_ext(&db, "audio/mpeg"), Some(&owned(&["mp3", "mp1", "mp2"])[..]));
    assert_eq!(ext_to_mime(&rev, "mp1"), Some("audio/mpeg"));
    assert_eq!(mime_to_ext(&db, "foo/bar"), None);
    assert_eq!(ext_to_mime(&rev, "qqq"), None);
    for ext in ["mp3", "mp1", "mp2"] {
        assert_eq!(ext_to_mime(&rev, ext), Some("audio/mpeg"));
    }
}
