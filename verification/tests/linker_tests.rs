use snap_explorer::ingestion::media_linker::{MediaFile, MediaLinker};
use snap_explorer::models::{Event, Timestamp};
use std::io::Write;

fn make_event(event_type: &str, metadata: Option<String>, media_refs: Vec<String>) -> Event {
    Event {
        id: "test-id".to_string(),
        timestamp: Timestamp { secs: 1673793000, nanos: 0 },
        sender: "test-user".to_string(),
        sender_name: None,
        media_references: media_refs,
        conversation_id: Some("conv-1".to_string()),
        content: None,
        event_type: event_type.to_string(),
        metadata,
    }
}

fn file(dir: &std::path::Path, name: &str) -> MediaFile {
    MediaFile {
        file_name: name.to_string(),
        path: dir.join(name).to_string_lossy().into_owned(),
    }
}

#[test]
fn test_extract_media_ids_with_ids() {
    let meta = Some(r#"{"media_ids": ["abc", "def"]}"#.to_string());
    let ids = MediaLinker::extract_media_ids(&meta);
    assert_eq!(ids, vec!["abc", "def"]);
}

#[test]
fn test_extract_media_ids_none() {
    let ids = MediaLinker::extract_media_ids(&None);
    assert!(ids.is_empty());
}

#[test]
fn test_extract_media_ids_invalid_json() {
    let meta = Some("not valid json".to_string());
    let ids = MediaLinker::extract_media_ids(&meta);
    assert!(ids.is_empty());

    let meta2 = Some("{}".to_string());
    let ids2 = MediaLinker::extract_media_ids(&meta2);
    assert!(ids2.is_empty());
}

#[test]
fn test_extract_media_ids_no_array() {
    let meta = Some(r#"{"media_ids": "not-an-array"}"#.to_string());
    let ids = MediaLinker::extract_media_ids(&meta);
    assert!(ids.is_empty());
}

#[test]
fn extract_media_ids_skips_what_is_no_string() {
    let meta = Some(r#"{"media_ids": ["a", 1, null, "b"]}"#.to_string());
    assert_eq!(MediaLinker::extract_media_ids(&meta), vec!["a", "b"]);
}

#[test]
fn test_id_extraction_from_filenames() {
    let dir = tempfile::tempdir().unwrap();
    let files = vec![
        file(dir.path(), "2023-01-01_TESTID123.jpg"),
        file(dir.path(), "2023-06-15_ID-WITH-DASHES.png"),
        file(dir.path(), "nounderscorefile.jpg"),
    ];
    let linker = MediaLinker::new(&files);
    assert!(linker.contains_id("TESTID123"));
    assert!(linker.contains_id("ID-WITH-DASHES"));
    // no underscore, so no id
    assert!(!linker.contains_id("nounderscorefile"));
    assert_eq!(linker.len(), 2);
}

#[test]
fn media_id_rules() {
    assert_eq!(MediaLinker::media_id("2023-01-01_TESTID123.jpg").as_deref(), Some("TESTID123"));
    assert_eq!(MediaLinker::media_id("a_b_c.tar.gz").as_deref(), Some("b_c.tar"));
    assert_eq!(MediaLinker::media_id("a_noext").as_deref(), Some("noext"));
    assert_eq!(MediaLinker::media_id("a.b_c").as_deref(), Some("c"));
    assert_eq!(MediaLinker::media_id("a_.jpg"), None);
    assert_eq!(MediaLinker::media_id("a_"), None);
    assert_eq!(MediaLinker::media_id("_x.").as_deref(), Some("x"));
    assert_eq!(MediaLinker::media_id("plain.jpg"), None);
    assert_eq!(MediaLinker::media_id(""), None);
}

#[test]
fn later_file_wins() {
    let files = vec![
        MediaFile { file_name: "2023-01-01_ID.jpg".to_string(), path: "/one/ID.jpg".to_string() },
        MediaFile { file_name: "2023-01-02_ID.png".to_string(), path: "/two/ID.png".to_string() },
    ];
    let mut linker = MediaLinker::new(&files);
    assert_eq!(linker.len(), 1);
    assert_eq!(linker.path_of("ID").map(|s| s.as_str()), Some("/two/ID.png"));
    linker.add_media_directory(&vec![MediaFile {
        file_name: "x_ID.gif".to_string(),
        path: "/three/ID.gif".to_string(),
    }]);
    assert_eq!(linker.path_of("ID").map(|s| s.as_str()), Some("/three/ID.gif"));
    assert_eq!(linker.path_of("OTHER"), None);
}

#[test]
fn test_link_media_by_id() {
    let dir = tempfile::tempdir().unwrap();
    let mut media_file = tempfile::Builder::new()
        .prefix("2023-01-01_ABC123")
        .suffix(".jpg")
        .rand_bytes(0)
        .tempfile_in(dir.path())
        .unwrap();
    media_file.write_all(b"fake").unwrap();

    let linker = MediaLinker::new(&vec![file(dir.path(), "2023-01-01_ABC123.jpg")]);
    let meta = r#"{"media_ids": ["ABC123"]}"#.to_string();
    let mut events = vec![make_event("MEDIA", Some(meta), vec![])];

    linker.link_media(&mut events);
    assert_eq!(events[0].media_references.len(), 1);
    assert!(std::path::Path::new(&events[0].media_references[0]).exists());
}

#[test]
fn test_link_skips_non_media_events() {
    let dir = tempfile::tempdir().unwrap();
    let mut media_file = tempfile::Builder::new()
        .prefix("2023-01-01_ABC123")
        .suffix(".jpg")
        .rand_bytes(0)
        .tempfile_in(dir.path())
        .unwrap();
    media_file.write_all(b"fake").unwrap();

    let linker = MediaLinker::new(&vec![file(dir.path(), "2023-01-01_ABC123.jpg")]);
    let meta = r#"{"media_ids": ["ABC123"]}"#.to_string();
    let mut events = vec![make_event("TEXT", Some(meta), vec![])];

    linker.link_media(&mut events);
    assert!(events[0].media_references.is_empty());
}

#[test]
fn link_leaves_out_files_that_are_gone() {
    let dir = tempfile::tempdir().unwrap();
    let kept = tempfile::Builder::new().prefix("d_").suffix(".jpg").tempfile_in(dir.path()).unwrap();
    let name = kept.path().file_name().unwrap().to_string_lossy().into_owned();
    let id = MediaLinker::media_id(&name).unwrap();
    let linker = MediaLinker::new(&vec![file(dir.path(), &name), file(dir.path(), "d_GONE.jpg")]);
    let meta = format!("{{\"media_ids\": [\"GONE\", \"{}\", \"NEVER\"]}}", id);
    let mut events = vec![
        make_event("SNAP", Some(meta.clone()), vec![]),
        make_event("STICKER", Some(meta.clone()), vec!["/already".to_string()]),
        make_event("NOTE", None, vec![]),
    ];
    linker.link_media(&mut events);
    assert_eq!(events[0].media_references, vec![dir.path().join(&name).to_string_lossy().into_owned()]);
    assert_eq!(events[1].media_references, vec!["/already".to_string()]);
    assert!(events[2].media_references.is_empty());
}

#[test]
fn linking_twice_adds_nothing() {
    let dir = tempfile::tempdir().unwrap();
    let kept = tempfile::Builder::new().prefix("d_").suffix(".jpg").tempfile_in(dir.path()).unwrap();
    let name = kept.path().file_name().unwrap().to_string_lossy().into_owned();
    let id = MediaLinker::media_id(&name).unwrap();
    let linker = MediaLinker::new(&vec![file(dir.path(), &name)]);
    let meta = format!("{{\"media_ids\": [\"{}\", \"{}\"]}}", id, id);
    let mut events = vec![make_event("MEDIA", Some(meta), vec![])];
    linker.link_media(&mut events);
    let once = events[0].media_references.clone();
    assert_eq!(once.len(), 2);
    linker.link_media(&mut events);
    assert_eq!(events[0].media_references, once);
}

#[test]
fn attach_and_resolve() {
    let files = vec![
        MediaFile { file_name: "d_A.jpg".to_string(), path: "/m/A.jpg".to_string() },
        MediaFile { file_name: "d_B.jpg".to_string(), path: "/m/B.jpg".to_string() },
    ];
    let linker = MediaLinker::new(&files);
    let ids = vec!["B".to_string(), "C".to_string(), "A".to_string()];
    assert_eq!(linker.resolve(&ids), vec!["/m/B.jpg", "/m/A.jpg"]);
    let mut e = make_event("MEDIA", None, vec![]);
    MediaLinker::attach(&mut e, vec!["/m/B.jpg".to_string()]);
    assert_eq!(e.media_references, vec!["/m/B.jpg"]);
    MediaLinker::attach(&mut e, vec!["/m/A.jpg".to_string()]);
    assert_eq!(e.media_references, vec!["/m/B.jpg"]);
    let mut t = make_event("SHARE", None, vec![]);
    MediaLinker::attach(&mut t, vec!["/m/B.jpg".to_string()]);
    assert!(t.media_references.is_empty());
    assert!(MediaLinker::is_media_type("SNAP_VIDEO"));
    assert!(!MediaLinker::is_media_type("snap"));
}

#[test]
fn keep_present_follows_the_marks() {
    let paths = || vec!["/m/a".to_string(), "/m/b".to_string(), "/m/c".to_string()];
    assert_eq!(MediaLinker::keep_present(paths(), &vec![true, false, true]), vec!["/m/a", "/m/c"]);
    assert_eq!(MediaLinker::keep_present(paths(), &vec![true, true, true]), paths());
    assert!(MediaLinker::keep_present(paths(), &vec![false, false, false]).is_empty());
    assert!(MediaLinker::keep_present(paths(), &vec![true, true]).is_empty());
    assert!(MediaLinker::keep_present(Vec::new(), &Vec::new()).is_empty());
}

#[test]
fn link_event_with_given_answers() {
    let files = vec![
        MediaFile { file_name: "d_A.jpg".to_string(), path: "/m/A.jpg".to_string() },
        MediaFile { file_name: "d_B.jpg".to_string(), path: "/m/B.jpg".to_string() },
    ];
    let linker = MediaLinker::new(&files);
    let meta = r#"{"media_ids": ["B", "NONE", "A"]}"#.to_string();
    let e = make_event("MEDIA", Some(meta.clone()), vec![]);
    assert_eq!(linker.candidates_for(&e), vec!["/m/B.jpg", "/m/A.jpg"]);

    let mut both = make_event("MEDIA", Some(meta.clone()), vec![]);
    linker.link_event_with(&mut both, &vec![true, true]);
    assert_eq!(both.media_references, vec!["/m/B.jpg", "/m/A.jpg"]);
    // linking again with the same answers changes nothing
    linker.link_event_with(&mut both, &vec![true, true]);
    assert_eq!(both.media_references, vec!["/m/B.jpg", "/m/A.jpg"]);

    let mut second = make_event("NOTE", Some(meta.clone()), vec![]);
    linker.link_event_with(&mut second, &vec![false, true]);
    assert_eq!(second.media_references, vec!["/m/A.jpg"]);

    let mut none = make_event("SNAP", Some(meta.clone()), vec![]);
    linker.link_event_with(&mut none, &vec![false, false]);
    assert!(none.media_references.is_empty());
    linker.link_event_with(&mut none, &vec![false, false]);
    assert!(none.media_references.is_empty());

    let mut text = make_event("TEXT", Some(meta.clone()), vec![]);
    linker.link_event_with(&mut text, &vec![true, true]);
    assert!(text.media_references.is_empty());

    let mut linked = make_event("MEDIA", Some(meta), vec!["/old".to_string()]);
    linker.link_event_with(&mut linked, &vec![true, true]);
    assert_eq!(linked.media_references, vec!["/old"]);
}

#[test]
fn link_media_with_given_answers_twice() {
    let files = vec![
        MediaFile { file_name: "d_A.jpg".to_string(), path: "/m/A.jpg".to_string() },
        MediaFile { file_name: "d_B.jpg".to_string(), path: "/m/B.jpg".to_string() },
    ];
    let linker = MediaLinker::new(&files);
    let meta = |ids: &str| Some(format!("{{\"media_ids\": [{}]}}", ids));
    let mut events = vec![
        make_event("MEDIA", meta("\"A\", \"B\""), vec![]),
        make_event("SNAP", meta("\"B\""), vec![]),
        make_event("TEXT", meta("\"A\""), vec![]),
        make_event("NOTE", meta("\"A\""), vec![]),
    ];
    let answers = vec![vec![true, true], vec![false], vec![true]];
    linker.link_media_with(&mut events, &answers);
    let refs = |events: &Vec<Event>| -> Vec<Vec<String>> {
        events.iter().map(|e| e.media_references.clone()).collect()
    };
    let once = refs(&events);
    assert_eq!(
        once,
        vec![vec!["/m/A.jpg".to_string(), "/m/B.jpg".to_string()], vec![], vec![], vec![]]
    );
    // nothing on disk changed: the second linking leaves every event as it is
    linker.link_media_with(&mut events, &answers);
    assert_eq!(refs(&events), once);
}
