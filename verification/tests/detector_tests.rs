use snap_explorer::error::AppError;
use snap_explorer::ingestion::detector::{Candidate, ExportDetector, Signature};
use snap_explorer::ingestion::extractor::{
    is_enclosed, join_path, ArchiveEntry, EntryAction, ZipExtractor, MULTI_PART_CAP,
    SINGLE_ARCHIVE_CAP,
};
use snap_explorer::models::{ExportSet, ExportSourceType, Timestamp, ValidationStatus};

fn sig(has_index: bool, has_chat: bool, has_media: bool) -> Signature {
    Signature { has_index, has_chat, has_media }
}

fn candidate(name: &str, s: Signature, created: i64) -> Candidate {
    Candidate {
        name: name.to_string(),
        path: format!("/downloads/{}", name),
        created: Some(Timestamp { secs: created, nanos: 0 }),
        signature: s,
    }
}

#[test]
fn group_key_is_the_base_id() {
    assert_eq!(ExportDetector::group_key("mydata~123-1.zip"), "mydata~123");
    assert_eq!(ExportDetector::group_key("mydata~123-2.zip"), "mydata~123");
    assert_eq!(ExportDetector::group_key("mydata~123"), "mydata~123");
    assert_eq!(ExportDetector::group_key("mydata~123.zip"), "mydata~123");
    assert_eq!(ExportDetector::group_key("mydata~abc.zip"), "mydata~abc");
    assert_eq!(ExportDetector::group_key("snapchat export.tar.gz"), "snapchat export.tar");
    assert_eq!(ExportDetector::group_key("Snapchat"), "Snapchat");
    assert_eq!(ExportDetector::group_key(".hidden"), ".hidden");
}

#[test]
fn candidate_names() {
    assert!(ExportDetector::is_candidate_name("mydata~1700000000"));
    assert!(ExportDetector::is_candidate_name("MyData~17.ZIP"));
    assert!(ExportDetector::is_candidate_name("old SnapChat stuff"));
    assert!(!ExportDetector::is_candidate_name("mydata"));
    assert!(!ExportDetector::is_candidate_name("holiday.zip"));
    assert!(ExportDetector::has_zip_extension("a.zip"));
    assert!(!ExportDetector::has_zip_extension(".zip"));
    assert!(!ExportDetector::has_zip_extension("a.ZIP"));
    assert!(!ExportDetector::has_zip_extension("azip"));
}

#[test]
fn statuses() {
    assert_eq!(ExportDetector::validate(sig(true, true, true)), ValidationStatus::Valid);
    assert_eq!(ExportDetector::validate(sig(true, false, false)), ValidationStatus::Incomplete);
    assert_eq!(ExportDetector::validate(sig(false, false, true)), ValidationStatus::Incomplete);
    assert_eq!(ExportDetector::validate(sig(false, false, false)), ValidationStatus::Unknown);
    assert_eq!(ExportDetector::validate_folder(sig(true, true, true)), Some(ValidationStatus::Valid));
    assert_eq!(ExportDetector::validate_folder(sig(true, false, true)), Some(ValidationStatus::Incomplete));
    assert_eq!(ExportDetector::validate_folder(sig(false, true, true)), None);
    assert_eq!(ExportDetector::validate_zip(sig(true, false, false)), Some(ValidationStatus::Incomplete));
    assert_eq!(ExportDetector::validate_zip(sig(false, false, false)), None);
    let parts = vec![sig(true, false, false), sig(false, true, false), sig(false, false, true)];
    assert_eq!(ExportDetector::validate_zip_group(&parts), ValidationStatus::Valid);
    assert_eq!(ExportDetector::validate_folder_group(&parts[..2].to_vec()), ValidationStatus::Incomplete);
    assert_eq!(ExportDetector::validate_folder_group(&Vec::new()), ValidationStatus::Unknown);
}

#[test]
fn zip_signature_reads_entry_names() {
    let names = |v: &[&str]| v.iter().map(|s| s.to_string()).collect::<Vec<String>>();
    let s = ExportDetector::zip_signature(&names(&[
        "index.html",
        "html/chat_history/subpage_a.html",
        "chat_media/2023-01-01_A.jpg",
    ]));
    assert_eq!(s, sig(true, true, true));
    let s = ExportDetector::zip_signature(&names(&["x/index.html", "media/a.jpg"]));
    assert_eq!(s, sig(false, false, true));
    assert_eq!(ExportDetector::zip_signature(&Vec::new()), sig(false, false, false));
}

#[test]
fn parts_are_grouped() {
    let exports = ExportDetector::group_candidates(vec![
        candidate("mydata~123-2.zip", sig(false, false, true), 20),
        candidate("snapchat-old", sig(false, false, false), 30),
        candidate("mydata~123-1.zip", sig(true, true, false), 10),
        candidate("mydata~9", sig(true, false, false), 40),
    ])
    .unwrap();
    assert_eq!(exports.len(), 2);
    assert_eq!(exports[0].id, "mydata~123");
    assert_eq!(
        exports[0].source_paths,
        vec!["/downloads/mydata~123-1.zip", "/downloads/mydata~123-2.zip"]
    );
    assert_eq!(exports[0].source_type, ExportSourceType::Zip);
    assert_eq!(exports[0].validation_status, ValidationStatus::Valid);
    assert_eq!(exports[0].creation_date.unwrap().secs, 10);
    assert_eq!(exports[0].extraction_path, None);
    assert_eq!(exports[1].id, "mydata~9");
    assert_eq!(exports[1].source_type, ExportSourceType::Folder);
    assert_eq!(exports[1].validation_status, ValidationStatus::Incomplete);
    assert!(ExportDetector::group_candidates(Vec::new()).unwrap().is_empty());
}

fn export(id: &str, path: &str) -> ExportSet {
    ExportSet {
        id: id.to_string(),
        source_paths: vec![path.to_string()],
        source_type: ExportSourceType::Folder,
        extraction_path: None,
        creation_date: None,
        validation_status: ValidationStatus::Valid,
    }
}

#[test]
fn first_export_of_an_id_stays() {
    let out = ExportDetector::dedupe_exports(vec![
        export("a", "/one/a"),
        export("b", "/one/b"),
        export("a", "/two/a"),
        export("c", "/two/c"),
        export("b", "/three/b"),
    ]);
    let got: Vec<(&str, &str)> =
        out.iter().map(|e| (e.id.as_str(), e.source_paths[0].as_str())).collect();
    assert_eq!(got, vec![("a", "/one/a"), ("b", "/one/b"), ("c", "/two/c")]);
}

#[test]
fn export_without_paths_is_refused() {
    let mut e = export("a", "/one/a");
    assert!(ExportDetector::check_export(&e).is_ok());
    e.source_paths.clear();
    assert!(matches!(ExportDetector::check_export(&e), Err(AppError::Validation(_))));
}

#[test]
fn enclosed_paths() {
    assert!(is_enclosed("a/b.txt"));
    assert!(is_enclosed("a/../b"));
    assert!(is_enclosed("./a//b/"));
    assert!(is_enclosed("a/b/../../c"));
    assert!(!is_enclosed(""));
    assert!(!is_enclosed("/etc/passwd"));
    assert!(!is_enclosed("../x"));
    assert!(!is_enclosed("a/../../x"));
    assert!(!is_enclosed("a/../../x/y/z"));
    assert!(is_enclosed("..a/b"));
    assert_eq!(join_path("/work/e1", "a/b"), "/work/e1/a/b");
    assert_eq!(join_path("/work/", "a"), "/work/a");
    assert_eq!(ZipExtractor::working_path("/data/exports", "e1"), "/data/exports/e1");
}

fn entry(name: &str, size: u64, enclosed: Option<&str>) -> ArchiveEntry {
    ArchiveEntry { name: name.to_string(), size, enclosed_name: enclosed.map(|s| s.to_string()) }
}

#[test]
fn entries_become_actions() {
    let mut state = ZipExtractor::begin(1);
    assert_eq!(state.cap, SINGLE_ARCHIVE_CAP);
    assert_eq!(SINGLE_ARCHIVE_CAP, 5 * 1024 * 1024 * 1024);
    assert_eq!(MULTI_PART_CAP, 500 * 1024 * 1024 * 1024);
    let a = ZipExtractor::extract(&mut state, &entry("html/", 0, Some("html")), "/w/e1").unwrap();
    assert!(matches!(a, EntryAction::CreateDir(p) if p == "/w/e1/html"));
    let a = ZipExtractor::extract(&mut state, &entry("html/a.html", 10, Some("html/a.html")), "/w/e1").unwrap();
    assert!(matches!(a, EntryAction::WriteFile(p) if p == "/w/e1/html/a.html"));
    let a = ZipExtractor::extract(&mut state, &entry("a/../b.txt", 5, Some("a/../b.txt")), "/w/e1").unwrap();
    assert!(matches!(a, EntryAction::WriteFile(p) if p == "/w/e1/a/../b.txt"));
    assert_eq!(state.total_bytes, 15);
    assert_eq!(state.files_written, 2);
}

#[test]
fn unsafe_entry_is_fatal() {
    for e in [
        entry("../evil.txt", 10, None),
        entry("x", 5, Some("../../evil")),
        entry("x", 5, Some("/abs")),
        entry("x", 5, Some("a/../../b")),
        entry("x", 5, Some("")),
    ] {
        let mut state = ZipExtractor::begin(1);
        assert!(ZipExtractor::extract(&mut state, &entry("ok", 7, Some("ok")), "/w/e1").is_ok());
        let before = state;
        let r = ZipExtractor::extract(&mut state, &e, "/w/e1");
        assert!(matches!(r, Err(AppError::Validation(_))));
        // nothing is counted for the entry that ends the extraction
        assert_eq!(state, before);
        assert_eq!(state.total_bytes, 7);
    }
}

#[test]
fn extraction_stops_at_the_cap() {
    let mut state = ZipExtractor::begin(1);
    assert!(ZipExtractor::extract(&mut state, &entry("a", SINGLE_ARCHIVE_CAP, Some("a")), "/w").is_ok());
    let before = state;
    let r = ZipExtractor::extract(&mut state, &entry("b", 1, Some("b")), "/w");
    assert!(matches!(r, Err(AppError::Validation(_))));
    assert_eq!(state, before);
    let mut many = ZipExtractor::begin(3);
    assert_eq!(many.cap, MULTI_PART_CAP);
    assert!(ZipExtractor::extract(&mut many, &entry("a", SINGLE_ARCHIVE_CAP + 1, Some("a")), "/w").is_ok());
    assert!(ZipExtractor::extract(&mut many, &entry("b", u64::MAX, Some("b")), "/w").is_err());
    assert_eq!(many.total_bytes, SINGLE_ARCHIVE_CAP + 1);
}

#[test]
fn extraction_progress() {
    assert!(ZipExtractor::reports_progress(0, 5));
    assert!(ZipExtractor::reports_progress(100, 500));
    assert!(ZipExtractor::reports_progress(4, 5));
    assert!(!ZipExtractor::reports_progress(3, 5));
    assert_eq!(ZipExtractor::progress_permille(0, 1, 0, 10), 0);
    assert_eq!(ZipExtractor::progress_permille(0, 1, 5, 10), 50);
    assert_eq!(ZipExtractor::progress_permille(1, 2, 5, 10), 75);
    assert_eq!(ZipExtractor::progress_permille(1, 2, 9, 10), 95);
}
