use snap_explorer::db::{
    cut_page, index_update, pending_migrations, search_command, Migration, SchemaProbe,
    download_status_label, event_from_row, indexes_content, media_page, message_index_target,
    message_page, parse_download_status, parse_source_type, parse_validation_status,
    read_strings, resolve_display_name, source_type_label, stream_media_type,
    validation_report, validation_status_label, write_strings, EventRow,
};
use snap_explorer::error::AppError;
use snap_explorer::models::{
    DownloadStatus, Event, ExportSet, ExportSourceType, Timestamp, ValidationStatus,
};
use snap_explorer::timestamps::read_stored_instant;

fn stored(export: &ExportSet) -> (String, String, String, String) {
    (
        export.id.clone(),
        write_strings(&export.source_paths),
        source_type_label(export.source_type).to_string(),
        validation_status_label(export.validation_status).to_string(),
    )
}

fn loaded(row: &(String, String, String, String)) -> ExportSet {
    ExportSet {
        id: row.0.clone(),
        source_paths: read_strings(&row.1),
        source_type: parse_source_type(&row.2),
        extraction_path: None,
        creation_date: None,
        validation_status: parse_validation_status(&row.3),
    }
}

#[test]
fn test_insert_and_get_exports() {
    let export = ExportSet {
        id: "test-export".to_string(),
        source_paths: vec!["/tmp/test".to_string()],
        source_type: ExportSourceType::Folder,
        extraction_path: None,
        creation_date: None,
        validation_status: ValidationStatus::Valid,
    };
    let back = loaded(&stored(&export));
    assert_eq!(back.source_paths.len(), 1);
    assert_eq!(back.id, "test-export");
    assert_eq!(back.source_type, ExportSourceType::Folder);
    assert_eq!(back.validation_status, ValidationStatus::Valid);
    assert_eq!(back.source_paths, vec!["/tmp/test".to_string()]);
}

#[test]
fn test_insert_and_get_exports_zip() {
    let export = ExportSet {
        id: "zip-export".to_string(),
        source_paths: vec!["/tmp/test.zip".to_string()],
        source_type: ExportSourceType::Zip,
        extraction_path: None,
        creation_date: None,
        validation_status: ValidationStatus::Incomplete,
    };
    let back = loaded(&stored(&export));
    assert_eq!(back.source_type, ExportSourceType::Zip);
    assert_eq!(back.validation_status, ValidationStatus::Incomplete);
    assert_eq!(back.source_paths, vec!["/tmp/test.zip".to_string()]);
}

#[test]
fn labels_round_trip() {
    for s in [
        ValidationStatus::Valid,
        ValidationStatus::Incomplete,
        ValidationStatus::Corrupted,
        ValidationStatus::Unknown,
    ] {
        assert_eq!(parse_validation_status(validation_status_label(s)), s);
    }
    for s in [
        DownloadStatus::Pending,
        DownloadStatus::Downloading,
        DownloadStatus::Downloaded,
        DownloadStatus::Failed,
    ] {
        assert_eq!(parse_download_status(download_status_label(s)), s);
    }
    assert_eq!(source_type_label(ExportSourceType::Zip), "Zip");
    assert_eq!(source_type_label(ExportSourceType::Folder), "Folder");
}

#[test]
fn unknown_labels_fall_back() {
    assert_eq!(parse_validation_status("valid"), ValidationStatus::Unknown);
    assert_eq!(parse_source_type("zip"), ExportSourceType::Folder);
    assert_eq!(parse_download_status(""), DownloadStatus::Pending);
}

#[test]
fn test_get_messages_page_clamping() {
    // negative offset and limit are clamped, nothing panics
    let page = message_page(Vec::new(), 0, -5, -10);
    assert_eq!(page.total_count, 0);
    assert!(!page.has_more);
    assert!(page.messages.is_empty());
}

#[test]
fn message_page_has_more_law() {
    for (offset, limit, total) in [(0, 10, 11), (0, 10, 10), (5, 5, 11), (-3, 0, 2), (0, 9999, 2001)] {
        let page = message_page(Vec::new(), total, offset, limit);
        let o = offset.max(0) as i64;
        let l = limit.clamp(1, 2000) as i64;
        assert_eq!(page.has_more, o + l < total as i64);
    }
    let media = media_page(Vec::new(), 1001, 5000, 0);
    assert!(media.has_more);
    assert_eq!(media.total_count, 1001);
}

#[test]
fn test_insert_people_and_resolve() {
    // the person's name wins over the stored name
    let name = resolve_display_name(Some("Alice Smith".to_string()), None);
    assert_eq!(name.as_deref(), Some("Alice Smith"));
    let name = resolve_display_name(Some("Alice Smith".to_string()), Some("alice".to_string()));
    assert_eq!(name.as_deref(), Some("Alice Smith"));
    let name = resolve_display_name(None, Some("stored".to_string()));
    assert_eq!(name.as_deref(), Some("stored"));
    assert_eq!(resolve_display_name(None, None), None);
}

#[test]
fn test_validation_report() {
    let report = validation_report(0, 0, 0, 0);
    assert_eq!(report.total_html_files, 0);
    assert_eq!(report.media_missing, 0);
    assert!(report.warnings.is_empty());
}

#[test]
fn validation_report_warns() {
    let report = validation_report(10, 7, 4, 2);
    assert_eq!(report.media_missing, 3);
    assert_eq!(report.parsed_html_files, 4);
    assert_eq!(
        report.warnings,
        vec![
            "3 media events have no linked file".to_string(),
            "2 conversations have no messages".to_string()
        ]
    );
    let report = validation_report(5, 5, 1, 1);
    assert_eq!(report.warnings, vec!["1 conversations have no messages".to_string()]);
    let report = validation_report(i32::MAX, i32::MIN, 0, 0);
    assert_eq!(report.media_missing, i32::MAX);
}

#[test]
fn strings_round_trip() {
    let v = vec!["/a/b.jpg".to_string(), "c \"d\"".to_string()];
    let text = write_strings(&v);
    assert_eq!(text, "[\"/a/b.jpg\",\"c \\\"d\\\"\"]");
    assert_eq!(read_strings(&text), v);
    assert_eq!(write_strings(&Vec::new()), "[]");
}

#[test]
fn read_strings_rejects_other_documents() {
    assert!(read_strings("not json").is_empty());
    assert!(read_strings("{}").is_empty());
    assert!(read_strings("[\"a\", 1]").is_empty());
    assert_eq!(read_strings("[]"), Vec::<String>::new());
}

#[test]
fn event_row_is_read() {
    let row = EventRow {
        id: "evt1".to_string(),
        timestamp: "2023-01-15T14:30:00+00:00".to_string(),
        sender: "alice".to_string(),
        conversation_id: Some("conv1".to_string()),
        content: Some("hello world test message".to_string()),
        event_type: "TEXT".to_string(),
        media_references: "[\"/m/a.jpg\"]".to_string(),
        metadata: None,
        sender_name: Some("Alice".to_string()),
    };
    let e = event_from_row(row);
    assert_eq!(e.id, "evt1");
    assert_eq!(e.timestamp.secs, 1673793000);
    assert_eq!(e.timestamp.nanos, 0);
    assert_eq!(e.media_references, vec!["/m/a.jpg".to_string()]);
    assert_eq!(e.sender_name.as_deref(), Some("Alice"));
    assert_eq!(e.conversation_id.as_deref(), Some("conv1"));
}

#[test]
fn bad_stored_timestamp_becomes_sentinel() {
    let at = read_stored_instant("yesterday");
    assert_eq!(at.secs, chrono::DateTime::<chrono::Utc>::MIN_UTC.timestamp());
    assert_eq!(at.nanos, 0);
    let at = read_stored_instant("2023-01-15T15:30:00.5+01:00");
    assert_eq!((at.secs, at.nanos), (1673793000, 500_000_000));
}

#[test]
fn content_is_indexed_unless_blank() {
    assert!(indexes_content(&Some("hello".to_string())));
    assert!(!indexes_content(&Some("  \n".to_string())));
    assert!(!indexes_content(&Some(String::new())));
    assert!(!indexes_content(&None));
}

#[test]
fn stream_media_types() {
    assert_eq!(stream_media_type("SNAP_VIDEO"), "Video");
    assert_eq!(stream_media_type("Video"), "Video");
    assert_eq!(stream_media_type("video"), "Image");
    assert_eq!(stream_media_type("MEDIA"), "Image");
    assert_eq!(stream_media_type("Image"), "Image");
}

#[test]
fn message_index_target_is_midnight() {
    assert_eq!(message_index_target("2023-01-15"), "2023-01-15T00:00:00+00:00");
}

#[test]
fn export_row_round_trip() {
    let export = ExportSet {
        id: "e1".to_string(),
        source_paths: vec!["/tmp".to_string()],
        source_type: ExportSourceType::Folder,
        extraction_path: None,
        creation_date: None,
        validation_status: ValidationStatus::Valid,
    };
    let row = stored(&export);
    assert_eq!(row.1, "[\"/tmp\"]");
    assert_eq!(row.2, "Folder");
    assert_eq!(row.3, "Valid");
    let back = loaded(&row);
    assert_eq!(back.id, "e1");
    assert_eq!(back.source_paths, vec!["/tmp".to_string()]);
    assert_eq!(back.source_type, ExportSourceType::Folder);
    assert_eq!(back.validation_status, ValidationStatus::Valid);
}

fn apply(probe: SchemaProbe, m: Migration) -> SchemaProbe {
    match m {
        Migration::AddSourceType => SchemaProbe { has_source_type: true, ..probe },
        Migration::WrapSourcePath => SchemaProbe { has_source_path: false, ..probe },
        Migration::AddDownloadColumns => SchemaProbe { has_download_columns: true, ..probe },
    }
}

#[test]
fn test_run_migrations_idempotent() {
    for bits in 0..8 {
        let mut probe = SchemaProbe {
            has_source_type: bits & 1 != 0,
            has_source_path: bits & 2 != 0,
            has_download_columns: bits & 4 != 0,
        };
        for m in pending_migrations(probe) {
            probe = apply(probe, m);
        }
        // running the migrations again asks for nothing
        assert!(pending_migrations(probe).is_empty());
        assert!(pending_migrations(probe).is_empty());
    }
}

#[test]
fn migrations_in_order() {
    let old = SchemaProbe { has_source_type: false, has_source_path: true, has_download_columns: false };
    assert_eq!(
        pending_migrations(old),
        vec![Migration::AddSourceType, Migration::WrapSourcePath, Migration::AddDownloadColumns]
    );
    let new = SchemaProbe { has_source_type: true, has_source_path: false, has_download_columns: true };
    assert!(pending_migrations(new).is_empty());
}

#[test]
fn search_command_checks_the_query() {
    let long: String = "a".repeat(501);
    assert!(matches!(search_command(&long, None), Err(AppError::Validation(_))));
    let fits: String = "\u{e9}".repeat(500);
    assert!(search_command(&fits, None).unwrap().is_some());
    let r = search_command("hello", None).unwrap().unwrap();
    assert_eq!((r.expression.as_str(), r.limit), ("\"hello\"", 50));
    assert_eq!(search_command("hello", Some(9000)).unwrap().unwrap().limit, 500);
    assert!(search_command("   ", Some(5)).unwrap().is_none());
}

#[test]
fn index_update_for_an_event() {
    let mut e = Event {
        id: "evt1".to_string(),
        timestamp: Timestamp { secs: 0, nanos: 0 },
        sender: "alice".to_string(),
        sender_name: None,
        media_references: Vec::new(),
        conversation_id: Some("conv1".to_string()),
        content: Some("hello world test message".to_string()),
        event_type: "TEXT".to_string(),
        metadata: None,
    };
    let u = index_update(&e);
    assert_eq!(u.remove, "evt1");
    let row = u.add.unwrap();
    assert_eq!(row.content, "hello world test message");
    assert_eq!(row.event_id, "evt1");
    assert_eq!(row.conversation_id.as_deref(), Some("conv1"));
    assert_eq!(row.sender, "alice");
    e.content = Some("   ".to_string());
    let u = index_update(&e);
    assert_eq!(u.remove, "evt1");
    assert!(u.add.is_none());
    e.content = None;
    assert!(index_update(&e).add.is_none());
}

fn numbered(n: usize) -> Vec<Event> {
    (0..n)
        .map(|i| Event {
            id: format!("e{}", i),
            timestamp: Timestamp { secs: i as i64, nanos: 0 },
            sender: "a".to_string(),
            sender_name: None,
            media_references: Vec::new(),
            conversation_id: Some("c".to_string()),
            content: None,
            event_type: "TEXT".to_string(),
            metadata: None,
        })
        .collect()
}

#[test]
fn page_is_cut_out_of_the_stored_events() {
    let stored = numbered(5);
    let ids = |p: &snap_explorer::models::MessagePage| -> Vec<String> {
        p.messages.iter().map(|e| e.id.clone()).collect()
    };
    let p = cut_page(&stored, 1, 2);
    assert_eq!(ids(&p), vec!["e1", "e2"]);
    assert_eq!(p.total_count, 5);
    assert!(p.has_more);
    let p = cut_page(&stored, 3, 2);
    assert_eq!(ids(&p), vec!["e3", "e4"]);
    assert!(!p.has_more);
    let p = cut_page(&stored, 4, 10);
    assert_eq!(ids(&p), vec!["e4"]);
    assert!(!p.has_more);
    // a negative offset acts as 0, a limit below 1 as 1
    let p = cut_page(&stored, -5, -10);
    assert_eq!(ids(&p), vec!["e0"]);
    assert!(p.has_more);
    let p = cut_page(&stored, 9, 3);
    assert!(p.messages.is_empty());
    assert_eq!(p.total_count, 5);
    assert!(!p.has_more);
    // a limit above 2000 acts as 2000
    let many = numbered(2003);
    let p = cut_page(&many, 1, 5000);
    assert_eq!(p.messages.len(), 2000);
    assert_eq!(p.messages[0].id, "e1");
    assert_eq!(p.messages[1999].id, "e2000");
    assert!(p.has_more);
    let p = cut_page(&Vec::new(), -5, -10);
    assert_eq!((p.messages.len(), p.total_count, p.has_more), (0, 0, false));
}
