use snap_explorer::downloader::{DownloadEvent, MemoryDownloader};
use snap_explorer::error::AppError;
use snap_explorer::export::{export_format, render_transcript, ExportFormat};
use snap_explorer::models::{DownloadStatus, Event, Memory, Timestamp};
use snap_explorer::storage::{DiskSpaceInfo, StorageError, StorageManager};
use snap_explorer::text::{
    chars_of, decimal, remove_all, split_on, split_words, string_of, trim,
};

fn memory(id: &str, media_type: &str, status: DownloadStatus) -> Memory {
    Memory {
        id: id.to_string(),
        timestamp: Timestamp { secs: 1709600523, nanos: 0 },
        media_type: media_type.to_string(),
        latitude: None,
        longitude: None,
        media_path: None,
        export_id: "e1".to_string(),
        download_url: Some("https://example.invalid/m".to_string()),
        proxy_url: None,
        download_status: status,
    }
}

#[test]
fn download_target() {
    let m = memory("abc", "Video", DownloadStatus::Pending);
    assert_eq!(
        MemoryDownloader::target_path("/store", &m).as_deref(),
        Some("/store/Memories/2024/03/abc.mp4")
    );
    assert_eq!(
        MemoryDownloader::target_dir("/store", m.timestamp).as_deref(),
        Some("/store/Memories/2024/03")
    );
    assert_eq!(MemoryDownloader::extension_for("VIDEO"), "mp4");
    assert_eq!(MemoryDownloader::extension_for("Image"), "jpg");
    assert_eq!(MemoryDownloader::extension_for(""), "jpg");
    let far = Memory { timestamp: Timestamp { secs: i64::MAX, nanos: 0 }, ..memory("x", "Image", DownloadStatus::Pending) };
    assert_eq!(MemoryDownloader::target_path("/store", &far), None);
}

#[test]
fn pending_memories() {
    let memories = vec![
        memory("a", "Image", DownloadStatus::Downloaded),
        memory("b", "Image", DownloadStatus::Pending),
        memory("c", "Image", DownloadStatus::Downloading),
        memory("d", "Image", DownloadStatus::Failed),
    ];
    assert_eq!(MemoryDownloader::download_all_pending(&memories), vec![1, 3]);
    assert!(MemoryDownloader::download_all_pending(&Vec::new()).is_empty());
}

#[test]
fn download_runs_through() {
    let mut m = memory("abc", "Image", DownloadStatus::Pending);
    let mut bytes = 0u64;
    let target = "/store/Memories/2024/03/abc.jpg";
    let s = MemoryDownloader::download_memory(&mut m, &mut bytes, Some(200), target, DownloadEvent::Begin);
    assert!(s.persist && !s.finished && s.report.is_none());
    assert_eq!(m.download_status, DownloadStatus::Downloading);
    let s = MemoryDownloader::download_memory(&mut m, &mut bytes, Some(200), target, DownloadEvent::Chunk(50));
    assert_eq!((s.persist, s.report, s.finished), (false, Some(250), false));
    let s = MemoryDownloader::download_memory(&mut m, &mut bytes, Some(200), target, DownloadEvent::Chunk(150));
    assert_eq!(s.report, Some(1000));
    assert_eq!(bytes, 200);
    let s = MemoryDownloader::download_memory(&mut m, &mut bytes, Some(200), target, DownloadEvent::Complete);
    assert_eq!((s.persist, s.report, s.finished), (true, Some(1000), true));
    assert_eq!(m.download_status, DownloadStatus::Downloaded);
    assert_eq!(m.media_path.as_deref(), Some(target));
    assert_eq!(m.id, "abc");
}

#[test]
fn download_failures() {
    for event in [DownloadEvent::RequestFailed, DownloadEvent::ChunkFailed] {
        let mut m = memory("abc", "Image", DownloadStatus::Downloading);
        let mut bytes = 7u64;
        let s = MemoryDownloader::download_memory(&mut m, &mut bytes, None, "/t", event);
        assert!(s.persist && s.finished && s.report.is_none());
        assert_eq!(m.download_status, DownloadStatus::Failed);
        assert_eq!(m.media_path, None);
        assert_eq!(bytes, 7);
    }
    let mut m = memory("abc", "Image", DownloadStatus::Downloading);
    let mut bytes = u64::MAX - 1;
    let s = MemoryDownloader::download_memory(&mut m, &mut bytes, None, "/t", DownloadEvent::Chunk(5));
    assert_eq!(bytes, u64::MAX);
    assert_eq!(s.report, None);
    assert_eq!(MemoryDownloader::permille(1, 3), 333);
    assert_eq!(MemoryDownloader::permille(5, 0), 1000);
    assert_eq!(MemoryDownloader::permille(9, 3), 1000);
}

#[test]
fn error_messages() {
    assert_eq!(AppError::Io("gone".to_string()).message(), "IO error: gone");
    assert_eq!(AppError::Sqlite("locked".to_string()).message(), "Database error: locked");
    assert_eq!(AppError::Serde("eof".to_string()).message(), "Serialization error: eof");
    assert_eq!(AppError::Validation("too big".to_string()).message(), "Validation error: too big");
    assert_eq!(AppError::Parsing("bad".to_string()).message(), "Parsing error: bad");
    assert_eq!(AppError::Generic("plain".to_string()).message(), "plain");
}

#[test]
fn transcript_text() {
    let e = |sender: &str, name: Option<&str>, content: Option<&str>, secs: i64| Event {
        id: "i".to_string(),
        timestamp: Timestamp { secs, nanos: 0 },
        sender: sender.to_string(),
        sender_name: name.map(|s| s.to_string()),
        media_references: Vec::new(),
        conversation_id: Some("conv1".to_string()),
        content: content.map(|s| s.to_string()),
        event_type: "TEXT".to_string(),
        metadata: None,
    };
    let messages = vec![e("alice", Some("Alice S"), Some("hi"), 1709600523), e("bob", None, None, 1709600524)];
    assert_eq!(
        render_transcript("conv1", &messages),
        "Conversation: conv1\nMessages: 2\n---\n\n[2024-03-05 01:02:03] Alice S: hi\n[2024-03-05 01:02:04] bob: \n"
    );
    assert_eq!(render_transcript("c", &Vec::new()), "Conversation: c\nMessages: 0\n---\n\n");
    assert_eq!(export_format("json"), ExportFormat::Json);
    assert_eq!(export_format("txt"), ExportFormat::Text);
    assert_eq!(export_format("JSON"), ExportFormat::Text);
}

#[test]
fn storage_paths() {
    let dir = tempfile::tempdir().unwrap();
    let path = dir.path().to_string_lossy().into_owned();
    assert!(StorageManager::validate_path(path.clone()).is_ok());
    let missing = format!("{}/missing", path);
    assert!(matches!(
        StorageManager::validate_path(missing.clone()),
        Err(StorageError::PathNotFound(p)) if p == missing
    ));
    let file = tempfile::NamedTempFile::new_in(dir.path()).unwrap();
    let file_path = file.path().to_string_lossy().into_owned();
    assert!(matches!(
        StorageManager::validate_path(file_path),
        Err(StorageError::IoError(m)) if m == "Path is not a directory"
    ));
    assert!(StorageManager::judge_path("p".to_string(), true, true).is_ok());
    assert!(matches!(
        StorageManager::judge_path("p".to_string(), false, true),
        Err(StorageError::PathNotFound(_))
    ));
}

#[test]
fn disk_for_a_path() {
    let disk = |mount: &str, available: u64| DiskSpaceInfo {
        available_bytes: available,
        total_bytes: 1000,
        mount_point: mount.to_string(),
    };
    let disks = vec![disk("/", 1), disk("/home", 2), disk("/home/user", 3), disk("/homework", 4), disk("/home", 5)];
    let d = StorageManager::get_disk_space("/home/user/x", &disks).unwrap();
    assert_eq!((d.mount_point.as_str(), d.available_bytes), ("/home/user", 3));
    let d = StorageManager::get_disk_space("/home/other", &disks).unwrap();
    assert_eq!((d.mount_point.as_str(), d.available_bytes), ("/home", 5));
    let d = StorageManager::get_disk_space("/homeworks", &disks).unwrap();
    assert_eq!(d.mount_point, "/");
    assert!(matches!(
        StorageManager::get_disk_space("relative", &disks),
        Err(StorageError::DiskInfoError)
    ));
    assert!(StorageManager::lies_on("/a/b", "/a"));
    assert!(StorageManager::lies_on("/a", "/a"));
    assert!(!StorageManager::lies_on("/ab", "/a"));
}

#[test]
fn text_tools() {
    let c = |s: &str| chars_of(s);
    let s = |v: &Vec<char>| string_of(v);
    assert_eq!(s(&trim(&c("  a b \n"))), "a b");
    assert_eq!(s(&trim(&c("   "))), "");
    assert_eq!(s(&remove_all(&c("a UTC b UTC"), &c(" UTC"))), "a b");
    assert_eq!(s(&remove_all(&c("aaa"), &c("aa"))), "a");
    let parts: Vec<String> = split_on(&c("a, b,, c"), &c(", ")).iter().map(|p| s(p)).collect();
    assert_eq!(parts, vec!["a", "b,", "c"]);
    let parts: Vec<String> = split_on(&c(""), &c("|")).iter().map(|p| s(p)).collect();
    assert_eq!(parts, vec![""]);
    let words: Vec<String> = split_words(&c(" x  yz\t")).iter().map(|p| s(p)).collect();
    assert_eq!(words, vec!["x", "yz"]);
}

#[test]
fn storage_error_messages() {
    assert_eq!(StorageError::DiskInfoError.message(), "Failed to get disk info");
    assert_eq!(StorageError::PathNotFound("/x".to_string()).message(), "Path does not exist: /x");
    assert_eq!(
        StorageError::InsufficientSpace { required: 10, available: u64::MAX }.message(),
        "Not enough space. Required: 10 bytes, Available: 18446744073709551615 bytes"
    );
    assert_eq!(StorageError::IoError("boom".to_string()).message(), "IO Error: boom");
}

#[test]
fn decimal_texts() {
    for n in [0i128, 7, 10, 42, 100, 1009, -1, -10, -905, i64::MAX as i128, i128::MAX, i128::MIN] {
        assert_eq!(decimal(n), n.to_string());
    }
    assert_eq!(decimal(0), "0");
    assert_eq!(decimal(-120), "-120");
    assert_eq!(decimal(2001), "2001");
}
