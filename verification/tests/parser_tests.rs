use snap_explorer::ingestion::parser::{
    parse_location, parse_media_ids, write_metadata, ChatJsonParser, MemoryParser, PersonParser,
    SnapHistoryParser,
};
use snap_explorer::ingestion::transcript::{ChatParser, MessageBlock, Subpage};
use snap_explorer::json::{parse_json, write_json, Json, Member};
use snap_explorer::error::AppError;
use snap_explorer::models::DownloadStatus;
use snap_explorer::timestamps::{format_timestamp, parse_memory_timestamp, parse_rfc3339};

#[test]
fn test_try_parse_timestamp_format1() {
    let ts = ChatParser::try_parse_timestamp("2023-01-15 14:30:00");
    assert!(ts.is_some());
    assert_eq!(format_timestamp(ts.unwrap(), "%Y-%m-%d").unwrap(), "2023-01-15");
    assert_eq!(ts.unwrap().secs, 1673793000);
}

#[test]
fn test_try_parse_timestamp_format2() {
    let ts = ChatParser::try_parse_timestamp("Jan 15, 2023 14:30:00");
    assert!(ts.is_some());
    assert_eq!(ts.unwrap().secs, 1673793000);
}

#[test]
fn test_try_parse_timestamp_format3() {
    let ts = ChatParser::try_parse_timestamp("01/15/2023 14:30:00");
    assert!(ts.is_some());
    assert_eq!(ts.unwrap().secs, 1673793000);
}

#[test]
fn test_try_parse_timestamp_utc_suffix() {
    let ts = ChatParser::try_parse_timestamp("2023-01-15 14:30:00 UTC");
    assert!(ts.is_some());
    assert_eq!(ts.unwrap().secs, 1673793000);
    let ts = ChatParser::try_parse_timestamp("  2023-01-15 14:30:00 UTC \n");
    assert_eq!(ts.unwrap().secs, 1673793000);
}

#[test]
fn test_try_parse_timestamp_invalid() {
    assert!(ChatParser::try_parse_timestamp("not a date").is_none());
    assert!(ChatParser::try_parse_timestamp("").is_none());
}

#[test]
fn memory_timestamp_takes_one_format_only() {
    assert_eq!(parse_memory_timestamp("2023-06-15 10:30:00 UTC").unwrap().secs, 1686825000);
    assert!(parse_memory_timestamp("Jun 15, 2023 10:30:00").is_none());
}

#[test]
fn rfc3339_and_formatting() {
    let at = parse_rfc3339("2024-03-05T01:02:03Z").unwrap();
    assert_eq!(at.secs, 1709600523);
    assert_eq!(format_timestamp(at, "%Y-%m-%d %H:%M:%S").unwrap(), "2024-03-05 01:02:03");
    assert_eq!(format_timestamp(at, "%Y").unwrap(), "2024");
    assert_eq!(format_timestamp(at, "%m").unwrap(), "03");
    assert!(parse_rfc3339("2024-03-05").is_none());
}

#[test]
fn test_parse_friends_json() {
    let text = r#"{
            "Friends": [
                {"Username": "alice", "Display Name": "Alice S"},
                {"Username": "bob", "Display Name": ""}
            ],
            "Blocked Users": []
        }"#;
    let people = PersonParser::parse_friends_json(text).unwrap();
    assert_eq!(people.len(), 2);
    assert_eq!(people[0].username, "alice");
    assert_eq!(people[0].display_name.as_deref(), Some("Alice S"));
    assert!(people[1].display_name.is_none());
}

#[test]
fn friends_categories_in_order() {
    let text = r#"{
            "Hidden Friend Suggestions": [{"Username": "h"}],
            "Deleted Friends": [{"Username": "d"}, {"Username": ""}, {"Display Name": "x"}],
            "Blocked Users": [{"Username": "b"}],
            "Friends": [{"Username": "f"}],
            "Others": [{"Username": "o"}]
        }"#;
    let people = PersonParser::parse_friends_json(text).unwrap();
    let names: Vec<&str> = people.iter().map(|p| p.username.as_str()).collect();
    assert_eq!(names, vec!["f", "b", "d", "h"]);
}

#[test]
fn friends_rejects_bad_json() {
    let err = PersonParser::parse_friends_json("{").unwrap_err();
    assert!(matches!(err, AppError::Serde(_)));
    assert!(err.message().starts_with("Serialization error: "));
}

#[test]
fn test_parse_memories_json() {
    let text = r#"{
            "Saved Media": [
                {
                    "Date": "2023-06-15 10:30:00 UTC",
                    "Media Type": "Image",
                    "Location": "Latitude, Longitude: 40.50679, -123.991455"
                },
                {
                    "Date": "invalid-date",
                    "Media Type": "Video",
                    "Location": ""
                }
            ]
        }"#;
    let memories = MemoryParser::parse_memories_json(text, "test-export").unwrap();
    assert_eq!(memories.len(), 1);
    assert_eq!(memories[0].media_type, "Image");
    assert!(memories[0].latitude.is_some());
    let lat: f64 = memories[0].latitude.as_deref().unwrap().parse().unwrap();
    assert!((lat - 40.50679).abs() < 0.001);
    assert_eq!(memories[0].longitude.as_deref(), Some("-123.991455"));
    assert_eq!(memories[0].export_id, "test-export");
    assert_eq!(memories[0].timestamp.secs, 1686825000);
    assert_eq!(memories[0].download_status, DownloadStatus::Pending);
    assert_eq!(memories[0].id.len(), 36);
}

#[test]
fn location_needs_two_parts() {
    assert_eq!(parse_location(""), (None, None));
    assert_eq!(parse_location("Latitude, Longitude: 1, 2, 3"), (None, None));
    assert_eq!(parse_location("Latitude, Longitude: 1"), (None, None));
    assert_eq!(
        parse_location("Latitude, Longitude: 1.5, x"),
        (Some("1.5".to_string()), Some("x".to_string()))
    );
}

#[test]
fn test_parse_chat_history_json() {
    let text = r#"{
            "alice - conv1": [
                {
                    "From": "alice",
                    "Media Type": "TEXT",
                    "Created": "2023-06-15 10:30:00 UTC",
                    "Content": "Hello!",
                    "IsSender": true,
                    "Media IDs": ""
                },
                {
                    "From": "bob",
                    "Media Type": "MEDIA",
                    "Created": "2023-06-15 10:31:00 UTC",
                    "Content": "",
                    "IsSender": false,
                    "Media IDs": "abc123 | def456"
                }
            ]
        }"#;
    let result = ChatJsonParser::parse_chat_history_json(text).unwrap();
    assert_eq!(result.len(), 1);
    let (convo_key, events) = &result[0];
    assert_eq!(convo_key, "alice - conv1");
    assert_eq!(events.len(), 2);
    assert_eq!(events[0].event_type, "TEXT");
    assert_eq!(events[1].event_type, "MEDIA");
    let meta = parse_json(events[1].metadata.as_ref().unwrap()).unwrap();
    let ids = meta.items_at("media_ids").unwrap();
    assert_eq!(ids.len(), 2);
    assert_eq!(ids[0].as_text().unwrap(), "abc123");
    assert_eq!(events[1].metadata.as_deref(), Some(r#"{"is_sender":false,"media_ids":["abc123","def456"]}"#));
    assert_eq!(events[0].metadata.as_deref(), Some(r#"{"is_sender":true}"#));
    assert_eq!(events[0].content.as_deref(), Some("Hello!"));
    assert_eq!(events[1].content, None);
    assert_eq!(events[0].timestamp.secs, 1686825000);
    assert_eq!(events[1].timestamp.secs, 1686825060);
    assert_eq!(events[0].conversation_id.as_deref(), Some("alice - conv1"));
    assert_eq!(events[0].id.len(), 36);
    assert_ne!(events[0].id, events[1].id);
}

#[test]
fn chat_history_drops_unreadable_records() {
    let text = r#"{
            "a": [{"From": "x", "Created": "never"}],
            "b": "no list",
            "c": [{"From": "y", "Created": "2023-06-15 10:30:00", "Conversation Title": "Team"}]
        }"#;
    let result = ChatJsonParser::parse_chat_history_json(text).unwrap();
    assert_eq!(result.len(), 1);
    assert_eq!(result[0].0, "c");
    assert_eq!(result[0].1[0].event_type, "TEXT");
    assert_eq!(
        result[0].1[0].metadata.as_deref(),
        Some(r#"{"conversation_title":"Team","is_sender":false}"#)
    );
    assert!(ChatJsonParser::parse_chat_history_json("[1, 2]").unwrap().is_empty());
    assert!(matches!(
        ChatJsonParser::parse_chat_history_json("nope"),
        Err(AppError::Serde(_))
    ));
}

#[test]
fn snap_history_makes_up_content() {
    let text = r#"{
            "bob": [
                {"From": "bob", "Media Type": "VIDEO", "Created": "2023-06-15 10:30:00 UTC", "IsSender": false},
                {"From": "me", "Media Type": "IMAGE", "Created": "2023-06-15 10:31:00 UTC", "IsSender": true},
                {"From": "me", "Created": "2023-06-15 10:31:00 UTC"}
            ]
        }"#;
    let result = SnapHistoryParser::parse_snap_history_json(text).unwrap();
    assert_eq!(result.len(), 1);
    let events = &result[0].1;
    assert_eq!(events.len(), 3);
    assert_eq!(events[0].event_type, "SNAP_VIDEO");
    assert_eq!(events[0].content.as_deref(), Some("Received a video snap"));
    assert_eq!(events[1].event_type, "SNAP");
    assert_eq!(events[1].content.as_deref(), Some("Sent a image snap"));
    assert_eq!(events[2].content.as_deref(), Some("Received a image snap"));
    assert_eq!(events[1].metadata.as_deref(), Some(r#"{"is_sender":true}"#));
    assert!(events[0].media_references.is_empty());
}

#[test]
fn media_ids_are_split_and_trimmed() {
    assert_eq!(parse_media_ids("abc123 | def456"), vec!["abc123", "def456"]);
    assert_eq!(parse_media_ids(""), Vec::<String>::new());
    assert_eq!(parse_media_ids(" a  |  | b |"), vec!["a", "b |"]);
    assert_eq!(parse_media_ids("one"), vec!["one"]);
}

#[test]
fn metadata_is_written_in_name_order() {
    let ids = vec!["X".to_string()];
    let title = "T".to_string();
    assert_eq!(
        write_metadata(&ids, Some(&title), true),
        r#"{"conversation_title":"T","is_sender":true,"media_ids":["X"]}"#
    );
    assert_eq!(write_metadata(&Vec::new(), None, false), r#"{"is_sender":false}"#);
}

#[test]
fn json_documents_are_read_and_written() {
    let doc = parse_json(r#"{"b": [1, "two", null, true], "a": {"x": "y"}}"#).unwrap();
    assert!(doc.get("missing").is_none());
    assert_eq!(doc.get("a").unwrap().text_at("x").unwrap(), "y");
    let items = doc.items_at("b").unwrap();
    assert_eq!(items.len(), 4);
    assert!(matches!(&items[0], Json::Number(n) if n == "1"));
    assert!(matches!(&items[2], Json::Null));
    assert!(matches!(&items[3], Json::Bool(true)));
    assert!(!doc.flag_at("a"));
    assert!(doc.as_text().is_none());
    assert_eq!(doc.as_members().unwrap().len(), 2);
    let out = Json::Object(vec![
        Member { name: "a".to_string(), value: Json::Text("x".to_string()) },
        Member { name: "b".to_string(), value: Json::Array(vec![Json::Bool(false), Json::Null]) },
    ]);
    assert_eq!(write_json(&out).unwrap(), r#"{"a":"x","b":[false,null]}"#);
}

fn block(sender: &str, marker: &str, text: Option<&str>, stamp: &str) -> MessageBlock {
    MessageBlock {
        sender: Some(sender.to_string()),
        markers: vec![marker.to_string()],
        paragraph: text.map(|t| t.to_string()),
        timestamp: Some(stamp.to_string()),
        images: Vec::new(),
        videos: Vec::new(),
        sources: Vec::new(),
        links: Vec::new(),
    }
}

#[test]
fn subpage_becomes_conversation_and_events() {
    let mut with_media = block(" bob ", " MEDIA ", None, "2023-06-15 10:31:00 UTC");
    with_media.images = vec!["data:image/png;base64,AAAA".to_string(), "chat_media/a.jpg".to_string()];
    with_media.videos = vec!["chat_media/v.mp4".to_string()];
    with_media.links = vec!["doc.PDF".to_string(), "chat_media/B.JPEG".to_string()];
    let mut no_stamp = block("carol", "TEXT", Some("lost"), "");
    no_stamp.timestamp = None;
    let page = Subpage {
        heading: Some(" Chat History with Alice ".to_string()),
        blocks: vec![
            block("alice", "TEXT", Some("  hi  "), "2023-06-15 10:30:00 UTC"),
            with_media,
            no_stamp,
            block("alice", "SOMETHING", None, "Jun 15, 2023 10:32:00"),
            block("dave", "TEXT", None, "whenever"),
        ],
    };
    let (conversation, events) = ChatParser::parse_page("subpage_alice", &page);
    assert_eq!(conversation.id, "alice");
    assert_eq!(conversation.display_name.as_deref(), Some("Alice"));
    assert_eq!(conversation.participants, vec!["alice", "bob"]);
    assert_eq!(conversation.message_count, 3);
    assert_eq!(conversation.last_event_at.unwrap().secs, 1686825120);
    assert!(!conversation.has_media);
    assert_eq!(events.len(), 3);
    assert_eq!(events[0].content.as_deref(), Some("hi"));
    assert_eq!(events[0].event_type, "TEXT");
    assert_eq!(events[0].metadata, None);
    assert_eq!(events[1].sender, "bob");
    assert_eq!(events[1].event_type, "MEDIA");
    assert_eq!(
        events[1].media_references,
        vec!["chat_media/a.jpg", "chat_media/v.mp4", "chat_media/B.JPEG"]
    );
    assert_eq!(events[2].event_type, "UNKNOWN");
    assert_eq!(events[2].conversation_id.as_deref(), Some("alice"));
    assert_eq!(events[0].id.len(), 36);
}

#[test]
fn subpage_file_names() {
    assert!(ChatParser::is_subpage_name("subpage_alice.html"));
    assert!(ChatParser::is_subpage_name("subpage_.html"));
    assert!(!ChatParser::is_subpage_name("subpage_alice.htm"));
    assert!(!ChatParser::is_subpage_name("page_alice.html"));
    assert!(!ChatParser::is_subpage_name("Subpage_alice.html"));
}

#[test]
fn subpage_names() {
    let page = |h: Option<&str>| Subpage { heading: h.map(|s| s.to_string()), blocks: Vec::new() };
    let (c, e) = ChatParser::parse_page("other", &page(Some("My Group Chat ")));
    assert_eq!(c.id, "other");
    assert_eq!(c.display_name.as_deref(), Some("My Group Chat"));
    assert!(e.is_empty());
    assert_eq!(c.message_count, 0);
    assert_eq!(c.last_event_at, None);
    let (c, _) = ChatParser::parse_page("subpage_", &page(Some("Something else")));
    assert_eq!(c.id, "");
    assert_eq!(c.display_name, None);
    let (c, _) = ChatParser::parse_page("subpage_x", &page(None));
    assert_eq!(c.display_name, None);
}

const PAGE: &str = r#"<!DOCTYPE html>
<html><head><title>Chat</title></head>
<body>
<div class="leftpanel"><div><h4>menu</h4><h6>2020-01-01 00:00:00 UTC</h6></div></div>
<div class="rightpanel">
  <h1>Chat History with Alice</h1>
  <div style="x">
    <h4> alice </h4>
    <span> TEXT </span>
    <p>Hello <b>there</b></p>
    <h6>2023-06-15 10:30:00 UTC</h6>
  </div>
  <p>between</p>
  <div>
    <h4>bob</h4>
    <span>Saved</span><span>MEDIA</span>
    <h6>Jun 15, 2023 10:31:00</h6>
    <img src="data:image/png;base64,AAAA"><img src="chat_media/2023-06-15_A.jpg"><img alt="none">
    <video src="chat_media/v.mp4"><source src="chat_media/s.mov"></video>
    <a href="chat_media/B.PNG">file</a><a href="https://example.invalid/page">page</a>
  </div>
  <div><h4>carol</h4><span>TEXT</span><p>no time</p></div>
  <div><h4>dave</h4><h6>soon</h6></div>
</div>
</body></html>"#;

#[test]
fn page_is_read_from_html() {
    let page = ChatParser::read_page(PAGE);
    assert_eq!(page.heading.as_deref(), Some("Chat History with Alice"));
    assert_eq!(page.blocks.len(), 4);
    assert_eq!(page.blocks[0].sender.as_deref(), Some(" alice "));
    assert_eq!(page.blocks[0].markers, vec![" TEXT "]);
    assert_eq!(page.blocks[0].paragraph.as_deref(), Some("Hello there"));
    assert_eq!(page.blocks[0].timestamp.as_deref(), Some("2023-06-15 10:30:00 UTC"));
    assert_eq!(page.blocks[1].markers, vec!["Saved", "MEDIA"]);
    assert_eq!(page.blocks[1].paragraph, None);
    assert_eq!(
        page.blocks[1].images,
        vec!["data:image/png;base64,AAAA", "chat_media/2023-06-15_A.jpg"]
    );
    assert_eq!(page.blocks[1].videos, vec!["chat_media/v.mp4"]);
    assert_eq!(page.blocks[1].sources, vec!["chat_media/s.mov"]);
    assert_eq!(page.blocks[1].links, vec!["chat_media/B.PNG", "https://example.invalid/page"]);
    assert_eq!(page.blocks[2].timestamp, None);
    let empty = ChatParser::read_page("<html><body><h1>Only a heading</h1></body></html>");
    assert_eq!(empty.heading.as_deref(), Some("Only a heading"));
    assert!(empty.blocks.is_empty());
    let nothing = ChatParser::read_page("");
    assert_eq!(nothing.heading, None);
    assert!(nothing.blocks.is_empty());
}

#[test]
fn subpage_is_parsed_from_html() {
    let (conversation, events) = ChatParser::parse_subpage("subpage_alice", PAGE);
    assert_eq!(conversation.id, "alice");
    assert_eq!(conversation.display_name.as_deref(), Some("Alice"));
    assert_eq!(conversation.participants, vec!["alice", "bob"]);
    assert_eq!(conversation.message_count, 2);
    assert_eq!(conversation.last_event_at.unwrap().secs, 1686825060);
    assert_eq!(events.len(), 2);
    assert_eq!(events[0].sender, "alice");
    assert_eq!(events[0].event_type, "TEXT");
    assert_eq!(events[0].content.as_deref(), Some("Hello there"));
    assert_eq!(events[0].timestamp.secs, 1686825000);
    assert!(events[0].media_references.is_empty());
    assert_eq!(events[1].sender, "bob");
    assert_eq!(events[1].event_type, "MEDIA");
    assert_eq!(events[1].content, None);
    assert_eq!(
        events[1].media_references,
        vec!["chat_media/2023-06-15_A.jpg", "chat_media/v.mp4", "chat_media/s.mov", "chat_media/B.PNG"]
    );
    assert_eq!(events[1].conversation_id.as_deref(), Some("alice"));
    assert_eq!(events[1].metadata, None);
    assert_eq!(events[0].id.len(), 36);
}

#[test]
fn checked_page_parser() {
    let (conversation, events) = ChatParser::try_parse_subpage("subpage_alice", PAGE).unwrap();
    assert_eq!(conversation.id, "alice");
    assert_eq!(events.len(), 2);
    assert_eq!(events[1].sender, "bob");
    let (conversation, events) = ChatParser::try_parse_subpage("x", "").unwrap();
    assert_eq!(conversation.id, "x");
    assert!(events.is_empty());
}
