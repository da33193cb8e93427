use snap_explorer::error::AppError;
use snap_explorer::ingestion::media_linker::MediaLinker;
use snap_explorer::models::{Conversation, Event, Timestamp};
use snap_explorer::pipeline::{
    conversation_title, ingestion_result, merge_snap_history, reconcile_chat_json,
    summarize_conversations, tally_events, Ingestion, Phase,
};
use snap_explorer::reconcile::{find_match, has_conversation, reconcile_event};
use snap_explorer::timeline::sort_events;

const T: i64 = 1_686_825_000;

fn event(id: &str, conv: &str, sender: &str, secs: i64, metadata: Option<&str>) -> Event {
    Event {
        id: id.to_string(),
        timestamp: Timestamp { secs, nanos: 0 },
        sender: sender.to_string(),
        sender_name: None,
        media_references: Vec::new(),
        conversation_id: Some(conv.to_string()),
        content: None,
        event_type: "TEXT".to_string(),
        metadata: metadata.map(|m| m.to_string()),
    }
}

fn conversation(id: &str) -> Conversation {
    Conversation {
        id: id.to_string(),
        display_name: None,
        participants: Vec::new(),
        last_event_at: None,
        message_count: 0,
        has_media: false,
    }
}

#[test]
fn reconciliation_enriches_the_transcript_event() {
    let mut events = vec![event("h1", "c", "a", T, None)];
    let mut conversations = vec![conversation("c")];
    let threads =
        vec![("c".to_string(), vec![event("j1", "c", "a", T + 1, Some(r#"{"media_ids":["X"]}"#))])];
    reconcile_chat_json(&mut events, &mut conversations, &threads);
    assert_eq!(events.len(), 1);
    assert_eq!(events[0].id, "h1");
    assert_eq!(events[0].timestamp.secs, T);
    assert_eq!(events[0].metadata.as_deref(), Some(r#"{"media_ids":["X"]}"#));
    assert_eq!(conversations.len(), 1);
}

#[test]
fn reconciliation_window_is_two_seconds() {
    let json = |d: i64| event("j", "c", "a", T + d, Some("{}"));
    for (delta, nanos, matched) in [
        (0, 0, true),
        (1, 999_999_999, true),
        (2, 0, true),
        (-2, 0, true),
        (2, 1, false),
        (2, 500_000_000, false),
        (-3, 999_999_999, false),
        (3, 0, false),
        (-3, 0, false),
    ] {
        let mut j = json(delta);
        j.timestamp.nanos = nanos;
        let events = vec![event("h", "c", "a", T, None)];
        assert_eq!(find_match(&events, "c", &j).is_some(), matched);
    }
    let events = vec![event("h", "c", "a", T, None)];
    assert!(find_match(&events, "other", &json(0)).is_none());
    assert!(find_match(&events, "c", &event("j", "c", "b", T, None)).is_none());
    let enriched = vec![event("h", "c", "a", T, Some("{}"))];
    assert!(find_match(&enriched, "c", &json(0)).is_none());
}

#[test]
fn reconciliation_takes_the_first_match_once() {
    let mut events = vec![
        event("h0", "c", "b", T, None),
        event("h1", "c", "a", T, None),
        event("h2", "c", "a", T + 1, None),
    ];
    let mut conversations = vec![conversation("c")];
    let r = reconcile_event(&mut events, &mut conversations, "c", event("j1", "c", "a", T, Some("m1")), None);
    assert_eq!(r, Some(1));
    let r = reconcile_event(&mut events, &mut conversations, "c", event("j2", "c", "a", T, Some("m2")), None);
    assert_eq!(r, Some(2));
    let r = reconcile_event(&mut events, &mut conversations, "c", event("j3", "c", "a", T, Some("m3")), None);
    assert_eq!(r, None);
    assert_eq!(events.len(), 4);
    assert_eq!(events[1].metadata.as_deref(), Some("m1"));
    assert_eq!(events[2].metadata.as_deref(), Some("m2"));
    assert_eq!(events[3].id, "j3");
    assert_eq!(events[0].metadata, None);
}

#[test]
fn unmatched_history_event_makes_up_a_conversation() {
    let mut events = Vec::new();
    let mut conversations = vec![conversation("known")];
    let meta = r#"{"conversation_title":"Team","is_sender":true}"#;
    let threads = vec![
        ("new".to_string(), vec![event("j1", "new", "a", T, Some(meta)), event("j2", "new", "a", T + 9, None)]),
        ("known".to_string(), vec![event("j3", "known", "b", T, None)]),
    ];
    reconcile_chat_json(&mut events, &mut conversations, &threads);
    assert_eq!(events.len(), 3);
    assert_eq!(conversations.len(), 2);
    assert_eq!(conversations[1].id, "new");
    assert_eq!(conversations[1].display_name.as_deref(), Some("Team"));
    assert_eq!(conversations[1].last_event_at.unwrap().secs, T);
    assert_eq!(conversations[1].message_count, 0);
    assert!(has_conversation(&conversations, "new"));
    assert!(!has_conversation(&conversations, "New"));
}

#[test]
fn conversation_title_is_read_from_metadata() {
    assert_eq!(
        conversation_title(&Some(r#"{"conversation_title":"Team"}"#.to_string())).as_deref(),
        Some("Team")
    );
    assert_eq!(conversation_title(&Some(r#"{"conversation_title":5}"#.to_string())), None);
    assert_eq!(conversation_title(&Some("nope".to_string())), None);
    assert_eq!(conversation_title(&None), None);
}

#[test]
fn snap_history_joins_the_stream() {
    let mut events = vec![event("h1", "c", "a", T, None)];
    let mut conversations = vec![conversation("c")];
    let threads = vec![
        ("c".to_string(), vec![event("s1", "c", "a", T + 5, None)]),
        ("d".to_string(), vec![event("s2", "d", "x", T + 1, None), event("s3", "d", "x", T + 2, None)]),
    ];
    merge_snap_history(&mut events, &mut conversations, &threads);
    let ids: Vec<&str> = events.iter().map(|e| e.id.as_str()).collect();
    assert_eq!(ids, vec!["h1", "s1", "s2", "s3"]);
    assert_eq!(conversations.len(), 2);
    assert_eq!(conversations[1].id, "d");
    assert_eq!(conversations[1].message_count, 2);
    assert_eq!(conversations[1].last_event_at.unwrap().secs, T + 2);
    assert_eq!(conversations[1].display_name, None);
}

#[test]
fn sort_is_by_instant_and_stable() {
    let mut events = vec![
        event("c", "x", "a", T + 2, None),
        event("a1", "x", "a", T, None),
        event("b", "x", "a", T + 1, None),
        event("a2", "x", "a", T, None),
    ];
    events[3].timestamp.nanos = 0;
    sort_events(&mut events);
    let ids: Vec<&str> = events.iter().map(|e| e.id.as_str()).collect();
    assert_eq!(ids, vec!["a1", "a2", "b", "c"]);
    let mut by_nanos = vec![event("late", "x", "a", T, None), event("early", "x", "a", T, None)];
    by_nanos[0].timestamp.nanos = 5;
    sort_events(&mut by_nanos);
    assert_eq!(by_nanos[0].id, "early");
}

#[test]
fn conversations_are_summed_up() {
    let mut with_media = event("e3", "c", "a", T + 7, None);
    with_media.media_references = vec!["/m/a.jpg".to_string()];
    let mut orphan = event("e5", "c", "a", T + 100, None);
    orphan.conversation_id = None;
    let events = vec![
        event("e1", "c", "a", T + 9, None),
        event("e2", "d", "a", T + 3, None),
        with_media,
        event("e4", "c", "b", T + 8, None),
        orphan,
    ];
    let mut stale = conversation("empty");
    stale.message_count = 12;
    stale.last_event_at = Some(Timestamp { secs: 1, nanos: 0 });
    stale.has_media = true;
    let mut conversations = vec![conversation("c"), conversation("d"), stale];
    summarize_conversations(&mut conversations, &events);
    assert_eq!(conversations[0].message_count, 3);
    assert_eq!(conversations[0].last_event_at.unwrap().secs, T + 9);
    assert!(conversations[0].has_media);
    assert_eq!(conversations[1].message_count, 1);
    assert_eq!(conversations[1].last_event_at.unwrap().secs, T + 3);
    assert!(!conversations[1].has_media);
    assert_eq!(conversations[2].message_count, 0);
    assert_eq!(conversations[2].last_event_at.unwrap().secs, 1);
    assert!(!conversations[2].has_media);
}

#[test]
fn result_counts() {
    let r = ingestion_result(
        "e1".to_string(),
        2,
        30,
        4,
        1,
        vec!["w".to_string()],
        vec!["x".to_string(), "y".to_string()],
    );
    assert_eq!(r.export_id, "e1");
    assert_eq!(
        (r.conversations_parsed, r.events_parsed, r.memories_parsed, r.parse_failures),
        (2, 30, 4, 1)
    );
    assert_eq!(r.warnings.len(), 1);
    assert_eq!(r.errors.len(), 2);
}

#[test]
fn timestamps_compare() {
    let a = Timestamp { secs: 5, nanos: 1 };
    let b = Timestamp { secs: 5, nanos: 2 };
    assert!(a.before(&b));
    assert!(!b.before(&a));
    assert!(!a.before(&a));
    assert!(Timestamp { secs: -1, nanos: 999_999_999 }.before(&Timestamp { secs: 0, nanos: 0 }));
    assert!(Timestamp { secs: i64::MIN, nanos: 0 }.before(&Timestamp { secs: i64::MAX, nanos: 0 }));
    assert!(!Timestamp { secs: i64::MIN, nanos: 0 }.near(&Timestamp { secs: i64::MAX, nanos: 0 }));
    assert!(a.near(&Timestamp { secs: 7, nanos: 1 }));
    assert!(a.near(&Timestamp { secs: 3, nanos: 1 }));
    assert!(!a.near(&Timestamp { secs: 7, nanos: 2 }));
    assert!(!a.near(&Timestamp { secs: 3, nanos: 0 }));
    assert!(!a.near(&Timestamp { secs: 8, nanos: 0 }));
}

#[test]
fn a_run_gathers_and_links() {
    let mut run = Ingestion::new("e1".to_string());
    run.add_subpage(conversation("c"), &vec![event("h2", "c", "a", T + 5, None), event("h1", "c", "a", T, None)]);
    run.subpage_failed("subpage_x.html", &AppError::Io("gone".to_string()));
    run.friends_failed(&AppError::Serde("eof".to_string()));
    run.add_chat_history(&Ok(vec![(
        "c".to_string(),
        vec![event("j1", "c", "a", T + 1, Some(r#"{"media_ids":["X"]}"#))],
    )]));
    run.add_snap_history(&Err(AppError::Serde("bad".to_string())));
    run.add_memories(Err(AppError::Io("no file".to_string())));
    run.link(&MediaLinker::new(&Vec::new()));
    let ids: Vec<&str> = run.events.iter().map(|e| e.id.as_str()).collect();
    assert_eq!(ids, vec!["h1", "h2"]);
    assert_eq!(run.events[0].metadata.as_deref(), Some(r#"{"media_ids":["X"]}"#));
    assert_eq!(run.conversations[0].message_count, 2);
    assert_eq!(run.conversations[0].last_event_at.unwrap().secs, T + 5);
    let result = run.result();
    assert_eq!((result.conversations_parsed, result.events_parsed, result.memories_parsed), (1, 2, 0));
    assert_eq!(result.parse_failures, 1);
    assert_eq!(
        result.warnings,
        vec![
            "Failed to parse subpage_x.html: IO error: gone".to_string(),
            "Could not parse friends list: Serialization error: eof".to_string()
        ]
    );
    assert_eq!(
        result.errors,
        vec![
            "Could not parse snap history: Serialization error: bad".to_string(),
            "Could not parse memories: IO error: no file".to_string()
        ]
    );
    run.chat_directory_missing();
    assert_eq!(run.warnings.last().unwrap(), "No chat_history directory found in export");
    assert_eq!(Phase::Init.permille(), 50);
    assert_eq!(Phase::Done.permille(), 1000);
    assert_eq!(Phase::Link.step(), "Linking Media");
    assert_eq!(Phase::html_permille(0, 4), 100);
    assert_eq!(Phase::html_permille(2, 4), 225);
    assert_eq!(Phase::html_permille(4, 4), 350);
    assert_eq!(Phase::html_permille(0, 0), 350);
}

#[test]
fn stream_is_tallied_in_one_pass() {
    let mut with_media = event("e2", "c", "a", T + 1, None);
    with_media.media_references = vec!["/m/a.jpg".to_string()];
    let mut orphan = event("e4", "c", "a", T + 50, None);
    orphan.conversation_id = None;
    let events =
        vec![event("e1", "c", "a", T + 9, None), with_media, event("e3", "d", "a", T, None), orphan];
    let tallies = tally_events(&events);
    assert_eq!(tallies.len(), 2);
    let c = tallies.get("c").unwrap();
    assert_eq!((c.count, c.latest.unwrap().secs, c.has_media), (2, T + 9, true));
    let d = tallies.get("d").unwrap();
    assert_eq!((d.count, d.latest.unwrap().secs, d.has_media), (1, T, false));
    assert!(tallies.get("e").is_none());
    assert_eq!(tally_events(&Vec::new()).len(), 0);
}

#[test]
fn stream_length_after_reconciliation() {
    // H = 2 transcript events, J = 3 history events of which M = 2 match, S = 2 snaps
    let mut events = vec![event("h1", "c", "a", T, None), event("h2", "c", "b", T + 10, None)];
    let mut conversations = vec![conversation("c")];
    let threads = vec![(
        "c".to_string(),
        vec![
            event("j1", "c", "a", T + 2, Some("m1")),
            event("j2", "c", "b", T + 8, Some("m2")),
            event("j3", "c", "b", T + 8, Some("m3")),
        ],
    )];
    reconcile_chat_json(&mut events, &mut conversations, &threads);
    assert_eq!(events.len(), 2 + (3 - 2));
    let snaps = vec![("s".to_string(), vec![event("s1", "s", "x", T, None), event("s2", "s", "x", T, None)])];
    merge_snap_history(&mut events, &mut conversations, &snaps);
    assert_eq!(events.len(), 2 + (3 - 2) + 2);
}
