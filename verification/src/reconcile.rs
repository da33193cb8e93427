//! Reconciliation of the two records of a chat: the transcript, which is
//! authoritative for rendering, and the chat history, which carries the
//! media ids. Each history event either enriches the first transcript event
//! it matches or joins the stream as a new event.

use vstd::prelude::*;
use crate::models::{
    conversation_views, event_views, Conversation, ConversationView, Event, EventView, Timestamp,
};
use crate::text::str_eq;

verus! {

/// `existing` is a transcript event that the history event `json` of
/// conversation `key` may enrich: same conversation, same sender, at most
/// two seconds apart, and no metadata attached yet.
pub open spec fn json_matches(existing: EventView, key: Seq<char>, json: EventView) -> bool {
    &&& existing.conversation_id == Some(key)
    &&& existing.sender == json.sender
    &&& existing.timestamp.is_near(json.timestamp)
    &&& existing.metadata is None
}

/// Some event of `events` matches `json`.
pub open spec fn has_match(events: Seq<EventView>, key: Seq<char>, json: EventView) -> bool {
    exists|i: int| 0 <= i < events.len() && json_matches(#[trigger] events[i], key, json)
}

/// `i` is the position of the first event of `events` that matches `json`.
pub open spec fn is_first_match(
    events: Seq<EventView>,
    key: Seq<char>,
    json: EventView,
    i: int,
) -> bool {
    &&& 0 <= i < events.len()
    &&& json_matches(events[i], key, json)
    &&& forall|j: int| 0 <= j < i ==> !json_matches(#[trigger] events[j], key, json)
}

/// The position of the first match, where there is one.
pub open spec fn first_match(events: Seq<EventView>, key: Seq<char>, json: EventView) -> int {
    choose|i: int| is_first_match(events, key, json, i)
}

/// Where some event matches, there is a first one.
pub proof fn lemma_first_exists(events: Seq<EventView>, key: Seq<char>, json: EventView, w: int)
    requires
        0 <= w < events.len(),
        json_matches(events[w], key, json),
    ensures
        exists|i: int| is_first_match(events, key, json, i),
    decreases w,
{
    if forall|j: int| 0 <= j < w ==> !json_matches(#[trigger] events[j], key, json) {
        assert(is_first_match(events, key, json, w));
    } else {
        let j = choose|j: int| 0 <= j < w && json_matches(#[trigger] events[j], key, json);
        lemma_first_exists(events, key, json, j);
    }
}

/// There is at most one first match.
pub proof fn lemma_first_match_unique(
    events: Seq<EventView>,
    key: Seq<char>,
    json: EventView,
    i: int,
)
    requires
        is_first_match(events, key, json, i),
    ensures
        has_match(events, key, json),
        first_match(events, key, json) == i,
{
    let k = first_match(events, key, json);
    assert(is_first_match(events, key, json, k));
    if k < i {
        assert(!json_matches(events[k], key, json));
    }
    if i < k {
        assert(!json_matches(events[i], key, json));
    }
}

/// Decides whether `existing` matches `json_event`.
fn event_matches(existing: &Event, key: &str, json_event: &Event) -> (r: bool)
    ensures
        r == json_matches(existing@, key@, json_event@),
{
    let same_conversation = match &existing.conversation_id {
        Some(c) => str_eq(c.as_str(), key),
        None => false,
    };
    same_conversation && str_eq(existing.sender.as_str(), json_event.sender.as_str())
        && existing.timestamp.near(&json_event.timestamp) && existing.metadata.is_none()
}

/// Finds the first event that `json_event` may enrich.
pub fn find_match(events: &Vec<Event>, key: &str, json_event: &Event) -> (r: Option<usize>)
    ensures
        match r {
            Some(i) => is_first_match(event_views(events@), key@, json_event@, i as int),
            None => !has_match(event_views(events@), key@, json_event@),
        },
{
    let mut i: usize = 0;
    while i < events.len()
        invariant
            i <= events@.len(),
            forall|j: int|
                0 <= j < i ==> !json_matches(
                    #[trigger] event_views(events@)[j],
                    key@,
                    json_event@,
                ),
        decreases events@.len() - i,
    {
        if event_matches(&events[i], key, json_event) {
            return Some(i);
        }
        i += 1;
    }
    None
}

/// Some conversation of `conversations` has the id `key`.
pub open spec fn knows_conversation(conversations: Seq<ConversationView>, key: Seq<char>) -> bool {
    exists|i: int| 0 <= i < conversations.len() && (#[trigger] conversations[i]).id == key
}

/// Decides `knows_conversation`.
pub fn has_conversation(conversations: &Vec<Conversation>, key: &str) -> (r: bool)
    ensures
        r == knows_conversation(conversation_views(conversations@), key@),
{
    let mut i: usize = 0;
    while i < conversations.len()
        invariant
            i <= conversations@.len(),
            forall|j: int|
                0 <= j < i ==> (#[trigger] conversation_views(conversations@)[j]).id != key@,
        decreases conversations@.len() - i,
    {
        if str_eq(conversations[i].id.as_str(), key) {
            assert(conversation_views(conversations@)[i as int].id == key@);
            return true;
        }
        i += 1;
    }
    false
}

/// A conversation made up for events that arrive without one.
pub open spec fn synthesized(
    key: Seq<char>,
    display_name: Option<Seq<char>>,
    last_event_at: Option<Timestamp>,
    message_count: int,
) -> ConversationView {
    ConversationView {
        id: key,
        display_name,
        participants: seq![],
        last_event_at,
        message_count,
        has_media: false,
    }
}

/// `conversations`, with a conversation for `key` added at the end unless
/// one is there already.
pub open spec fn with_conversation(
    conversations: Seq<ConversationView>,
    key: Seq<char>,
    display_name: Option<Seq<char>>,
    last_event_at: Option<Timestamp>,
    message_count: int,
) -> Seq<ConversationView> {
    if knows_conversation(conversations, key) {
        conversations
    } else {
        conversations.push(synthesized(key, display_name, last_event_at, message_count))
    }
}

/// `events` with the metadata of the event at `i` replaced.
pub open spec fn with_metadata(
    events: Seq<EventView>,
    i: int,
    metadata: Option<Seq<char>>,
) -> Seq<EventView> {
    events.update(i, EventView { metadata, ..events[i] })
}

/// The stream and the conversations after one history event `json` of
/// conversation `key` has been reconciled; `title` is the conversation title
/// that its metadata carries.
pub open spec fn reconciled_one(
    events: Seq<EventView>,
    conversations: Seq<ConversationView>,
    key: Seq<char>,
    json: EventView,
    title: Option<Seq<char>>,
) -> (Seq<EventView>, Seq<ConversationView>) {
    if has_match(events, key, json) {
        (with_metadata(events, first_match(events, key, json), json.metadata), conversations)
    } else {
        (
            events.push(json),
            with_conversation(conversations, key, title, Some(json.timestamp), 0),
        )
    }
}

/// Adds a made-up conversation for `key` unless one is known.
pub fn ensure_conversation(
    conversations: &mut Vec<Conversation>,
    key: &str,
    display_name: Option<String>,
    last_event_at: Option<Timestamp>,
    message_count: i32,
)
    ensures
        conversation_views(final(conversations)@) == with_conversation(
            conversation_views(old(conversations)@),
            key@,
            display_name.deep_view(),
            last_event_at,
            message_count as int,
        ),
{
    if !has_conversation(conversations, key) {
        let id = key.to_owned();
        let c = Conversation {
            id,
            display_name,
            participants: Vec::new(),
            last_event_at,
            message_count,
            has_media: false,
        };
        assert(c.participants.deep_view() =~= Seq::<Seq<char>>::empty());
        conversations.push(c);
        assert(conversation_views(conversations@) =~= conversation_views(old(conversations)@).push(
            c@,
        ));
    }
}

/// Reconciles one history event of conversation `key` with the stream.
///
/// Where a transcript event matches, the first such event takes over the
/// history event's metadata and its position is returned; nothing else
/// changes. Otherwise the history event is appended to the stream, and a
/// conversation titled `title` is made up for `key` if none is known.
pub fn reconcile_event(
    events: &mut Vec<Event>,
    conversations: &mut Vec<Conversation>,
    key: &str,
    json_event: Event,
    title: Option<String>,
) -> (r: Option<usize>)
    ensures
        (event_views(final(events)@), conversation_views(final(conversations)@)) == reconciled_one(
            event_views(old(events)@),
            conversation_views(old(conversations)@),
            key@,
            json_event@,
            title.deep_view(),
        ),
        match r {
            Some(i) => is_first_match(event_views(old(events)@), key@, json_event@, i as int),
            None => !has_match(event_views(old(events)@), key@, json_event@),
        },
{
    let found = find_match(events, key, &json_event);
    match found {
        Some(i) => {
            proof {
                lemma_first_match_unique(event_views(events@), key@, json_event@, i as int);
            }
            events[i].metadata = json_event.metadata;
            assert(event_views(events@) =~= with_metadata(
                event_views(old(events)@),
                i as int,
                json_event@.metadata,
            ));
        },
        None => {
            ensure_conversation(conversations, key, title, Some(json_event.timestamp), 0);
            events.push(json_event);
            assert(event_views(events@) =~= event_views(old(events)@).push(json_event@));
        },
    }
    found
}

/// A history event that matches enriches exactly the first transcript event
/// it matches: that event takes over the history event's metadata, every
/// other event and every conversation stays as it was, and the stream does
/// not grow.
pub proof fn lemma_match_enriches(
    events: Seq<EventView>,
    conversations: Seq<ConversationView>,
    key: Seq<char>,
    json: EventView,
    title: Option<Seq<char>>,
    i: int,
)
    requires
        is_first_match(events, key, json, i),
    ensures
        ({
            let after = reconciled_one(events, conversations, key, json, title);
            &&& after.0.len() == events.len()
            &&& after.0[i].metadata == json.metadata
            &&& after.0[i] == EventView { metadata: json.metadata, ..events[i] }
            &&& forall|j: int| 0 <= j < events.len() && j != i ==> after.0[j] == events[j]
            &&& after.1 == conversations
        }),
{
    lemma_first_match_unique(events, key, json, i);
}

/// A history event that matches nothing joins the stream as its last event,
/// and every earlier event stays as it was.
pub proof fn lemma_no_match_appends(
    events: Seq<EventView>,
    conversations: Seq<ConversationView>,
    key: Seq<char>,
    json: EventView,
    title: Option<Seq<char>>,
)
    requires
        !has_match(events, key, json),
    ensures
        ({
            let after = reconciled_one(events, conversations, key, json, title);
            &&& after.0 == events.push(json)
            &&& knows_conversation(after.1, key)
        }),
{
    let after = reconciled_one(events, conversations, key, json, title);
    if !knows_conversation(conversations, key) {
        assert(after.1[conversations.len() as int].id == key);
    }
}

} // verus!
