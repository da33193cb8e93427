//! The decisions of an ingestion run: how the history files are merged into
//! the transcript stream, and how the conversations are summed up once the
//! stream is complete.

use vstd::hash_map::StringHashMap;
use vstd::prelude::*;
use vstd::string::StringExecFns;
use crate::error::AppError;
use crate::ingestion::media_linker::{linked, MediaLinker};
use crate::json::{json_document, parse_json};
use crate::models::{
    all_of, conversation_views, event_views, threads_keyed, Conversation, ConversationView, Event, EventView,
    IngestionResult, Memory, Timestamp,
};
use crate::reconcile::{
    ensure_conversation, first_match, has_match, is_first_match, json_matches,
    knows_conversation, lemma_first_exists, reconcile_event, reconciled_one, with_conversation,
};
use crate::text::{string_views, str_eq};
use crate::timeline::{at_instant, is_ordered, lemma_same_events, sort_events};

verus! {

/// The conversation title that the metadata of an event carries: the text
/// of `conversation_title` in the metadata document.
pub open spec fn title_of(metadata: Option<Seq<char>>) -> Option<Seq<char>> {
    match metadata {
        Some(text) => match json_document(text) {
            Some(doc) => doc.text_at("conversation_title"@),
            None => None,
        },
        None => None,
    }
}

/// Reads the conversation title out of the metadata of an event.
pub fn conversation_title(metadata: &Option<String>) -> (r: Option<String>)
    ensures
        r.deep_view() == title_of(metadata.deep_view()),
{
    match metadata {
        Some(text) => match parse_json(text.as_str()) {
            Ok(doc) => match doc.text_at("conversation_title") {
                Some(t) => Some(t.clone()),
                None => None,
            },
            Err(_) => None,
        },
        None => None,
    }
}

/// The stream and the conversations after the history events `jsons` of
/// conversation `key` have been reconciled, one after the other.
pub open spec fn reconciled_thread(
    events: Seq<EventView>,
    conversations: Seq<ConversationView>,
    key: Seq<char>,
    jsons: Seq<EventView>,
) -> (Seq<EventView>, Seq<ConversationView>)
    decreases jsons.len(),
{
    if jsons.len() == 0 {
        (events, conversations)
    } else {
        let before = reconciled_thread(events, conversations, key, jsons.drop_last());
        reconciled_one(before.0, before.1, key, jsons.last(), title_of(jsons.last().metadata))
    }
}

/// The stream and the conversations after every conversation of the chat
/// history has been reconciled, in order.
pub open spec fn reconciled(
    events: Seq<EventView>,
    conversations: Seq<ConversationView>,
    threads: Seq<(String, Vec<Event>)>,
) -> (Seq<EventView>, Seq<ConversationView>)
    decreases threads.len(),
{
    if threads.len() == 0 {
        (events, conversations)
    } else {
        let before = reconciled(events, conversations, threads.drop_last());
        reconciled_thread(before.0, before.1, threads.last().0@, event_views(threads.last().1@))
    }
}

/// Reconciles the chat history with the transcript stream: each history
/// event, conversation by conversation and in order, enriches the first
/// transcript event that it matches or joins the stream.
pub fn reconcile_chat_json(
    events: &mut Vec<Event>,
    conversations: &mut Vec<Conversation>,
    threads: &Vec<(String, Vec<Event>)>,
)
    ensures
        (event_views(final(events)@), conversation_views(final(conversations)@)) == reconciled(
            event_views(old(events)@),
            conversation_views(old(conversations)@),
            threads@,
        ),
{
    let mut t: usize = 0;
    assert(threads@.take(0) =~= Seq::<(String, Vec<Event>)>::empty());
    while t < threads.len()
        invariant
            t <= threads@.len(),
            (event_views(events@), conversation_views(conversations@)) == reconciled(
                event_views(old(events)@),
                conversation_views(old(conversations)@),
                threads@.take(t as int),
            ),
        decreases threads@.len() - t,
    {
        let key = threads[t].0.as_str();
        let jsons = &threads[t].1;
        let ghost events0 = event_views(events@);
        let ghost conversations0 = conversation_views(conversations@);
        let mut j: usize = 0;
        assert(event_views(jsons@).take(0) =~= Seq::<EventView>::empty());
        while j < jsons.len()
            invariant
                j <= jsons@.len(),
                (event_views(events@), conversation_views(conversations@)) == reconciled_thread(
                    events0,
                    conversations0,
                    key@,
                    event_views(jsons@).take(j as int),
                ),
            decreases jsons@.len() - j,
        {
            let ghost upto = event_views(jsons@).take(j + 1);
            assert(upto.drop_last() =~= event_views(jsons@).take(j as int));
            assert(upto.last() == jsons@[j as int]@);
            let json_event = jsons[j].duplicate();
            let title = conversation_title(&json_event.metadata);
            let _ = reconcile_event(events, conversations, key, json_event, title);
            j += 1;
        }
        assert(event_views(jsons@).take(jsons@.len() as int) =~= event_views(jsons@));
        proof {
            let upto = threads@.take(t + 1);
            assert(upto.drop_last() =~= threads@.take(t as int));
            assert(upto.last() == threads@[t as int]);
        }
        t += 1;
    }
    assert(threads@.take(threads@.len() as int) =~= threads@);
}

/// Every event that names a conversation names one of `conversations`.
pub open spec fn all_known(events: Seq<EventView>, conversations: Seq<ConversationView>) -> bool {
    forall|i: int|
        0 <= i < events.len() ==> ((#[trigger] events[i]).conversation_id matches Some(id)
            ==> knows_conversation(conversations, id))
}

/// A conversation that is known stays known when conversations are added.
pub proof fn lemma_known_after_adding(
    conversations: Seq<ConversationView>,
    key: Seq<char>,
    display_name: Option<Seq<char>>,
    last_event_at: Option<Timestamp>,
    message_count: int,
    id: Seq<char>,
)
    ensures
        knows_conversation(
            with_conversation(conversations, key, display_name, last_event_at, message_count),
            key,
        ),
        knows_conversation(conversations, id) ==> knows_conversation(
            with_conversation(conversations, key, display_name, last_event_at, message_count),
            id,
        ),
{
    let after = with_conversation(conversations, key, display_name, last_event_at, message_count);
    if !knows_conversation(conversations, key) {
        assert(after[conversations.len() as int].id == key);
    }
    if knows_conversation(conversations, id) {
        let w = choose|i: int| 0 <= i < conversations.len() && (#[trigger] conversations[i]).id == id;
        assert(after[w].id == id);
    }
}

/// Taking in a page keeps the stream consistent: the events of the page
/// belong to its conversation, which joins the conversations with them.
pub proof fn lemma_page_keeps_known(
    events: Seq<EventView>,
    conversations: Seq<ConversationView>,
    conversation: ConversationView,
    page: Seq<EventView>,
)
    requires
        all_known(events, conversations),
        all_of(page, conversation.id),
    ensures
        all_known(events + page, conversations.push(conversation)),
{
    let after = conversations.push(conversation);
    assert forall|i: int| 0 <= i < (events + page).len() implies ((#[trigger] (events + page)[i]).conversation_id matches Some(
        id,
    ) ==> knows_conversation(after, id)) by {
        if i < events.len() {
            if events[i].conversation_id is Some {
                let id = events[i].conversation_id.unwrap();
                let w = choose|w: int|
                    0 <= w < conversations.len() && (#[trigger] conversations[w]).id == id;
                assert(after[w].id == id);
            }
        } else {
            assert((events + page)[i] == page[i - events.len()]);
            assert(after[conversations.len() as int].id == conversation.id);
        }
    }
}

/// Reconciling one history event keeps every event with a known
/// conversation.
pub proof fn lemma_reconcile_keeps_known(
    events: Seq<EventView>,
    conversations: Seq<ConversationView>,
    key: Seq<char>,
    json: EventView,
    title: Option<Seq<char>>,
)
    requires
        all_known(events, conversations),
        json.conversation_id == Some(key),
    ensures
        all_known(
            reconciled_one(events, conversations, key, json, title).0,
            reconciled_one(events, conversations, key, json, title).1,
        ),
{
    let after = reconciled_one(events, conversations, key, json, title);
    assert forall|i: int| 0 <= i < after.0.len() implies ((#[trigger] after.0[i]).conversation_id matches Some(
        id,
    ) ==> knows_conversation(after.1, id)) by {
        if has_match(events, key, json) {
            let m = first_match(events, key, json);
            assert(is_first_match(events, key, json, m)) by {
                let w = choose|k: int|
                    0 <= k < events.len() && json_matches(#[trigger] events[k], key, json);
                lemma_first_exists(events, key, json, w);
            }
            assert(after.0[i].conversation_id == events[i].conversation_id);
        } else {
            if after.0[i].conversation_id is Some {
                let id = after.0[i].conversation_id.unwrap();
                lemma_known_after_adding(conversations, key, title, Some(json.timestamp), 0, id);
                if i < events.len() {
                    assert(after.0[i] == events[i]);
                }
            }
        }
    }
}

/// Reconciling the events of one conversation keeps every event with a
/// known conversation.
pub proof fn lemma_thread_keeps_known(
    events: Seq<EventView>,
    conversations: Seq<ConversationView>,
    key: Seq<char>,
    jsons: Seq<EventView>,
)
    requires
        all_known(events, conversations),
        all_of(jsons, key),
    ensures
        all_known(
            reconciled_thread(events, conversations, key, jsons).0,
            reconciled_thread(events, conversations, key, jsons).1,
        ),
    decreases jsons.len(),
{
    if jsons.len() > 0 {
        assert(all_of(jsons.drop_last(), key)) by {
            assert forall|i: int| 0 <= i < jsons.drop_last().len() implies (
            #[trigger] jsons.drop_last()[i]).conversation_id == Some(key) by {
                assert(jsons.drop_last()[i] == jsons[i]);
            }
        }
        lemma_thread_keeps_known(events, conversations, key, jsons.drop_last());
        let before = reconciled_thread(events, conversations, key, jsons.drop_last());
        assert(jsons.last() == jsons[jsons.len() - 1]);
        lemma_reconcile_keeps_known(
            before.0,
            before.1,
            key,
            jsons.last(),
            title_of(jsons.last().metadata),
        );
    }
}

/// Reconciliation keeps the stream consistent: where every event named a
/// known conversation before, and the events of the chat history belong to
/// the conversations under which they are listed, every event names a
/// known conversation afterwards.
pub proof fn lemma_reconciled_keeps_known(
    events: Seq<EventView>,
    conversations: Seq<ConversationView>,
    threads: Seq<(String, Vec<Event>)>,
)
    requires
        all_known(events, conversations),
        threads_keyed(threads),
    ensures
        all_known(
            reconciled(events, conversations, threads).0,
            reconciled(events, conversations, threads).1,
        ),
    decreases threads.len(),
{
    if threads.len() > 0 {
        assert(threads_keyed(threads.drop_last())) by {
            assert forall|t: int| 0 <= t < threads.drop_last().len() implies all_of(
                event_views((#[trigger] threads.drop_last()[t]).1@),
                threads.drop_last()[t].0@,
            ) by {
                assert(threads.drop_last()[t] == threads[t]);
            }
        }
        lemma_reconciled_keeps_known(events, conversations, threads.drop_last());
        let before = reconciled(events, conversations, threads.drop_last());
        assert(threads.last() == threads[threads.len() - 1]);
        lemma_thread_keeps_known(
            before.0,
            before.1,
            threads.last().0@,
            event_views(threads.last().1@),
        );
    }
}

/// Adding the snap history keeps the stream consistent in the same way.
pub proof fn lemma_snaps_keep_known(
    events: Seq<EventView>,
    conversations: Seq<ConversationView>,
    threads: Seq<(String, Vec<Event>)>,
)
    requires
        all_known(events, conversations),
        threads_keyed(threads),
    ensures
        all_known(
            with_snaps(events, conversations, threads).0,
            with_snaps(events, conversations, threads).1,
        ),
    decreases threads.len(),
{
    if threads.len() > 0 {
        assert(threads_keyed(threads.drop_last())) by {
            assert forall|t: int| 0 <= t < threads.drop_last().len() implies all_of(
                event_views((#[trigger] threads.drop_last()[t]).1@),
                threads.drop_last()[t].0@,
            ) by {
                assert(threads.drop_last()[t] == threads[t]);
            }
        }
        lemma_snaps_keep_known(events, conversations, threads.drop_last());
        let before = with_snaps(events, conversations, threads.drop_last());
        let after = with_snaps(events, conversations, threads);
        let key = threads.last().0@;
        let snaps = event_views(threads.last().1@);
        assert(threads.last() == threads[threads.len() - 1]);
        assert(all_of(snaps, key));
        assert forall|i: int| 0 <= i < after.0.len() implies ((#[trigger] after.0[i]).conversation_id matches Some(
            id,
        ) ==> knows_conversation(after.1, id)) by {
            if after.0[i].conversation_id is Some {
                let id = after.0[i].conversation_id.unwrap();
                lemma_known_after_adding(
                    before.1,
                    key,
                    None,
                    last_instant(snaps),
                    as_count(snaps.len()),
                    id,
                );
                if i < before.0.len() {
                    assert(after.0[i] == before.0[i]);
                } else {
                    assert(after.0[i] == snaps[i - before.0.len()]);
                }
            }
        }
    }
}

/// The number of the history events `jsons` of conversation `key` that
/// find no transcript event to enrich and join the stream as new events.
pub open spec fn appended_in_thread(
    events: Seq<EventView>,
    conversations: Seq<ConversationView>,
    key: Seq<char>,
    jsons: Seq<EventView>,
) -> nat
    decreases jsons.len(),
{
    if jsons.len() == 0 {
        0
    } else {
        let before = reconciled_thread(events, conversations, key, jsons.drop_last());
        appended_in_thread(events, conversations, key, jsons.drop_last()) + if has_match(
            before.0,
            key,
            jsons.last(),
        ) {
            0nat
        } else {
            1nat
        }
    }
}

/// The number of the events of the chat history that join the stream as
/// new events.
pub open spec fn appended(
    events: Seq<EventView>,
    conversations: Seq<ConversationView>,
    threads: Seq<(String, Vec<Event>)>,
) -> nat
    decreases threads.len(),
{
    if threads.len() == 0 {
        0
    } else {
        let before = reconciled(events, conversations, threads.drop_last());
        appended(events, conversations, threads.drop_last()) + appended_in_thread(
            before.0,
            before.1,
            threads.last().0@,
            event_views(threads.last().1@),
        )
    }
}

/// The number of the events of a history file.
pub open spec fn listed(threads: Seq<(String, Vec<Event>)>) -> nat
    decreases threads.len(),
{
    if threads.len() == 0 {
        0
    } else {
        listed(threads.drop_last()) + threads.last().1@.len()
    }
}

/// Reconciling one history event leaves the stream as long as it was where
/// the event enriches a transcript event, and makes it longer by one where
/// it does not.
pub proof fn lemma_reconciled_one_count(
    events: Seq<EventView>,
    conversations: Seq<ConversationView>,
    key: Seq<char>,
    json: EventView,
    title: Option<Seq<char>>,
)
    ensures
        reconciled_one(events, conversations, key, json, title).0.len() == events.len() + if has_match(
            events,
            key,
            json,
        ) {
            0int
        } else {
            1int
        },
{
    if has_match(events, key, json) {
        let w = choose|k: int| 0 <= k < events.len() && json_matches(#[trigger] events[k], key, json);
        lemma_first_exists(events, key, json, w);
        let m = first_match(events, key, json);
        assert(is_first_match(events, key, json, m));
    }
}

/// The stream after the history events of one conversation have been
/// reconciled is longer by the number of those that joined it, which is at
/// most the number of the history events.
pub proof fn lemma_thread_count(
    events: Seq<EventView>,
    conversations: Seq<ConversationView>,
    key: Seq<char>,
    jsons: Seq<EventView>,
)
    ensures
        reconciled_thread(events, conversations, key, jsons).0.len() == events.len()
            + appended_in_thread(events, conversations, key, jsons),
        appended_in_thread(events, conversations, key, jsons) <= jsons.len(),
    decreases jsons.len(),
{
    if jsons.len() > 0 {
        lemma_thread_count(events, conversations, key, jsons.drop_last());
        let before = reconciled_thread(events, conversations, key, jsons.drop_last());
        lemma_reconciled_one_count(
            before.0,
            before.1,
            key,
            jsons.last(),
            title_of(jsons.last().metadata),
        );
    }
}

/// The count of a whole run of reconciliation: the stream ends as long as
/// it began plus the history events that found no transcript event to
/// enrich. A history event that enriches a transcript event adds none, so
/// with every history event matched the stream keeps its length.
pub proof fn lemma_reconciled_count(
    events: Seq<EventView>,
    conversations: Seq<ConversationView>,
    threads: Seq<(String, Vec<Event>)>,
)
    ensures
        reconciled(events, conversations, threads).0.len() == events.len() + appended(
            events,
            conversations,
            threads,
        ),
        appended(events, conversations, threads) <= listed(threads),
    decreases threads.len(),
{
    if threads.len() > 0 {
        lemma_reconciled_count(events, conversations, threads.drop_last());
        let before = reconciled(events, conversations, threads.drop_last());
        lemma_thread_count(
            before.0,
            before.1,
            threads.last().0@,
            event_views(threads.last().1@),
        );
    }
}

/// Adding the snap history makes the stream longer by the number of its
/// events.
pub proof fn lemma_snaps_count(
    events: Seq<EventView>,
    conversations: Seq<ConversationView>,
    threads: Seq<(String, Vec<Event>)>,
)
    ensures
        with_snaps(events, conversations, threads).0.len() == events.len() + listed(threads),
    decreases threads.len(),
{
    if threads.len() > 0 {
        lemma_snaps_count(events, conversations, threads.drop_last());
    }
}

/// The instant of the last event of a list.
pub open spec fn last_instant(events: Seq<EventView>) -> Option<Timestamp> {
    if events.len() > 0 {
        Some(events.last().timestamp)
    } else {
        None
    }
}

/// `n` as a message count: counts beyond the largest `i32` wrap around.
pub open spec fn as_count(n: nat) -> int {
    (n as usize) as i32 as int
}

/// The stream and the conversations after the conversations of the snap
/// history have been added, in order: the events of each join the stream,
/// and a conversation is made up for each key that is not known, with the
/// instant of its last snap and the number of its snaps.
pub open spec fn with_snaps(
    events: Seq<EventView>,
    conversations: Seq<ConversationView>,
    threads: Seq<(String, Vec<Event>)>,
) -> (Seq<EventView>, Seq<ConversationView>)
    decreases threads.len(),
{
    if threads.len() == 0 {
        (events, conversations)
    } else {
        let before = with_snaps(events, conversations, threads.drop_last());
        let snaps = event_views(threads.last().1@);
        (
            before.0 + snaps,
            with_conversation(
                before.1,
                threads.last().0@,
                None,
                last_instant(snaps),
                as_count(snaps.len()),
            ),
        )
    }
}

/// Adds the snap history to the stream.
pub fn merge_snap_history(
    events: &mut Vec<Event>,
    conversations: &mut Vec<Conversation>,
    threads: &Vec<(String, Vec<Event>)>,
)
    ensures
        (event_views(final(events)@), conversation_views(final(conversations)@)) == with_snaps(
            event_views(old(events)@),
            conversation_views(old(conversations)@),
            threads@,
        ),
{
    let mut t: usize = 0;
    assert(threads@.take(0) =~= Seq::<(String, Vec<Event>)>::empty());
    while t < threads.len()
        invariant
            t <= threads@.len(),
            (event_views(events@), conversation_views(conversations@)) == with_snaps(
                event_views(old(events)@),
                conversation_views(old(conversations)@),
                threads@.take(t as int),
            ),
        decreases threads@.len() - t,
    {
        let key = threads[t].0.as_str();
        let snaps = &threads[t].1;
        let n = snaps.len();
        let last = if n > 0 {
            Some(snaps[n - 1].timestamp)
        } else {
            None
        };
        let count = #[verifier::truncate]
        (n as i32);
        ensure_conversation(conversations, key, None, last, count);
        let ghost events0 = event_views(events@);
        let mut j: usize = 0;
        assert(event_views(snaps@).take(0) =~= Seq::<EventView>::empty());
        assert(events0 + Seq::<EventView>::empty() =~= events0);
        while j < n
            invariant
                j <= n,
                n == snaps@.len(),
                event_views(events@) == events0 + event_views(snaps@).take(j as int),
            decreases n - j,
        {
            let ghost sofar = event_views(events@);
            let copy = snaps[j].duplicate();
            events.push(copy);
            assert(event_views(events@) =~= sofar.push(copy@));
            assert(event_views(snaps@).take(j + 1) =~= event_views(snaps@).take(j as int).push(
                snaps@[j as int]@,
            ));
            j += 1;
            assert(event_views(events@) =~= events0 + event_views(snaps@).take(j as int));
        }
        assert(event_views(snaps@).take(n as int) =~= event_views(snaps@));
        proof {
            let upto = threads@.take(t + 1);
            assert(upto.drop_last() =~= threads@.take(t as int));
            assert(upto.last() == threads@[t as int]);
        }
        t += 1;
    }
    assert(threads@.take(threads@.len() as int) =~= threads@);
}

/// The number of events of the conversation `id`.
pub open spec fn count_in(events: Seq<EventView>, id: Seq<char>) -> nat
    decreases events.len(),
{
    if events.len() == 0 {
        0
    } else if events.last().conversation_id == Some(id) {
        count_in(events.drop_last(), id) + 1
    } else {
        count_in(events.drop_last(), id)
    }
}

/// The latest instant among the events of the conversation `id`.
pub open spec fn latest_in(events: Seq<EventView>, id: Seq<char>) -> Option<Timestamp>
    decreases events.len(),
{
    if events.len() == 0 {
        None
    } else {
        let before = latest_in(events.drop_last(), id);
        if events.last().conversation_id == Some(id) {
            match before {
                Some(t) => if t.is_before(events.last().timestamp) {
                    Some(events.last().timestamp)
                } else {
                    before
                },
                None => Some(events.last().timestamp),
            }
        } else {
            before
        }
    }
}

/// Some event of the conversation `id` has a media reference.
pub open spec fn any_media_in(events: Seq<EventView>, id: Seq<char>) -> bool {
    exists|i: int|
        0 <= i < events.len() && (#[trigger] events[i]).conversation_id == Some(id)
            && events[i].media_references.len() > 0
}

/// `n`, but at most the largest `i32`.
pub open spec fn capped(n: nat) -> int {
    if n > i32::MAX {
        i32::MAX as int
    } else {
        n as int
    }
}

/// The conversation summed up over the stream: its message count is the
/// number of its events, its last instant the latest of theirs (kept as it
/// was where it has no events), and it has media exactly if one of its
/// events has a media reference.
pub open spec fn summarized(c: ConversationView, events: Seq<EventView>) -> ConversationView {
    ConversationView {
        message_count: capped(count_in(events, c.id)),
        last_event_at: match latest_in(events, c.id) {
            Some(t) => Some(t),
            None => c.last_event_at,
        },
        has_media: any_media_in(events, c.id),
        ..c
    }
}

pub proof fn lemma_count_bound(events: Seq<EventView>, id: Seq<char>)
    ensures
        count_in(events, id) <= events.len(),
    decreases events.len(),
{
    if events.len() > 0 {
        lemma_count_bound(events.drop_last(), id);
    }
}

/// What one pass over the stream has counted for a conversation.
#[derive(Debug, Clone, Copy)]
pub struct Tally {
    /// The number of its events.
    pub count: usize,
    /// The latest of their instants.
    pub latest: Option<Timestamp>,
    /// Whether one of them has a media reference.
    pub has_media: bool,
}

/// `t` is what `events` come to for the conversation `id`.
pub open spec fn is_tally_of(t: Tally, events: Seq<EventView>, id: Seq<char>) -> bool {
    &&& t.count as int == count_in(events, id)
    &&& t.latest == latest_in(events, id)
    &&& t.has_media == any_media_in(events, id)
}

/// `map` holds the tallies of `events`: one for each conversation that has
/// an event, and none for any other.
pub open spec fn holds_tallies(map: Map<Seq<char>, Tally>, events: Seq<EventView>) -> bool {
    forall|id: Seq<char>|
        #![trigger map.contains_key(id)]
        (map.contains_key(id) <==> count_in(events, id) > 0) && (map.contains_key(id)
            ==> is_tally_of(map[id], events, id))
}

/// One more event of the stream has media for a conversation exactly if
/// the events before it had, or it belongs to the conversation and has a
/// media reference.
pub proof fn lemma_media_step(prev: Seq<EventView>, e: EventView, id: Seq<char>)
    ensures
        any_media_in(prev.push(e), id) <==> any_media_in(prev, id) || (e.conversation_id == Some(id)
            && e.media_references.len() > 0),
{
    let upto = prev.push(e);
    if any_media_in(prev, id) {
        let w = choose|i: int|
            0 <= i < prev.len() && (#[trigger] prev[i]).conversation_id == Some(id)
                && prev[i].media_references.len() > 0;
        assert(upto[w] == prev[w]);
    }
    if e.conversation_id == Some(id) && e.media_references.len() > 0 {
        assert(upto[prev.len() as int] == e);
    }
    if any_media_in(upto, id) {
        let w = choose|i: int|
            0 <= i < upto.len() && (#[trigger] upto[i]).conversation_id == Some(id)
                && upto[i].media_references.len() > 0;
        if w < prev.len() {
            assert(prev[w] == upto[w]);
        }
    }
}

/// A conversation without events has no latest instant and no media.
pub proof fn lemma_no_events(events: Seq<EventView>, id: Seq<char>)
    requires
        count_in(events, id) == 0,
    ensures
        latest_in(events, id) is None,
        !any_media_in(events, id),
    decreases events.len(),
{
    if events.len() > 0 {
        lemma_no_events(events.drop_last(), id);
        assert(events.drop_last().push(events.last()) =~= events);
        lemma_media_step(events.drop_last(), events.last(), id);
    }
}

/// Counts, in one pass over the stream, what its events come to for each
/// conversation.
pub fn tally_events(events: &Vec<Event>) -> (r: StringHashMap<Tally>)
    ensures
        holds_tallies(r@, event_views(events@)),
{
    let ghost all = event_views(events@);
    let mut map: StringHashMap<Tally> = StringHashMap::new();
    let mut k: usize = 0;
    assert(all.take(0) =~= Seq::<EventView>::empty());
    while k < events.len()
        invariant
            k <= events@.len(),
            all == event_views(events@),
            holds_tallies(map@, all.take(k as int)),
        decreases events@.len() - k,
    {
        let e = &events[k];
        let ghost prev = all.take(k as int);
        let ghost upto = all.take(k + 1);
        let ghost before = map@;
        assert(upto =~= prev.push(e@));
        assert(upto.drop_last() =~= prev);
        assert(upto.last() == e@);
        match &e.conversation_id {
            Some(cid) => {
                proof {
                    lemma_count_bound(prev, cid@);
                    if !before.contains_key(cid@) {
                        lemma_no_events(prev, cid@);
                    }
                    lemma_media_step(prev, e@, cid@);
                }
                let media = e.media_references.len() > 0;
                let next = match map.get(cid.as_str()) {
                    Some(t) => Tally {
                        count: t.count + 1,
                        latest: match t.latest {
                            Some(at) => if at.before(&e.timestamp) {
                                Some(e.timestamp)
                            } else {
                                t.latest
                            },
                            None => Some(e.timestamp),
                        },
                        has_media: t.has_media || media,
                    },
                    None => Tally { count: 1, latest: Some(e.timestamp), has_media: media },
                };
                assert(is_tally_of(next, upto, cid@));
                map.insert(cid.clone(), next);
                assert forall|id: Seq<char>| #![trigger map@.contains_key(id)]
                    (map@.contains_key(id) <==> count_in(upto, id) > 0) && (map@.contains_key(id)
                        ==> is_tally_of(map@[id], upto, id)) by {
                    if id != cid@ {
                        assert(before.contains_key(id) <==> count_in(prev, id) > 0);
                        lemma_media_step(prev, e@, id);
                    }
                }
            },
            None => {
                assert forall|id: Seq<char>| #![trigger map@.contains_key(id)]
                    (map@.contains_key(id) <==> count_in(upto, id) > 0) && (map@.contains_key(id)
                        ==> is_tally_of(map@[id], upto, id)) by {
                    assert(before.contains_key(id) <==> count_in(prev, id) > 0);
                    lemma_media_step(prev, e@, id);
                }
            },
        }
        k += 1;
    }
    assert(all.take(events@.len() as int) =~= all);
    map
}

/// Sums up every conversation over the complete stream: the stream is
/// tallied in one pass, and each conversation takes what was counted for
/// it.
pub fn summarize_conversations(conversations: &mut Vec<Conversation>, events: &Vec<Event>)
    ensures
        final(conversations)@.len() == old(conversations)@.len(),
        forall|i: int|
            0 <= i < old(conversations)@.len() ==> (#[trigger] final(conversations)@[i])@
                == summarized(old(conversations)@[i]@, event_views(events@)),
{
    let tallies = tally_events(events);
    let ghost all = event_views(events@);
    let n = conversations.len();
    let mut c: usize = 0;
    while c < n
        invariant
            c <= n,
            n == conversations@.len(),
            n == old(conversations)@.len(),
            all == event_views(events@),
            holds_tallies(tallies@, all),
            forall|i: int|
                0 <= i < c ==> (#[trigger] conversations@[i])@ == summarized(
                    old(conversations)@[i]@,
                    all,
                ),
            forall|i: int| c <= i < n ==> conversations@[i] == old(conversations)@[i],
        decreases n - c,
    {
        let ghost id = conversations@[c as int].id@;
        assert(tallies@.contains_key(id) <==> count_in(all, id) > 0);
        let found = match tallies.get(conversations[c].id.as_str()) {
            Some(t) => Some(*t),
            None => None,
        };
        match found {
            Some(t) => {
                conversations[c].message_count = if t.count > 0x7fff_ffff {
                    0x7fff_ffff
                } else {
                    t.count as i32
                };
                match t.latest {
                    Some(at) => {
                        conversations[c].last_event_at = Some(at);
                    },
                    None => {},
                }
                conversations[c].has_media = t.has_media;
            },
            None => {
                proof {
                    lemma_no_events(all, id);
                }
                conversations[c].message_count = 0;
                conversations[c].has_media = false;
            },
        }
        c += 1;
    }
}

/// After the conversations are summed up, the message count of each is the
/// number of events of the stream that belong to it, as long as that
/// number fits the count.
pub proof fn lemma_message_count(c: ConversationView, events: Seq<EventView>)
    requires
        events.len() <= i32::MAX,
    ensures
        summarized(c, events).message_count == count_in(events, c.id),
{
    lemma_count_bound(events, c.id);
}

/// After the conversations are summed up, a conversation has media exactly
/// if one of its events has a media reference.
pub proof fn lemma_has_media(c: ConversationView, events: Seq<EventView>)
    ensures
        summarized(c, events).has_media <==> exists|i: int|
            0 <= i < events.len() && (#[trigger] events[i]).conversation_id == Some(c.id)
                && events[i].media_references.len() > 0,
{
}

/// The result of a run: what was parsed, and what went wrong on the way.
/// Counts beyond the largest `i32` wrap around.
pub fn ingestion_result(
    export_id: String,
    conversations: usize,
    events: usize,
    memories: usize,
    parse_failures: i32,
    warnings: Vec<String>,
    errors: Vec<String>,
) -> (r: IngestionResult)
    ensures
        r.export_id == export_id,
        r.conversations_parsed == conversations as i32,
        r.events_parsed == events as i32,
        r.memories_parsed == memories as i32,
        r.parse_failures == parse_failures,
        r.warnings == warnings,
        r.errors == errors,
{
    IngestionResult {
        export_id,
        conversations_parsed: #[verifier::truncate]
        (conversations as i32),
        events_parsed: #[verifier::truncate]
        (events as i32),
        memories_parsed: #[verifier::truncate]
        (memories as i32),
        parse_failures,
        warnings,
        errors,
    }
}

/// The phases of an ingestion run.
#[derive(Debug, Clone, Copy, PartialEq, Eq, Structural)]
pub enum Phase {
    Init,
    Friends,
    Html,
    ChatJson,
    SnapJson,
    Link,
    Memories,
    Persist,
    Done,
}

/// The part of the pipeline that is done when a phase begins, in
/// thousandths.
pub open spec fn phase_permille(phase: Phase) -> u32 {
    match phase {
        Phase::Init => 50,
        Phase::Friends => 80,
        Phase::Html => 100,
        Phase::ChatJson => 380,
        Phase::SnapJson => 420,
        Phase::Link => 500,
        Phase::Memories => 650,
        Phase::Persist => 750,
        Phase::Done => 1000,
    }
}

/// The name under which a phase is reported.
pub open spec fn phase_step(phase: Phase) -> Seq<char> {
    match phase {
        Phase::Init => "Initializing"@,
        Phase::Friends => "Resolving Identities"@,
        Phase::Html => "Parsing Chats"@,
        Phase::ChatJson => "Parsing Chat JSON"@,
        Phase::SnapJson => "Parsing Snap History"@,
        Phase::Link => "Linking Media"@,
        Phase::Memories => "Processing Memories"@,
        Phase::Persist => "Saving to Database"@,
        Phase::Done => "Complete"@,
    }
}

impl Phase {
    /// The part of the pipeline that is done when the phase begins.
    pub fn permille(self) -> (r: u32)
        ensures
            r == phase_permille(self),
            r <= 1000,
    {
        match self {
            Phase::Init => 50,
            Phase::Friends => 80,
            Phase::Html => 100,
            Phase::ChatJson => 380,
            Phase::SnapJson => 420,
            Phase::Link => 500,
            Phase::Memories => 650,
            Phase::Persist => 750,
            Phase::Done => 1000,
        }
    }

    /// The name under which the phase is reported.
    pub fn step(self) -> (r: &'static str)
        ensures
            r@ == phase_step(self),
    {
        match self {
            Phase::Init => "Initializing",
            Phase::Friends => "Resolving Identities",
            Phase::Html => "Parsing Chats",
            Phase::ChatJson => "Parsing Chat JSON",
            Phase::SnapJson => "Parsing Snap History",
            Phase::Link => "Linking Media",
            Phase::Memories => "Processing Memories",
            Phase::Persist => "Saving to Database",
            Phase::Done => "Complete",
        }
    }

    /// The part of the pipeline that is done when `done` of `total`
    /// transcript pages are parsed: the transcript phase runs from 100 to
    /// 350 thousandths.
    pub fn html_permille(done: usize, total: usize) -> (r: u32)
        requires
            done <= total,
        ensures
            r as int == if total == 0 {
                350
            } else {
                100 + (250 * done as int) / (total as int)
            },
            100 <= r <= 350,
    {
        if total == 0 {
            350
        } else {
            let part: u128 = (250 * (done as u128)) / (total as u128);
            assert(part <= 250) by (nonlinear_arith)
                requires
                    part == (250 * done) / (total as int),
                    done <= total,
                    total > 0,
            ;
            (100 + part) as u32
        }
    }
}

/// What an ingestion run has gathered so far.
#[derive(Debug)]
pub struct Ingestion {
    pub export_id: String,
    pub conversations: Vec<Conversation>,
    pub events: Vec<Event>,
    pub memories: Vec<Memory>,
    pub parse_failures: i32,
    pub warnings: Vec<String>,
    pub errors: Vec<String>,
}

impl Ingestion {
    /// The stream as views.
    pub open spec fn stream(self) -> Seq<EventView> {
        event_views(self.events@)
    }

    /// The conversations as views.
    pub open spec fn threads(self) -> Seq<ConversationView> {
        conversation_views(self.conversations@)
    }

    /// Every event of the stream that names a conversation names one that
    /// the run has gathered.
    pub open spec fn is_consistent(self) -> bool {
        all_known(self.stream(), self.threads())
    }

    /// A run that has gathered nothing yet.
    pub fn new(export_id: String) -> (r: Ingestion)
        ensures
            r.export_id == export_id,
            r.conversations@.len() == 0,
            r.events@.len() == 0,
            r.memories@.len() == 0,
            r.parse_failures == 0,
            r.warnings@.len() == 0,
            r.errors@.len() == 0,
    {
        Ingestion {
            export_id,
            conversations: Vec::new(),
            events: Vec::new(),
            memories: Vec::new(),
            parse_failures: 0,
            warnings: Vec::new(),
            errors: Vec::new(),
        }
    }

    /// Notes a warning: `lead`, then the message of `error`.
    fn warn(&mut self, lead: &str, error: &AppError)
        ensures
            string_views(final(self).warnings@) == string_views(old(self).warnings@).push(
                lead@ + error.prefix() + error.detail(),
            ),
            final(self).export_id == old(self).export_id,
            final(self).conversations == old(self).conversations,
            final(self).events == old(self).events,
            final(self).memories == old(self).memories,
            final(self).parse_failures == old(self).parse_failures,
            final(self).errors == old(self).errors,
    {
        let text = String::from_str(lead).concat(error.message().as_str());
        self.warnings.push(text);
        assert(string_views(self.warnings@) =~= string_views(old(self).warnings@).push(text@));
        assert(text@ =~= lead@ + error.prefix() + error.detail());
    }

    /// Notes a hard error: `lead`, then the message of `error`.
    fn fail(&mut self, lead: &str, error: &AppError)
        ensures
            string_views(final(self).errors@) == string_views(old(self).errors@).push(
                lead@ + error.prefix() + error.detail(),
            ),
            final(self).export_id == old(self).export_id,
            final(self).conversations == old(self).conversations,
            final(self).events == old(self).events,
            final(self).memories == old(self).memories,
            final(self).parse_failures == old(self).parse_failures,
            final(self).warnings == old(self).warnings,
    {
        let text = String::from_str(lead).concat(error.message().as_str());
        self.errors.push(text);
        assert(string_views(self.errors@) =~= string_views(old(self).errors@).push(text@));
        assert(text@ =~= lead@ + error.prefix() + error.detail());
    }

    /// The friends file could not be read: a warning, and the run goes on.
    pub fn friends_failed(&mut self, error: &AppError)
        ensures
            string_views(final(self).warnings@) == string_views(old(self).warnings@).push(
                "Could not parse friends list: "@ + error.prefix() + error.detail(),
            ),
            final(self).stream() == old(self).stream(),
            final(self).threads() == old(self).threads(),
            final(self).errors == old(self).errors,
            final(self).parse_failures == old(self).parse_failures,
    {
        self.warn("Could not parse friends list: ", error);
    }

    /// The export has no transcript directory: a warning, and the run goes
    /// on with the phases that do not need it.
    pub fn chat_directory_missing(&mut self)
        ensures
            string_views(final(self).warnings@) == string_views(old(self).warnings@).push(
                "No chat_history directory found in export"@,
            ),
            final(self).stream() == old(self).stream(),
            final(self).threads() == old(self).threads(),
            final(self).errors == old(self).errors,
            final(self).parse_failures == old(self).parse_failures,
    {
        let text = String::from_str("No chat_history directory found in export");
        self.warnings.push(text);
        assert(string_views(self.warnings@) =~= string_views(old(self).warnings@).push(text@));
    }

    /// Takes in a parsed transcript page: its conversation joins the
    /// conversations and its events the stream.
    pub fn add_subpage(&mut self, conversation: Conversation, events: &Vec<Event>)
        ensures
            final(self).threads() == old(self).threads().push(conversation@),
            final(self).stream() == old(self).stream() + event_views(events@),
            final(self).warnings == old(self).warnings,
            final(self).errors == old(self).errors,
            final(self).parse_failures == old(self).parse_failures,
            old(self).is_consistent() && all_of(event_views(events@), conversation@.id) ==> final(self).is_consistent(),
    {
        proof {
            if old(self).is_consistent() && all_of(event_views(events@), conversation@.id) {
                lemma_page_keeps_known(
                    old(self).stream(),
                    old(self).threads(),
                    conversation@,
                    event_views(events@),
                );
            }
        }
        self.conversations.push(conversation);
        assert(self.threads() =~= old(self).threads().push(conversation@));
        let ghost before = self.stream();
        let mut i: usize = 0;
        assert(before + event_views(events@).take(0) =~= before);
        while i < events.len()
            invariant
                i <= events@.len(),
                self.stream() == before + event_views(events@).take(i as int),
                self.conversations@ == old(self).conversations@.push(conversation),
                self.threads() == old(self).threads().push(conversation@),
                self.warnings == old(self).warnings,
                self.errors == old(self).errors,
                self.parse_failures == old(self).parse_failures,
            decreases events@.len() - i,
        {
            let ghost sofar = self.stream();
            let copy = events[i].duplicate();
            self.events.push(copy);
            assert(self.stream() =~= sofar.push(copy@));
            assert(event_views(events@).take(i + 1) =~= event_views(events@).take(i as int).push(
                events@[i as int]@,
            ));
            i += 1;
            assert(self.stream() =~= before + event_views(events@).take(i as int));
        }
        assert(event_views(events@).take(events@.len() as int) =~= event_views(events@));
    }

    /// A transcript page could not be parsed: the failure is counted and
    /// noted as a warning, and the run goes on.
    pub fn subpage_failed(&mut self, file_name: &str, error: &AppError)
        ensures
            string_views(final(self).warnings@) == string_views(old(self).warnings@).push(
                "Failed to parse "@ + file_name@ + ": "@ + error.prefix() + error.detail(),
            ),
            final(self).parse_failures == if old(self).parse_failures < i32::MAX {
                old(self).parse_failures + 1
            } else {
                i32::MAX as int
            },
            final(self).stream() == old(self).stream(),
            final(self).threads() == old(self).threads(),
            final(self).errors == old(self).errors,
    {
        if self.parse_failures < i32::MAX {
            self.parse_failures = self.parse_failures + 1;
        }
        let lead = String::from_str("Failed to parse ").concat(file_name).concat(": ");
        self.warn(lead.as_str(), error);
        assert(lead@ + error.prefix() + error.detail() =~= "Failed to parse "@ + file_name@ + ": "@
            + error.prefix() + error.detail());
    }

    /// Takes in the chat history: where it was parsed, its events are
    /// reconciled with the stream; where it was not, that is noted as an
    /// error and the stream stays as it is.
    pub fn add_chat_history(&mut self, parsed: &Result<Vec<(String, Vec<Event>)>, AppError>)
        ensures
            match parsed {
                Ok(threads) => {
                    &&& (final(self).stream(), final(self).threads()) == reconciled(
                        old(self).stream(),
                        old(self).threads(),
                        threads@,
                    )
                    &&& final(self).errors == old(self).errors
                },
                Err(e) => {
                    &&& final(self).stream() == old(self).stream()
                    &&& final(self).threads() == old(self).threads()
                    &&& string_views(final(self).errors@) == string_views(old(self).errors@).push(
                        "Could not parse chat history JSON: "@ + e.prefix() + e.detail(),
                    )
                },
            },
            final(self).warnings == old(self).warnings,
            final(self).parse_failures == old(self).parse_failures,
            old(self).is_consistent() && (parsed matches Ok(threads) ==> threads_keyed(threads@))
                ==> final(self).is_consistent(),
    {
        match parsed {
            Ok(threads) => {
                proof {
                    if old(self).is_consistent() && threads_keyed(threads@) {
                        lemma_reconciled_keeps_known(
                            old(self).stream(),
                            old(self).threads(),
                            threads@,
                        );
                    }
                }
                reconcile_chat_json(&mut self.events, &mut self.conversations, threads);
            },
            Err(e) => {
                self.fail("Could not parse chat history JSON: ", e);
            },
        }
    }

    /// Takes in the snap history: where it was parsed, its events join the
    /// stream; where it was not, that is noted as an error.
    pub fn add_snap_history(&mut self, parsed: &Result<Vec<(String, Vec<Event>)>, AppError>)
        ensures
            match parsed {
                Ok(threads) => {
                    &&& (final(self).stream(), final(self).threads()) == with_snaps(
                        old(self).stream(),
                        old(self).threads(),
                        threads@,
                    )
                    &&& final(self).errors == old(self).errors
                },
                Err(e) => {
                    &&& final(self).stream() == old(self).stream()
                    &&& final(self).threads() == old(self).threads()
                    &&& string_views(final(self).errors@) == string_views(old(self).errors@).push(
                        "Could not parse snap history: "@ + e.prefix() + e.detail(),
                    )
                },
            },
            final(self).warnings == old(self).warnings,
            final(self).parse_failures == old(self).parse_failures,
            old(self).is_consistent() && (parsed matches Ok(threads) ==> threads_keyed(threads@))
                ==> final(self).is_consistent(),
    {
        match parsed {
            Ok(threads) => {
                proof {
                    if old(self).is_consistent() && threads_keyed(threads@) {
                        lemma_snaps_keep_known(old(self).stream(), old(self).threads(), threads@);
                    }
                }
                merge_snap_history(&mut self.events, &mut self.conversations, threads);
            },
            Err(e) => {
                self.fail("Could not parse snap history: ", e);
            },
        }
    }

    /// Completes the stream: the events are put in the order of their
    /// instants, then linked to the indexed media files, and the
    /// conversations are summed up over the result.
    pub fn link(&mut self, linker: &MediaLinker)
        ensures
            final(self).events@.len() == old(self).events@.len(),
            exists|sorted: Seq<Event>|
                {
                    &&& sorted.len() == old(self).events@.len()
                    &&& is_ordered(event_views(sorted))
                    &&& forall|nanos: int|
                        #[trigger] at_instant(event_views(sorted), nanos) == at_instant(
                            old(self).stream(),
                            nanos,
                        )
                    &&& forall|i: int|
                        0 <= i < sorted.len() ==> linked(
                            (#[trigger] sorted[i])@,
                            final(self).events@[i]@,
                            linker@,
                        )
                },
            final(self).conversations@.len() == old(self).conversations@.len(),
            forall|i: int|
                0 <= i < old(self).conversations@.len() ==> (#[trigger] final(self).conversations@[i])@ == summarized(
                    old(self).conversations@[i]@,
                    final(self).stream(),
                ),
            final(self).warnings == old(self).warnings,
            final(self).errors == old(self).errors,
            final(self).parse_failures == old(self).parse_failures,
            old(self).is_consistent() ==> final(self).is_consistent(),
    {
        sort_events(&mut self.events);
        let ghost sorted = self.events@;
        linker.link_media(&mut self.events);
        summarize_conversations(&mut self.conversations, &self.events);
        assert(sorted.len() == old(self).events@.len() && is_ordered(event_views(sorted)));
        proof {
            if old(self).is_consistent() {
                let before = old(self).stream();
                let after = self.stream();
                assert forall|i: int| 0 <= i < after.len() implies ((#[trigger] after[i]).conversation_id matches Some(
                    id,
                ) ==> knows_conversation(self.threads(), id)) by {
                    assert(linked(sorted[i]@, self.events@[i]@, linker@));
                    assert(after[i].conversation_id == sorted[i]@.conversation_id);
                    assert(event_views(sorted)[i] == sorted[i]@);
                    lemma_same_events(event_views(sorted), before, i);
                    let k = choose|k: int| 0 <= k < before.len() && before[k] == sorted[i]@;
                    if before[k].conversation_id is Some {
                        let id = before[k].conversation_id.unwrap();
                        assert(knows_conversation(old(self).threads(), id));
                        let w = choose|w: int|
                            0 <= w < old(self).threads().len() && (#[trigger] old(self).threads()[w]).id == id;
                        assert(self.threads()[w].id == id);
                    }
                }
            }
        }
    }

    /// Takes in the memories: where they were parsed, they are kept; where
    /// they were not, that is noted as an error.
    pub fn add_memories(&mut self, parsed: Result<Vec<Memory>, AppError>)
        ensures
            match parsed {
                Ok(memories) => final(self).memories == memories && final(self).errors == old(self).errors,
                Err(e) => final(self).memories == old(self).memories && string_views(
                    final(self).errors@,
                ) == string_views(old(self).errors@).push(
                    "Could not parse memories: "@ + e.prefix() + e.detail(),
                ),
            },
            final(self).stream() == old(self).stream(),
            final(self).threads() == old(self).threads(),
            final(self).warnings == old(self).warnings,
            final(self).parse_failures == old(self).parse_failures,
    {
        match parsed {
            Ok(memories) => {
                self.memories = memories;
            },
            Err(e) => {
                self.fail("Could not parse memories: ", &e);
            },
        }
    }

    /// The result of the run as it stands.
    pub fn result(&self) -> (r: IngestionResult)
        ensures
            r.export_id@ == self.export_id@,
            r.conversations_parsed == self.conversations@.len() as i32,
            r.events_parsed == self.events@.len() as i32,
            r.memories_parsed == self.memories@.len() as i32,
            r.parse_failures == self.parse_failures,
            r.warnings@ == self.warnings@,
            r.errors@ == self.errors@,
    {
        ingestion_result(
            self.export_id.clone(),
            self.conversations.len(),
            self.events.len(),
            self.memories.len(),
            self.parse_failures,
            self.warnings.clone(),
            self.errors.clone(),
        )
    }
}

} // verus!
