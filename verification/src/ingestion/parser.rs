//! Parsers for the JSON files of an export: friends, memories, chat history
//! and snap history. Each takes the text of the file and says, over the
//! document that the text holds, exactly which records come out.

use vstd::prelude::*;
use crate::error::AppError;
use vstd::string::StringExecFns;
use crate::json::{
    json_document, json_text, json_views, lemma_array_view, lemma_object_view, member_views,
    parse_json, write_json, Json, JsonView, Member, MemberView,
};
use crate::models::{
    all_of, event_views, threads_keyed, DownloadStatus, Event, EventView, Memory, MemoryView, Person, PersonView,
};
use crate::text::{string_views, 
    chars_of, chars_views, has_prefix, lowercase, name_order, pieces, remove_all, split_on, starts_with,
    str_eq, string_of, to_lowercase, trim, trimmed, without,
};
use crate::timestamps::{
    parse_memory_timestamp, parse_timestamp, parsed_memory_timestamp, parsed_timestamp,
};

verus! {

/// The views of a list of people, in order.
pub open spec fn person_views(people: Seq<Person>) -> Seq<PersonView> {
    people.map_values(|p: Person| p@)
}

/// The views of a list of memories, in order.
pub open spec fn memory_views(memories: Seq<Memory>) -> Seq<MemoryView> {
    memories.map_values(|m: Memory| m@)
}

/// `name`, unless it is empty.
pub open spec fn nonempty(name: Option<Seq<char>>) -> Option<Seq<char>> {
    match name {
        Some(n) => if n.len() > 0 {
            Some(n)
        } else {
            None
        },
        None => None,
    }
}

/// The person that an entry of the friends file stands for: its `Username`
/// and its `Display Name`, an empty name counting as none. Entries without
/// a username stand for nobody.
pub open spec fn person_of(entry: JsonView) -> Option<PersonView> {
    let username = entry.text_or_empty("Username"@);
    if username.len() == 0 {
        None
    } else {
        Some(PersonView { username, display_name: nonempty(entry.text_at("Display Name"@)) })
    }
}

/// The people of a list of entries, in order.
pub open spec fn people_of(entries: Seq<JsonView>) -> Seq<PersonView>
    decreases entries.len(),
{
    if entries.len() == 0 {
        seq![]
    } else {
        match person_of(entries.last()) {
            Some(p) => people_of(entries.drop_last()).push(p),
            None => people_of(entries.drop_last()),
        }
    }
}

/// The people listed under the category `name` of the friends file.
pub open spec fn category(doc: JsonView, name: Seq<char>) -> Seq<PersonView> {
    match doc.items_at(name) {
        Some(entries) => people_of(entries),
        None => seq![],
    }
}

/// Everybody in the friends file: friends, blocked users, deleted friends
/// and hidden friend suggestions, in that order.
pub open spec fn friends(doc: JsonView) -> Seq<PersonView> {
    category(doc, "Friends"@) + category(doc, "Blocked Users"@) + category(doc, "Deleted Friends"@)
        + category(doc, "Hidden Friend Suggestions"@)
}

/// The text of the member `key` of `entry`, or the empty text.
fn text_or_empty(entry: &Json, key: &str) -> (r: String)
    ensures
        r@ == entry@.text_or_empty(key@),
{
    match entry.text_at(key) {
        Some(s) => s.clone(),
        None => String::new(),
    }
}

/// Reads one entry of the friends file.
fn read_person(entry: &Json) -> (r: Option<Person>)
    ensures
        r.is_some() == person_of(entry@).is_some(),
        r matches Some(p) ==> person_of(entry@) == Some(p@),
{
    let username = text_or_empty(entry, "Username");
    if username.as_str().unicode_len() == 0 {
        return None;
    }
    let display_name = match entry.text_at("Display Name") {
        Some(n) => if n.as_str().unicode_len() > 0 {
            Some(n.clone())
        } else {
            None
        },
        None => None,
    };
    Some(Person { username, display_name })
}

/// Appends the people of one category to `people`.
fn read_category(doc: &Json, name: &str, people: &mut Vec<Person>)
    ensures
        person_views(final(people)@) == person_views(old(people)@) + category(doc@, name@),
{
    match doc.items_at(name) {
        Some(entries) => {
            let ghost before = person_views(people@);
            let mut i: usize = 0;
            assert(json_views(entries@).take(0) =~= Seq::<JsonView>::empty());
            assert(before + Seq::<PersonView>::empty() =~= before);
            while i < entries.len()
                invariant
                    i <= entries@.len(),
                    person_views(people@) == before + people_of(json_views(entries@).take(i as int)),
                decreases entries@.len() - i,
            {
                let ghost sofar = person_views(people@);
                let ghost upto = json_views(entries@).take(i + 1);
                assert(upto.drop_last() =~= json_views(entries@).take(i as int));
                assert(upto.last() == entries@[i as int]@);
                match read_person(&entries[i]) {
                    Some(p) => {
                        people.push(p);
                        assert(person_views(people@) =~= sofar.push(p@));
                        assert(person_views(people@) =~= before + people_of(upto));
                    },
                    None => {},
                }
                i += 1;
            }
            assert(json_views(entries@).take(entries@.len() as int) =~= json_views(entries@));
        },
        None => {
            assert(person_views(people@) + Seq::<PersonView>::empty() =~= person_views(people@));
        },
    }
}

pub struct PersonParser;

impl PersonParser {
    /// Reads the friends file from its text. Fails exactly where the text is
    /// no JSON document; otherwise hands out everybody the document lists.
    pub fn parse_friends_json(text: &str) -> (r: Result<Vec<Person>, AppError>)
        ensures
            match r {
                Ok(people) => json_document(text@) matches Some(doc) && person_views(people@)
                    == friends(doc),
                Err(e) => json_document(text@) is None && e is Serde,
            },
    {
        let doc = match parse_json(text) {
            Ok(doc) => doc,
            Err(e) => {
                return Err(e);
            },
        };
        let mut people: Vec<Person> = Vec::new();
        assert(person_views(people@) =~= Seq::<PersonView>::empty());
        read_category(&doc, "Friends", &mut people);
        read_category(&doc, "Blocked Users", &mut people);
        read_category(&doc, "Deleted Friends", &mut people);
        read_category(&doc, "Hidden Friend Suggestions", &mut people);
        assert(person_views(people@) =~= friends(doc@));
        Ok(people)
    }
}

/// The coordinates in the location text of a memory, as the decimal texts
/// that stand in it: `Latitude, Longitude: <lat>, <lon>`. Any other text
/// holds no coordinates.
pub open spec fn location_of(text: Seq<char>) -> (Option<Seq<char>>, Option<Seq<char>>) {
    let prefix = "Latitude, Longitude: "@;
    if starts_with(text, prefix) {
        let parts = pieces(text.skip(prefix.len() as int), ", "@);
        if parts.len() == 2 {
            (Some(parts[0]), Some(parts[1]))
        } else {
            (None, None)
        }
    } else {
        (None, None)
    }
}

/// Reads the coordinates out of the location text of a memory.
pub fn parse_location(text: &str) -> (r: (Option<String>, Option<String>))
    ensures
        r.0.deep_view() == location_of(text@).0,
        r.1.deep_view() == location_of(text@).1,
{
    proof {
        reveal_strlit("Latitude, Longitude: ");
        reveal_strlit(", ");
    }
    let chars = chars_of(text);
    let prefix = chars_of("Latitude, Longitude: ");
    if !has_prefix(&chars, &prefix) {
        return (None, None);
    }
    let mut coords: Vec<char> = Vec::new();
    let mut i: usize = prefix.len();
    while i < chars.len()
        invariant
            prefix@.len() <= i <= chars@.len(),
            coords@ == chars@.subrange(prefix@.len() as int, i as int),
        decreases chars@.len() - i,
    {
        coords.push(chars[i]);
        i += 1;
        assert(coords@ =~= chars@.subrange(prefix@.len() as int, i as int));
    }
    assert(coords@ =~= chars@.skip(prefix@.len() as int));
    let separator = chars_of(", ");
    let parts = split_on(&coords, &separator);
    if parts.len() == 2 {
        let lat = string_of(&parts[0]);
        let lon = string_of(&parts[1]);
        assert(chars_views(parts@)[0] == parts@[0]@);
        assert(chars_views(parts@)[1] == parts@[1]@);
        (Some(lat), Some(lon))
    } else {
        (None, None)
    }
}

/// The memory that an entry of the memories file stands for, without an
/// id. Entries whose `Date` cannot be read stand for none.
pub open spec fn memory_of(entry: JsonView, export_id: Seq<char>) -> Option<MemoryView> {
    match parsed_memory_timestamp(entry.text_or_empty("Date"@)) {
        Some(timestamp) => Some(
            MemoryView {
                id: Seq::empty(),
                timestamp,
                media_type: match entry.text_at("Media Type"@) {
                    Some(t) => t,
                    None => "Image"@,
                },
                latitude: location_of(entry.text_or_empty("Location"@)).0,
                longitude: location_of(entry.text_or_empty("Location"@)).1,
                media_path: None,
                export_id,
                download_url: None,
                proxy_url: None,
                download_status: DownloadStatus::Pending,
            },
        ),
        None => None,
    }
}

/// The memories of a list of entries, in order, without ids.
pub open spec fn memories_of(entries: Seq<JsonView>, export_id: Seq<char>) -> Seq<MemoryView>
    decreases entries.len(),
{
    if entries.len() == 0 {
        seq![]
    } else {
        match memory_of(entries.last(), export_id) {
            Some(m) => memories_of(entries.drop_last(), export_id).push(m),
            None => memories_of(entries.drop_last(), export_id),
        }
    }
}

/// The memories under `Saved Media` of the memories file, without ids.
pub open spec fn saved_media(doc: JsonView, export_id: Seq<char>) -> Seq<MemoryView> {
    match doc.items_at("Saved Media"@) {
        Some(entries) => memories_of(entries, export_id),
        None => seq![],
    }
}

/// `memories` with every id blanked.
pub open spec fn without_memory_ids(memories: Seq<MemoryView>) -> Seq<MemoryView> {
    memories.map_values(|m: MemoryView| MemoryView { id: Seq::empty(), ..m })
}

/// Reads one entry of the memories file; the memory has no id yet.
pub fn read_memory(entry: &Json, export_id: &str) -> (r: Option<Memory>)
    ensures
        r.is_some() == memory_of(entry@, export_id@).is_some(),
        r matches Some(m) ==> memory_of(entry@, export_id@) == Some(m@),
{
    let date = text_or_empty(entry, "Date");
    let timestamp = match parse_memory_timestamp(date.as_str()) {
        Some(t) => t,
        None => {
            return None;
        },
    };
    let media_type = match entry.text_at("Media Type") {
        Some(t) => t.clone(),
        None => "Image".to_owned(),
    };
    let location = text_or_empty(entry, "Location");
    let (latitude, longitude) = parse_location(location.as_str());
    Some(
        Memory {
            id: String::new(),
            timestamp,
            media_type,
            latitude,
            longitude,
            media_path: None,
            export_id: export_id.to_owned(),
            download_url: None,
            proxy_url: None,
            download_status: DownloadStatus::Pending,
        },
    )
}

/// `uuid::Uuid::new_v4`, written out by its `Display` impl: a random
/// identifier in hyphenated form, which is 36 characters long. Nothing else
/// is known of it. The call panics where the operating system hands out no
/// random bytes.
#[verifier::external_body]
pub(crate) fn fresh_id() -> (r: String)
    ensures
        r@.len() == 36,
{
    uuid::Uuid::new_v4().to_string()
}

pub struct MemoryParser;

impl MemoryParser {
    /// Reads the memories file from its text. Fails exactly where the text
    /// is no JSON document; otherwise hands out the memories under
    /// `Saved Media` whose date can be read, in order, each with a fresh id
    /// of 36 characters.
    pub fn parse_memories_json(text: &str, export_id: &str) -> (r: Result<Vec<Memory>, AppError>)
        ensures
            match r {
                Ok(memories) => {
                    &&& json_document(text@) matches Some(doc) && without_memory_ids(
                        memory_views(memories@),
                    ) == saved_media(doc, export_id@)
                    &&& forall|i: int|
                        0 <= i < memories@.len() ==> (#[trigger] memories@[i]).id@.len() == 36
                },
                Err(e) => json_document(text@) is None && e is Serde,
            },
    {
        let doc = match parse_json(text) {
            Ok(doc) => doc,
            Err(e) => {
                return Err(e);
            },
        };
        let mut memories: Vec<Memory> = Vec::new();
        assert(without_memory_ids(memory_views(memories@)) =~= Seq::<MemoryView>::empty());
        match doc.items_at("Saved Media") {
            Some(entries) => {
                let mut i: usize = 0;
                assert(json_views(entries@).take(0) =~= Seq::<JsonView>::empty());
                while i < entries.len()
                    invariant
                        i <= entries@.len(),
                        without_memory_ids(memory_views(memories@)) == memories_of(
                            json_views(entries@).take(i as int),
                            export_id@,
                        ),
                        forall|k: int|
                            0 <= k < memories@.len() ==> (#[trigger] memories@[k]).id@.len() == 36,
                    decreases entries@.len() - i,
                {
                    let ghost sofar = without_memory_ids(memory_views(memories@));
                    let ghost upto = json_views(entries@).take(i + 1);
                    assert(upto.drop_last() =~= json_views(entries@).take(i as int));
                    assert(upto.last() == entries@[i as int]@);
                    match read_memory(&entries[i], export_id) {
                        Some(draft) => {
                            let mut m = draft;
                            m.id = fresh_id();
                            let ghost blank = MemoryView { id: Seq::empty(), ..m@ };
                            assert(blank == draft@);
                            memories.push(m);
                            assert(without_memory_ids(memory_views(memories@)) =~= sofar.push(
                                blank,
                            ));
                        },
                        None => {},
                    }
                    i += 1;
                }
                assert(json_views(entries@).take(entries@.len() as int) =~= json_views(entries@));
            },
            None => {},
        }
        Ok(memories)
    }
}

/// The media ids in the `Media IDs` text of a chat record: the pieces
/// between ` | `, each without the whitespace around it, the empty ones
/// left out.
pub open spec fn media_ids_of(raw: Seq<char>) -> Seq<Seq<char>> {
    if raw.len() == 0 {
        seq![]
    } else {
        trimmed_pieces(pieces(raw, " | "@))
    }
}

/// The pieces of `ps`, trimmed, without the ones that are then empty.
pub open spec fn trimmed_pieces(ps: Seq<Seq<char>>) -> Seq<Seq<char>>
    decreases ps.len(),
{
    if ps.len() == 0 {
        seq![]
    } else if trimmed(ps.last()).len() > 0 {
        trimmed_pieces(ps.drop_last()).push(trimmed(ps.last()))
    } else {
        trimmed_pieces(ps.drop_last())
    }
}

/// Reads the media ids out of the `Media IDs` text of a chat record.
pub fn parse_media_ids(raw: &str) -> (r: Vec<String>)
    ensures
        string_views(r@) == media_ids_of(raw@),
{
    proof {
        reveal_strlit(" | ");
    }
    let mut ids: Vec<String> = Vec::new();
    let chars = chars_of(raw);
    if chars.len() == 0 {
        assert(string_views(ids@) =~= Seq::<Seq<char>>::empty());
        return ids;
    }
    let separator = chars_of(" | ");
    let parts = split_on(&chars, &separator);
    let mut i: usize = 0;
    assert(chars_views(parts@).take(0) =~= Seq::<Seq<char>>::empty());
    assert(string_views(ids@) =~= Seq::<Seq<char>>::empty());
    while i < parts.len()
        invariant
            i <= parts@.len(),
            string_views(ids@) == trimmed_pieces(chars_views(parts@).take(i as int)),
        decreases parts@.len() - i,
    {
        let ghost sofar = string_views(ids@);
        let ghost upto = chars_views(parts@).take(i + 1);
        assert(upto.drop_last() =~= chars_views(parts@).take(i as int));
        assert(upto.last() == parts@[i as int]@);
        let t = trim(&parts[i]);
        if t.len() > 0 {
            let id = string_of(&t);
            ids.push(id);
            assert(string_views(ids@) =~= sofar.push(t@));
        }
        i += 1;
    }
    assert(chars_views(parts@).take(parts@.len() as int) =~= chars_views(parts@));
    ids
}

/// The member that carries the conversation title, where there is one.
pub open spec fn title_members(title: Option<Seq<char>>) -> Seq<MemberView> {
    match title {
        Some(t) => seq![MemberView { name: "conversation_title"@, value: JsonView::Text(t) }],
        None => seq![],
    }
}

/// The member that carries the media ids, where there are any.
pub open spec fn ids_members(ids: Seq<Seq<char>>) -> Seq<MemberView> {
    if ids.len() > 0 {
        seq![
            MemberView {
                name: "media_ids"@,
                value: JsonView::Array(ids.map_values(|id: Seq<char>| JsonView::Text(id))),
            },
        ]
    } else {
        seq![]
    }
}

/// The metadata of an event as a document: `conversation_title` where the
/// record has one, `is_sender`, and `media_ids` where there are any.
pub open spec fn metadata_doc(
    ids: Seq<Seq<char>>,
    title: Option<Seq<char>>,
    is_sender: bool,
) -> JsonView {
    JsonView::Object(
        title_members(title) + seq![
            MemberView { name: "is_sender"@, value: JsonView::Bool(is_sender) },
        ] + ids_members(ids),
    )
}

/// The metadata of an event as text: the document written out, or nothing
/// where it cannot be written.
pub open spec fn metadata_text(
    ids: Seq<Seq<char>>,
    title: Option<Seq<char>>,
    is_sender: bool,
) -> Seq<char> {
    match json_text(metadata_doc(ids, title, is_sender)) {
        Some(t) => t,
        None => Seq::empty(),
    }
}

/// The member names of a metadata document are in increasing order.
proof fn lemma_metadata_names()
    ensures
        name_order("conversation_title"@, "is_sender"@),
        name_order("conversation_title"@, "media_ids"@),
        name_order("is_sender"@, "media_ids"@),
{
    reveal_strlit("conversation_title");
    reveal_strlit("is_sender");
    reveal_strlit("media_ids");
    let c = "conversation_title"@;
    let i = "is_sender"@;
    let m = "media_ids"@;
    assert(c.take(0) =~= i.take(0));
    assert(c.take(0) =~= m.take(0));
    assert(i.take(0) =~= m.take(0));
    assert(c[0] == 'c' && i[0] == 'i' && m[0] == 'm');
}

/// A metadata document is canonical.
pub proof fn lemma_metadata_canonical(ids: Seq<Seq<char>>, title: Option<Seq<char>>, is_sender: bool)
    ensures
        metadata_doc(ids, title, is_sender).is_canonical(),
{
    reveal_with_fuel(JsonView::is_canonical, 4);
    lemma_metadata_names();
    let members = metadata_doc(ids, title, is_sender)->Object_0;
    assert forall|k: int| 0 <= k < members.len() implies (#[trigger] members[k]).value.is_canonical() by {
        let v = members[k].value;
        if v is Array {
            let items = v->Array_0;
            assert forall|j: int| 0 <= j < items.len() implies (#[trigger] items[j]).is_canonical() by {
                assert(items[j] is Text);
            }
        }
    }
    assert forall|a: int, b: int| 0 <= a < b < members.len() implies name_order(
        (#[trigger] members[a]).name,
        (#[trigger] members[b]).name,
    ) by {}
}

/// Writes the metadata of an event.
pub fn write_metadata(ids: &Vec<String>, title: Option<&String>, is_sender: bool) -> (r: String)
    ensures
        r@ == metadata_text(
            string_views(ids@),
            match title {
                Some(t) => Some(t@),
                None => None,
            },
            is_sender,
        ),
{
    let ghost title_view: Option<Seq<char>> = match title {
        Some(t) => Some(t@),
        None => None,
    };
    let mut members: Vec<Member> = Vec::new();
    match title {
        Some(t) => {
            members.push(Member { name: "conversation_title".to_owned(), value: Json::Text(t.clone()) });
        },
        None => {},
    }
    assert(member_views(members@) =~= title_members(title_view));
    members.push(Member { name: "is_sender".to_owned(), value: Json::Bool(is_sender) });
    if ids.len() > 0 {
        let mut items: Vec<Json> = Vec::new();
        let mut i: usize = 0;
        while i < ids.len()
            invariant
                i <= ids@.len(),
                items@.len() == i,
                forall|k: int| 0 <= k < i ==> (#[trigger] items@[k])@ == JsonView::Text(ids@[k]@),
            decreases ids@.len() - i,
        {
            items.push(Json::Text(ids[i].clone()));
            i += 1;
        }
        let array = Json::Array(items);
        proof {
            lemma_array_view(items);
            assert(json_views(items@) =~= string_views(ids@).map_values(
                |id: Seq<char>| JsonView::Text(id),
            ));
        }
        members.push(Member { name: "media_ids".to_owned(), value: array });
    }
    let doc = Json::Object(members);
    proof {
        lemma_object_view(members);
        assert(member_views(members@) =~= metadata_doc(
            string_views(ids@),
            title_view,
            is_sender,
        )->Object_0);
        lemma_metadata_canonical(string_views(ids@), title_view, is_sender);
    }
    match write_json(&doc) {
        Some(text) => text,
        None => String::new(),
    }
}

/// Which of the two history files a record comes from.
#[derive(Debug, Clone, Copy, PartialEq, Eq, Structural)]
pub enum HistoryKind {
    Chat,
    Snap,
}

/// The event that a record of the chat history stands for, without an id.
/// Records whose `Created` cannot be read stand for none.
pub open spec fn chat_event_of(record: JsonView, key: Seq<char>) -> Option<EventView> {
    match parsed_timestamp(record.text_or_empty("Created"@)) {
        Some(timestamp) => Some(
            EventView {
                id: Seq::empty(),
                timestamp,
                sender: record.text_or_empty("From"@),
                sender_name: None,
                media_references: seq![],
                conversation_id: Some(key),
                content: nonempty(Some(record.text_or_empty("Content"@))),
                event_type: match record.text_at("Media Type"@) {
                    Some(t) => t,
                    None => "TEXT"@,
                },
                metadata: Some(
                    metadata_text(
                        media_ids_of(record.text_or_empty("Media IDs"@)),
                        record.text_at("Conversation Title"@),
                        record.flag_at("IsSender"@),
                    ),
                ),
            },
        ),
        None => None,
    }
}

/// The media kind of a snap record: its `Media Type`, or `IMAGE`.
pub open spec fn snap_kind(record: JsonView) -> Seq<char> {
    match record.text_at("Media Type"@) {
        Some(t) => t,
        None => "IMAGE"@,
    }
}

/// The content made up for a snap: `Sent a <kind> snap` or
/// `Received a <kind> snap`, with the kind in lower case.
pub open spec fn snap_content(kind: Seq<char>, is_sender: bool) -> Seq<char> {
    (if is_sender {
        "Sent a "@
    } else {
        "Received a "@
    }) + lowercase(kind) + " snap"@
}

/// The event that a record of the snap history stands for, without an id.
/// Records whose `Created` cannot be read stand for none.
pub open spec fn snap_event_of(record: JsonView, key: Seq<char>) -> Option<EventView> {
    match parsed_timestamp(without(record.text_or_empty("Created"@), " UTC"@)) {
        Some(timestamp) => Some(
            EventView {
                id: Seq::empty(),
                timestamp,
                sender: record.text_or_empty("From"@),
                sender_name: None,
                media_references: seq![],
                conversation_id: Some(key),
                content: Some(snap_content(snap_kind(record), record.flag_at("IsSender"@))),
                event_type: if snap_kind(record) == "VIDEO"@ {
                    "SNAP_VIDEO"@
                } else {
                    "SNAP"@
                },
                metadata: Some(
                    metadata_text(
                        seq![],
                        record.text_at("Conversation Title"@),
                        record.flag_at("IsSender"@),
                    ),
                ),
            },
        ),
        None => None,
    }
}

/// The event that a record of a history file stands for, without an id.
pub open spec fn event_of(kind: HistoryKind, record: JsonView, key: Seq<char>) -> Option<
    EventView,
> {
    match kind {
        HistoryKind::Chat => chat_event_of(record, key),
        HistoryKind::Snap => snap_event_of(record, key),
    }
}

/// Reads one record of the chat history; the event has no id yet.
pub fn read_chat_event(record: &Json, key: &str) -> (r: Option<Event>)
    ensures
        r.is_some() == chat_event_of(record@, key@).is_some(),
        r matches Some(e) ==> chat_event_of(record@, key@) == Some(e@),
{
    let created = text_or_empty(record, "Created");
    let timestamp = match parse_timestamp(created.as_str()) {
        Some(t) => t,
        None => {
            return None;
        },
    };
    let sender = text_or_empty(record, "From");
    let content_text = text_or_empty(record, "Content");
    let content = if content_text.as_str().unicode_len() == 0 {
        None
    } else {
        Some(content_text)
    };
    let event_type = match record.text_at("Media Type") {
        Some(t) => t.clone(),
        None => "TEXT".to_owned(),
    };
    let raw_ids = text_or_empty(record, "Media IDs");
    let ids = parse_media_ids(raw_ids.as_str());
    let title = record.text_at("Conversation Title");
    let is_sender = record.flag_at("IsSender");
    let metadata = write_metadata(&ids, title, is_sender);
    let media_references: Vec<String> = Vec::new();
    assert(media_references.deep_view() =~= Seq::<Seq<char>>::empty());
    Some(
        Event {
            id: String::new(),
            timestamp,
            sender,
            sender_name: None,
            media_references,
            conversation_id: Some(key.to_owned()),
            content,
            event_type,
            metadata: Some(metadata),
        },
    )
}

/// Reads one record of the snap history; the event has no id yet.
pub fn read_snap_event(record: &Json, key: &str) -> (r: Option<Event>)
    ensures
        r.is_some() == snap_event_of(record@, key@).is_some(),
        r matches Some(e) ==> snap_event_of(record@, key@) == Some(e@),
{
    proof {
        reveal_strlit(" UTC");
    }
    let created = text_or_empty(record, "Created");
    let created_chars = chars_of(created.as_str());
    let suffix = chars_of(" UTC");
    let stripped = string_of(&remove_all(&created_chars, &suffix));
    let timestamp = match parse_timestamp(stripped.as_str()) {
        Some(t) => t,
        None => {
            return None;
        },
    };
    let sender = text_or_empty(record, "From");
    let kind = match record.text_at("Media Type") {
        Some(t) => t.clone(),
        None => "IMAGE".to_owned(),
    };
    let title = record.text_at("Conversation Title");
    let is_sender = record.flag_at("IsSender");
    let event_type = if str_eq(kind.as_str(), "VIDEO") {
        "SNAP_VIDEO".to_owned()
    } else {
        "SNAP".to_owned()
    };
    let lower = to_lowercase(kind.as_str());
    let lead = if is_sender {
        String::from_str("Sent a ")
    } else {
        String::from_str("Received a ")
    };
    let content = lead.concat(lower.as_str()).concat(" snap");
    let no_ids: Vec<String> = Vec::new();
    assert(string_views(no_ids@) =~= Seq::<Seq<char>>::empty());
    let metadata = write_metadata(&no_ids, title, is_sender);
    let media_references: Vec<String> = Vec::new();
    assert(media_references.deep_view() =~= Seq::<Seq<char>>::empty());
    Some(
        Event {
            id: String::new(),
            timestamp,
            sender,
            sender_name: None,
            media_references,
            conversation_id: Some(key.to_owned()),
            content: Some(content),
            event_type,
            metadata: Some(metadata),
        },
    )
}

/// `e` with its id blanked.
pub open spec fn anonymous(e: EventView) -> EventView {
    EventView { id: Seq::empty(), ..e }
}

/// The views of a list of events, in order, with every id blanked.
pub open spec fn anonymous_views(events: Seq<Event>) -> Seq<EventView> {
    events.map_values(|e: Event| anonymous(e@))
}

/// Every event of the list has an id of 36 characters.
pub open spec fn have_ids(events: Seq<Event>) -> bool {
    forall|i: int| 0 <= i < events.len() ==> (#[trigger] events[i]).id@.len() == 36
}

/// The events of a list of records of one conversation, in order, without
/// ids.
pub open spec fn events_of(kind: HistoryKind, records: Seq<JsonView>, key: Seq<char>) -> Seq<
    EventView,
>
    decreases records.len(),
{
    if records.len() == 0 {
        seq![]
    } else {
        match event_of(kind, records.last(), key) {
            Some(e) => events_of(kind, records.drop_last(), key).push(e),
            None => events_of(kind, records.drop_last(), key),
        }
    }
}

/// The events of one conversation of a history file.
pub struct ThreadView {
    pub key: Seq<char>,
    pub events: Seq<EventView>,
}

/// The view of one conversation of a history file, ids blanked.
pub open spec fn thread_view(thread: (String, Vec<Event>)) -> ThreadView {
    ThreadView { key: thread.0@, events: anonymous_views(thread.1@) }
}

/// The views of the conversations of a history file, ids blanked.
pub open spec fn thread_views(threads: Seq<(String, Vec<Event>)>) -> Seq<ThreadView> {
    threads.map_values(|t: (String, Vec<Event>)| thread_view(t))
}

/// Every event of every conversation has an id of 36 characters.
pub open spec fn threads_have_ids(threads: Seq<(String, Vec<Event>)>) -> bool {
    forall|i: int| 0 <= i < threads.len() ==> have_ids((#[trigger] threads[i]).1@)
}

/// The conversations among the members of a history document: each member
/// whose value is an array of records of which at least one stands for an
/// event, under the member's name, in the order in which the document
/// holds its members (for a document that was read, the order of their
/// names).
pub open spec fn threads_of(kind: HistoryKind, members: Seq<MemberView>) -> Seq<ThreadView>
    decreases members.len(),
{
    if members.len() == 0 {
        seq![]
    } else {
        let m = members.last();
        let rest = threads_of(kind, members.drop_last());
        match m.value.items() {
            Some(records) => if events_of(kind, records, m.name).len() > 0 {
                rest.push(ThreadView { key: m.name, events: events_of(kind, records, m.name) })
            } else {
                rest
            },
            None => rest,
        }
    }
}

/// The conversations of a history document; a document that is no object
/// has none.
pub open spec fn history(kind: HistoryKind, doc: JsonView) -> Seq<ThreadView> {
    match doc.members() {
        Some(members) => threads_of(kind, members),
        None => seq![],
    }
}

/// Reads the records of one conversation, giving each event a fresh id.
fn read_thread(records: &Vec<Json>, key: &str, kind: HistoryKind) -> (r: Vec<Event>)
    ensures
        anonymous_views(r@) == events_of(kind, json_views(records@), key@),
        have_ids(r@),
        all_of(event_views(r@), key@),
{
    let mut events: Vec<Event> = Vec::new();
    let mut i: usize = 0;
    assert(json_views(records@).take(0) =~= Seq::<JsonView>::empty());
    assert(anonymous_views(events@) =~= Seq::<EventView>::empty());
    while i < records.len()
        invariant
            i <= records@.len(),
            anonymous_views(events@) == events_of(kind, json_views(records@).take(i as int), key@),
            have_ids(events@),
            all_of(event_views(events@), key@),
        decreases records@.len() - i,
    {
        let ghost sofar = anonymous_views(events@);
        let ghost upto = json_views(records@).take(i + 1);
        assert(upto.drop_last() =~= json_views(records@).take(i as int));
        assert(upto.last() == records@[i as int]@);
        let draft = match kind {
            HistoryKind::Chat => read_chat_event(&records[i], key),
            HistoryKind::Snap => read_snap_event(&records[i], key),
        };
        match draft {
            Some(d) => {
                let ghost listed = event_views(events@);
                let mut e = d;
                e.id = fresh_id();
                assert(anonymous(e@) == d@);
                assert(e@.conversation_id == Some(key@));
                events.push(e);
                assert(anonymous_views(events@) =~= sofar.push(d@));
                assert(event_views(events@) =~= listed.push(e@));
            },
            None => {},
        }
        i += 1;
    }
    assert(json_views(records@).take(records@.len() as int) =~= json_views(records@));
    events
}

/// Reads a history file from its text.
fn read_history(text: &str, kind: HistoryKind) -> (r: Result<Vec<(String, Vec<Event>)>, AppError>)
    ensures
        match r {
            Ok(threads) => {
                &&& json_document(text@) matches Some(doc) && thread_views(threads@) == history(
                    kind,
                    doc,
                )
                &&& threads_have_ids(threads@)
                &&& threads_keyed(threads@)
            },
            Err(e) => json_document(text@) is None && e is Serde,
        },
{
    let doc = match parse_json(text) {
        Ok(doc) => doc,
        Err(e) => {
            return Err(e);
        },
    };
    let mut threads: Vec<(String, Vec<Event>)> = Vec::new();
    assert(thread_views(threads@) =~= Seq::<ThreadView>::empty());
    match doc.as_members() {
        Some(members) => {
            let mut i: usize = 0;
            assert(member_views(members@).take(0) =~= Seq::<MemberView>::empty());
            while i < members.len()
                invariant
                    i <= members@.len(),
                    thread_views(threads@) == threads_of(
                        kind,
                        member_views(members@).take(i as int),
                    ),
                    threads_have_ids(threads@),
                    threads_keyed(threads@),
                decreases members@.len() - i,
            {
                let ghost sofar = thread_views(threads@);
                let ghost upto = member_views(members@).take(i + 1);
                assert(upto.drop_last() =~= member_views(members@).take(i as int));
                assert(upto.last() == member_views(members@)[i as int]);
                let member = &members[i];
                match member.value.as_items() {
                    Some(records) => {
                        let events = read_thread(records, member.name.as_str(), kind);
                        if events.len() > 0 {
                            let thread = (member.name.clone(), events);
                            threads.push(thread);
                            assert(thread_views(threads@) =~= sofar.push(thread_view(thread)));
                        }
                    },
                    None => {},
                }
                i += 1;
            }
            assert(member_views(members@).take(members@.len() as int) =~= member_views(members@));
        },
        None => {},
    }
    Ok(threads)
}

pub struct ChatJsonParser;

impl ChatJsonParser {
    /// Reads the chat history from its text. Fails exactly where the text is
    /// no JSON document. Otherwise hands out, for each conversation of the
    /// document that has at least one record with a readable timestamp,
    /// its key and its events in order; each event has a fresh id of 36
    /// characters and carries the record's media ids in its metadata.
    pub fn parse_chat_history_json(text: &str) -> (r: Result<Vec<(String, Vec<Event>)>, AppError>)
        ensures
            match r {
                Ok(threads) => {
                    &&& json_document(text@) matches Some(doc) && thread_views(threads@)
                        == history(HistoryKind::Chat, doc)
                    &&& threads_have_ids(threads@)
                    &&& threads_keyed(threads@)
                },
                Err(e) => json_document(text@) is None && e is Serde,
            },
    {
        read_history(text, HistoryKind::Chat)
    }
}

/// Parses the snap history: snap send/receive events without media ids.
pub struct SnapHistoryParser;

impl SnapHistoryParser {
    /// Reads the snap history from its text. Fails exactly where the text is
    /// no JSON document. Otherwise hands out, for each conversation of the
    /// document that has at least one record with a readable timestamp,
    /// its key and its events in order, each with a fresh id of 36
    /// characters.
    pub fn parse_snap_history_json(text: &str) -> (r: Result<Vec<(String, Vec<Event>)>, AppError>)
        ensures
            match r {
                Ok(threads) => {
                    &&& json_document(text@) matches Some(doc) && thread_views(threads@)
                        == history(HistoryKind::Snap, doc)
                    &&& threads_have_ids(threads@)
                    &&& threads_keyed(threads@)
                },
                Err(e) => json_document(text@) is None && e is Serde,
            },
    {
        read_history(text, HistoryKind::Snap)
    }
}

} // verus!
