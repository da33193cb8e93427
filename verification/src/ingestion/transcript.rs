//! The transcript parser: the rules by which the message blocks of a
//! conversation's page become events.

use vstd::prelude::*;
use crate::error::AppError;
use crate::html::{
    attributes_of, children_of, first_text, fits_parser, html_root, node_children, node_matches, node_tag,
    parse_document, read_attributes, read_first_text, read_texts, select_all, tag_of, texts_of,
};
use crate::ingestion::parser::{anonymous, anonymous_views, fresh_id, have_ids};
use crate::models::{
    all_of, event_views, Conversation, ConversationView, Event, EventView, Timestamp,
};
use crate::text::{string_views, 
    chars_of, contains, ends_with, has_infix, has_prefix, has_suffix, lowercase, starts_with,
    str_eq, string_of, string_of_range, to_lowercase, trim, trimmed, remove_all, without,
};
use crate::timestamps::{parse_timestamp, parsed_timestamp};

verus! {

/// What a message block of a page holds.
#[derive(Debug)]
pub struct MessageBlock {
    /// The text of the block's level-4 heading.
    pub sender: Option<String>,
    /// The texts of the block's inline markers, in order.
    pub markers: Vec<String>,
    /// The text of the block's first paragraph.
    pub paragraph: Option<String>,
    /// The text of the block's level-6 heading.
    pub timestamp: Option<String>,
    /// The sources of the block's images.
    pub images: Vec<String>,
    /// The sources of the block's videos.
    pub videos: Vec<String>,
    /// The sources of the block's source tags.
    pub sources: Vec<String>,
    /// The targets of the block's links.
    pub links: Vec<String>,
}

pub struct MessageBlockView {
    pub sender: Option<Seq<char>>,
    pub markers: Seq<Seq<char>>,
    pub paragraph: Option<Seq<char>>,
    pub timestamp: Option<Seq<char>>,
    pub images: Seq<Seq<char>>,
    pub videos: Seq<Seq<char>>,
    pub sources: Seq<Seq<char>>,
    pub links: Seq<Seq<char>>,
}

impl View for MessageBlock {
    type V = MessageBlockView;

    open spec fn view(&self) -> MessageBlockView {
        MessageBlockView {
            sender: self.sender.deep_view(),
            markers: string_views(self.markers@),
            paragraph: self.paragraph.deep_view(),
            timestamp: self.timestamp.deep_view(),
            images: string_views(self.images@),
            videos: string_views(self.videos@),
            sources: string_views(self.sources@),
            links: string_views(self.links@),
        }
    }
}

/// The page of one conversation: the text of its first heading and the
/// message blocks of its content panel, in order.
#[derive(Debug)]
pub struct Subpage {
    pub heading: Option<String>,
    pub blocks: Vec<MessageBlock>,
}

pub struct SubpageView {
    pub heading: Option<Seq<char>>,
    pub blocks: Seq<MessageBlockView>,
}

impl View for Subpage {
    type V = SubpageView;

    open spec fn view(&self) -> SubpageView {
        SubpageView { heading: self.heading.deep_view(), blocks: block_views(self.blocks@) }
    }
}

/// What the node of a message block holds: the texts of its first
/// level-4 heading, of its inline markers, of its first paragraph and of
/// its first level-6 heading, and the addresses of its images, videos,
/// sources and links.
pub open spec fn block_of(node: kuchikiki::NodeRef) -> MessageBlockView {
    MessageBlockView {
        sender: first_text(node, "h4"@),
        markers: texts_of(node_matches(node, "span"@)),
        paragraph: first_text(node, "p"@),
        timestamp: first_text(node, "h6"@),
        images: attributes_of(node_matches(node, "img"@), "src"@),
        videos: attributes_of(node_matches(node, "video"@), "src"@),
        sources: attributes_of(node_matches(node, "source"@), "src"@),
        links: attributes_of(node_matches(node, "a"@), "href"@),
    }
}

/// The message blocks among the children of the content panel: those that
/// are `div` elements, in order.
pub open spec fn blocks_among(children: Seq<kuchikiki::NodeRef>) -> Seq<MessageBlockView>
    decreases children.len(),
{
    if children.len() == 0 {
        seq![]
    } else if node_tag(children.last()) == Some("div"@) {
        blocks_among(children.drop_last()).push(block_of(children.last()))
    } else {
        blocks_among(children.drop_last())
    }
}

/// The page that a document holds: the text of its first level-1 heading,
/// and the message blocks of the first element of the class `rightpanel`;
/// a document without such an element has no blocks.
pub open spec fn page_of(document: kuchikiki::NodeRef) -> SubpageView {
    SubpageView {
        heading: first_text(document, "h1"@),
        blocks: if node_matches(document, ".rightpanel"@).len() > 0 {
            blocks_among(node_children(node_matches(document, ".rightpanel"@)[0]))
        } else {
            seq![]
        },
    }
}

/// Reads a message block off its node.
fn read_block(node: &kuchikiki::NodeRef) -> (r: MessageBlock)
    ensures
        r@ == block_of(*node),
{
    MessageBlock {
        sender: read_first_text(node, "h4"),
        markers: read_texts(node, "span"),
        paragraph: read_first_text(node, "p"),
        timestamp: read_first_text(node, "h6"),
        images: read_attributes(node, "img", "src"),
        videos: read_attributes(node, "video", "src"),
        sources: read_attributes(node, "source", "src"),
        links: read_attributes(node, "a", "href"),
    }
}

/// The views of a list of blocks, in order.
pub open spec fn block_views(blocks: Seq<MessageBlock>) -> Seq<MessageBlockView> {
    blocks.map_values(|b: MessageBlock| b@)
}

/// The marker names an event type.
pub open spec fn is_event_type(marker: Seq<char>) -> bool {
    ||| marker == "TEXT"@
    ||| marker == "MEDIA"@
    ||| marker == "MISSED_VIDEO_CHAT"@
    ||| marker == "MISSED_AUDIO_CHAT"@
    ||| marker == "STATUSPARTICIPANTREMOVED"@
    ||| marker == "NOTE"@
    ||| marker == "SNAP"@
    ||| marker == "SNAP_VIDEO"@
    ||| marker == "STICKER"@
    ||| marker == "SHARE"@
    ||| marker == "STATUSPARTICIPANTADDED"@
    ||| marker == "STATUSCONVERSATIONNAMECHANGED"@
}

/// The event type of a block: the first of its markers that, trimmed,
/// names an event type, or `UNKNOWN` where none does.
pub open spec fn event_type_of(markers: Seq<Seq<char>>) -> Seq<char>
    decreases markers.len(),
{
    if markers.len() == 0 {
        "UNKNOWN"@
    } else if is_event_type(trimmed(markers[0])) {
        trimmed(markers[0])
    } else {
        event_type_of(markers.drop_first())
    }
}

/// The address is a `data:` URL.
pub open spec fn is_data_url(url: Seq<char>) -> bool {
    starts_with(url, "data:"@)
}

/// The address ends, in lower case, with the extension of a media file.
pub open spec fn has_media_extension(url: Seq<char>) -> bool {
    let l = lowercase(url);
    ||| ends_with(l, ".jpg"@)
    ||| ends_with(l, ".jpeg"@)
    ||| ends_with(l, ".png"@)
    ||| ends_with(l, ".mp4"@)
    ||| ends_with(l, ".mov"@)
    ||| ends_with(l, ".webp"@)
    ||| ends_with(l, ".heif"@)
    ||| ends_with(l, ".gif"@)
}

/// The addresses among `urls` that are taken as media references: none
/// that is a `data:` URL, and, where only media files count, none without
/// the extension of one.
pub open spec fn media_among(urls: Seq<Seq<char>>, only_media_files: bool) -> Seq<Seq<char>>
    decreases urls.len(),
{
    if urls.len() == 0 {
        seq![]
    } else if !is_data_url(urls.last()) && (!only_media_files || has_media_extension(urls.last())) {
        media_among(urls.drop_last(), only_media_files).push(urls.last())
    } else {
        media_among(urls.drop_last(), only_media_files)
    }
}

/// The media references of a block: its images, videos and sources, and
/// its links to media files, in that order.
pub open spec fn references_of(b: MessageBlockView) -> Seq<Seq<char>> {
    media_among(b.images, false) + media_among(b.videos, false) + media_among(b.sources, false)
        + media_among(b.links, true)
}

/// The text, trimmed, where there is one.
pub open spec fn trimmed_text(t: Option<Seq<char>>) -> Option<Seq<char>> {
    match t {
        Some(s) => Some(trimmed(s)),
        None => None,
    }
}

/// The event that a block stands for, without an id. A block without a
/// sender heading, without a timestamp heading, or with a timestamp that
/// cannot be read stands for none.
pub open spec fn block_event(b: MessageBlockView, conversation_id: Seq<char>) -> Option<EventView> {
    match (b.sender, b.timestamp) {
        (Some(sender), Some(stamp)) => match parsed_timestamp(stamp) {
            Some(timestamp) => Some(
                EventView {
                    id: Seq::empty(),
                    timestamp,
                    sender: trimmed(sender),
                    sender_name: None,
                    media_references: references_of(b),
                    conversation_id: Some(conversation_id),
                    content: trimmed_text(b.paragraph),
                    event_type: event_type_of(b.markers),
                    metadata: None,
                },
            ),
            None => None,
        },
        _ => None,
    }
}

/// The events of a list of blocks, in order, without ids.
pub open spec fn block_events(blocks: Seq<MessageBlockView>, conversation_id: Seq<char>) -> Seq<
    EventView,
>
    decreases blocks.len(),
{
    if blocks.len() == 0 {
        seq![]
    } else {
        match block_event(blocks.last(), conversation_id) {
            Some(e) => block_events(blocks.drop_last(), conversation_id).push(e),
            None => block_events(blocks.drop_last(), conversation_id),
        }
    }
}

/// The id of the conversation of a page: the stem of the page's file name
/// without `subpage_` in front.
pub open spec fn conversation_id_of(stem: Seq<char>) -> Seq<char> {
    if starts_with(stem, "subpage_"@) {
        stem.skip("subpage_"@.len() as int)
    } else {
        stem
    }
}

/// The display name that a page's heading gives: for `Chat History with X`
/// the heading without those words, trimmed; for a heading that speaks of
/// a group chat the heading, trimmed; for any other, none.
pub open spec fn display_name_of(heading: Option<Seq<char>>) -> Option<Seq<char>> {
    match heading {
        Some(h) => if contains(h, "Chat History with "@) {
            Some(trimmed(without(h, "Chat History with "@)))
        } else if contains(h, "Group Chat"@) || contains(h, "group"@) {
            Some(trimmed(h))
        } else {
            None
        },
        None => None,
    }
}

/// The senders of the events, each once, in the order in which they first
/// occur.
pub open spec fn participants_of(events: Seq<EventView>) -> Seq<Seq<char>>
    decreases events.len(),
{
    if events.len() == 0 {
        seq![]
    } else if participants_of(events.drop_last()).contains(events.last().sender) {
        participants_of(events.drop_last())
    } else {
        participants_of(events.drop_last()).push(events.last().sender)
    }
}

/// The conversation of a page with the events `events`.
pub open spec fn page_conversation(
    stem: Seq<char>,
    heading: Option<Seq<char>>,
    events: Seq<EventView>,
) -> ConversationView {
    ConversationView {
        id: conversation_id_of(stem),
        display_name: display_name_of(heading),
        participants: participants_of(events),
        last_event_at: if events.len() > 0 {
            Some(events.last().timestamp)
        } else {
            None
        },
        message_count: (events.len() as usize) as i32 as int,
        has_media: false,
    }
}

/// A string with the characters of `chars`, trimmed.
fn trimmed_string(text: &str) -> (r: String)
    ensures
        r@ == trimmed(text@),
{
    let chars = chars_of(text);
    string_of(&trim(&chars))
}

/// Reads the event type off the markers of a block.
pub fn detect_event_type(markers: &Vec<String>) -> (r: String)
    ensures
        r@ == event_type_of(string_views(markers@)),
{
    let mut i: usize = 0;
    assert(string_views(markers@).skip(0) =~= string_views(markers@));
    while i < markers.len()
        invariant
            i <= markers@.len(),
            event_type_of(string_views(markers@)) == event_type_of(string_views(markers@).skip(i as int)),
        decreases markers@.len() - i,
    {
        let ghost rest = string_views(markers@).skip(i as int);
        assert(rest[0] == markers@[i as int]@);
        assert(rest.drop_first() =~= string_views(markers@).skip(i + 1));
        let t = trimmed_string(markers[i].as_str());
        let s = t.as_str();
        if str_eq(s, "TEXT") || str_eq(s, "MEDIA") || str_eq(s, "MISSED_VIDEO_CHAT") || str_eq(
            s,
            "MISSED_AUDIO_CHAT",
        ) || str_eq(s, "STATUSPARTICIPANTREMOVED") || str_eq(s, "NOTE") || str_eq(s, "SNAP") || str_eq(
            s,
            "SNAP_VIDEO",
        )
            || str_eq(s, "STICKER") || str_eq(s, "SHARE") || str_eq(s, "STATUSPARTICIPANTADDED")
            || str_eq(s, "STATUSCONVERSATIONNAMECHANGED") {
            return t;
        }
        i += 1;
    }
    assert(string_views(markers@).skip(markers@.len() as int) =~= Seq::<Seq<char>>::empty());
    "UNKNOWN".to_owned()
}

/// Decides `has_media_extension`.
pub fn is_media_link(url: &str) -> (r: bool)
    ensures
        r == has_media_extension(url@),
{
    let lower = to_lowercase(url);
    let l = chars_of(lower.as_str());
    has_suffix(&l, &chars_of(".jpg")) || has_suffix(&l, &chars_of(".jpeg")) || has_suffix(
        &l,
        &chars_of(".png"),
    ) || has_suffix(&l, &chars_of(".mp4")) || has_suffix(&l, &chars_of(".mov")) || has_suffix(
        &l,
        &chars_of(".webp"),
    ) || has_suffix(&l, &chars_of(".heif")) || has_suffix(&l, &chars_of(".gif"))
}

/// Appends the media references among `urls` to `refs`.
fn collect_media(urls: &Vec<String>, only_media_files: bool, refs: &mut Vec<String>)
    ensures
        string_views(final(refs)@) == string_views(old(refs)@) + media_among(string_views(urls@), only_media_files),
{
    let ghost before = string_views(refs@);
    let data = chars_of("data:");
    let mut i: usize = 0;
    assert(string_views(urls@).take(0) =~= Seq::<Seq<char>>::empty());
    assert(before + Seq::<Seq<char>>::empty() =~= before);
    while i < urls.len()
        invariant
            i <= urls@.len(),
            data@ == "data:"@,
            string_views(refs@) == before + media_among(string_views(urls@).take(i as int), only_media_files),
        decreases urls@.len() - i,
    {
        let ghost sofar = string_views(refs@);
        let ghost upto = string_views(urls@).take(i + 1);
        assert(upto.drop_last() =~= string_views(urls@).take(i as int));
        assert(upto.last() == urls@[i as int]@);
        let url = &urls[i];
        let chars = chars_of(url.as_str());
        if !has_prefix(&chars, &data) && (!only_media_files || is_media_link(url.as_str())) {
            refs.push(url.clone());
            assert(string_views(refs@) =~= sofar.push(url@));
        }
        i += 1;
    }
    assert(string_views(urls@).take(urls@.len() as int) =~= string_views(urls@));
}

/// Collects the media references of a block.
pub fn extract_all_media_references(block: &MessageBlock, refs: &mut Vec<String>)
    ensures
        string_views(final(refs)@) == string_views(old(refs)@) + references_of(block@),
{
    collect_media(&block.images, false, refs);
    collect_media(&block.videos, false, refs);
    collect_media(&block.sources, false, refs);
    collect_media(&block.links, true, refs);
    assert(string_views(refs@) =~= string_views(old(refs)@) + references_of(block@));
}

/// Reads one block; the event has no id yet.
pub fn parse_message_block(block: &MessageBlock, conversation_id: &str) -> (r: Option<Event>)
    ensures
        r.is_some() == block_event(block@, conversation_id@).is_some(),
        r matches Some(e) ==> block_event(block@, conversation_id@) == Some(e@),
{
    let sender = match &block.sender {
        Some(s) => trimmed_string(s.as_str()),
        None => {
            return None;
        },
    };
    let event_type = detect_event_type(&block.markers);
    let content = match &block.paragraph {
        Some(p) => Some(trimmed_string(p.as_str())),
        None => None,
    };
    let timestamp = match &block.timestamp {
        Some(t) => match parse_timestamp(t.as_str()) {
            Some(at) => at,
            None => {
                return None;
            },
        },
        None => {
            return None;
        },
    };
    let mut media_references: Vec<String> = Vec::new();
    assert(string_views(media_references@) =~= Seq::<Seq<char>>::empty());
    extract_all_media_references(block, &mut media_references);
    assert(media_references.deep_view() =~= references_of(block@));
    Some(
        Event {
            id: String::new(),
            timestamp,
            sender,
            sender_name: None,
            media_references,
            conversation_id: Some(conversation_id.to_owned()),
            content,
            event_type,
            metadata: None,
        },
    )
}

/// The id of the conversation of the page with the file stem `stem`.
pub fn conversation_id(stem: &str) -> (r: String)
    ensures
        r@ == conversation_id_of(stem@),
{
    proof {
        reveal_strlit("subpage_");
    }
    let chars = chars_of(stem);
    let prefix = chars_of("subpage_");
    if has_prefix(&chars, &prefix) {
        let r = string_of_range(&chars, prefix.len(), chars.len());
        assert(chars@.subrange(prefix@.len() as int, chars@.len() as int) =~= chars@.skip(
            prefix@.len() as int,
        ));
        r
    } else {
        string_of(&chars)
    }
}

/// The display name that the heading of a page gives.
pub fn display_name(heading: &Option<String>) -> (r: Option<String>)
    ensures
        r.deep_view() == display_name_of(heading.deep_view()),
{
    proof {
        reveal_strlit("Chat History with ");
    }
    match heading {
        Some(h) => {
            let chars = chars_of(h.as_str());
            let with = chars_of("Chat History with ");
            if has_infix(&chars, &with) {
                Some(string_of(&trim(&remove_all(&chars, &with))))
            } else if has_infix(&chars, &chars_of("Group Chat")) || has_infix(
                &chars,
                &chars_of("group"),
            ) {
                Some(string_of(&trim(&chars)))
            } else {
                None
            }
        },
        None => None,
    }
}

/// The senders of the events, each once, in the order in which they first
/// occur.
pub fn participants(events: &Vec<Event>) -> (r: Vec<String>)
    ensures
        string_views(r@) == participants_of(event_views(events@)),
{
    let mut out: Vec<String> = Vec::new();
    let mut i: usize = 0;
    assert(event_views(events@).take(0) =~= Seq::<EventView>::empty());
    assert(string_views(out@) =~= Seq::<Seq<char>>::empty());
    while i < events.len()
        invariant
            i <= events@.len(),
            string_views(out@) == participants_of(event_views(events@).take(i as int)),
        decreases events@.len() - i,
    {
        let ghost sofar = string_views(out@);
        let ghost upto = event_views(events@).take(i + 1);
        assert(upto.drop_last() =~= event_views(events@).take(i as int));
        assert(upto.last() == events@[i as int]@);
        let sender = &events[i].sender;
        let mut known = false;
        let mut k: usize = 0;
        while k < out.len() && !known
            invariant
                k <= out@.len(),
                sofar == string_views(out@),
                known ==> sofar.contains(sender@),
                !known ==> forall|j: int| 0 <= j < k ==> sofar[j] != sender@,
            decreases out@.len() - k + if known { 0int } else { 1int },
        {
            if str_eq(out[k].as_str(), sender.as_str()) {
                assert(sofar[k as int] == sender@);
                known = true;
            } else {
                k += 1;
            }
        }
        if !known {
            out.push(sender.clone());
            assert(string_views(out@) =~= sofar.push(sender@));
        }
        i += 1;
    }
    assert(event_views(events@).take(events@.len() as int) =~= event_views(events@));
    out
}

/// The file name is that of a conversation's page: `subpage_<id>.html`.
pub open spec fn is_subpage_name_of(name: Seq<char>) -> bool {
    starts_with(name, "subpage_"@) && ends_with(name, ".html"@)
}

pub struct ChatParser;

impl ChatParser {
    /// Decides whether a file of the transcript directory is a
    /// conversation's page.
    pub fn is_subpage_name(name: &str) -> (r: bool)
        ensures
            r == is_subpage_name_of(name@),
    {
        let chars = chars_of(name);
        has_prefix(&chars, &chars_of("subpage_")) && has_suffix(&chars, &chars_of(".html"))
    }

    /// Reads a transcript or history timestamp: the text is trimmed, any
    /// ` UTC` is taken out of it, and it is tried against
    /// `YYYY-MM-DD HH:MM:SS`, `MMM DD, YYYY HH:MM:SS` and
    /// `MM/DD/YYYY HH:MM:SS`, in that order, and read as UTC.
    pub fn try_parse_timestamp(text: &str) -> (r: Option<Timestamp>)
        ensures
            r == parsed_timestamp(text@),
    {
        parse_timestamp(text)
    }

    /// Reads the page out of the HTML text of a conversation's file.
    pub fn read_page(html: &str) -> (r: Subpage)
        requires
            fits_parser(html@),
        ensures
            r@ == page_of(html_root(html@)),
    {
        let document = parse_document(html);
        let heading = read_first_text(&document, "h1");
        let mut blocks: Vec<MessageBlock> = Vec::new();
        assert(block_views(blocks@) =~= Seq::<MessageBlockView>::empty());
        let panels = select_all(&document, ".rightpanel");
        if panels.len() > 0 {
            let children = children_of(&panels[0]);
            let mut i: usize = 0;
            assert(children@.take(0) =~= Seq::<kuchikiki::NodeRef>::empty());
            while i < children.len()
                invariant
                    i <= children@.len(),
                    block_views(blocks@) == blocks_among(children@.take(i as int)),
                decreases children@.len() - i,
            {
                let ghost sofar = block_views(blocks@);
                assert(children@.take(i + 1).drop_last() =~= children@.take(i as int));
                assert(children@.take(i + 1).last() == children@[i as int]);
                let is_div = match tag_of(&children[i]) {
                    Some(t) => str_eq(t.as_str(), "div"),
                    None => false,
                };
                if is_div {
                    let b = read_block(&children[i]);
                    blocks.push(b);
                    assert(block_views(blocks@) =~= sofar.push(b@));
                }
                i += 1;
            }
            assert(children@.take(children@.len() as int) =~= children@);
        }
        Subpage { heading, blocks }
    }

    /// Reads the file of one conversation, given the stem of its name and
    /// its HTML text: the page is read out of the text and parsed.
    pub fn parse_subpage(stem: &str, html: &str) -> (r: (Conversation, Vec<Event>))
        requires
            fits_parser(html@),
        ensures
            anonymous_views(r.1@) == block_events(
                page_of(html_root(html@)).blocks,
                conversation_id_of(stem@),
            ),
            have_ids(r.1@),
            r.0@ == page_conversation(
                stem@,
                page_of(html_root(html@)).heading,
                event_views(r.1@),
            ),
            all_of(event_views(r.1@), r.0@.id),
    {
        let page = Self::read_page(html);
        Self::parse_page(stem, &page)
    }

    /// Reads the file of one conversation where its text is short enough
    /// for the parser, and fails with a parsing error where it is not.
    pub fn try_parse_subpage(stem: &str, html: &str) -> (r: Result<
        (Conversation, Vec<Event>),
        AppError,
    >)
        ensures
            r is Ok <==> fits_parser(html@),
            r matches Err(e) ==> e is Parsing,
            r matches Ok(page) ==> {
                &&& anonymous_views(page.1@) == block_events(
                    page_of(html_root(html@)).blocks,
                    conversation_id_of(stem@),
                )
                &&& have_ids(page.1@)
                &&& page.0@ == page_conversation(
                    stem@,
                    page_of(html_root(html@)).heading,
                    event_views(page.1@),
                )
                &&& all_of(event_views(page.1@), page.0@.id)
            },
    {
        if html.unicode_len() > 0x3FFF_FFFF {
            return Err(AppError::Parsing("Page is too large to be parsed".to_owned()));
        }
        Ok(Self::parse_subpage(stem, html))
    }

    /// Parses the page of one conversation, given the stem of its file
    /// name. Each block with a sender and a readable timestamp becomes an
    /// event with a fresh id of 36 characters, in order; the conversation
    /// takes its id from the stem, its display name from the heading, and
    /// its participants, message count and last instant from the events.
    pub fn parse_page(stem: &str, page: &Subpage) -> (r: (Conversation, Vec<Event>))
        ensures
            anonymous_views(r.1@) == block_events(
                block_views(page.blocks@),
                conversation_id_of(stem@),
            ),
            have_ids(r.1@),
            r.0@ == page_conversation(stem@, page.heading.deep_view(), event_views(r.1@)),
            all_of(event_views(r.1@), r.0@.id),
    {
        let id = conversation_id(stem);
        let mut events: Vec<Event> = Vec::new();
        let mut i: usize = 0;
        assert(block_views(page.blocks@).take(0) =~= Seq::<MessageBlockView>::empty());
        assert(anonymous_views(events@) =~= Seq::<EventView>::empty());
        while i < page.blocks.len()
            invariant
                i <= page.blocks@.len(),
                id@ == conversation_id_of(stem@),
                anonymous_views(events@) == block_events(
                    block_views(page.blocks@).take(i as int),
                    id@,
                ),
                have_ids(events@),
                all_of(event_views(events@), id@),
            decreases page.blocks@.len() - i,
        {
            let ghost sofar = anonymous_views(events@);
            let ghost upto = block_views(page.blocks@).take(i + 1);
            assert(upto.drop_last() =~= block_views(page.blocks@).take(i as int));
            assert(upto.last() == page.blocks@[i as int]@);
            match parse_message_block(&page.blocks[i], id.as_str()) {
                Some(d) => {
                    let ghost listed = event_views(events@);
                    let mut e = d;
                    e.id = fresh_id();
                    assert(anonymous(e@) == d@);
                    assert(e@.conversation_id == Some(id@));
                    events.push(e);
                    assert(anonymous_views(events@) =~= sofar.push(d@));
                    assert(event_views(events@) =~= listed.push(e@));
                },
                None => {},
            }
            i += 1;
        }
        assert(block_views(page.blocks@).take(page.blocks@.len() as int) =~= block_views(
            page.blocks@,
        ));
        let names = participants(&events);
        assert(names.deep_view() =~= string_views(names@));
        let n = events.len();
        let conversation = Conversation {
            id,
            display_name: display_name(&page.heading),
            participants: names,
            last_event_at: if n > 0 {
                Some(events[n - 1].timestamp)
            } else {
                None
            },
            message_count: #[verifier::truncate]
            (n as i32),
            has_media: false,
        };
        (conversation, events)
    }
}

} // verus!
