//! Writing a conversation out as plain text.

use vstd::prelude::*;
use vstd::string::StringExecFns;
use crate::models::{event_views, Event, EventView, Timestamp};
use crate::text::{decimal, decimal_text, str_eq};
use crate::timestamps::{format_timestamp, formatted_instant};

verus! {

/// The formats in which a conversation is written out.
#[derive(Debug, Clone, Copy, PartialEq, Eq, Structural)]
pub enum ExportFormat {
    Json,
    Text,
}

/// The format that a name stands for: `json` for JSON, any other name for
/// plain text.
pub fn export_format(name: &str) -> (r: ExportFormat)
    ensures
        r == if name@ == "json"@ {
            ExportFormat::Json
        } else {
            ExportFormat::Text
        },
{
    if str_eq(name, "json") {
        ExportFormat::Json
    } else {
        ExportFormat::Text
    }
}

/// The instant as it stands in a transcript line: `YYYY-MM-DD HH:MM:SS`,
/// or nothing where it cannot be written.
pub open spec fn clock_text(at: Timestamp) -> Seq<char> {
    match formatted_instant(at, "%Y-%m-%d %H:%M:%S"@) {
        Some(t) => t,
        None => Seq::empty(),
    }
}

/// The name under which the sender of an event is shown: the display name
/// where there is one, else the username.
pub open spec fn shown_sender(e: EventView) -> Seq<char> {
    match e.sender_name {
        Some(n) => n,
        None => e.sender,
    }
}

/// The line of an event: `[<time>] <sender>: <content>`, ended by a line
/// feed.
pub open spec fn line_of(e: EventView) -> Seq<char> {
    "["@ + clock_text(e.timestamp) + "] "@ + shown_sender(e) + ": "@ + (match e.content {
        Some(c) => c,
        None => Seq::empty(),
    }) + "\n"@
}

/// The lines of a list of events, one after the other.
pub open spec fn lines_of(events: Seq<EventView>) -> Seq<char>
    decreases events.len(),
{
    if events.len() == 0 {
        Seq::empty()
    } else {
        lines_of(events.drop_last()) + line_of(events.last())
    }
}

/// The head of a transcript: the conversation's id, the number of its
/// messages, and a rule.
pub open spec fn head_of(conversation_id: Seq<char>, count: Seq<char>) -> Seq<char> {
    "Conversation: "@ + conversation_id + "\nMessages: "@ + count + "\n---\n\n"@
}

/// Writes the line of an event.
fn render_line(out: &mut String, e: &Event)
    ensures
        final(out)@ == old(out)@ + line_of(e@),
{
    let time = match format_timestamp(e.timestamp, "%Y-%m-%d %H:%M:%S") {
        Some(t) => t,
        None => String::new(),
    };
    out.append("[");
    out.append(time.as_str());
    out.append("] ");
    match &e.sender_name {
        Some(n) => out.append(n.as_str()),
        None => out.append(e.sender.as_str()),
    }
    out.append(": ");
    match &e.content {
        Some(c) => out.append(c.as_str()),
        None => {},
    }
    out.append("\n");
    assert(out@ =~= old(out)@ + line_of(e@));
}

/// Writes a conversation as plain text: the head, then one line for each
/// message, in order.
pub fn render_transcript(conversation_id: &str, messages: &Vec<Event>) -> (r: String)
    ensures
        r@ == head_of(conversation_id@, decimal_text(messages@.len() as int)) + lines_of(
            event_views(messages@),
        ),
{
    let mut out = String::from_str("Conversation: ");
    out.append(conversation_id);
    out.append("\nMessages: ");
    out.append(decimal(messages.len() as i128).as_str());
    out.append("\n---\n\n");
    let ghost head = out@;
    let mut i: usize = 0;
    assert(event_views(messages@).take(0) =~= Seq::<EventView>::empty());
    assert(head + Seq::<char>::empty() =~= head);
    while i < messages.len()
        invariant
            i <= messages@.len(),
            out@ == head + lines_of(event_views(messages@).take(i as int)),
        decreases messages@.len() - i,
    {
        let ghost upto = event_views(messages@).take(i + 1);
        assert(upto.drop_last() =~= event_views(messages@).take(i as int));
        assert(upto.last() == messages@[i as int]@);
        render_line(&mut out, &messages[i]);
        i += 1;
        assert(out@ =~= head + lines_of(upto));
    }
    assert(event_views(messages@).take(messages@.len() as int) =~= event_views(messages@));
    out
}

} // verus!
