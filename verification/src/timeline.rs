//! The order of the stream: events are put in the order of their instants
//! before media are linked and before they are stored.

use std::cmp::Ordering;
use vstd::prelude::*;
use crate::models::{event_views, Event, EventView, Timestamp};

verus! {

/// The order of two instants.
pub fn order_of(a: &Timestamp, b: &Timestamp) -> (r: Ordering)
    ensures
        match r {
            Ordering::Less => a.is_before(*b),
            Ordering::Greater => b.is_before(*a),
            Ordering::Equal => !a.is_before(*b) && !b.is_before(*a),
        },
{
    if a.before(b) {
        Ordering::Less
    } else if b.before(a) {
        Ordering::Greater
    } else {
        Ordering::Equal
    }
}

/// No event of the stream is earlier than one before it.
pub open spec fn is_ordered(events: Seq<EventView>) -> bool {
    forall|i: int, j: int|
        0 <= i < j < events.len() ==> !(#[trigger] events[j]).timestamp.is_before(
            (#[trigger] events[i]).timestamp,
        )
}

/// The event happened `nanos` nanoseconds after the epoch.
pub open spec fn happens_at(nanos: int) -> spec_fn(EventView) -> bool {
    |e: EventView| e.timestamp.total_nanos() == nanos
}

/// The events of the stream that happened `nanos` nanoseconds after the
/// epoch, in the order of the stream.
pub open spec fn at_instant(events: Seq<EventView>, nanos: int) -> Seq<EventView> {
    events.filter(happens_at(nanos))
}

/// A stream that holds, for every instant, the events that another holds
/// for it, holds no event that the other does not hold.
pub proof fn lemma_same_events(a: Seq<EventView>, b: Seq<EventView>, i: int)
    requires
        forall|nanos: int| #[trigger] at_instant(a, nanos) == at_instant(b, nanos),
        0 <= i < a.len(),
    ensures
        b.contains(a[i]),
{
    let nanos = a[i].timestamp.total_nanos();
    a.lemma_filter_contains(happens_at(nanos), i);
    assert(at_instant(a, nanos) == at_instant(b, nanos));
    b.lemma_filter_contains_rev(happens_at(nanos), a[i]);
}

/// `slice::sort_by` with `order_of` on the instants: afterwards the events
/// are in the order of their instants, and, the sort being stable, the
/// events of any one instant are those of before, in the order of before.
#[verifier::external_body]
fn sort_by_instant(events: &mut Vec<Event>)
    ensures
        final(events)@.len() == old(events)@.len(),
        is_ordered(event_views(final(events)@)),
        forall|nanos: int|
            #[trigger] at_instant(event_views(final(events)@), nanos) == at_instant(
                event_views(old(events)@),
                nanos,
            ),
{
    events.sort_by(|a, b| order_of(&a.timestamp, &b.timestamp))
}

/// Puts the stream in the order of its instants; events of the same instant
/// keep their order.
pub fn sort_events(events: &mut Vec<Event>)
    ensures
        final(events)@.len() == old(events)@.len(),
        is_ordered(event_views(final(events)@)),
        forall|nanos: int|
            #[trigger] at_instant(event_views(final(events)@), nanos) == at_instant(
                event_views(old(events)@),
                nanos,
            ),
{
    sort_by_instant(events)
}

} // verus!
