//! From the text of a feed to its events, and on to its episodes.
//!
//! The tokenizer is the `xml` crate's pull parser. Verus does not read it.
//! What this module takes from it stands in the contracts of `open_reader`
//! and `next_event`, over the two names `xml_events` and `pending_events`;
//! those contracts are believed, not proved. Everything else here is
//! proved from them.

use vstd::prelude::*;
use xml::reader::EventReader;
use xml::reader::Events;
use xml::reader::XmlEvent;

use crate::event::Attribute;
use crate::event::EventModel;
use crate::event::FeedEvent;
use crate::machine::episodes_of;
use crate::machine::parse_events;
use crate::podcast::Podcast;

verus! {

/// Holds `xml::reader::Events`, the `xml` crate's iterator over the events
/// of a document, here of one held in memory. The iterator's type is
/// generic over a reader bounded by `std::io::Read`, a bound that Verus
/// cannot take, so it is kept in this struct, of which Verus sees nothing.
#[verifier::external_body]
pub struct EventStream<'a> {
    events: Events<&'a [u8]>,
}

/// The events of a document with the given text, as the `xml` crate's
/// reader yields them in its default configuration and `next_event` hands
/// them out: every event up to and including the end of the document or
/// the first error.
pub uninterp spec fn xml_events(text: Seq<char>) -> Seq<EventModel>;

/// The events that a reader has still to yield, in order.
pub uninterp spec fn pending_events(reader: EventStream) -> Seq<EventModel>;

/// Calls `EventReader::new` on the bytes of `text` and `into_iter` on the
/// reader. Neither reads anything, so all events of the text, which
/// `xml_events` names, are still to come.
#[verifier::external_body]
fn open_reader(text: &str) -> (reader: EventStream)
    ensures
        pending_events(reader) == xml_events(text@),
{
    EventStream { events: EventReader::new(text.as_bytes()).into_iter() }
}

/// Calls `Events::next` and hands the event out in this crate's own type.
///
/// The contract claims that the iterator yields the events of its document
/// one by one, and `None` from then on. There are finitely many: the text
/// is finite, and the iterator stops for good after the end of the
/// document or the first error, both of which it still yields.
///
/// A start tag keeps its local name and, of each attribute in turn, local
/// name and value; an end tag keeps its local name; character data and
/// CDATA keep their text; an error becomes `Malformed`, and every other
/// event `Other`.
#[verifier::external_body]
fn next_event(reader: &mut EventStream) -> (event: Option<FeedEvent>)
    ensures
        match event {
            Some(e) => {
                &&& pending_events(*old(reader)).len() > 0
                &&& e@ == pending_events(*old(reader)).first()
                &&& pending_events(*final(reader)) == pending_events(*old(reader)).drop_first()
            },
            None => {
                &&& pending_events(*old(reader)).len() == 0
                &&& pending_events(*final(reader)).len() == 0
            },
        },
{
    Some(match reader.events.next()? {
        Ok(XmlEvent::StartElement { name, attributes, .. }) => FeedEvent::StartElement {
            name: name.local_name,
            attributes: attributes
                .into_iter()
                .map(|a| Attribute { name: a.name.local_name, value: a.value })
                .collect(),
        },
        Ok(XmlEvent::EndElement { name }) => FeedEvent::EndElement { name: name.local_name },
        Ok(XmlEvent::Characters(text)) => FeedEvent::Characters(text),
        Ok(XmlEvent::CData(text)) => FeedEvent::CData(text),
        Ok(_) => FeedEvent::Other,
        Err(_) => FeedEvent::Malformed,
    })
}

/// Splits the text of a feed into its structural events: all that the
/// tokenizer yields for it, in order.
pub fn tokenize(text: &str) -> (events: Vec<FeedEvent>)
    ensures
        events.deep_view() == xml_events(text@),
{
    let mut reader = open_reader(text);
    let mut events: Vec<FeedEvent> = Vec::new();
    loop
        invariant
            events.deep_view() + pending_events(reader) == xml_events(text@),
        decreases pending_events(reader).len(),
    {
        let ghost taken = events.deep_view();
        let ghost before = pending_events(reader);
        match next_event(&mut reader) {
            Some(event) => {
                events.push(event);
                assert(events.deep_view() =~= taken.push(before.first()));
                assert(events.deep_view() + pending_events(reader) =~= taken + before);
            },
            None => {
                assert(events.deep_view() + pending_events(reader) =~= events.deep_view());
                return events;
            },
        }
    }
}

/// Reads the episodes out of the text of a feed: the episodes that the
/// events of the text describe. There is no failure: every text gives a
/// list, which may be empty.
pub fn parse_feed(text: &str) -> (episodes: Vec<Podcast>)
    ensures
        episodes.deep_view() == episodes_of(xml_events(text@)),
{
    let events = tokenize(text);
    parse_events(&events)
}

} // verus!
