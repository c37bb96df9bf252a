//! The event stream reader: a thin trusted layer over the incremental markup
//! tokenizer, yielding the library's structural events one at a time from an
//! in-memory document. The tokenizer is deterministic, so the whole event
//! sequence a document stands for has a name, and a fresh reader's remaining
//! events are exactly that sequence.

use vstd::prelude::*;
use crate::events::{EventView, XmlEvent};
use quick_xml::events::Event;

verus! {

#[verifier::external_type_specification]
#[verifier::external_body]
#[verifier::reject_recursive_types(R)]
pub struct ExXmlReader<R>(quick_xml::Reader<R>);

#[verifier::external_type_specification]
#[verifier::external_body]
#[verifier::reject_recursive_types(T)]
pub struct ExCursor<T>(std::io::Cursor<T>);

/// The events a reader has yet to yield, the next one first.
pub uninterp spec fn reader_events(r: quick_xml::Reader<std::io::Cursor<Vec<u8>>>) -> Seq<
    EventView,
>;

/// The event sequence the tokenizer yields on a document's bytes, up to and
/// including the first terminal event.
pub uninterp spec fn doc_events(data: Seq<u8>) -> Seq<EventView>;

/// Is this event the last one a stream yields: the end of the document, or
/// the first tokenizer failure?
pub open spec fn is_terminal(e: EventView) -> bool {
    e is Eof || e is ReadError
}

/// A stream's event sequence ends with exactly one terminal event.
pub open spec fn wf_stream(es: Seq<EventView>) -> bool {
    &&& es.len() > 0
    &&& is_terminal(es.last())
    &&& forall|i: int| 0 <= i < es.len() - 1 ==> !is_terminal(#[trigger] es[i])
}

/// Relies on quick_xml::Reader::from_reader: a fresh reader over the given
/// bytes yields the document's event sequence, which ends at the document's
/// end or at the tokenizer's first failure.
#[verifier::external_body]
pub fn reader_from_bytes(data: Vec<u8>) -> (r: quick_xml::Reader<std::io::Cursor<Vec<u8>>>)
    ensures
        reader_events(r) == doc_events(data@),
        wf_stream(reader_events(r)),
{
    quick_xml::Reader::from_reader(std::io::Cursor::new(data))
}

/// Relies on quick_xml::Reader::read_event_into: yields the stream's next
/// event, converted to the library's event type variant by variant — element
/// names and raw character data carried over unchanged, anything unrecognized
/// as `Other`, a tokenizer failure as `ReadError`.
#[verifier::external_body]
pub fn next_event(r: &mut quick_xml::Reader<std::io::Cursor<Vec<u8>>>) -> (e: XmlEvent)
    requires
        reader_events(*old(r)).len() > 0,
    ensures
        e@ == reader_events(*old(r))[0],
        reader_events(*final(r)) == reader_events(*old(r)).drop_first(),
{
    let mut buf = Vec::new();
    match r.read_event_into(&mut buf) {
        Err(_) => XmlEvent::ReadError,
        Ok(Event::Start(s)) => XmlEvent::Open(s.name().into_inner().to_vec()),
        Ok(Event::End(s)) => XmlEvent::Close(s.name().into_inner().to_vec()),
        Ok(Event::Text(t)) => XmlEvent::Text(t.into_inner().into_owned()),
        Ok(Event::Eof) => XmlEvent::Eof,
        Ok(_) => XmlEvent::Other,
    }
}

} // verus!
