//! Structural markup events, as the extractor consumes them.

use vstd::prelude::*;

verus! {

/// Abstract form of a structural event: element names and character data as
/// byte sequences, character data still in escaped (entity) form.
pub enum EventView {
    Open(Seq<u8>),
    Close(Seq<u8>),
    Text(Seq<u8>),
    Eof,
    Other,
    ReadError,
}

/// A structural markup event. `Open`/`Close` carry the element name's raw
/// bytes, `Text` a run of character data in escaped form. Everything the
/// extractor does not care about (comments, declarations, processing
/// instructions, ...) is `Other`; `ReadError` stands for a tokenizer failure,
/// and `Eof` for the end of the document.
#[derive(Debug)]
pub enum XmlEvent {
    Open(Vec<u8>),
    Close(Vec<u8>),
    Text(Vec<u8>),
    Eof,
    Other,
    ReadError,
}

impl View for XmlEvent {
    type V = EventView;

    open spec fn view(&self) -> EventView {
        match self {
            XmlEvent::Open(n) => EventView::Open(n@),
            XmlEvent::Close(n) => EventView::Close(n@),
            XmlEvent::Text(b) => EventView::Text(b@),
            XmlEvent::Eof => EventView::Eof,
            XmlEvent::Other => EventView::Other,
            XmlEvent::ReadError => EventView::ReadError,
        }
    }
}

/// The byte sequence of the element name whose content is a page's title.
pub open spec fn title_name() -> Seq<u8> {
    seq![116u8, 105u8, 116u8, 108u8, 101u8]
}

/// The byte sequence of the element name whose content is a page's body text.
pub open spec fn text_name() -> Seq<u8> {
    seq![116u8, 101u8, 120u8, 116u8]
}

/// Does `n` spell the title element's name?
pub fn is_title_name(n: &Vec<u8>) -> (r: bool)
    ensures
        r == (n@ == title_name()),
{
    if n.len() == 5 {
        let r = n[0] == 116 && n[1] == 105 && n[2] == 116 && n[3] == 108 && n[4] == 101;
        proof {
            if r {
                assert(n@ =~= title_name());
            }
        }
        r
    } else {
        false
    }
}

/// Does `n` spell the text element's name?
pub fn is_text_name(n: &Vec<u8>) -> (r: bool)
    ensures
        r == (n@ == text_name()),
{
    if n.len() == 4 {
        let r = n[0] == 116 && n[1] == 101 && n[2] == 120 && n[3] == 116;
        proof {
            if r {
                assert(n@ =~= text_name());
            }
        }
        r
    } else {
        false
    }
}

} // verus!
