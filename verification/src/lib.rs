//! Streaming extraction of an inter-article link graph from an encyclopedia
//! markup export: a page-extractor state machine over structural events, a
//! hand-written link scanner, an append-only edge store, and a bounded
//! hand-off queue for backpressure.

use vstd::prelude::*;

pub mod events;
pub mod extractor;
pub mod links;
pub mod pipeline;
pub mod queue;
pub mod reader;
pub mod source;
pub mod store;
pub mod text;

verus! {

/// One encyclopedia entry: its title and raw body text.
#[derive(Debug)]
pub struct Page {
    pub title: String,
    pub text: String,
}

impl View for Page {
    type V = (Seq<char>, Seq<char>);

    open spec fn view(&self) -> (Seq<char>, Seq<char>) {
        (self.title@, self.text@)
    }
}

/// A directed link from a page's title to a linked title as written.
#[derive(Debug)]
pub struct Edge {
    pub source: String,
    pub target: String,
}

impl View for Edge {
    type V = (Seq<char>, Seq<char>);

    open spec fn view(&self) -> (Seq<char>, Seq<char>) {
        (self.source@, self.target@)
    }
}

} // verus!
