//! The page extractor: a state machine that reduces the structural event
//! stream to discrete `(title, text)` records, one per encyclopedia entry.
//!
//! While searching for the fields of interest the machine ignores unrelated
//! events; once committed to capturing a field and awaiting its content, any
//! unexpected event is an unrecoverable protocol violation, and so is a text
//! element that opens before any title has been resolved.

use vstd::prelude::*;
use crate::events::{EventView, XmlEvent, title_name, text_name, is_title_name, is_text_name};
use crate::text::{decode_of, decode_text};
use crate::Page;

verus! {

/// Abstract control state of the extractor, carrying captured payload.
pub enum StateView {
    Limbo1,
    TitleStarted,
    Title(Seq<char>),
    Limbo2(Seq<char>),
    TextStarted(Seq<char>),
}

/// Abstract form of a fatal pipeline failure.
pub enum ErrorView {
    InvalidInput,
    Decode,
    Malformed(StateView, EventView),
}

/// What one transition of the extractor does.
pub enum StepView {
    Next(StateView),
    Emit(Seq<char>, Seq<char>),
    EndOfDocument,
    Fail(ErrorView),
}

/// Result of running the extractor over a whole event sequence.
pub enum RunView {
    Pages(Seq<(Seq<char>, Seq<char>)>),
    Fail(ErrorView),
}

/// The transition table. A tokenizer failure is fatal in every state, and so
/// is end of stream anywhere but `Limbo1`. While searching, `Limbo1` ignores
/// everything except a title element opening — and a text element opening out
/// of order, which is a protocol violation, since a body without a resolved
/// title must not be absorbed — and `Limbo2` ignores everything except a text
/// element opening. A state awaiting a committed field's content treats any
/// other event as a protocol violation. Once the title's first content run is
/// captured, further events are ignored up to the title's closing tag: the
/// first run is the authoritative content. The page is produced at the text
/// element's content, returning to `Limbo1`.
pub open spec fn spec_step(s: StateView, e: EventView) -> StepView {
    if e is ReadError {
        StepView::Fail(ErrorView::Decode)
    } else {
        match s {
            StateView::Limbo1 => match e {
                EventView::Eof => StepView::EndOfDocument,
                EventView::Open(n) => if n == title_name() {
                    StepView::Next(StateView::TitleStarted)
                } else if n == text_name() {
                    StepView::Fail(ErrorView::Malformed(StateView::Limbo1, EventView::Open(n)))
                } else {
                    StepView::Next(StateView::Limbo1)
                },
                _ => StepView::Next(StateView::Limbo1),
            },
            StateView::TitleStarted => match e {
                EventView::Text(raw) => match decode_of(raw) {
                    Some(t) => StepView::Next(StateView::Title(t)),
                    None => StepView::Fail(ErrorView::Decode),
                },
                _ => StepView::Fail(ErrorView::Malformed(StateView::TitleStarted, e)),
            },
            StateView::Title(t) => match e {
                EventView::Close(n) => if n == title_name() {
                    StepView::Next(StateView::Limbo2(t))
                } else {
                    StepView::Next(StateView::Title(t))
                },
                EventView::Eof => StepView::Fail(
                    ErrorView::Malformed(StateView::Title(t), EventView::Eof),
                ),
                _ => StepView::Next(StateView::Title(t)),
            },
            StateView::Limbo2(t) => match e {
                EventView::Open(n) => if n == text_name() {
                    StepView::Next(StateView::TextStarted(t))
                } else {
                    StepView::Next(StateView::Limbo2(t))
                },
                EventView::Eof => StepView::Fail(
                    ErrorView::Malformed(StateView::Limbo2(t), EventView::Eof),
                ),
                _ => StepView::Next(StateView::Limbo2(t)),
            },
            StateView::TextStarted(t) => match e {
                EventView::Text(raw) => match decode_of(raw) {
                    Some(x) => StepView::Emit(t, x),
                    None => StepView::Fail(ErrorView::Decode),
                },
                _ => StepView::Fail(ErrorView::Malformed(StateView::TextStarted(t), e)),
            },
        }
    }
}

/// Running the machine from state `s` over the events `evs`; an exhausted
/// sequence counts as end of stream.
pub open spec fn spec_run_from(s: StateView, evs: Seq<EventView>) -> RunView
    decreases evs.len(),
{
    if evs.len() == 0 {
        match spec_step(s, EventView::Eof) {
            StepView::EndOfDocument => RunView::Pages(Seq::empty()),
            StepView::Fail(e) => RunView::Fail(e),
            _ => RunView::Pages(Seq::empty()),
        }
    } else {
        match spec_step(s, evs[0]) {
            StepView::Next(s2) => spec_run_from(s2, evs.drop_first()),
            StepView::Emit(t, x) => match spec_run_from(StateView::Limbo1, evs.drop_first()) {
                RunView::Pages(ps) => RunView::Pages(seq![(t, x)] + ps),
                RunView::Fail(e) => RunView::Fail(e),
            },
            StepView::EndOfDocument => RunView::Pages(Seq::empty()),
            StepView::Fail(e) => RunView::Fail(e),
        }
    }
}

/// Extraction of a whole document: run from the initial state.
pub open spec fn spec_extract(evs: Seq<EventView>) -> RunView {
    spec_run_from(StateView::Limbo1, evs)
}

/// The event sequence a vector of events stands for.
pub open spec fn events_view(evs: Seq<XmlEvent>) -> Seq<EventView> {
    evs.map_values(|e: XmlEvent| e@)
}

/// The record sequence a vector of pages stands for.
pub open spec fn pages_view(ps: Seq<Page>) -> Seq<(Seq<char>, Seq<char>)> {
    ps.map_values(|p: Page| p@)
}

/// Prefix already-emitted records onto the outcome of the remaining run.
pub open spec fn run_prepend(ps: Seq<(Seq<char>, Seq<char>)>, r: RunView) -> RunView {
    match r {
        RunView::Pages(qs) => RunView::Pages(ps + qs),
        RunView::Fail(e) => RunView::Fail(e),
    }
}

proof fn lemma_run_prepend_empty(r: RunView)
    ensures
        run_prepend(Seq::empty(), r) == r,
{
    match r {
        RunView::Pages(qs) => {
            assert(Seq::<(Seq<char>, Seq<char>)>::empty() + qs =~= qs);
        },
        RunView::Fail(_) => {},
    }
}

proof fn lemma_run_prepend_assoc(ps: Seq<(Seq<char>, Seq<char>)>, qs: Seq<(Seq<char>, Seq<char>)>, r: RunView)
    ensures
        run_prepend(ps, run_prepend(qs, r)) == run_prepend(ps + qs, r),
{
    match r {
        RunView::Pages(rs) => {
            assert(ps + (qs + rs) =~= (ps + qs) + rs);
        },
        RunView::Fail(_) => {},
    }
}

proof fn lemma_pages_view_push(ps: Seq<Page>, p: Page)
    ensures
        pages_view(ps.push(p)) == pages_view(ps) + seq![p@],
{
    assert(pages_view(ps.push(p)) =~= pages_view(ps) + seq![p@]);
}

/// The event run of one well-formed title/text element pair.
pub open spec fn pair_events(tb: Seq<u8>, xb: Seq<u8>) -> Seq<EventView> {
    seq![
        EventView::Open(title_name()),
        EventView::Text(tb),
        EventView::Close(title_name()),
        EventView::Open(text_name()),
        EventView::Text(xb),
        EventView::Close(text_name()),
    ]
}

/// The event run of a document made of well-formed pairs, in order.
pub open spec fn pairs_events(pairs: Seq<(Seq<u8>, Seq<u8>)>) -> Seq<EventView>
    decreases pairs.len(),
{
    if pairs.len() == 0 {
        Seq::empty()
    } else {
        pair_events(pairs[0].0, pairs[0].1) + pairs_events(pairs.drop_first())
    }
}

proof fn lemma_pair_run(tb: Seq<u8>, xb: Seq<u8>, rest: Seq<EventView>)
    requires
        decode_of(tb) is Some,
        decode_of(xb) is Some,
    ensures
        spec_run_from(StateView::Limbo1, pair_events(tb, xb) + rest) == run_prepend(
            seq![(decode_of(tb).unwrap(), decode_of(xb).unwrap())],
            spec_run_from(StateView::Limbo1, rest),
        ),
{
    let t = decode_of(tb).unwrap();
    let x = decode_of(xb).unwrap();
    let s0 = pair_events(tb, xb) + rest;
    let s1 = seq![
        EventView::Text(tb),
        EventView::Close(title_name()),
        EventView::Open(text_name()),
        EventView::Text(xb),
        EventView::Close(text_name()),
    ] + rest;
    let s2 = seq![
        EventView::Close(title_name()),
        EventView::Open(text_name()),
        EventView::Text(xb),
        EventView::Close(text_name()),
    ] + rest;
    let s3 = seq![EventView::Open(text_name()), EventView::Text(xb), EventView::Close(text_name())]
        + rest;
    let s4 = seq![EventView::Text(xb), EventView::Close(text_name())] + rest;
    let s5 = seq![EventView::Close(text_name())] + rest;
    assert(s0.drop_first() =~= s1);
    assert(s1.drop_first() =~= s2);
    assert(s2.drop_first() =~= s3);
    assert(s3.drop_first() =~= s4);
    assert(s4.drop_first() =~= s5);
    assert(s5.drop_first() =~= rest);
    assert(spec_step(StateView::Limbo1, s0[0]) == StepView::Next(StateView::TitleStarted));
    assert(spec_step(StateView::TitleStarted, s1[0]) == StepView::Next(StateView::Title(t)));
    assert(spec_step(StateView::Title(t), s2[0]) == StepView::Next(StateView::Limbo2(t)));
    assert(spec_step(StateView::Limbo2(t), s3[0]) == StepView::Next(StateView::TextStarted(t)));
    assert(spec_step(StateView::TextStarted(t), s4[0]) == StepView::Emit(t, x));
    assert(title_name().len() == 5 && text_name().len() == 4);
    assert(spec_step(StateView::Limbo1, s5[0]) == StepView::Next(StateView::Limbo1));
    assert(spec_run_from(StateView::Limbo1, s0) == spec_run_from(StateView::TitleStarted, s1));
    assert(spec_run_from(StateView::TitleStarted, s1) == spec_run_from(StateView::Title(t), s2));
    assert(spec_run_from(StateView::Title(t), s2) == spec_run_from(StateView::Limbo2(t), s3));
    assert(spec_run_from(StateView::Limbo2(t), s3) == spec_run_from(
        StateView::TextStarted(t),
        s4,
    ));
    assert(spec_run_from(StateView::TextStarted(t), s4) == run_prepend(
        seq![(t, x)],
        spec_run_from(StateView::Limbo1, s5),
    ));
    assert(spec_run_from(StateView::Limbo1, s5) == spec_run_from(StateView::Limbo1, rest));
}

/// Exactly one page per well-formed pair: a document whose events are the
/// runs of well-formed title/text pairs, in order, yields exactly one page
/// per pair, its title and text equal to the pair's decoded element
/// contents.
pub proof fn lemma_pairs_yield_pages(pairs: Seq<(Seq<u8>, Seq<u8>)>)
    requires
        forall|i: int|
            0 <= i < pairs.len() ==> decode_of(#[trigger] pairs[i].0) is Some && decode_of(
                pairs[i].1,
            ) is Some,
    ensures
        spec_extract(pairs_events(pairs)) == RunView::Pages(
            pairs.map_values(
                |pr: (Seq<u8>, Seq<u8>)| (decode_of(pr.0).unwrap(), decode_of(pr.1).unwrap()),
            ),
        ),
    decreases pairs.len(),
{
    let f = |pr: (Seq<u8>, Seq<u8>)| (decode_of(pr.0).unwrap(), decode_of(pr.1).unwrap());
    if pairs.len() == 0 {
        assert(pairs_events(pairs).len() == 0);
        assert(spec_extract(pairs_events(pairs)) == RunView::Pages(Seq::empty()));
        assert(pairs.map_values(f) =~= Seq::<(Seq<char>, Seq<char>)>::empty());
    } else {
        let tail = pairs.drop_first();
        lemma_pairs_yield_pages(tail);
        lemma_pair_run(pairs[0].0, pairs[0].1, pairs_events(tail));
        assert(seq![f(pairs[0])] + tail.map_values(f) =~= pairs.map_values(f));
    }
}

/// No partial page from a missing counterpart: once a title is captured and
/// awaiting its text element, a stream that ends without ever opening one —
/// whatever ignorable events still pass by — fails with a malformed-document
/// error instead of emitting a page.
pub proof fn lemma_title_without_text(t: Seq<char>, noise: Seq<EventView>)
    requires
        forall|i: int|
            0 <= i < noise.len() ==> spec_step(StateView::Limbo2(t), #[trigger] noise[i])
                == StepView::Next(StateView::Limbo2(t)),
    ensures
        spec_run_from(StateView::Limbo2(t), noise + seq![EventView::Eof]) == RunView::Fail(
            ErrorView::Malformed(StateView::Limbo2(t), EventView::Eof),
        ),
    decreases noise.len(),
{
    let es = noise + seq![EventView::Eof];
    if noise.len() == 0 {
        assert(es =~= seq![EventView::Eof]);
        assert(es[0] == EventView::Eof);
    } else {
        assert(es[0] == noise[0]);
        assert(es.drop_first() =~= noise.drop_first() + seq![EventView::Eof]);
        assert(forall|i: int|
            0 <= i < noise.drop_first().len() ==> spec_step(
                StateView::Limbo2(t),
                #[trigger] noise.drop_first()[i],
            ) == StepView::Next(StateView::Limbo2(t)));
        lemma_title_without_text(t, noise.drop_first());
    }
}

/// A document holding one well-formed title element and nothing else fails
/// with a malformed-document error at end of stream: no partial page.
pub proof fn lemma_title_only_fails(tb: Seq<u8>)
    requires
        decode_of(tb) is Some,
    ensures
        spec_extract(
            seq![
                EventView::Open(title_name()),
                EventView::Text(tb),
                EventView::Close(title_name()),
                EventView::Eof,
            ],
        ) == RunView::Fail(
            ErrorView::Malformed(StateView::Limbo2(decode_of(tb).unwrap()), EventView::Eof),
        ),
{
    let t = decode_of(tb).unwrap();
    let s0 = seq![
        EventView::Open(title_name()),
        EventView::Text(tb),
        EventView::Close(title_name()),
        EventView::Eof,
    ];
    let s1 = seq![EventView::Text(tb), EventView::Close(title_name()), EventView::Eof];
    let s2 = seq![EventView::Close(title_name()), EventView::Eof];
    let s3 = seq![EventView::Eof];
    assert(s0.drop_first() =~= s1);
    assert(s1.drop_first() =~= s2);
    assert(s2.drop_first() =~= s3);
    assert(spec_step(StateView::Limbo1, s0[0]) == StepView::Next(StateView::TitleStarted));
    assert(spec_step(StateView::TitleStarted, s1[0]) == StepView::Next(StateView::Title(t)));
    assert(spec_step(StateView::Title(t), s2[0]) == StepView::Next(StateView::Limbo2(t)));
    assert(spec_run_from(StateView::Limbo1, s0) == spec_run_from(StateView::TitleStarted, s1));
    assert(spec_run_from(StateView::TitleStarted, s1) == spec_run_from(StateView::Title(t), s2));
    assert(spec_run_from(StateView::Title(t), s2) == spec_run_from(StateView::Limbo2(t), s3));
    assert(s3 =~= Seq::<EventView>::empty() + seq![EventView::Eof]);
    lemma_title_without_text(t, Seq::empty());
}

/// No silent skip of a stray body: a text element that opens while no title
/// has been resolved — however many ignorable events came before it — fails
/// with a malformed-document error instead of being absorbed or dropped.
pub proof fn lemma_text_without_title(noise: Seq<EventView>, rest: Seq<EventView>)
    requires
        forall|i: int|
            0 <= i < noise.len() ==> spec_step(StateView::Limbo1, #[trigger] noise[i])
                == StepView::Next(StateView::Limbo1),
    ensures
        spec_extract(noise + seq![EventView::Open(text_name())] + rest) == RunView::Fail(
            ErrorView::Malformed(StateView::Limbo1, EventView::Open(text_name())),
        ),
    decreases noise.len(),
{
    let es = noise + seq![EventView::Open(text_name())] + rest;
    assert(title_name().len() == 5 && text_name().len() == 4);
    if noise.len() == 0 {
        assert(es[0] == EventView::Open(text_name()));
        assert(spec_step(StateView::Limbo1, es[0]) == StepView::Fail(
            ErrorView::Malformed(StateView::Limbo1, EventView::Open(text_name())),
        ));
    } else {
        assert(es[0] == noise[0]);
        assert(es.drop_first() =~= noise.drop_first() + seq![EventView::Open(text_name())]
            + rest);
        assert(forall|i: int|
            0 <= i < noise.drop_first().len() ==> spec_step(
                StateView::Limbo1,
                #[trigger] noise.drop_first()[i],
            ) == StepView::Next(StateView::Limbo1));
        lemma_text_without_title(noise.drop_first(), rest);
    }
}

/// The extractor's concrete control state.
#[derive(Debug)]
pub enum MachineState {
    Limbo1,
    TitleStarted,
    Title { title: String },
    Limbo2 { title: String },
    TextStarted { title: String },
}

impl View for MachineState {
    type V = StateView;

    open spec fn view(&self) -> StateView {
        match self {
            MachineState::Limbo1 => StateView::Limbo1,
            MachineState::TitleStarted => StateView::TitleStarted,
            MachineState::Title { title } => StateView::Title(title@),
            MachineState::Limbo2 { title } => StateView::Limbo2(title@),
            MachineState::TextStarted { title } => StateView::TextStarted(title@),
        }
    }
}

/// A fatal failure of the ingestion pipeline.
#[derive(Debug)]
pub enum PipelineError {
    /// The input path does not name a regular file, or its name is not text.
    InvalidInput,
    /// Malformed compressed stream, byte framing, or character data.
    DecodeError,
    /// The event sequence violates the extractor's grammar; carries the
    /// offending state and event for diagnostics.
    MalformedDocument { state: MachineState, event: XmlEvent },
}

impl View for PipelineError {
    type V = ErrorView;

    open spec fn view(&self) -> ErrorView {
        match self {
            PipelineError::InvalidInput => ErrorView::InvalidInput,
            PipelineError::DecodeError => ErrorView::Decode,
            PipelineError::MalformedDocument { state, event } => ErrorView::Malformed(
                state@,
                event@,
            ),
        }
    }
}

/// What feeding one event to the extractor produced.
pub enum StepOutcome {
    Proceed,
    Emitted(Page),
    EndOfDocument,
    Failed(PipelineError),
}

/// The page extractor.
pub struct PageExtractor {
    pub state: MachineState,
}

impl PageExtractor {
    /// A fresh extractor, outside both fields of interest.
    pub fn new() -> (m: PageExtractor)
        ensures
            m.state@ == StateView::Limbo1,
    {
        PageExtractor { state: MachineState::Limbo1 }
    }

    /// Feed one event and step the machine as the transition table says.
    pub fn advance(&mut self, e: XmlEvent) -> (r: StepOutcome)
        ensures
            ({
                let step = spec_step(old(self).state@, e@);
                match step {
                    StepView::Next(s2) => final(self).state@ == s2 && r is Proceed,
                    StepView::Emit(t, x) => final(self).state@ == StateView::Limbo1 && (
                    r matches StepOutcome::Emitted(p) && p@ == (t, x)),
                    StepView::EndOfDocument => final(self).state@ == old(self).state@
                        && r is EndOfDocument,
                    StepView::Fail(ev) => r matches StepOutcome::Failed(pe) && pe@ == ev,
                }
            }),
    {
        let mut st = MachineState::Limbo1;
        core::mem::swap(&mut st, &mut self.state);
        match st {
            MachineState::Limbo1 => match e {
                XmlEvent::Eof => {
                    StepOutcome::EndOfDocument
                },
                XmlEvent::ReadError => StepOutcome::Failed(PipelineError::DecodeError),
                XmlEvent::Open(n) => {
                    if is_title_name(&n) {
                        self.state = MachineState::TitleStarted;
                        StepOutcome::Proceed
                    } else if is_text_name(&n) {
                        StepOutcome::Failed(
                            PipelineError::MalformedDocument {
                                state: MachineState::Limbo1,
                                event: XmlEvent::Open(n),
                            },
                        )
                    } else {
                        StepOutcome::Proceed
                    }
                },
                _ => StepOutcome::Proceed,
            },
            MachineState::TitleStarted => match e {
                XmlEvent::ReadError => StepOutcome::Failed(PipelineError::DecodeError),
                XmlEvent::Text(raw) => match decode_text(&raw) {
                    Some(t) => {
                        self.state = MachineState::Title { title: t };
                        StepOutcome::Proceed
                    },
                    None => StepOutcome::Failed(PipelineError::DecodeError),
                },
                other => StepOutcome::Failed(
                    PipelineError::MalformedDocument {
                        state: MachineState::TitleStarted,
                        event: other,
                    },
                ),
            },
            MachineState::Title { title } => match e {
                XmlEvent::ReadError => StepOutcome::Failed(PipelineError::DecodeError),
                XmlEvent::Close(n) => {
                    if is_title_name(&n) {
                        self.state = MachineState::Limbo2 { title };
                    } else {
                        self.state = MachineState::Title { title };
                    }
                    StepOutcome::Proceed
                },
                XmlEvent::Eof => StepOutcome::Failed(
                    PipelineError::MalformedDocument {
                        state: MachineState::Title { title },
                        event: XmlEvent::Eof,
                    },
                ),
                _ => {
                    self.state = MachineState::Title { title };
                    StepOutcome::Proceed
                },
            },
            MachineState::Limbo2 { title } => match e {
                XmlEvent::ReadError => StepOutcome::Failed(PipelineError::DecodeError),
                XmlEvent::Open(n) => {
                    if is_text_name(&n) {
                        self.state = MachineState::TextStarted { title };
                    } else {
                        self.state = MachineState::Limbo2 { title };
                    }
                    StepOutcome::Proceed
                },
                XmlEvent::Eof => StepOutcome::Failed(
                    PipelineError::MalformedDocument {
                        state: MachineState::Limbo2 { title },
                        event: XmlEvent::Eof,
                    },
                ),
                _ => {
                    self.state = MachineState::Limbo2 { title };
                    StepOutcome::Proceed
                },
            },
            MachineState::TextStarted { title } => match e {
                XmlEvent::ReadError => StepOutcome::Failed(PipelineError::DecodeError),
                XmlEvent::Text(raw) => match decode_text(&raw) {
                    Some(x) => StepOutcome::Emitted(Page { title, text: x }),
                    None => StepOutcome::Failed(PipelineError::DecodeError),
                },
                other => StepOutcome::Failed(
                    PipelineError::MalformedDocument {
                        state: MachineState::TextStarted { title },
                        event: other,
                    },
                ),
            },
        }
    }
}

/// Copy a byte vector, element for element.
fn clone_bytes(v: &Vec<u8>) -> (r: Vec<u8>)
    ensures
        r@ == v@,
{
    let mut r: Vec<u8> = Vec::new();
    let mut i: usize = 0;
    while i < v.len()
        invariant
            i <= v.len(),
            r@ == v@.subrange(0, i as int),
        decreases v.len() - i,
    {
        r.push(v[i]);
        proof {
            assert(r@ =~= v@.subrange(0, i + 1 as int));
        }
        i = i + 1;
    }
    proof {
        assert(v@.subrange(0, v@.len() as int) =~= v@);
    }
    r
}

/// Copy an event, field for field.
pub fn clone_event(e: &XmlEvent) -> (r: XmlEvent)
    ensures
        r@ == e@,
{
    match e {
        XmlEvent::Open(n) => XmlEvent::Open(clone_bytes(n)),
        XmlEvent::Close(n) => XmlEvent::Close(clone_bytes(n)),
        XmlEvent::Text(b) => XmlEvent::Text(clone_bytes(b)),
        XmlEvent::Eof => XmlEvent::Eof,
        XmlEvent::Other => XmlEvent::Other,
        XmlEvent::ReadError => XmlEvent::ReadError,
    }
}

proof fn lemma_events_view_skip(evs: Seq<XmlEvent>, i: int)
    requires
        0 <= i < evs.len(),
    ensures
        events_view(evs.skip(i))[0] == evs[i]@,
        events_view(evs.skip(i)).drop_first() == events_view(evs.skip(i + 1)),
        events_view(evs.skip(i)).len() == evs.len() - i,
{
    assert(events_view(evs.skip(i)).drop_first() =~= events_view(evs.skip(i + 1)));
}

/// Run the extractor over a complete event sequence; an exhausted sequence
/// counts as end of stream. Returns every page the document's events yield,
/// in document order, or the first fatal error.
pub fn extract_pages(events: &Vec<XmlEvent>) -> (r: Result<Vec<Page>, PipelineError>)
    ensures
        (match r {
            Ok(ps) => spec_extract(events_view(events@)) == RunView::Pages(pages_view(ps@)),
            Err(e) => spec_extract(events_view(events@)) == RunView::Fail(e@),
        }),
{
    let mut m = PageExtractor::new();
    let mut out: Vec<Page> = Vec::new();
    let mut i: usize = 0;
    proof {
        assert(events@.skip(0) =~= events@);
        lemma_run_prepend_empty(spec_run_from(m.state@, events_view(events@)));
    }
    loop
        invariant
            i <= events@.len(),
            spec_extract(events_view(events@)) == run_prepend(
                pages_view(out@),
                spec_run_from(m.state@, events_view(events@.skip(i as int))),
            ),
        decreases events@.len() - i,
    {
        let ghost pre = m.state@;
        let ghost evs = events_view(events@.skip(i as int));
        if i == events.len() {
            let r = m.advance(XmlEvent::Eof);
            proof {
                assert(events@.skip(i as int) =~= Seq::<XmlEvent>::empty());
                assert(evs.len() == 0);
            }
            match r {
                StepOutcome::EndOfDocument => {
                    proof {
                        assert(spec_run_from(pre, evs) == RunView::Pages(Seq::empty()));
                        assert(pages_view(out@) + Seq::<(Seq<char>, Seq<char>)>::empty()
                            =~= pages_view(out@));
                    }
                    return Ok(out);
                },
                StepOutcome::Failed(pe) => {
                    proof {
                        assert(spec_run_from(pre, evs) == RunView::Fail(pe@));
                    }
                    return Err(pe);
                },
                _ => {
                    return Err(PipelineError::DecodeError);
                },
            }
        } else {
            let e = clone_event(&events[i]);
            proof {
                lemma_events_view_skip(events@, i as int);
            }
            let r = m.advance(e);
            i = i + 1;
            match r {
                StepOutcome::Proceed => {},
                StepOutcome::Emitted(p) => {
                    proof {
                        lemma_pages_view_push(out@, p);
                        lemma_run_prepend_assoc(
                            pages_view(out@),
                            seq![p@],
                            spec_run_from(StateView::Limbo1, events_view(events@.skip(i as int))),
                        );
                    }
                    out.push(p);
                },
                StepOutcome::EndOfDocument => {
                    proof {
                        assert(spec_run_from(pre, evs) == RunView::Pages(Seq::empty()));
                        assert(pages_view(out@) + Seq::<(Seq<char>, Seq<char>)>::empty()
                            =~= pages_view(out@));
                    }
                    return Ok(out);
                },
                StepOutcome::Failed(pe) => {
                    proof {
                        assert(spec_run_from(pre, evs) == RunView::Fail(pe@));
                    }
                    return Err(pe);
                },
            }
        }
    }
}

} // verus!
