//! The pipeline: decode the classified byte stream, tokenize it, extract
//! pages, derive edges, and fill the store. The stages compose one way:
//! bytes to events to page records to edge rows.

use vstd::prelude::*;
use crate::events::EventView;
use crate::extractor::{
    ErrorView, PageExtractor, PipelineError, RunView, StateView, StepOutcome, pages_view,
    run_prepend, spec_extract, spec_run_from,
};
use crate::links::{links, links_of};
use crate::reader::{doc_events, is_terminal, next_event, reader_events, reader_from_bytes, wf_stream};
use crate::source::{classify_name, classify_spec, decode_source, spec_decode};
use crate::store::GraphStore;
use crate::{Edge, Page};

verus! {

proof fn lemma_wf_stream_tail(es: Seq<EventView>)
    requires
        wf_stream(es),
        !is_terminal(es[0]),
    ensures
        es.len() >= 2,
        wf_stream(es.drop_first()),
{
    assert(es[es.len() - 1] == es.last());
    assert forall|i: int| 0 <= i < es.drop_first().len() - 1 implies !is_terminal(
        #[trigger] es.drop_first()[i],
    ) by {
        assert(es.drop_first()[i] == es[i + 1]);
    }
    assert(es.drop_first().last() == es.last());
}

/// Drain a reader's event stream through the extractor: every page the
/// document yields, in document order, or the first fatal error.
#[verifier::rlimit(60)]
pub fn extract_document(r: &mut quick_xml::Reader<std::io::Cursor<Vec<u8>>>) -> (res: Result<
    Vec<Page>,
    PipelineError,
>)
    requires
        wf_stream(reader_events(*old(r))),
    ensures
        (match res {
            Ok(ps) => spec_extract(reader_events(*old(r))) == RunView::Pages(pages_view(ps@)),
            Err(e) => spec_extract(reader_events(*old(r))) == RunView::Fail(e@),
        }),
{
    let ghost all: Seq<EventView> = reader_events(*r);
    let mut m = PageExtractor::new();
    let mut out: Vec<Page> = Vec::new();
    proof {
        assert(pages_view(out@) =~= Seq::<(Seq<char>, Seq<char>)>::empty());
        match spec_run_from(m.state@, all) {
            RunView::Pages(qs) => {
                assert(pages_view(out@) + qs =~= qs);
            },
            RunView::Fail(_) => {},
        }
    }
    loop
        invariant
            all == reader_events(*old(r)),
            wf_stream(reader_events(*r)),
            spec_extract(all) == run_prepend(
                pages_view(out@),
                spec_run_from(m.state@, reader_events(*r)),
            ),
        decreases reader_events(*r).len(),
    {
        let ghost pre = m.state@;
        let ghost evs = reader_events(*r);
        let e = next_event(r);
        let r2 = m.advance(e);
        match r2 {
            StepOutcome::Proceed => {
                proof {
                    lemma_wf_stream_tail(evs);
                }
            },
            StepOutcome::Emitted(p) => {
                proof {
                    lemma_wf_stream_tail(evs);
                    assert(pages_view(out@.push(p)) =~= pages_view(out@) + seq![p@]);
                    match spec_run_from(StateView::Limbo1, reader_events(*r)) {
                        RunView::Pages(qs) => {
                            assert(pages_view(out@) + (seq![p@] + qs) =~= (pages_view(out@)
                                + seq![p@]) + qs);
                        },
                        RunView::Fail(_) => {},
                    }
                }
                out.push(p);
            },
            StepOutcome::EndOfDocument => {
                proof {
                    assert(spec_run_from(pre, evs) == RunView::Pages(Seq::empty()));
                    assert(pages_view(out@) + Seq::<(Seq<char>, Seq<char>)>::empty()
                        =~= pages_view(out@));
                }
                return Ok(out);
            },
            StepOutcome::Failed(pe) => {
                proof {
                    assert(spec_run_from(pre, evs) == RunView::Fail(pe@));
                }
                return Err(pe);
            },
        }
    }
}

/// The edge rows one page record contributes: one per link target in its
/// text, in discovery order, each sourced at the page's title.
pub open spec fn page_edges(p: (Seq<char>, Seq<char>)) -> Seq<(Seq<char>, Seq<char>)> {
    links_of(p.1).map_values(|t: Seq<char>| (p.0, t))
}

/// The edge rows a page sequence contributes, page by page in order.
pub open spec fn edges_of_pages(ps: Seq<(Seq<char>, Seq<char>)>) -> Seq<(Seq<char>, Seq<char>)>
    decreases ps.len(),
{
    if ps.len() == 0 {
        Seq::empty()
    } else {
        edges_of_pages(ps.drop_last()) + page_edges(ps.last())
    }
}

/// What ingesting a named input's bytes yields: the edge rows of every page
/// of the decoded document, or the first fatal error.
pub open spec fn spec_ingest(name: Seq<char>, data: Seq<u8>) -> Result<
    Seq<(Seq<char>, Seq<char>)>,
    ErrorView,
> {
    match spec_decode(classify_spec(name), data) {
        None => Err(ErrorView::Decode),
        Some(doc) => match spec_extract(doc_events(doc)) {
            RunView::Pages(ps) => Ok(edges_of_pages(ps)),
            RunView::Fail(e) => Err(e),
        },
    }
}

/// Decompression transparency: two inputs whose classified byte streams
/// decode to the same underlying markup yield the same ingestion outcome,
/// pages and edges alike.
pub proof fn lemma_decompression_transparency(
    name1: Seq<char>,
    data1: Seq<u8>,
    name2: Seq<char>,
    data2: Seq<u8>,
)
    requires
        spec_decode(classify_spec(name1), data1) == spec_decode(classify_spec(name2), data2),
    ensures
        spec_ingest(name1, data1) == spec_ingest(name2, data2),
{
}

/// Ingest one input held in memory: classify its name, decode the byte
/// stream, extract the pages, derive the edges, fill the store and build its
/// index. The store afterwards holds exactly the document's edge rows.
#[verifier::rlimit(60)]
pub fn ingest_bytes(file_name: &str, data: Vec<u8>) -> (r: Result<GraphStore, PipelineError>)
    ensures
        (match r {
            Ok(s) => spec_ingest(file_name@, data@) == Ok::<Seq<(Seq<char>, Seq<char>)>, ErrorView>(
                s.rows_view(),
            ) && s.spec_indexed(),
            Err(e) => spec_ingest(file_name@, data@) == Err::<
                Seq<(Seq<char>, Seq<char>)>,
                ErrorView,
            >(e@),
        }),
{
    let kind = classify_name(file_name);
    let doc = match decode_source(kind, data) {
        Ok(d) => d,
        Err(e) => {
            return Err(e);
        },
    };
    let mut rd = reader_from_bytes(doc);
    let pages = match extract_document(&mut rd) {
        Ok(ps) => ps,
        Err(e) => {
            return Err(e);
        },
    };
    let mut store = GraphStore::new();
    let ghost pv = pages_view(pages@);
    let mut i: usize = 0;
    proof {
        assert(pv.take(0) =~= Seq::<(Seq<char>, Seq<char>)>::empty());
        assert(store.rows_view() =~= edges_of_pages(pv.take(0)));
    }
    while i < pages.len()
        invariant
            i <= pages@.len(),
            pv == pages_view(pages@),
            !store.spec_indexed(),
            store.rows_view() == edges_of_pages(pv.take(i as int)),
        decreases pages@.len() - i,
    {
        let ghost base = store.rows_view();
        let ghost pe = page_edges(pv[i as int]);
        let ts = links(pages[i].text.as_str());
        let ghost tsv = ts@.map_values(|t: String| t@);
        proof {
            assert(pv[i as int] == pages@[i as int]@);
            assert(pe =~= tsv.map_values(|t: Seq<char>| (pages@[i as int].title@, t)));
        }
        let mut rem = ts;
        let total = rem.len();
        let mut j: usize = 0;
        proof {
            assert(base + pe.take(0) =~= base);
        }
        while j < total
            invariant
                j <= total,
                total == tsv.len(),
                rem@.len() == total - j,
                pe.len() == tsv.len(),
                rem@.map_values(|t: String| t@) == tsv.skip(j as int),
                pe == tsv.map_values(|t: Seq<char>| (pages@[i as int].title@, t)),
                i < pages@.len(),
                !store.spec_indexed(),
                store.rows_view() == base + pe.take(j as int),
            decreases total - j,
        {
            let ghost remv = rem@;
            let target = rem.remove(0);
            proof {
                assert(remv.map_values(|t: String| t@)[0] == target@);
                assert(remv.remove(0) =~= remv.drop_first());
                assert(remv.drop_first().map_values(|t: String| t@) =~= remv.map_values(
                    |t: String| t@,
                ).drop_first());
                assert(tsv.skip(j as int).drop_first() =~= tsv.skip(j + 1 as int));
                assert(target@ == tsv[j as int]);
                assert(pe[j as int] == (pages@[i as int].title@, tsv[j as int]));
            }
            let source = pages[i].title.clone();
            let edge = Edge { source, target };
            proof {
                assert(edge@ == pe[j as int]);
                assert((base + pe.take(j as int)).push(pe[j as int]) =~= base + pe.take(
                    j + 1 as int,
                ));
            }
            store.insert(edge);
            j = j + 1;
        }
        proof {
            assert(pe.take(pe.len() as int) =~= pe);
            assert(pv.take(i + 1 as int).drop_last() =~= pv.take(i as int));
            assert(pv.take(i + 1 as int).last() == pv[i as int]);
            assert(edges_of_pages(pv.take(i + 1 as int)) == edges_of_pages(pv.take(i as int))
                + page_edges(pv[i as int]));
        }
        i = i + 1;
    }
    proof {
        assert(pv.take(pv.len() as int) =~= pv);
    }
    store.build_index();
    Ok(store)
}

} // verus!
