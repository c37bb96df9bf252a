//! The graph store sink: an append-only table of `(source, target)` rows.
//! Rows are never lost, reordered or deduplicated relative to the input
//! stream; after the stream is exhausted the index is built for lookups.

use vstd::prelude::*;
use crate::Edge;

verus! {

/// The row sequence a vector of edges stands for.
pub open spec fn edges_view(es: Seq<Edge>) -> Seq<(Seq<char>, Seq<char>)> {
    es.map_values(|e: Edge| e@)
}

/// An append-only store of edge rows with two text columns.
#[derive(Debug)]
pub struct GraphStore {
    rows: Vec<Edge>,
    indexed: bool,
}

impl GraphStore {
    /// The rows the store holds, in insertion order.
    pub closed spec fn rows_view(&self) -> Seq<(Seq<char>, Seq<char>)> {
        edges_view(self.rows@)
    }

    /// Has the composite index been built?
    pub closed spec fn spec_indexed(&self) -> bool {
        self.indexed
    }

    /// An empty store: the table exists and holds no rows.
    pub fn new() -> (s: GraphStore)
        ensures
            s.rows_view() == Seq::<(Seq<char>, Seq<char>)>::empty(),
            !s.spec_indexed(),
    {
        let s = GraphStore { rows: Vec::new(), indexed: false };
        proof {
            assert(s.rows_view() =~= Seq::<(Seq<char>, Seq<char>)>::empty());
        }
        s
    }

    /// Append one row. No row is lost or duplicated: the store afterwards
    /// holds exactly the old rows followed by the new one.
    pub fn insert(&mut self, e: Edge)
        requires
            !old(self).spec_indexed(),
        ensures
            final(self).rows_view() == old(self).rows_view().push(e@),
            !final(self).spec_indexed(),
    {
        let ghost pre = self.rows@;
        self.rows.push(e);
        proof {
            assert(edges_view(pre.push(e)) =~= edges_view(pre).push(e@));
        }
    }

    /// Append a batch of rows in order.
    pub fn insert_all(&mut self, mut es: Vec<Edge>)
        requires
            !old(self).spec_indexed(),
        ensures
            final(self).rows_view() == old(self).rows_view() + edges_view(es@),
            !final(self).spec_indexed(),
    {
        let ghost input = es@;
        let ghost pre = self.rows_view();
        let total = es.len();
        let mut i: usize = 0;
        proof {
            assert(pre + edges_view(input.subrange(0, 0)) =~= pre);
        }
        while es.len() > 0
            invariant
                i <= total,
                total == input.len(),
                es@ == input.skip(i as int),
                self.rows_view() == pre + edges_view(input.subrange(0, i as int)),
                !self.spec_indexed(),
            decreases es@.len(),
        {
            let e = es.remove(0);
            proof {
                assert(input.skip(i as int)[0] == input[i as int]);
                assert(input.skip(i as int).remove(0) =~= input.skip(i + 1 as int));
                assert(self.rows_view().push(e@) =~= pre + edges_view(
                    input.subrange(0, i + 1 as int),
                ));
            }
            self.insert(e);
            i = i + 1;
        }
        proof {
            assert(input.subrange(0, input.len() as int) =~= input);
        }
    }

    /// Build the composite index over the two columns; the rows themselves
    /// are untouched.
    pub fn build_index(&mut self)
        ensures
            final(self).rows_view() == old(self).rows_view(),
            final(self).spec_indexed(),
    {
        self.indexed = true;
    }

    /// Read the table back: the rows, in insertion order.
    pub fn rows(&self) -> (r: &Vec<Edge>)
        ensures
            edges_view(r@) == self.rows_view(),
    {
        &self.rows
    }

    /// Has the composite index been built?
    pub fn is_indexed(&self) -> (b: bool)
        ensures
            b == self.spec_indexed(),
    {
        self.indexed
    }

    /// How many rows the table holds.
    pub fn len(&self) -> (n: usize)
        ensures
            n == self.rows_view().len(),
    {
        self.rows.len()
    }
}

/// Round trip: a store that was filled from an empty table by appends holds
/// exactly the inserted rows, so reading the table back yields exactly that
/// multiset of rows — order preserved, duplicates preserved, nothing lost.
pub proof fn lemma_store_round_trip(s: GraphStore, inserted: Seq<(Seq<char>, Seq<char>)>)
    requires
        s.rows_view() == Seq::<(Seq<char>, Seq<char>)>::empty() + inserted,
    ensures
        s.rows_view().to_multiset() == inserted.to_multiset(),
        s.rows_view().len() == inserted.len(),
{
    assert(Seq::<(Seq<char>, Seq<char>)>::empty() + inserted =~= inserted);
}

} // verus!
