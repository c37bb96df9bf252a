//! Bounded hand-off queue between pipeline stages. A full queue refuses new
//! items, which is the backpressure discipline: the number of in-flight items
//! never exceeds the configured bound, however fast the producer runs.

use vstd::prelude::*;
use crate::Page;

verus! {

/// A FIFO hand-off queue with a fixed capacity bound.
pub struct PageQueue {
    items: Vec<Page>,
    capacity: usize,
}

impl PageQueue {
    /// The in-flight records, front first.
    pub closed spec fn view(&self) -> Seq<(Seq<char>, Seq<char>)> {
        self.items@.map_values(|p: Page| p@)
    }

    /// The configured bound.
    pub closed spec fn spec_capacity(&self) -> nat {
        self.capacity as nat
    }

    /// The queue never holds more than its bound.
    pub open spec fn well_formed(&self) -> bool {
        self.view().len() <= self.spec_capacity()
    }

    /// An empty queue with the given bound.
    pub fn new(capacity: usize) -> (q: PageQueue)
        requires
            capacity >= 1,
        ensures
            q.well_formed(),
            q.view() == Seq::<(Seq<char>, Seq<char>)>::empty(),
            q.spec_capacity() == capacity,
    {
        let q = PageQueue { items: Vec::new(), capacity };
        proof {
            assert(q.view() =~= Seq::<(Seq<char>, Seq<char>)>::empty());
        }
        q
    }

    /// Hand a record to the queue. It is accepted exactly when the queue is
    /// not full; a refused record comes back unchanged and the queue is left
    /// as it was, so the producer must hold the record and retry — the
    /// in-flight count never passes the bound.
    pub fn offer(&mut self, p: Page) -> (refused: Option<Page>)
        requires
            old(self).well_formed(),
        ensures
            final(self).well_formed(),
            final(self).spec_capacity() == old(self).spec_capacity(),
            refused is None <==> old(self).view().len() < old(self).spec_capacity(),
            refused is None ==> final(self).view() == old(self).view().push(p@),
            refused matches Some(q) ==> q@ == p@ && final(self).view() == old(self).view(),
    {
        if self.items.len() < self.capacity {
            let ghost pre = self.items@;
            self.items.push(p);
            proof {
                assert(self.view() =~= pre.map_values(|q: Page| q@).push(p@));
            }
            None
        } else {
            Some(p)
        }
    }

    /// Take the oldest in-flight record, if any: FIFO order is preserved.
    pub fn take(&mut self) -> (r: Option<Page>)
        requires
            old(self).well_formed(),
        ensures
            final(self).well_formed(),
            final(self).spec_capacity() == old(self).spec_capacity(),
            old(self).view().len() == 0 ==> r is None && final(self).view() == old(self).view(),
            old(self).view().len() > 0 ==> (r matches Some(p) && p@ == old(self).view()[0]
                && final(self).view() == old(self).view().drop_first()),
    {
        if self.items.len() == 0 {
            None
        } else {
            let ghost pre = self.items@;
            let p = self.items.remove(0);
            proof {
                assert(self.view() =~= pre.map_values(|q: Page| q@).drop_first());
            }
            Some(p)
        }
    }

    /// How many records are in flight.
    pub fn len(&self) -> (n: usize)
        ensures
            n == self.view().len(),
    {
        self.items.len()
    }

    /// The configured bound.
    pub fn capacity(&self) -> (c: usize)
        ensures
            c == self.spec_capacity(),
    {
        self.capacity
    }
}

} // verus!
