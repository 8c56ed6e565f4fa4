use vstd::prelude::*;
use vstd::multiset::Multiset;
use crate::ready_task::ReadyTask;
use crate::order::{
    precedes, dominates, lemma_precedes_total, no_aging_pairs, lemma_dominant_exists,
    lemma_dominant_has_highest_class,
};
use crate::ready_task::rank_of;

verus! {

broadcast use vstd::seq_lib::group_to_multiset_ensures;

/// The queue of woken tasks waiting to be polled.
///
/// Its contents are a multiset of entries; `pop` hands out an entry that is
/// served no later than any other entry whenever such an entry exists.
pub struct ReadyQueue {
    items: Vec<ReadyTask>,
}

impl View for ReadyQueue {
    type V = Multiset<ReadyTask>;

    closed spec fn view(&self) -> Multiset<ReadyTask> {
        self.items@.to_multiset()
    }
}

impl ReadyQueue {
    /// An empty queue.
    pub fn new() -> (q: Self)
        ensures
            q@ == Multiset::<ReadyTask>::empty(),
    {
        let q = ReadyQueue { items: Vec::new() };
        proof {
            assert(q.items@ =~= Seq::<ReadyTask>::empty());
            assert(q.items@.to_multiset().len() == 0);
            assert(q.items@.to_multiset() =~= Multiset::<ReadyTask>::empty());
        }
        q
    }

    /// Adds an entry.
    pub fn push(&mut self, task: ReadyTask)
        ensures
            final(self)@ == old(self)@.insert(task),
    {
        self.items.push(task);
    }

    /// Whether no entry is waiting.
    pub fn is_empty(&self) -> (b: bool)
        ensures
            b == (self@.len() == 0),
    {
        self.items.len() == 0
    }

    /// Number of waiting entries.
    pub fn len(&self) -> (n: usize)
        ensures
            n == self@.len(),
    {
        self.items.len()
    }

    /// Removes and returns the entry to serve next.
    ///
    /// On an empty queue nothing changes and `None` comes back. Otherwise one
    /// entry of the queue is removed and returned, and whenever the queue
    /// holds an entry that is served no later than all others, the returned
    /// entry is such an entry. When the anti-starvation rule applies to no
    /// pair of queued entries, such an entry exists, and it belongs to the
    /// highest queued class.
    pub fn pop(&mut self) -> (r: Option<ReadyTask>)
        ensures
            r is None <==> old(self)@.len() == 0,
            r is None ==> final(self)@ == old(self)@,
            r matches Some(t) ==> {
                &&& old(self)@.count(t) > 0
                &&& final(self)@ == old(self)@.remove(t)
                &&& (exists|d: ReadyTask| old(self)@.count(d) > 0 && #[trigger] dominates(d, old(self)@))
                    ==> dominates(t, old(self)@)
                &&& no_aging_pairs(old(self)@) ==> dominates(t, old(self)@) && forall|x: ReadyTask|
                    #[trigger] old(self)@.count(x) > 0 ==> rank_of(x) <= rank_of(t)
            },
    {
        let n = self.items.len();
        if n == 0 {
            return None;
        }
        let ghost ms = self.items@.to_multiset();
        let mut best: usize = 0;
        let mut i: usize = 1;
        while i < n
            invariant
                n == self.items.len(),
                ms == self.items@.to_multiset(),
                0 <= best < i <= n,
                forall|j: int|
                    0 <= j < i && #[trigger] dominates(self.items@[j], ms) ==> dominates(
                        self.items@[best as int],
                        ms,
                    ),
            decreases n - i,
        {
            let ahead = self.items[i].serves_before(&self.items[best]);
            let ghost old_best = best;
            proof {
                let x = self.items@[i as int];
                let b = self.items@[old_best as int];
                assert(self.items@.contains(x));
                assert(self.items@.contains(b));
                assert(ms.count(x) > 0);
                assert(ms.count(b) > 0);
                lemma_precedes_total(x, b);
            }
            if ahead {
                best = i;
            }
            proof {
                assert forall|j: int|
                    0 <= j < i + 1 && #[trigger] dominates(self.items@[j], ms) implies dominates(
                    self.items@[best as int],
                    ms,
                ) by {
                    if j < i {
                        assert(dominates(self.items@[old_best as int], ms));
                    }
                }
            }
            i = i + 1;
        }
        let t = self.items.remove(best);
        proof {
            assert(self.items@ == old(self).items@.remove(best as int));
            assert(old(self).items@.contains(t));
            assert forall|d: ReadyTask| ms.count(d) > 0 && #[trigger] dominates(d, ms) implies dominates(t, ms) by {
                assert(old(self).items@.contains(d));
                let k = choose|k: int| 0 <= k < old(self).items@.len() && old(self).items@[k] == d;
                assert(dominates(old(self).items@[k], ms));
            }
            if no_aging_pairs(ms) {
                lemma_dominant_exists(ms);
                lemma_dominant_has_highest_class(ms, t);
            }
        }
        Some(t)
    }
}

} // verus!
