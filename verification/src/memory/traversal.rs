//! Breadth-first traversal of the memory network: which memory to expand
//! next, and which of its similar memories join the queue. Finding similar
//! memories is the store's work; the traversal takes what it found.

use vstd::prelude::*;
use crate::models::memory::{Memory, MemoryView};
use crate::text::str_eq;

verus! {

/// The identifiers of a sequence of memories.
pub open spec fn memory_ids(ms: Seq<MemoryView>) -> Seq<Seq<char>> {
    ms.map_values(|m: MemoryView| m.id)
}

/// The views of a sequence of memories.
pub open spec fn memory_views(ms: Seq<Memory>) -> Seq<MemoryView> {
    ms.map_values(|m: Memory| m@)
}

/// The views of the queued memories, with their depths.
pub open spec fn queue_views(q: Seq<(Memory, usize)>) -> Seq<(MemoryView, usize)> {
    q.map_values(|e: (Memory, usize)| (e.0@, e.1))
}

/// The first queue position at or after `from` whose memory lies within the
/// depth limit and has not been visited.
pub open spec fn first_expandable(
    q: Seq<(MemoryView, usize)>,
    from: int,
    visited: Seq<Seq<char>>,
    max_depth: usize,
) -> Option<int>
    decreases q.len() - from,
{
    if from < 0 || from >= q.len() {
        None
    } else if q[from].1 < max_depth && !visited.contains(q[from].0.id) {
        Some(from)
    } else {
        first_expandable(q, from + 1, visited, max_depth)
    }
}

/// The similar memories that join the queue, at depth `depth`: those not
/// visited, in the order they were found.
pub open spec fn enqueued(s: Seq<MemoryView>, visited: Seq<Seq<char>>, depth: usize) -> Seq<(MemoryView, usize)>
    decreases s.len(),
{
    if s.len() == 0 {
        Seq::empty()
    } else {
        let rest = enqueued(s.drop_last(), visited, depth);
        if visited.contains(s.last().id) {
            rest
        } else {
            rest.push((s.last(), depth))
        }
    }
}

/// Whether `m` was taken from the queue, before position `head`, at a depth
/// within the limit.
pub open spec fn reached_within(q: Seq<(MemoryView, usize)>, head: int, m: MemoryView, max_depth: usize) -> bool {
    exists|k: int| 0 <= k < head && #[trigger] q[k] == (m, q[k].1) && q[k].1 < max_depth
}

/// A breadth-first traversal of memories: the memories visited so far, in
/// order, and the queue of memories still to look at with their depths.
pub struct MemoryTraversal {
    /// How deep the traversal goes: memories at this depth or beyond are not visited
    pub max_depth: usize,
    /// The memories visited, in the order they were visited
    pub result: Vec<Memory>,
    /// The memories found, with their depths, in the order they were found
    pub queue: Vec<(Memory, usize)>,
    /// The position in the queue of the next memory to look at
    pub head: usize,
    /// The depth of the memory visited last
    pub depth: usize,
}

impl MemoryTraversal {
    /// The identifiers of the memories visited so far.
    pub open spec fn visited(&self) -> Seq<Seq<char>> {
        memory_ids(memory_views(self.result@))
    }

    /// The traversal's invariant: no memory is visited twice, every visited
    /// memory was taken from the queue within the depth limit, and the last
    /// visit lies within it.
    pub open spec fn wf(&self) -> bool {
        &&& self.head <= self.queue@.len()
        &&& self.visited().no_duplicates()
        &&& forall|i: int| 0 <= i < self.result@.len() ==> reached_within(
            queue_views(self.queue@),
            self.head as int,
            #[trigger] memory_views(self.result@)[i],
            self.max_depth,
        )
        &&& self.result@.len() > 0 ==> self.depth < self.max_depth
    }

    /// A traversal from `start` (none, when the start memory was not found),
    /// going at most `max_depth` levels deep.
    pub fn new(start: Option<Memory>, max_depth: usize) -> (t: Self)
        ensures
            t.wf(),
            t.max_depth == max_depth,
            t.result@.len() == 0,
            t.head == 0,
            t.depth == 0,
            queue_views(t.queue@) == match start {
                Some(m) => seq![(m@, 0usize)],
                None => Seq::<(MemoryView, usize)>::empty(),
            },
    {
        let mut queue: Vec<(Memory, usize)> = Vec::new();
        match start {
            Some(m) => {
                queue.push((m, 0));
            },
            None => {},
        }
        let t = MemoryTraversal { max_depth, result: Vec::new(), queue, head: 0, depth: 0 };
        assert(t.visited() =~= Seq::<Seq<char>>::empty());
        assert(queue_views(t.queue@) =~= match start {
            Some(m) => seq![(m@, 0usize)],
            None => Seq::<(MemoryView, usize)>::empty(),
        });
        t
    }

    /// Whether a memory with identifier `id` has been visited.
    pub fn has_visited(&self, id: &str) -> (r: bool)
        ensures
            r == self.visited().contains(id@),
    {
        let mut i: usize = 0;
        while i < self.result.len()
            invariant
                i <= self.result@.len(),
                forall|j: int| 0 <= j < i ==> self.visited()[j] != id@,
            decreases self.result.len() - i,
        {
            assert(self.visited()[i as int] == self.result@[i as int].id@);
            if str_eq(self.result[i].id.as_str(), id) {
                return true;
            }
            i += 1;
        }
        false
    }

    /// The next memory to expand: the first one left in the queue that lies
    /// within the depth limit and has not been visited. It is visited now:
    /// added to the result, with its depth kept for the memories found from
    /// it. None when the queue is used up.
    pub fn next(&mut self) -> (r: Option<Memory>)
        requires
            old(self).wf(),
        ensures
            final(self).wf(),
            final(self).max_depth == old(self).max_depth,
            final(self).queue@ == old(self).queue@,
            match first_expandable(
                queue_views(old(self).queue@),
                old(self).head as int,
                old(self).visited(),
                old(self).max_depth,
            ) {
                Some(k) => {
                    &&& r matches Some(m) && m@ == queue_views(old(self).queue@)[k].0
                    &&& final(self).head == k + 1
                    &&& final(self).depth == old(self).queue@[k].1
                    &&& memory_views(final(self).result@) == memory_views(old(self).result@).push(
                        queue_views(old(self).queue@)[k].0,
                    )
                },
                None => {
                    &&& r is None
                    &&& final(self).head == old(self).queue@.len()
                    &&& final(self).depth == old(self).depth
                    &&& final(self).result@ == old(self).result@
                },
            },
    {
        let ghost q = queue_views(self.queue@);
        let ghost h0 = self.head as int;
        let ghost v = self.visited();
        while self.head < self.queue.len()
            invariant
                self.wf(),
                h0 <= self.head <= self.queue@.len(),
                self.max_depth == old(self).max_depth,
                self.queue@ == old(self).queue@,
                self.result@ == old(self).result@,
                self.depth == old(self).depth,
                q == queue_views(self.queue@),
                v == self.visited(),
                h0 == old(self).head,
                first_expandable(q, h0, v, self.max_depth) == first_expandable(
                    q,
                    self.head as int,
                    v,
                    self.max_depth,
                ),
            decreases self.queue.len() - self.head,
        {
            let k = self.head;
            self.head = k + 1;
            let d = self.queue[k].1;
            assert(q[k as int] == (self.queue@[k as int].0@, d));
            if d < self.max_depth && !self.has_visited(self.queue[k].0.id.as_str()) {
                let m = self.queue[k].0.copy();
                let ghost old_views = memory_views(self.result@);
                let ghost old_head = self.head;
                self.result.push(m.copy());
                self.depth = d;
                proof {
                    assert(memory_views(self.result@) =~= old_views.push(m@));
                    assert(self.visited() =~= v.push(m@.id));
                    assert(reached_within(q, self.head as int, m@, self.max_depth));
                    assert forall|i: int| 0 <= i < self.result@.len() implies reached_within(
                        queue_views(self.queue@),
                        self.head as int,
                        #[trigger] memory_views(self.result@)[i],
                        self.max_depth,
                    ) by {
                        if i < old_views.len() {
                            assert(memory_views(self.result@)[i] == old_views[i]);
                            let w = choose|w: int| 0 <= w < k && #[trigger] q[w] == (old_views[i], q[w].1)
                                && q[w].1 < self.max_depth;
                            assert(q[w] == (memory_views(self.result@)[i], q[w].1));
                        }
                    }
                }
                return Some(m);
            }
        }
        None
    }

    /// Let the memories found similar to the one visited last join the queue,
    /// one level deeper: those not visited yet, in the order found.
    pub fn absorb(&mut self, similar: Vec<Memory>)
        requires
            old(self).wf(),
            old(self).result@.len() > 0,
        ensures
            final(self).wf(),
            final(self).max_depth == old(self).max_depth,
            final(self).head == old(self).head,
            final(self).depth == old(self).depth,
            final(self).result@ == old(self).result@,
            queue_views(final(self).queue@) == queue_views(old(self).queue@) + enqueued(
                memory_views(similar@),
                old(self).visited(),
                (old(self).depth + 1) as usize,
            ),
    {
        let next_depth = self.depth + 1;
        let ghost q0 = queue_views(self.queue@);
        let ghost s = memory_views(similar@);
        let ghost v = self.visited();
        let mut i: usize = 0;
        while i < similar.len()
            invariant
                i <= similar@.len(),
                s == memory_views(similar@),
                v == self.visited(),
                self.max_depth == old(self).max_depth,
                self.head == old(self).head,
                self.depth == old(self).depth,
                self.result@ == old(self).result@,
                next_depth == old(self).depth + 1,
                old(self).wf(),
                q0 == queue_views(old(self).queue@),
                queue_views(self.queue@) == q0 + enqueued(s.take(i as int), v, next_depth),
            decreases similar.len() - i,
        {
            let ghost before = queue_views(self.queue@);
            assert(s.take(i + 1).drop_last() =~= s.take(i as int));
            assert(s.take(i + 1).last() == similar@[i as int]@);
            if !self.has_visited(similar[i].id.as_str()) {
                self.queue.push((similar[i].copy(), next_depth));
                assert(queue_views(self.queue@) =~= before.push((similar@[i as int]@, next_depth)));
            }
            i += 1;
        }
        assert(s.take(similar@.len() as int) =~= s);
        proof {
            let qn = queue_views(self.queue@);
            assert(qn.len() >= q0.len());
            assert forall|j: int| 0 <= j < q0.len() implies #[trigger] qn[j] == q0[j] by {}
            assert forall|i: int| 0 <= i < self.result@.len() implies reached_within(
                queue_views(self.queue@),
                self.head as int,
                #[trigger] memory_views(self.result@)[i],
                self.max_depth,
            ) by {
                assert(reached_within(q0, self.head as int, memory_views(self.result@)[i], self.max_depth));
                let w = choose|w: int| 0 <= w < self.head && #[trigger] q0[w] == (memory_views(self.result@)[i], q0[w].1)
                    && q0[w].1 < self.max_depth;
                assert(qn[w] == q0[w]);
            }
        }
    }

    /// The memories visited, in the order visited.
    pub fn into_result(self) -> (r: Vec<Memory>)
        ensures
            r@ == self.result@,
    {
        self.result
    }
}

} // verus!
