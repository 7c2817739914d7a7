//! A pending-task queue for one scheduler lane.
//!
//! Tasks are dequeued in priority order; among tasks of equal priority the
//! one enqueued first leaves first.  The tie-break is part of the contract:
//! dequeueing picks the earliest-enqueued task of maximal priority, so the
//! order of a lane is deterministic.

use vstd::prelude::*;

use crate::task::Task;

verus! {

/// Pending tasks of one lane, in arrival order.
#[derive(Debug)]
pub struct TaskQueue {
    items: Vec<Task>,
}

impl View for TaskQueue {
    type V = Seq<Task>;

    closed spec fn view(&self) -> Seq<Task> {
        self.items@
    }
}

impl TaskQueue {
    /// `i` is the position dequeueing picks from `s`: the first position
    /// whose priority no other pending task exceeds.
    pub open spec fn picks(s: Seq<Task>, i: int) -> bool {
        &&& 0 <= i < s.len()
        &&& forall|j: int|
            0 <= j < s.len() ==> s[j].priority.rank_spec() <= s[i].priority.rank_spec()
        &&& forall|j: int| 0 <= j < i ==> s[j].priority.rank_spec() < s[i].priority.rank_spec()
    }

    pub fn new() -> (r: TaskQueue)
        ensures
            r@ == Seq::<Task>::empty(),
    {
        TaskQueue { items: Vec::new() }
    }

    pub fn len(&self) -> (n: usize)
        ensures
            n == self@.len(),
    {
        self.items.len()
    }

    /// Add a task at the back; enqueueing never blocks and never reorders
    /// what is already pending.
    pub fn enqueue(&mut self, task: Task)
        ensures
            final(self)@ == old(self)@.push(task),
    {
        self.items.push(task);
    }

    /// Remove and return the earliest-enqueued task of maximal priority,
    /// or nothing if the lane is idle.
    pub fn dequeue(&mut self) -> (r: Option<Task>)
        ensures
            old(self)@.len() == 0 ==> r == None::<Task> && final(self)@ == old(self)@,
            old(self)@.len() > 0 ==> (exists|i: int|
                #[trigger] Self::picks(old(self)@, i) && r == Some(old(self)@[i])
                    && final(self)@ == old(self)@.remove(i)),
    {
        if self.items.len() == 0 {
            return None;
        }
        let ghost s: Seq<Task> = self.items@;
        let mut best: usize = 0;
        let mut best_rank: u8 = self.items[0].priority.rank();
        let mut j: usize = 1;
        while j < self.items.len()
            invariant
                self.items@ == s,
                1 <= j <= s.len(),
                best < j,
                best_rank == s[best as int].priority.rank_spec(),
                forall|k: int| 0 <= k < j ==> s[k].priority.rank_spec() <= best_rank,
                forall|k: int| 0 <= k < best ==> s[k].priority.rank_spec() < best_rank,
            decreases s.len() - j,
        {
            let rk = self.items[j].priority.rank();
            if rk > best_rank {
                best = j;
                best_rank = rk;
            }
            j = j + 1;
        }
        assert(Self::picks(s, best as int));
        let t = self.items.remove(best);
        Some(t)
    }
}

/// The dequeue position of a queue is unique: the contract of `dequeue`
/// pins a single position, so a lane's order is deterministic.
pub proof fn lemma_pick_unique(s: Seq<Task>, i1: int, i2: int)
    requires
        TaskQueue::picks(s, i1),
        TaskQueue::picks(s, i2),
    ensures
        i1 == i2,
{
    if i1 < i2 {
        assert(s[i1].priority.rank_spec() < s[i2].priority.rank_spec());
        assert(s[i2].priority.rank_spec() <= s[i1].priority.rank_spec());
    } else if i2 < i1 {
        assert(s[i2].priority.rank_spec() < s[i1].priority.rank_spec());
        assert(s[i1].priority.rank_spec() <= s[i2].priority.rank_spec());
    }
}

/// Priority ordering: while a higher-priority task is pending in the same
/// lane, a lower-priority one is never the task that leaves, whenever it
/// was enqueued.  With the deterministic tie-break of `picks`, a task
/// enqueued as High before the queue is next drained therefore leaves
/// before a Low task that was enqueued earlier.
pub proof fn lemma_priority_order(s: Seq<Task>, low: int, high: int, i: int)
    requires
        0 <= low < s.len(),
        0 <= high < s.len(),
        s[low].priority.rank_spec() < s[high].priority.rank_spec(),
        TaskQueue::picks(s, i),
    ensures
        i != low,
{
    if i == low {
        assert(s[high].priority.rank_spec() <= s[low].priority.rank_spec());
    }
}

} // verus!
