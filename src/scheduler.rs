use vstd::prelude::*;

use crate::task::Task;
use std::collections::VecDeque;

verus! {

/// A policy that makes a task runnable again by putting it on the run
/// queue, at the back for normal scheduling or at the front for priority.
pub trait Schedule {
    /// Whether this policy always appends at the back (FIFO).
    spec fn appends(&self) -> bool;

    fn schedule(&self, queue: &mut TaskQueue, task: Task)
        ensures
            final(queue)@ == old(queue)@.push(task) || (!self.appends() && final(queue)@ == seq![task]
                + old(queue)@),
    ;
}

/// FIFO run queue of one runtime.
pub struct TaskQueue {
    queue: VecDeque<Task>,
}

impl View for TaskQueue {
    type V = Seq<Task>;

    closed spec fn view(&self) -> Seq<Task> {
        self.queue@
    }
}

pub const DEFAULT_TASK_QUEUE_SIZE: usize = 512;

impl TaskQueue {
    pub fn new() -> (r: TaskQueue)
        ensures
            r@ == Seq::<Task>::empty(),
    {
        Self::new_with_capacity(DEFAULT_TASK_QUEUE_SIZE)
    }

    pub fn new_with_capacity(capacity: usize) -> (r: TaskQueue)
        ensures
            r@ == Seq::<Task>::empty(),
    {
        TaskQueue { queue: VecDeque::with_capacity(capacity) }
    }

    pub fn push_back(&mut self, task: Task)
        ensures
            final(self)@ == old(self)@.push(task),
    {
        self.queue.push_back(task);
    }

    pub fn push_front(&mut self, task: Task)
        ensures
            final(self)@ == seq![task] + old(self)@,
    {
        self.queue.push_front(task);
        assert(self@ =~= seq![task] + old(self)@);
    }

    pub fn pop(&mut self) -> (r: Option<Task>)
        ensures
            old(self)@.len() == 0 ==> r is None && final(self)@ == old(self)@,
            old(self)@.len() > 0 ==> r == Some(old(self)@[0]) && final(self)@ == old(self)@.drop_first(),
    {
        let r = self.queue.pop_front();
        proof {
            if old(self)@.len() > 0 {
                assert(self@ =~= old(self)@.drop_first());
            }
        }
        r
    }

    pub fn len(&self) -> (r: usize)
        ensures
            r == self@.len(),
    {
        self.queue.len()
    }
}

/// The default policy: append to the run queue.
pub struct LocalScheduler;

impl Schedule for LocalScheduler {
    open spec fn appends(&self) -> bool {
        true
    }

    fn schedule(&self, queue: &mut TaskQueue, task: Task) {
        queue.push_back(task);
    }
}

/// One bounded drain of a queue: with `L` tasks queued when the pass
/// starts, it hands out at most `2 * L` tasks, so a task that keeps
/// re-queueing itself cannot hold the loop.
pub struct DrainPass {
    budget: usize,
    taken: usize,
    start_len: usize,
}

impl DrainPass {
    pub closed spec fn start_len(&self) -> nat {
        self.start_len as nat
    }

    pub closed spec fn taken(&self) -> nat {
        self.taken as nat
    }

    pub closed spec fn wf(&self) -> bool {
        &&& self.taken + self.budget == 2 * self.start_len
        &&& self.start_len <= usize::MAX / 2
    }

    /// A pass over `queue` as it stands now (a length beyond half the
    /// address space, which no queue reaches, is capped there).
    pub fn start(queue: &TaskQueue) -> (r: DrainPass)
        ensures
            r.wf(),
            queue@.len() <= usize::MAX / 2 ==> r.start_len() == queue@.len(),
            r.start_len() <= queue@.len(),
            r.start_len() <= usize::MAX / 2,
            queue@.len() > 0 ==> r.start_len() > 0,
            r.taken() == 0,
    {
        let len = queue.len();
        let len = if len <= usize::MAX / 2 {
            len
        } else {
            usize::MAX / 2
        };
        DrainPass { budget: len * 2, taken: 0, start_len: len }
    }

    /// A pass over a queue that holds `count` items now but that this
    /// pass does not own (such as one that other threads fill): it allows
    /// at most `2 * count` items to be taken (see `take`).
    pub fn with_count(count: usize) -> (r: DrainPass)
        ensures
            r.wf(),
            count <= usize::MAX / 2 ==> r.start_len() == count,
            r.start_len() <= count,
            count > 0 ==> r.start_len() > 0,
            r.taken() == 0,
    {
        let len = if count <= usize::MAX / 2 {
            count
        } else {
            usize::MAX / 2
        };
        DrainPass { budget: len * 2, taken: 0, start_len: len }
    }

    /// Whether one more item may be taken in this pass; counts it if so.
    pub fn take(&mut self) -> (r: bool)
        requires
            old(self).wf(),
        ensures
            final(self).wf(),
            final(self).start_len() == old(self).start_len(),
            r == (old(self).taken() < 2 * old(self).start_len()),
            r ==> final(self).taken() == old(self).taken() + 1,
            !r ==> final(self).taken() == old(self).taken(),
            final(self).taken() <= 2 * final(self).start_len(),
    {
        if self.budget == 0 {
            return false;
        }
        self.budget = self.budget - 1;
        self.taken = self.taken + 1;
        true
    }

    /// How many more tasks this pass may hand out.
    pub fn remaining(&self) -> (r: usize)
        requires
            self.wf(),
        ensures
            r == 2 * self.start_len() - self.taken(),
    {
        self.budget
    }

    /// The next task of this pass, or `None` once the queue is empty or the
    /// pass has handed out twice the starting length.
    pub fn next(&mut self, queue: &mut TaskQueue) -> (r: Option<Task>)
        requires
            old(self).wf(),
        ensures
            final(self).wf(),
            final(self).start_len() == old(self).start_len(),
            final(self).taken() <= 2 * final(self).start_len(),
            final(self).start_len() <= usize::MAX / 2,
            old(self).taken() < 2 * old(self).start_len() && old(queue)@.len() > 0 ==> {
                &&& r == Some(old(queue)@[0])
                &&& final(queue)@ == old(queue)@.drop_first()
                &&& final(self).taken() == old(self).taken() + 1
            },
            !(old(self).taken() < 2 * old(self).start_len() && old(queue)@.len() > 0) ==> {
                &&& r is None
                &&& final(queue)@ == old(queue)@
                &&& final(self).taken() == old(self).taken()
            },
    {
        if self.budget == 0 {
            return None;
        }
        let r = queue.pop();
        if r.is_some() {
            self.budget = self.budget - 1;
            self.taken = self.taken + 1;
        }
        r
    }
}

} // verus!
