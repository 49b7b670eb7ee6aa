use vstd::prelude::*;

use crate::scheduler::{DrainPass, Schedule, TaskQueue};
use crate::task::{
    new_blocking_task, new_task, read_output, Context, JoinHandle, Poll, RefOp, Stage, Task, TaskArena, TaskFuture,
    TaskHandle, Waker, ref_step,
};

verus! {

/// The single-threaded core of a runtime: its tasks, its run queue, the
/// policy that re-queues woken tasks, and how many spawned tasks have not
/// finished yet.
pub struct Runtime<F, T, S> {
    pub tasks: TaskQueue,
    pub scheduler: S,
    pub arena: TaskArena<F, T>,
    pub task_count: usize,
    pub id: u32,
}

impl<F, T, S: Schedule> Runtime<F, T, S> {
    pub open spec fn wf(&self) -> bool {
        self.arena.wf()
    }

    pub fn new(scheduler: S, id: u32) -> (r: Self)
        ensures
            r.wf(),
            r.tasks@.len() == 0,
            r.task_count == 0,
            r.id == id,
            forall|raw| !r.arena.live(raw),
    {
        Runtime { tasks: TaskQueue::new(), scheduler, arena: TaskArena::new(), task_count: 0, id }
    }

    /// Schedules the task of a consumed waker (as the reactor hands them
    /// back); a waker whose task is gone schedules nothing.
    pub fn wake(&mut self, waker: Waker) -> (r: bool)
        requires
            old(self).wf(),
        ensures
            final(self).wf(),
            r == old(self).arena.live(waker@),
            r ==> final(self).tasks@.len() == old(self).tasks@.len() + 1,
            !r ==> final(self).tasks@ == old(self).tasks@,
            final(self).arena == old(self).arena,
            final(self).task_count == old(self).task_count,
    {
        waker.wake_by_val(&self.arena, &self.scheduler, &mut self.tasks)
    }

    /// Settles one poll of `task` (see `Task::finish_poll`); a task that
    /// finishes stops counting as outstanding.
    pub fn finish_task(&mut self, task: Task, future: F, cx: Context, outcome: Poll<T>) -> (r: bool)
        requires
            old(self).wf(),
        ensures
            final(self).wf(),
            ({
                let raw = task@;
                let a = old(self).arena;
                let b = final(self).arena;
                let taken = a.live(raw) && a.stage(raw) is Pending;
                let j = a.joiner(raw)->0@;
                let wakes_joiner = outcome is Ready && taken && a.joiner(raw) is Some && a.live(j)
                    && a.refs(j) < usize::MAX;
                &&& r == (outcome is Ready && taken)
                &&& taken && a.refs(raw) >= 2 ==> b.live(raw)
                &&& r && b.live(raw) ==> b.stage(raw) == Stage::<F, T>::Finished(outcome->Ready_0)
                &&& outcome is Pending && taken && b.live(raw) ==> b.stage(raw) == Stage::<F, T>::Runnable(
                    future,
                )
                &&& wakes_joiner ==> final(self).tasks@.len() == old(self).tasks@.len() + 1 && (final(self).tasks@.last()@ == j || final(self).tasks@[0]@ == j)
                &&& wakes_joiner && old(self).scheduler.appends() ==> final(self).tasks@.drop_last() == old(self).tasks@ && final(self).tasks@.last()@ == j
            }),
            r ==> final(self).task_count == if old(self).task_count > 0 {
                old(self).task_count - 1
            } else {
                0
            },
            !r ==> final(self).task_count == old(self).task_count,
            final(self).tasks@.len() <= old(self).tasks@.len() + 1,
    {
        let done = task.finish_poll(&mut self.arena, &self.scheduler, &mut self.tasks, future, cx, outcome);
        if done && self.task_count > 0 {
            self.task_count = self.task_count - 1;
        }
        done
    }

    /// The root task's output, looked at only once no spawned task is
    /// outstanding (see `read_output`); no joiner is registered.
    pub fn poll_root(&mut self, root: &JoinHandle<T>) -> (r: Poll<T>)
        requires
            old(self).wf(),
        ensures
            final(self).wf(),
            final(self).task_count == old(self).task_count,
            final(self).tasks@ == old(self).tasks@,
            old(self).task_count > 0 || !old(self).arena.live(root@) ==> r is Pending && final(self).arena
                == old(self).arena,
            old(self).task_count == 0 && old(self).arena.live(root@) ==> {
                &&& (r, final(self).arena.stage(root@)) == read_output(old(self).arena.stage(root@))
                &&& final(self).arena.live(root@)
                &&& final(self).arena.others_unchanged(&old(self).arena, root@)
            },
    {
        if self.task_count == 0 {
            root.try_join(&mut self.arena)
        } else {
            Poll::Pending
        }
    }

    /// Hands back the output of a blocking computation that a worker ran
    /// for `task`: the task finishes, its registered joiner is woken, it no
    /// longer counts as outstanding, and the worker's handle is released.
    pub fn complete_blocking(&mut self, task: Task, output: T) -> (r: bool)
        requires
            old(self).wf(),
        ensures
            final(self).wf(),
            ({
                let raw = task@;
                let a = old(self).arena;
                let b = final(self).arena;
                let taken = a.live(raw) && a.stage(raw) is Pending;
                let j = a.joiner(raw)->0@;
                let wakes_joiner = taken && a.joiner(raw) is Some && a.live(j) && a.refs(j) < usize::MAX;
                &&& r == taken
                &&& taken && a.refs(raw) >= 2 ==> b.live(raw)
                &&& r && b.live(raw) ==> b.stage(raw) == Stage::<F, T>::Finished(output)
                &&& wakes_joiner ==> final(self).tasks@.len() == old(self).tasks@.len() + 1 && (final(self).tasks@.last()@ == j || final(self).tasks@[0]@ == j)
                &&& wakes_joiner && old(self).scheduler.appends() ==> final(self).tasks@.drop_last() == old(self).tasks@ && final(self).tasks@.last()@ == j
                &&& !wakes_joiner ==> final(self).tasks@ == old(self).tasks@
            }),
            r ==> final(self).task_count == if old(self).task_count > 0 {
                old(self).task_count - 1
            } else {
                0
            },
            !r ==> final(self).task_count == old(self).task_count,
    {
        let raw = task.raw();
        let done = self.arena.finish(raw, output);
        if done {
            let ghost a1 = self.arena;
            match self.arena.join_waker_raw(raw) {
                Some(joiner) => {
                    proof {
                        let j = old(self).arena.joiner(raw)->0@;
                        assert(joiner == j);
                        if joiner != raw {
                            assert(a1.live(j) == old(self).arena.live(j));
                            if old(self).arena.live(j) {
                                assert(a1.entity(j) == old(self).arena.entity(j));
                            }
                        }
                    }
                    TaskHandle::from_raw(joiner).wake_by_ref(
                        &mut self.arena,
                        &self.scheduler,
                        &mut self.tasks,
                    );
                },
                None => {},
            }
            if self.task_count > 0 {
                self.task_count = self.task_count - 1;
            }
        }
        task.release(&mut self.arena);
        done
    }
}

/// Spawns `future` on the runtime: a new task, counted as outstanding and
/// queued at the back of the run queue. Returns its join handle.
pub fn spawn<F, T, S: Schedule>(rt: &mut Runtime<F, T, S>, future: F) -> (r: JoinHandle<T>)
    requires
        old(rt).wf(),
        old(rt).task_count < usize::MAX,
    ensures
        final(rt).wf(),
        !old(rt).arena.live(r@),
        final(rt).arena.live(r@),
        final(rt).arena.refs(r@) == 2,
        final(rt).arena.stage(r@) == Stage::<F, T>::Runnable(future),
        final(rt).arena.others_unchanged(&old(rt).arena, r@),
        final(rt).task_count == old(rt).task_count + 1,
        final(rt).tasks@.len() == old(rt).tasks@.len() + 1,
        final(rt).tasks@.last()@ == r@,
        final(rt).tasks@.drop_last() == old(rt).tasks@,
{
    let (task, join_handle) = new_task(&mut rt.arena, future);
    rt.task_count = rt.task_count + 1;
    rt.tasks.push_back(task);
    join_handle
}

/// Sets up a blocking computation: a new task whose computation runs on a
/// worker, counted as outstanding. Returns the handle the worker carries
/// back with the output (see `complete_blocking`) and the join handle.
pub fn spawn_blocking<F, T, S: Schedule>(rt: &mut Runtime<F, T, S>) -> (r: (Task, JoinHandle<T>))
    requires
        old(rt).wf(),
        old(rt).task_count < usize::MAX,
    ensures
        final(rt).wf(),
        r.0@ == r.1@,
        !old(rt).arena.live(r.0@),
        final(rt).arena.live(r.0@),
        final(rt).arena.refs(r.0@) == 2,
        final(rt).arena.stage(r.0@) == Stage::<F, T>::Pending,
        final(rt).arena.others_unchanged(&old(rt).arena, r.0@),
        final(rt).task_count == old(rt).task_count + 1,
        final(rt).tasks@ == old(rt).tasks@,
{
    let (task, join_handle) = new_blocking_task(&mut rt.arena);
    rt.task_count = rt.task_count + 1;
    (task, join_handle)
}

impl<F: TaskFuture<T>, T, S: Schedule> Runtime<F, T, S> {
    /// One bounded drain of the run queue: runs queued tasks in FIFO order,
    /// at most twice as many as were queued when the pass started, so a
    /// task that keeps re-queueing itself cannot hold the loop. Tasks that
    /// finish stop counting as outstanding. Returns how many tasks ran.
    pub fn run_pass(&mut self) -> (r: usize)
        requires
            old(self).wf(),
        ensures
            final(self).wf(),
            r <= 2 * old(self).tasks@.len(),
            old(self).tasks@.len() > 0 ==> r > 0,
            old(self).tasks@.len() <= usize::MAX / 2 ==> r == 2 * old(self).tasks@.len()
                || final(self).tasks@.len() == 0,
            final(self).task_count <= old(self).task_count,
    {
        let mut pass = DrainPass::start(&self.tasks);
        let mut ran: usize = 0;
        loop
            invariant
                self.wf(),
                pass.wf(),
                pass.start_len() <= old(self).tasks@.len(),
                pass.start_len() <= usize::MAX / 2,
                old(self).tasks@.len() > 0 ==> pass.start_len() > 0,
                pass.taken() <= 2 * pass.start_len(),
                old(self).tasks@.len() <= usize::MAX / 2 ==> pass.start_len() == old(self).tasks@.len(),
                ran == pass.taken(),
                self.task_count <= old(self).task_count,
                ran == 0 ==> self.tasks@ == old(self).tasks@,
            ensures
                ran > 0 || old(self).tasks@.len() == 0,
                old(self).tasks@.len() <= usize::MAX / 2 ==> ran == 2 * old(self).tasks@.len()
                    || self.tasks@.len() == 0,
            decreases 2 * pass.start_len() - pass.taken(),
        {
            if pass.remaining() == 0 {
                break ;
            }
            let next = pass.next(&mut self.tasks);
            match next {
                Some(task) => {
                    ran = ran + 1;
                    if self.arena.is_runnable(task.raw()) {
                        if task.run(&mut self.arena, &self.scheduler, &mut self.tasks) {
                            if self.task_count > 0 {
                                self.task_count = self.task_count - 1;
                            }
                        }
                    } else {
                        task.release(&mut self.arena);
                    }
                },
                None => {
                    break ;
                },
            }
        }
        self.arena.collect();
        ran
    }
}

} // verus!
