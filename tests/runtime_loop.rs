use kunio::runtime::{spawn, spawn_blocking, Runtime};
use kunio::scheduler::{DrainPass, LocalScheduler, TaskQueue};
use kunio::task::{new_task, Context, Poll, TaskArena, TaskFuture};

/// Re-queues itself on every poll and never finishes.
struct Spinner;

impl TaskFuture<u64> for Spinner {
    fn poll(&mut self, cx: &mut Context) -> Poll<u64> {
        cx.wake_by_ref();
        Poll::Pending
    }
}

enum Work {
    Spin(Spinner),
    Value(u64),
}

impl TaskFuture<u64> for Work {
    fn poll(&mut self, cx: &mut Context) -> Poll<u64> {
        match self {
            Work::Spin(s) => s.poll(cx),
            Work::Value(v) => Poll::Ready(*v),
        }
    }
}

#[test]
fn self_rescheduling_task_cannot_hold_the_pass() {
    let mut rt: Runtime<Work, u64, LocalScheduler> = Runtime::new(LocalScheduler, 0);
    let _spin = spawn(&mut rt, Work::Spin(Spinner));
    let ran = rt.run_pass();
    assert!(ran <= 2);
    assert_eq!(ran, 2);
    assert_eq!(rt.tasks.len(), 1);
}

#[test]
fn drain_pass_hands_out_at_most_twice_the_start_length() {
    let mut arena: TaskArena<Spinner, u64> = TaskArena::new();
    let mut queue = TaskQueue::new();
    for _ in 0..3 {
        let (t, j) = new_task(&mut arena, Spinner);
        queue.push_back(t);
        j.release(&mut arena);
    }
    let mut pass = DrainPass::start(&queue);
    let mut handed = 0;
    while let Some(t) = pass.next(&mut queue) {
        handed += 1;
        t.run(&mut arena, &LocalScheduler, &mut queue);
    }
    assert_eq!(handed, 6);
    assert_eq!(queue.len(), 3);
}

#[test]
fn empty_queue_pass_runs_nothing() {
    let mut rt: Runtime<Work, u64, LocalScheduler> = Runtime::new(LocalScheduler, 0);
    assert_eq!(rt.run_pass(), 0);
}

#[test]
fn root_output_once_nothing_is_outstanding() {
    let mut rt: Runtime<Work, u64, LocalScheduler> = Runtime::new(LocalScheduler, 1);
    let root = spawn(&mut rt, Work::Value(7));
    assert_eq!(rt.task_count, 1);
    assert!(matches!(rt.poll_root(&root), Poll::Pending));
    assert_eq!(rt.run_pass(), 1);
    assert_eq!(rt.task_count, 0);
    match rt.poll_root(&root) {
        Poll::Ready(v) => assert_eq!(v, 7),
        Poll::Pending => panic!("root should be done"),
    }
    assert!(matches!(rt.poll_root(&root), Poll::Pending));
}

#[test]
fn blocking_task_output_reaches_join_handle() {
    let mut rt: Runtime<Work, u64, LocalScheduler> = Runtime::new(LocalScheduler, 2);
    let (worker_task, join) = spawn_blocking(&mut rt);
    assert_eq!(rt.task_count, 1);
    assert!(matches!(join.try_join(&mut rt.arena), Poll::Pending));
    // the worker hands back what the closure returned
    assert!(rt.complete_blocking(worker_task, 32));
    assert_eq!(rt.task_count, 0);
    assert!(matches!(join.try_join(&mut rt.arena), Poll::Ready(32)));
}

#[test]
fn root_waits_while_tasks_are_outstanding() {
    let mut rt: Runtime<Work, u64, LocalScheduler> = Runtime::new(LocalScheduler, 3);
    let (_worker_task, _join) = spawn_blocking(&mut rt);
    let root = spawn(&mut rt, Work::Value(1));
    rt.run_pass();
    assert_eq!(rt.task_count, 1);
    assert!(matches!(rt.poll_root(&root), Poll::Pending));
}

#[test]
fn worker_drain_takes_at_most_twice_the_count() {
    let mut pass = DrainPass::with_count(3);
    let mut taken = 0;
    while pass.take() {
        taken += 1;
    }
    assert_eq!(taken, 6);
    let mut empty = DrainPass::with_count(0);
    assert!(!empty.take());
}
