use kunio::scheduler::{LocalScheduler, TaskQueue};
use kunio::task::{new_task, raw_waker, Context, JoinHandle, Poll, Task, TaskArena, TaskFuture};

struct CountDown {
    left: u32,
    value: u64,
}

impl TaskFuture<u64> for CountDown {
    fn poll(&mut self, cx: &mut Context) -> Poll<u64> {
        if self.left == 0 {
            Poll::Ready(self.value)
        } else {
            self.left -= 1;
            cx.wake_by_ref();
            Poll::Pending
        }
    }
}

#[test]
fn spawn_gives_two_references() {
    let mut arena: TaskArena<CountDown, u64> = TaskArena::new();
    let (task, join) = new_task(&mut arena, CountDown { left: 0, value: 5 });
    assert_eq!(task.raw(), join.raw());
    assert!(arena.is_live(task.raw()));
}

#[test]
fn entity_freed_when_last_reference_dropped() {
    let mut arena: TaskArena<CountDown, u64> = TaskArena::new();
    let (task, join) = new_task(&mut arena, CountDown { left: 0, value: 5 });
    let raw = task.raw();
    let waker = raw_waker(&mut arena, raw).expect("live task");
    task.release(&mut arena);
    assert!(arena.is_live(raw));
    join.release(&mut arena);
    assert!(arena.is_live(raw));
    waker.drop_waker(&mut arena);
    assert!(!arena.is_live(raw));
}

#[test]
fn stale_handle_is_ignored_after_free() {
    let mut arena: TaskArena<CountDown, u64> = TaskArena::new();
    let (task, join) = new_task(&mut arena, CountDown { left: 0, value: 5 });
    let raw = task.raw();
    task.release(&mut arena);
    join.release(&mut arena);
    assert!(!arena.is_live(raw));
    // the slot is reused under a new generation; the old address stays dead
    let (task2, join2) = new_task(&mut arena, CountDown { left: 0, value: 6 });
    assert_eq!(task2.raw().index, raw.index);
    assert_ne!(task2.raw().generation, raw.generation);
    assert!(!arena.is_live(raw));
    assert!(Task::new(raw, &mut arena).is_none());
    assert!(JoinHandle::<u64>::new(raw, &mut arena).is_none());
    assert!(arena.is_live(task2.raw()));
    task2.release(&mut arena);
    join2.release(&mut arena);
}

#[test]
fn join_yields_output_exactly_once() {
    let mut arena: TaskArena<CountDown, u64> = TaskArena::new();
    let mut queue = TaskQueue::new();
    let (task, join) = new_task(&mut arena, CountDown { left: 0, value: 42 });
    let (watcher, watcher_join) = new_task(&mut arena, CountDown { left: 0, value: 1 });
    let w = raw_waker(&mut arena, watcher.raw()).unwrap();
    assert!(matches!(join.poll(&mut arena, w), Poll::Pending));
    assert!(task.run(&mut arena, &LocalScheduler, &mut queue));
    // the registered joiner was woken
    assert_eq!(queue.len(), 1);
    let w = raw_waker(&mut arena, watcher.raw()).unwrap();
    match join.poll(&mut arena, w) {
        Poll::Ready(v) => assert_eq!(v, 42),
        Poll::Pending => panic!("output expected"),
    }
    let w = raw_waker(&mut arena, watcher.raw()).unwrap();
    assert!(matches!(join.poll(&mut arena, w), Poll::Pending));
    watcher.release(&mut arena);
    watcher_join.release(&mut arena);
}

#[test]
fn pending_task_that_asks_is_requeued() {
    let mut arena: TaskArena<CountDown, u64> = TaskArena::new();
    let mut queue = TaskQueue::new();
    let (task, join) = new_task(&mut arena, CountDown { left: 2, value: 9 });
    let raw = task.raw();
    assert!(!task.run(&mut arena, &LocalScheduler, &mut queue));
    assert_eq!(queue.len(), 1);
    let t = queue.pop().unwrap();
    assert_eq!(t.raw(), raw);
    assert!(!t.run(&mut arena, &LocalScheduler, &mut queue));
    let t = queue.pop().unwrap();
    assert!(t.run(&mut arena, &LocalScheduler, &mut queue));
    assert_eq!(queue.len(), 0);
    assert!(matches!(join.try_join(&mut arena), Poll::Ready(9)));
}

#[test]
fn finished_task_is_no_longer_runnable() {
    let mut arena: TaskArena<CountDown, u64> = TaskArena::new();
    let mut queue = TaskQueue::new();
    let (task, join) = new_task(&mut arena, CountDown { left: 0, value: 3 });
    let raw = task.raw();
    let extra = Task::new(raw, &mut arena).unwrap();
    assert!(arena.is_runnable(raw));
    assert!(task.run(&mut arena, &LocalScheduler, &mut queue));
    assert!(!arena.is_runnable(raw));
    extra.release(&mut arena);
    assert!(matches!(join.try_join(&mut arena), Poll::Ready(3)));
}

#[test]
fn freeing_a_joined_task_releases_its_joiner_on_collect() {
    let mut arena: TaskArena<CountDown, u64> = TaskArena::new();
    let (joined, joined_handle) = new_task(&mut arena, CountDown { left: 0, value: 1 });
    let (joiner, joiner_handle) = new_task(&mut arena, CountDown { left: 0, value: 2 });
    let w = raw_waker(&mut arena, joiner.raw()).unwrap();
    assert!(matches!(joined_handle.poll(&mut arena, w), Poll::Pending));
    let joiner_raw = joiner.raw();
    joiner.release(&mut arena);
    joiner_handle.release(&mut arena);
    // only the waker held by the joined task keeps the joiner alive
    assert!(arena.is_live(joiner_raw));
    joined.release(&mut arena);
    joined_handle.release(&mut arena);
    assert!(arena.is_live(joiner_raw));
    arena.collect();
    assert!(!arena.is_live(joiner_raw));
}

#[test]
fn waker_wake_by_val_schedules_once() {
    let mut arena: TaskArena<CountDown, u64> = TaskArena::new();
    let mut queue = TaskQueue::new();
    let (task, join) = new_task(&mut arena, CountDown { left: 0, value: 3 });
    let w = raw_waker(&mut arena, task.raw()).unwrap();
    let w2 = w.clone_waker(&mut arena).unwrap();
    assert!(w.will_wake(&w2));
    assert!(w.wake_by_ref(&mut arena, &LocalScheduler, &mut queue));
    assert!(w2.wake_by_val(&arena, &LocalScheduler, &mut queue));
    assert_eq!(queue.len(), 2);
    w.drop_waker(&mut arena);
    task.release(&mut arena);
    join.release(&mut arena);
    let raw = queue.pop().unwrap().raw();
    assert!(arena.is_live(raw));
}

/// Random interleavings of acquiring and releasing handles: the entity
/// stays allocated while any handle is held and is gone once none is.
#[test]
fn random_interleavings_free_exactly_at_zero() {
    let mut seed: u64 = 0x9e37_79b9_7f4a_7c15;
    for round in 0..50u64 {
        let mut arena: TaskArena<CountDown, u64> = TaskArena::new();
        let (task, join) = new_task(&mut arena, CountDown { left: 0, value: round });
        let raw = task.raw();
        let mut held: Vec<Task> = vec![task];
        let mut joins: Vec<JoinHandle<u64>> = vec![join];
        let mut freed = 0;
        for _ in 0..200 {
            seed = seed.wrapping_mul(6364136223846793005).wrapping_add(1442695040888963407);
            let total = held.len() + joins.len();
            if total == 0 {
                break;
            }
            let live_before = arena.is_live(raw);
            match (seed >> 33) % 3 {
                0 => held.push(Task::new(raw, &mut arena).expect("live while held")),
                1 if !held.is_empty() => held.pop().unwrap().release(&mut arena),
                _ if !joins.is_empty() => joins.pop().unwrap().release(&mut arena),
                _ => held.pop().unwrap().release(&mut arena),
            }
            let total = held.len() + joins.len();
            assert_eq!(arena.is_live(raw), total > 0);
            if live_before && !arena.is_live(raw) {
                freed += 1;
            }
        }
        while let Some(t) = held.pop() {
            let live_before = arena.is_live(raw);
            t.release(&mut arena);
            if live_before && !arena.is_live(raw) {
                freed += 1;
            }
        }
        while let Some(j) = joins.pop() {
            let live_before = arena.is_live(raw);
            j.release(&mut arena);
            if live_before && !arena.is_live(raw) {
                freed += 1;
            }
        }
        assert!(!arena.is_live(raw));
        assert_eq!(freed, 1);
    }
}
