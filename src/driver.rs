use vstd::prelude::*;

use crate::id_generator::IdGenerator;
use crate::task::{Poll, RawTask, Waker};
use std::collections::HashMap;

verus! {

broadcast use vstd::std_specs::hash::group_hash_axioms;

/// An error code reported by the kernel for an operation (a positive errno).
#[derive(Clone, Copy, PartialEq, Eq, Structural, Debug)]
pub struct OsError {
    pub errno: u32,
}

/// Reactor-side state of one tracked operation.
pub enum OpStage {
    /// Queued for the kernel; no one has polled it yet.
    Submitted,
    /// Polled once; the waker to call when the kernel completes it.
    Waiting(Waker),
    /// The kernel's raw result code, not yet retrieved.
    Completed(i32),
}

/// A raw result code as a result: negative codes are errors.
pub open spec fn result_of(code: i32) -> Result<i32, OsError> {
    if code < 0 {
        Err(OsError { errno: (-code) as u32 })
    } else {
        Ok(code)
    }
}

pub fn decode_result(code: i32) -> (r: Result<i32, OsError>)
    ensures
        r == result_of(code),
{
    if code < 0 {
        let wide: i64 = -(code as i64);
        Err(OsError { errno: wide as u32 })
    } else {
        Ok(code)
    }
}

/// The table after one kernel completion: a tracked operation that has
/// not completed yet records the code; anything else is left alone.
pub open spec fn complete_one(m: Map<u64, OpStage>, c: (u64, i32)) -> Map<u64, OpStage> {
    if m.contains_key(c.0) && !(m[c.0] is Completed) {
        m.insert(c.0, OpStage::Completed(c.1))
    } else {
        m
    }
}

/// The waker that one kernel completion calls, if its operation was polled.
pub open spec fn woken_by(m: Map<u64, OpStage>, c: (u64, i32)) -> Seq<RawTask> {
    if m.contains_key(c.0) && m[c.0] is Waiting {
        seq![m[c.0]->Waiting_0@]
    } else {
        Seq::empty()
    }
}

pub open spec fn complete_all(m: Map<u64, OpStage>, cs: Seq<(u64, i32)>) -> Map<u64, OpStage>
    decreases cs.len(),
{
    if cs.len() == 0 {
        m
    } else {
        complete_one(complete_all(m, cs.drop_last()), cs.last())
    }
}

pub open spec fn woken_all(m: Map<u64, OpStage>, cs: Seq<(u64, i32)>) -> Seq<RawTask>
    decreases cs.len(),
{
    if cs.len() == 0 {
        Seq::empty()
    } else {
        woken_all(m, cs.drop_last()) + woken_by(complete_all(m, cs.drop_last()), cs.last())
    }
}

/// Where the submission side stands after queueing one more entry: a full
/// side is flushed first (backpressure), so no entry is ever dropped.
/// Returns the new fill level and whether a flush came first.
pub open spec fn queue_entry(queued: nat, capacity: nat) -> (nat, bool) {
    if queued >= capacity {
        (1, true)
    } else {
        (queued + 1, false)
    }
}

/// The reactor's bookkeeping: which operations are in flight and in what
/// stage, keyed by correlation id.
pub struct UringDriver {
    ops: HashMap<u64, OpStage>,
    id_generator: IdGenerator,
    waiting: usize,
    queued: usize,
    capacity: usize,
}

impl UringDriver {
    pub closed spec fn table(&self) -> Map<u64, OpStage> {
        self.ops@
    }

    /// The last correlation id handed out.
    pub closed spec fn last_id(&self) -> u64 {
        self.id_generator@
    }

    /// Operations handed to the kernel whose completion has not arrived.
    pub closed spec fn waiting(&self) -> nat {
        self.waiting as nat
    }

    /// Entries in the submission side since it was last flushed.
    pub closed spec fn queued(&self) -> nat {
        self.queued as nat
    }

    pub closed spec fn capacity(&self) -> nat {
        self.capacity as nat
    }

    pub closed spec fn wf(&self) -> bool {
        &&& forall|k: u64| #[trigger] self.ops@.contains_key(k) ==> 0 < k <= self.id_generator@
        &&& 0 < self.capacity
        &&& self.queued <= self.capacity
    }

    /// A reactor whose submission side holds `capacity` entries.
    pub fn new(capacity: usize) -> (r: UringDriver)
        requires
            capacity > 0,
        ensures
            r.wf(),
            r.table() == Map::<u64, OpStage>::empty(),
            r.last_id() == 0,
            r.waiting() == 0,
            r.queued() == 0,
            r.capacity() == capacity,
    {
        UringDriver {
            ops: HashMap::new(),
            id_generator: IdGenerator::new(),
            waiting: 0,
            queued: 0,
            capacity,
        }
    }

    /// Whether one more operation can be submitted without the id or the
    /// outstanding count wrapping around.
    pub fn can_submit(&self) -> (r: bool)
        ensures
            r == (self.last_id() < u64::MAX && self.waiting() < usize::MAX),
    {
        self.id_generator.can_gen() && self.waiting < usize::MAX
    }

    pub fn is_tracked(&self, id: u64) -> (r: bool)
        ensures
            r == self.table().contains_key(id),
    {
        self.ops.contains_key(&id)
    }

    /// Whether anything is outstanding in the kernel: waiting for a
    /// completion is only done then, so the loop never blocks for nothing.
    pub fn has_waiting(&self) -> (r: bool)
        ensures
            r == (self.waiting() > 0),
    {
        self.waiting > 0
    }

    /// Whether the submission side is full, so that it must be flushed
    /// (and `mark_flushed` called) before the next operation is submitted.
    pub fn needs_flush(&self) -> (r: bool)
        requires
            self.wf(),
        ensures
            r == (self.queued() == self.capacity()),
    {
        self.queued >= self.capacity
    }

    /// Undoes the submission of `id` whose entry never reached the kernel:
    /// the entry leaves the table and it no longer counts as outstanding or
    /// queued. Returns the waker it held, if it had been polled.
    pub fn abandon(&mut self, id: u64) -> (r: Option<Waker>)
        requires
            old(self).wf(),
        ensures
            final(self).wf(),
            final(self).table() == old(self).table().remove(id),
            old(self).table().contains_key(id) && old(self).table()[id] is Waiting ==> r == Some(
                old(self).table()[id]->Waiting_0,
            ),
            !(old(self).table().contains_key(id) && old(self).table()[id] is Waiting) ==> r is None,
            old(self).table().contains_key(id) ==> {
                &&& final(self).waiting() == if old(self).waiting() > 0 {
                    old(self).waiting() - 1
                } else {
                    0
                }
                &&& final(self).queued() == if old(self).queued() > 0 {
                    old(self).queued() - 1
                } else {
                    0
                }
            },
            !old(self).table().contains_key(id) ==> final(self).waiting() == old(self).waiting()
                && final(self).queued() == old(self).queued(),
            final(self).last_id() == old(self).last_id(),
            final(self).capacity() == old(self).capacity(),
    {
        match self.ops.remove(&id) {
            Some(stage) => {
                if self.waiting > 0 {
                    self.waiting = self.waiting - 1;
                }
                if self.queued > 0 {
                    self.queued = self.queued - 1;
                }
                match stage {
                    OpStage::Waiting(w) => Some(w),
                    _ => None,
                }
            },
            None => {
                proof {
                    assert(self.ops@ =~= old(self).ops@.remove(id));
                }
                None
            },
        }
    }

    /// Records that the submission side was handed to the kernel.
    pub fn mark_flushed(&mut self)
        requires
            old(self).wf(),
        ensures
            final(self).wf(),
            final(self).queued() == 0,
            final(self).table() == old(self).table(),
            final(self).last_id() == old(self).last_id(),
            final(self).waiting() == old(self).waiting(),
            final(self).capacity() == old(self).capacity(),
    {
        self.queued = 0;
    }

    /// Tracks a new operation under a fresh id, as `Submitted`. The flag
    /// says whether the full submission side must be flushed before the
    /// entry is pushed.
    pub fn submit_op<T>(&mut self, data: T) -> (r: (Op<T>, bool))
        requires
            old(self).wf(),
            old(self).last_id() < u64::MAX,
            old(self).waiting() < usize::MAX,
        ensures
            final(self).wf(),
            r.0.id == old(self).last_id() + 1,
            final(self).last_id() == r.0.id,
            !old(self).table().contains_key(r.0.id),
            final(self).table() == old(self).table().insert(r.0.id, OpStage::Submitted),
            r.0.data == Some(data),
            final(self).waiting() == old(self).waiting() + 1,
            (final(self).queued(), r.1) == queue_entry(old(self).queued(), old(self).capacity()),
            final(self).capacity() == old(self).capacity(),
    {
        let id = self.id_generator.gen_id();
        let op = Op::new(id, data);
        let flush = self.queued >= self.capacity;
        if flush {
            self.queued = 0;
        }
        self.ops.insert(id, OpStage::Submitted);
        self.waiting = self.waiting + 1;
        self.queued = self.queued + 1;
        (op, flush)
    }

    /// One poll of operation `id` by the task of `waker`. The first poll
    /// parks (the result is never ready at once); later polls keep or
    /// replace the registered waker; a completed operation is removed and
    /// its result returned. Also returns the waker that is no longer held.
    pub fn poll_op(&mut self, id: u64, waker: Waker) -> (r: (Poll<Result<i32, OsError>>, Option<Waker>))
        requires
            old(self).wf(),
            old(self).table().contains_key(id),
        ensures
            final(self).wf(),
            final(self).last_id() == old(self).last_id(),
            final(self).waiting() == old(self).waiting(),
            final(self).queued() == old(self).queued(),
            final(self).capacity() == old(self).capacity(),
            ({
                let m = old(self).table();
                match m[id] {
                    OpStage::Submitted => {
                        &&& r.0 is Pending
                        &&& r.1 is None
                        &&& final(self).table() == m.insert(id, OpStage::Waiting(waker))
                    },
                    OpStage::Waiting(w) => {
                        &&& r.0 is Pending
                        &&& w@ == waker@ ==> r.1 == Some(waker) && final(self).table() == m
                        &&& w@ != waker@ ==> r.1 == Some(w) && final(self).table() == m.insert(
                            id,
                            OpStage::Waiting(waker),
                        )
                    },
                    OpStage::Completed(code) => {
                        &&& r.0 == Poll::Ready(result_of(code))
                        &&& r.1 == Some(waker)
                        &&& final(self).table() == m.remove(id)
                    },
                }
            }),
    {
        let stage = self.ops.remove(&id);
        match stage {
            Some(OpStage::Submitted) => {
                self.ops.insert(id, OpStage::Waiting(waker));
                proof {
                    assert(self.ops@ =~= old(self).ops@.insert(id, OpStage::Waiting(waker)));
                }
                (Poll::Pending, None)
            },
            Some(OpStage::Waiting(w)) => {
                if w.will_wake(&waker) {
                    self.ops.insert(id, OpStage::Waiting(w));
                    proof {
                        assert(self.ops@ =~= old(self).ops@);
                    }
                    (Poll::Pending, Some(waker))
                } else {
                    self.ops.insert(id, OpStage::Waiting(waker));
                    proof {
                        assert(self.ops@ =~= old(self).ops@.insert(id, OpStage::Waiting(waker)));
                    }
                    (Poll::Pending, Some(w))
                }
            },
            Some(OpStage::Completed(code)) => (Poll::Ready(decode_result(code)), Some(waker)),
            None => (Poll::Pending, Some(waker)),
        }
    }

    /// Takes in kernel completions, in the order the kernel reported them.
    /// Each one lowers the outstanding count and marks its operation
    /// `Completed`; the wakers of operations that were polled are handed
    /// back, in order, to be woken.
    pub fn complete(&mut self, completions: &Vec<(u64, i32)>) -> (r: Vec<Waker>)
        requires
            old(self).wf(),
        ensures
            final(self).wf(),
            final(self).table() == complete_all(old(self).table(), completions@),
            r@.map_values(|w: Waker| w@) == woken_all(old(self).table(), completions@),
            final(self).waiting() == if old(self).waiting() >= completions@.len() {
                old(self).waiting() - completions@.len()
            } else {
                0
            },
            final(self).last_id() == old(self).last_id(),
            final(self).queued() == old(self).queued(),
            final(self).capacity() == old(self).capacity(),
    {
        let mut woken: Vec<Waker> = Vec::new();
        let mut i: usize = 0;
        while i < completions.len()
            invariant
                self.wf(),
                i <= completions@.len(),
                self.table() == complete_all(old(self).table(), completions@.subrange(0, i as int)),
                woken@.map_values(|w: Waker| w@) == woken_all(
                    old(self).table(),
                    completions@.subrange(0, i as int),
                ),
                self.waiting() == if old(self).waiting() >= i {
                    old(self).waiting() - i
                } else {
                    0
                },
                self.last_id() == old(self).last_id(),
                self.queued() == old(self).queued(),
                self.capacity() == old(self).capacity(),
            decreases completions@.len() - i,
        {
            let (id, code) = completions[i];
            let ghost before = self.ops@;
            let ghost prefix = completions@.subrange(0, i as int);
            let ghost next = completions@.subrange(0, i + 1 as int);
            proof {
                assert(next.drop_last() =~= prefix);
                assert(next.last() == (id, code));
            }
            if self.waiting > 0 {
                self.waiting = self.waiting - 1;
            }
            let stage = self.ops.remove(&id);
            match stage {
                Some(OpStage::Submitted) => {
                    self.ops.insert(id, OpStage::Completed(code));
                    proof {
                        assert(self.ops@ =~= before.insert(id, OpStage::Completed(code)));
                        assert(woken_by(before, (id, code)) =~= Seq::<RawTask>::empty());
                        assert(woken@.map_values(|w: Waker| w@) =~= woken@.map_values(|w: Waker| w@)
                            + woken_by(before, (id, code)));
                    }
                },
                Some(OpStage::Waiting(w)) => {
                    let ghost wr = w@;
                    self.ops.insert(id, OpStage::Completed(code));
                    woken.push(w);
                    proof {
                        assert(self.ops@ =~= before.insert(id, OpStage::Completed(code)));
                        assert(woken_by(before, (id, code)) =~= seq![wr]);
                        assert(woken@.map_values(|w: Waker| w@) =~= woken_all(old(self).table(), prefix)
                            + seq![wr]);
                    }
                },
                Some(OpStage::Completed(c)) => {
                    self.ops.insert(id, OpStage::Completed(c));
                    proof {
                        assert(self.ops@ =~= before);
                        assert(woken_by(before, (id, code)) =~= Seq::<RawTask>::empty());
                        assert(woken@.map_values(|w: Waker| w@) =~= woken@.map_values(|w: Waker| w@)
                            + woken_by(before, (id, code)));
                    }
                },
                None => {
                    proof {
                        assert(self.ops@ =~= before);
                        assert(woken_by(before, (id, code)) =~= Seq::<RawTask>::empty());
                        assert(woken@.map_values(|w: Waker| w@) =~= woken@.map_values(|w: Waker| w@)
                            + woken_by(before, (id, code)));
                    }
                },
            }
            i = i + 1;
        }
        proof {
            assert(completions@.subrange(0, completions@.len() as int) =~= completions@);
        }
        woken
    }
}

/// One in-flight kernel operation and the data it keeps alive until it
/// completes.
pub struct Op<T> {
    pub id: u64,
    pub data: Option<T>,
}

/// An operation's data handed back together with its result.
pub struct Completion<T> {
    pub data: T,
    pub result: Result<i32, OsError>,
}

impl<T> Op<T> {
    pub fn new(id: u64, data: T) -> (r: Op<T>)
        ensures
            r.id == id,
            r.data == Some(data),
    {
        Op { id, data: Some(data) }
    }

    /// Polls the reactor for this operation's result (see `poll_op`).
    pub fn poll(&mut self, driver: &mut UringDriver, waker: Waker) -> (r: (
        Poll<Result<i32, OsError>>,
        Option<Waker>,
    ))
        requires
            old(driver).wf(),
            old(driver).table().contains_key(old(self).id),
        ensures
            *final(self) == *old(self),
            final(driver).wf(),
            final(driver).last_id() == old(driver).last_id(),
            final(driver).waiting() == old(driver).waiting(),
            final(driver).queued() == old(driver).queued(),
            final(driver).capacity() == old(driver).capacity(),
            ({
                let m = old(driver).table();
                let id = old(self).id;
                match m[id] {
                    OpStage::Submitted => {
                        &&& r.0 is Pending
                        &&& r.1 is None
                        &&& final(driver).table() == m.insert(id, OpStage::Waiting(waker))
                    },
                    OpStage::Waiting(w) => {
                        &&& r.0 is Pending
                        &&& w@ == waker@ ==> r.1 == Some(waker) && final(driver).table() == m
                        &&& w@ != waker@ ==> r.1 == Some(w) && final(driver).table() == m.insert(
                            id,
                            OpStage::Waiting(waker),
                        )
                    },
                    OpStage::Completed(code) => {
                        &&& r.0 == Poll::Ready(result_of(code))
                        &&& r.1 == Some(waker)
                        &&& final(driver).table() == m.remove(id)
                    },
                }
            }),
    {
        driver.poll_op(self.id, waker)
    }

    /// Polls until the result is in, then hands the data back with it.
    pub fn poll_completion(&mut self, driver: &mut UringDriver, waker: Waker) -> (r: (
        Poll<Completion<T>>,
        Option<Waker>,
    ))
        requires
            old(driver).wf(),
            old(driver).table().contains_key(old(self).id),
            old(self).data is Some,
        ensures
            final(self).id == old(self).id,
            final(driver).wf(),
            final(driver).last_id() == old(driver).last_id(),
            final(driver).waiting() == old(driver).waiting(),
            final(driver).queued() == old(driver).queued(),
            final(driver).capacity() == old(driver).capacity(),
            ({
                let m = old(driver).table();
                let id = old(self).id;
                match m[id] {
                    OpStage::Completed(code) => {
                        &&& r.0 == Poll::Ready(
                            Completion { data: old(self).data->0, result: result_of(code) },
                        )
                        &&& final(self).data is None
                        &&& final(driver).table() == m.remove(id)
                    },
                    _ => {
                        &&& r.0 is Pending
                        &&& final(self).data == old(self).data
                        &&& final(driver).table().contains_key(id)
                    },
                }
            }),
    {
        let (polled, unheld) = self.poll(driver, waker);
        match polled {
            Poll::Ready(result) => {
                let data = self.data.take().unwrap();
                (Poll::Ready(Completion { data, result }), unheld)
            },
            Poll::Pending => (Poll::Pending, unheld),
        }
    }
}

/// A request for a new socket.
pub struct Socket {
    pub domain: i32,
    pub socket_type: i32,
    pub protocol: i32,
}

impl Op<Socket> {
    pub fn socket(driver: &mut UringDriver, domain: i32, socket_type: i32, protocol: i32) -> (r: (
        Op<Socket>,
        bool,
    ))
        requires
            old(driver).wf(),
            old(driver).last_id() < u64::MAX,
            old(driver).waiting() < usize::MAX,
        ensures
            final(driver).wf(),
            r.0.id == old(driver).last_id() + 1,
            final(driver).table() == old(driver).table().insert(r.0.id, OpStage::Submitted),
            !old(driver).table().contains_key(r.0.id),
            r.0.data == Some(Socket { domain, socket_type, protocol }),
            final(driver).last_id() == r.0.id,
            final(driver).waiting() == old(driver).waiting() + 1,
            (final(driver).queued(), r.1) == queue_entry(old(driver).queued(), old(driver).capacity()),
            final(driver).capacity() == old(driver).capacity(),
    {
        driver.submit_op(Socket { domain, socket_type, protocol })
    }
}

/// Completions neither add nor remove ids, and a completed operation stays
/// completed with the code it first got.
pub proof fn lemma_complete_keeps_ids(m: Map<u64, OpStage>, cs: Seq<(u64, i32)>)
    ensures
        forall|k: u64| #[trigger] complete_all(m, cs).contains_key(k) <==> m.contains_key(k),
        forall|k: u64|
            m.contains_key(k) && m[k] is Completed ==> #[trigger] complete_all(m, cs)[k] == m[k],
    decreases cs.len(),
{
    if cs.len() > 0 {
        let p = complete_all(m, cs.drop_last());
        lemma_complete_keeps_ids(m, cs.drop_last());
        assert(complete_all(m, cs) == complete_one(p, cs.last()));
        assert forall|k: u64| #[trigger] complete_all(m, cs).contains_key(k) <==> m.contains_key(k) by {
            assert(p.contains_key(k) <==> m.contains_key(k));
        }
        assert forall|k: u64| m.contains_key(k) && m[k] is Completed implies #[trigger] complete_all(
            m,
            cs,
        )[k] == m[k] by {
            assert(p.contains_key(k));
            assert(p[k] == m[k]);
        }
    }
}

/// Each submitted operation delivers its result exactly once. When its
/// completion arrives it becomes `Completed` (so the next poll returns it);
/// once that poll has removed it, no later completion brings the id back,
/// and a later submission gets a larger id.
pub proof fn lemma_single_delivery(
    m: Map<u64, OpStage>,
    id: u64,
    last: u64,
    code: i32,
    before: Seq<(u64, i32)>,
    after: Seq<(u64, i32)>,
)
    requires
        forall|k: u64| #[trigger] m.contains_key(k) ==> k <= last,
        m.contains_key(id),
    ensures
        complete_all(m, before.push((id, code))).contains_key(id),
        complete_all(m, before.push((id, code)))[id] is Completed,
        !complete_all(complete_all(m, before.push((id, code))).remove(id), after).contains_key(id),
        id < last + 1,
{
    let cs = before.push((id, code));
    lemma_complete_keeps_ids(m, before);
    assert(cs.drop_last() =~= before);
    let p = complete_all(m, before);
    assert(p.contains_key(id));
    assert(complete_all(m, cs) == complete_one(p, (id, code)));
    let mid = complete_all(m, cs);
    lemma_complete_keeps_ids(mid.remove(id), after);
    assert(!mid.remove(id).contains_key(id));
}

/// The table after `n` submissions that start after id `last`.
pub open spec fn submit_many(m: Map<u64, OpStage>, last: u64, n: nat) -> Map<u64, OpStage>
    decreases n,
{
    if n == 0 {
        m
    } else {
        submit_many(m, last, (n - 1) as nat).insert((last + n) as u64, OpStage::Submitted)
    }
}

/// The fill level of the submission side after `n` more entries.
pub open spec fn queued_after(queued: nat, capacity: nat, n: nat) -> nat
    decreases n,
{
    if n == 0 {
        queued
    } else {
        queue_entry(queued_after(queued, capacity, (n - 1) as nat), capacity).0
    }
}

/// Backpressure drops nothing: however many operations are submitted in one
/// batch, more than the submission side holds included, every one of them
/// is tracked as `Submitted` under its own id, the operations tracked
/// before are untouched, and the submission side never overfills.
pub proof fn lemma_backpressure_keeps_all(
    m: Map<u64, OpStage>,
    last: u64,
    n: nat,
    queued: nat,
    capacity: nat,
)
    requires
        forall|k: u64| #[trigger] m.contains_key(k) ==> k <= last,
        last + n <= u64::MAX,
        0 < capacity,
        queued <= capacity,
    ensures
        forall|i: nat|
            1 <= i <= n ==> #[trigger] submit_many(m, last, n).contains_key((last + i) as u64)
                && submit_many(m, last, n)[(last + i) as u64] is Submitted,
        forall|k: u64| #[trigger]
            m.contains_key(k) ==> submit_many(m, last, n).contains_key(k) && submit_many(
                m,
                last,
                n,
            )[k] == m[k],
        queued_after(queued, capacity, n) <= capacity,
    decreases n,
{
    if n > 0 {
        lemma_backpressure_keeps_all(m, last, (n - 1) as nat, queued, capacity);
        assert forall|i: nat| 1 <= i <= n implies #[trigger] submit_many(m, last, n).contains_key(
            (last + i) as u64,
        ) && submit_many(m, last, n)[(last + i) as u64] is Submitted by {
            if i < n {
                assert(submit_many(m, last, (n - 1) as nat).contains_key((last + i) as u64));
            }
        }
    }
}

} // verus!
