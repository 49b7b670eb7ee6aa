use vstd::prelude::*;

use crate::scheduler::{Schedule, TaskQueue};
use std::marker::PhantomData;
use vstd::pervasive::VecAdditionalExecFns;

verus! {

/// What one poll of a computation produced.
pub enum Poll<T> {
    Ready(T),
    Pending,
}

/// The address of a task entity: a slot of the arena and the generation of
/// the entity placed there. A handle whose generation is stale is ignored.
#[derive(Clone, Copy, PartialEq, Eq, Structural, Debug)]
pub struct RawTask {
    pub index: usize,
    pub generation: u64,
}

/// Control block of a task entity: how many handles refer to it.
pub struct Header {
    pub refcount: usize,
}

impl Header {
    pub fn new() -> (r: Header)
        ensures
            r.refcount == 0,
    {
        Header { refcount: 0 }
    }

    fn ref_inc(&mut self) -> (r: usize)
        requires
            old(self).refcount < usize::MAX,
        ensures
            final(self).refcount == old(self).refcount + 1,
            r == final(self).refcount,
    {
        self.refcount = self.refcount + 1;
        self.refcount
    }

    fn ref_dec(&mut self) -> (r: usize)
        requires
            old(self).refcount > 0,
        ensures
            final(self).refcount == old(self).refcount - 1,
            r == final(self).refcount,
    {
        self.refcount = self.refcount - 1;
        self.refcount
    }
}

/// Lifecycle of a task's computation.
/// `Pending` is the stage while the computation has been taken out of the
/// entity to be polled (or run on a worker) and has not come back yet.
pub enum Stage<F, T> {
    Runnable(F),
    Pending,
    Finished(T),
    Consumed,
}

/// Reading the output: a finished stage hands its value over once and
/// becomes consumed; any other stage yields nothing and stays as it is.
pub open spec fn read_output<F, T>(s: Stage<F, T>) -> (Poll<T>, Stage<F, T>) {
    match s {
        Stage::Finished(v) => (Poll::Ready(v), Stage::Consumed),
        _ => (Poll::Pending, s),
    }
}

/// The computation slot of a task entity.
pub struct Core<F, T> {
    pub stage: Stage<F, T>,
}

impl<F, T> Core<F, T> {
    pub fn new(future: F) -> (r: Self)
        ensures
            r.stage == Stage::<F, T>::Runnable(future),
    {
        Core { stage: Stage::Runnable(future) }
    }

    pub fn try_read_output(&mut self) -> (r: Poll<T>)
        ensures
            (r, final(self).stage) == read_output(old(self).stage),
    {
        let mut stage = Stage::Consumed;
        std::mem::swap(&mut self.stage, &mut stage);
        match stage {
            Stage::Finished(v) => Poll::Ready(v),
            other => {
                self.stage = other;
                Poll::Pending
            },
        }
    }
}

/// A waker: one counted reference to the task it wakes.
pub struct Waker {
    raw: RawTask,
}

impl View for Waker {
    type V = RawTask;

    closed spec fn view(&self) -> RawTask {
        self.raw
    }
}

impl Waker {
    pub fn raw(&self) -> (r: RawTask)
        ensures
            r == self@,
    {
        self.raw
    }

    /// Whether both wake the same task.
    pub fn will_wake(&self, other: &Waker) -> (r: bool)
        ensures
            r == (self@ == other@),
    {
        self.raw == other.raw
    }
}

/// The slot that holds the waker of whoever awaits the task's output.
pub struct Trailer {
    pub join_waker: Option<Waker>,
}

impl Trailer {
    pub fn has_join_waker(&self) -> (r: bool)
        ensures
            r == self.join_waker is Some,
    {
        self.join_waker.is_some()
    }
}

/// One spawned unit of work: control block, computation, joiner slot.
pub struct TaskEntity<F, T> {
    pub header: Header,
    pub core: Core<F, T>,
    pub trailer: Trailer,
}

impl<F, T> TaskEntity<F, T> {
    pub fn new(future: F) -> (r: Self)
        ensures
            r.header.refcount == 0,
            r.core.stage == Stage::<F, T>::Runnable(future),
            r.trailer.join_waker is None,
    {
        TaskEntity { header: Header::new(), core: Core::new(future), trailer: Trailer { join_waker: None } }
    }
}

/// A handle operation on the reference count of one entity.
pub enum RefOp {
    Acquire,
    Release,
}

/// How one handle operation moves an entity's (alive, count) pair.
/// A freed entity ignores every operation; an acquire that would overflow
/// the count creates no handle; releasing the last reference frees it.
pub open spec fn ref_step(s: (bool, nat), op: RefOp) -> (bool, nat) {
    if !s.0 {
        s
    } else {
        match op {
            RefOp::Acquire => if s.1 < usize::MAX {
                (true, s.1 + 1)
            } else {
                s
            },
            RefOp::Release => if s.1 <= 1 {
                (false, 0)
            } else {
                (true, (s.1 - 1) as nat)
            },
        }
    }
}

struct Slot<F, T> {
    generation: u64,
    entity: Option<TaskEntity<F, T>>,
}

spec fn live_count<F, T>(s: Seq<Slot<F, T>>) -> nat
    decreases s.len(),
{
    if s.len() == 0 {
        0
    } else {
        live_count(s.drop_last()) + if s.last().entity is Some {
            1nat
        } else {
            0nat
        }
    }
}

proof fn lemma_live_count_update<F, T>(s: Seq<Slot<F, T>>, i: int, v: Slot<F, T>)
    requires
        0 <= i < s.len(),
    ensures
        live_count(s.update(i, v)) + (if s[i].entity is Some {
            1nat
        } else {
            0nat
        }) == live_count(s) + (if v.entity is Some {
            1nat
        } else {
            0nat
        }),
    decreases s.len(),
{
    if i == s.len() - 1 {
        assert(s.update(i, v).drop_last() =~= s.drop_last());
    } else {
        lemma_live_count_update(s.drop_last(), i, v);
        assert(s.update(i, v).drop_last() =~= s.drop_last().update(i, v));
    }
}

/// All task entities of one runtime, addressed by generation-checked
/// indices. A freed slot is reused with the next generation.
pub struct TaskArena<F, T> {
    slots: Vec<Slot<F, T>>,
    free: Vec<usize>,
    deferred: Vec<Waker>,
}

impl<F, T> TaskArena<F, T> {
    pub closed spec fn wf(&self) -> bool {
        &&& self.free@.no_duplicates()
        &&& forall|k: int|
            0 <= k < self.free@.len() ==> {
                &&& #[trigger] self.free@[k] < self.slots@.len()
                &&& self.slots@[self.free@[k] as int].entity is None
            }
    }

    /// The entity that `raw` addresses is still allocated.
    pub closed spec fn live(&self, raw: RawTask) -> bool {
        &&& raw.index < self.slots@.len()
        &&& self.slots@[raw.index as int].generation == raw.generation
        &&& self.slots@[raw.index as int].entity is Some
    }

    /// The entity that `raw` addresses (meaningful while it is live).
    pub closed spec fn entity(&self, raw: RawTask) -> TaskEntity<F, T> {
        self.slots@[raw.index as int].entity->0
    }

    pub open spec fn refs(&self, raw: RawTask) -> nat {
        if self.live(raw) {
            self.entity(raw).header.refcount as nat
        } else {
            0
        }
    }

    pub open spec fn stage(&self, raw: RawTask) -> Stage<F, T> {
        self.entity(raw).core.stage
    }

    pub open spec fn joiner(&self, raw: RawTask) -> Option<Waker> {
        self.entity(raw).trailer.join_waker
    }

    /// The (alive, count) pair that `ref_step` moves.
    pub open spec fn ref_state(&self, raw: RawTask) -> (bool, nat) {
        (self.live(raw), self.refs(raw))
    }

    /// Every entity but the one at `raw` is as it was in `old`.
    pub open spec fn others_unchanged(&self, old: &Self, raw: RawTask) -> bool {
        &&& forall|r: RawTask| r != raw ==> #[trigger] self.live(r) == old.live(r)
        &&& forall|r: RawTask|
            r != raw && old.live(r) ==> #[trigger] self.entity(r) == old.entity(r)
    }

    /// Only reference counts went down, and entities were freed; nothing
    /// became live and no stage or joiner changed.
    pub open spec fn only_released(&self, old: &Self) -> bool {
        forall|r: RawTask|
            #[trigger] self.live(r) ==> {
                &&& old.live(r)
                &&& self.refs(r) <= old.refs(r)
                &&& self.stage(r) == old.stage(r)
                &&& self.joiner(r) == old.joiner(r)
            }
    }

    pub closed spec fn slot_count(&self) -> nat {
        live_count(self.slots@)
    }

    pub fn new() -> (r: Self)
        ensures
            r.wf(),
            forall|raw: RawTask| !r.live(raw),
    {
        TaskArena { slots: Vec::new(), free: Vec::new(), deferred: Vec::new() }
    }

    /// Wakers whose references are still to be released (see `collect`).
    pub closed spec fn deferred(&self) -> Seq<RawTask> {
        self.deferred@.map_values(|w: Waker| w@)
    }

    /// Whether `raw` addresses a live entity whose computation is runnable.
    pub fn is_runnable(&self, raw: RawTask) -> (r: bool)
        ensures
            r == (self.live(raw) && self.stage(raw) is Runnable),
    {
        self.is_live(raw) && matches!(
            self.slots[raw.index].entity.as_ref().unwrap().core.stage,
            Stage::Runnable(_)
        )
    }

    pub fn is_live(&self, raw: RawTask) -> (r: bool)
        ensures
            r == self.live(raw),
    {
        raw.index < self.slots.len() && self.slots[raw.index].generation == raw.generation
            && self.slots[raw.index].entity.is_some()
    }

    /// Places a new entity whose computation runs elsewhere (stage
    /// `Pending`), with no references yet.
    pub(crate) fn place_pending(&mut self) -> (r: RawTask)
        requires
            old(self).wf(),
        ensures
            final(self).wf(),
            !old(self).live(r),
            final(self).live(r),
            final(self).entity(r) == (TaskEntity {
                header: Header { refcount: 0 },
                core: Core { stage: Stage::<F, T>::Pending },
                trailer: Trailer { join_waker: None },
            }),
            final(self).others_unchanged(old(self), r),
            final(self).deferred() == old(self).deferred(),
    {
        self.place_entity(TaskEntity {
            header: Header::new(),
            core: Core { stage: Stage::Pending },
            trailer: Trailer { join_waker: None },
        })
    }

    fn take_slot(&mut self, index: usize) -> (r: Slot<F, T>)
        requires
            index < old(self).slots@.len(),
        ensures
            r == old(self).slots@[index as int],
            final(self).slots@ == old(self).slots@.update(
                index as int,
                Slot { generation: 0, entity: None },
            ),
            final(self).free == old(self).free,
            final(self).deferred == old(self).deferred,
    {
        let mut slot = Slot { generation: 0, entity: None };
        self.slots.set_and_swap(index, &mut slot);
        slot
    }

    /// Places a new entity holding `future`, with no references yet.
    pub(crate) fn place(&mut self, future: F) -> (r: RawTask)
        requires
            old(self).wf(),
        ensures
            final(self).wf(),
            !old(self).live(r),
            final(self).live(r),
            final(self).entity(r) == (TaskEntity {
                header: Header { refcount: 0 },
                core: Core { stage: Stage::<F, T>::Runnable(future) },
                trailer: Trailer { join_waker: None },
            }),
            final(self).others_unchanged(old(self), r),
            final(self).deferred() == old(self).deferred(),
    {
        self.place_entity(TaskEntity::new(future))
    }

    fn place_entity(&mut self, entity: TaskEntity<F, T>) -> (r: RawTask)
        requires
            old(self).wf(),
        ensures
            final(self).wf(),
            !old(self).live(r),
            final(self).live(r),
            final(self).entity(r) == entity,
            final(self).others_unchanged(old(self), r),
            final(self).deferred() == old(self).deferred(),
    {
        if self.free.len() > 0 {
            let index = self.free.pop().unwrap();
            proof {
                let k = old(self).free@.len() - 1;
                assert(old(self).free@[k] == index);
                assert forall|j: int| 0 <= j < self.free@.len() implies self.free@[j] != index by {
                    assert(old(self).free@[j] == self.free@[j]);
                }
            }
            let generation = self.slots[index].generation;
            if generation < u64::MAX {
                let raw = RawTask { index, generation: generation + 1 };
                self.slots.set(
                    index,
                    Slot { generation: generation + 1, entity: Some(entity) },
                );
                proof {
                    assert forall|j: int| 0 <= j < self.free@.len() implies {
                        &&& #[trigger] self.free@[j] < self.slots@.len()
                        &&& self.slots@[self.free@[j] as int].entity is None
                    } by {
                        assert(old(self).free@[j] == self.free@[j]);
                    }
                    assert forall|r: RawTask| r != raw && old(self).live(r) implies #[trigger] self.entity(r)
                        == old(self).entity(r) by {
                        assert(r.index != index);
                    }
                }
                return raw;
            }
            proof {
                assert forall|j: int| 0 <= j < self.free@.len() implies {
                    &&& #[trigger] self.free@[j] < self.slots@.len()
                    &&& self.slots@[self.free@[j] as int].entity is None
                } by {
                    assert(old(self).free@[j] == self.free@[j]);
                }
            }
        }
        let raw = RawTask { index: self.slots.len(), generation: 0 };
        self.slots.push(Slot { generation: 0, entity: Some(entity) });
        proof {
            assert forall|r: RawTask| r != raw && old(self).live(r) implies #[trigger] self.entity(r)
                == old(self).entity(r) by {
                assert(self.slots@[r.index as int] == old(self).slots@[r.index as int]);
            }
        }
        raw
    }

    proof fn lemma_slot_frame(a: &Self, b: &Self, raw: RawTask, s: Slot<F, T>)
        requires
            raw.index < a.slots@.len(),
            a.slots@[raw.index as int].generation == raw.generation,
            s.generation == raw.generation,
            b.slots@.len() == a.slots@.len(),
            b.slots@[raw.index as int] == s,
            forall|j: int| 0 <= j < a.slots@.len() && j != raw.index ==> b.slots@[j] == a.slots@[j],
        ensures
            b.others_unchanged(a, raw),
    {
        assert forall|r: RawTask| r != raw implies #[trigger] b.live(r) == a.live(r) by {
            if r.index != raw.index && r.index < a.slots@.len() {
                assert(b.slots@[r.index as int] == a.slots@[r.index as int]);
            }
        }
        assert forall|r: RawTask| r != raw && a.live(r) implies #[trigger] b.entity(r) == a.entity(
            r,
        ) by {
            assert(r.index != raw.index);
            assert(b.slots@[r.index as int] == a.slots@[r.index as int]);
        }
    }

    fn take_entity(&mut self, raw: RawTask) -> (r: TaskEntity<F, T>)
        requires
            old(self).wf(),
            old(self).live(raw),
        ensures
            r == old(self).entity(raw),
            final(self).slots@ == old(self).slots@.update(
                raw.index as int,
                Slot { generation: raw.generation, entity: None },
            ),
            final(self).free@ == old(self).free@,
            !final(self).free@.contains(raw.index),
            final(self).wf(),
            live_count(final(self).slots@) + 1 == live_count(old(self).slots@),
            final(self).deferred == old(self).deferred,
    {
        proof {
            assert forall|k: int| 0 <= k < self.free@.len() implies self.free@[k] != raw.index by {
                assert(self.free@[k] < self.slots@.len());
            }
            lemma_live_count_update(
                self.slots@,
                raw.index as int,
                Slot { generation: raw.generation, entity: None },
            );
        }
        let mut slot = Slot { generation: raw.generation, entity: None };
        self.slots.set_and_swap(raw.index, &mut slot);
        proof {
            assert forall|k: int| 0 <= k < self.free@.len() implies {
                &&& #[trigger] self.free@[k] < self.slots@.len()
                &&& self.slots@[self.free@[k] as int].entity is None
            } by {
                assert(old(self).free@[k] < old(self).slots@.len());
            }
        }
        slot.entity.unwrap()
    }

    fn restore_entity(&mut self, raw: RawTask, e: TaskEntity<F, T>)
        requires
            old(self).wf(),
            raw.index < old(self).slots@.len(),
            old(self).slots@[raw.index as int].generation == raw.generation,
            old(self).slots@[raw.index as int].entity is None,
            !old(self).free@.contains(raw.index),
        ensures
            final(self).wf(),
            final(self).live(raw),
            final(self).entity(raw) == e,
            final(self).slots@ == old(self).slots@.update(
                raw.index as int,
                Slot { generation: raw.generation, entity: Some(e) },
            ),
            final(self).free@ == old(self).free@,
            live_count(final(self).slots@) == live_count(old(self).slots@) + 1,
            final(self).deferred == old(self).deferred,
    {
        proof {
            lemma_live_count_update(
                self.slots@,
                raw.index as int,
                Slot { generation: raw.generation, entity: Some(e) },
            );
        }
        self.slots.set(raw.index, Slot { generation: raw.generation, entity: Some(e) });
        proof {
            assert forall|k: int| 0 <= k < self.free@.len() implies {
                &&& #[trigger] self.free@[k] < self.slots@.len()
                &&& self.slots@[self.free@[k] as int].entity is None
            } by {
                assert(old(self).free@[k] < old(self).slots@.len());
                assert(self.free@[k] != raw.index);
            }
        }
    }

    /// Adds one reference (a new handle), unless the entity is gone or its
    /// count is at its maximum.
    pub(crate) fn inc_ref(&mut self, raw: RawTask) -> (r: bool)
        requires
            old(self).wf(),
        ensures
            final(self).wf(),
            r == (old(self).live(raw) && old(self).refs(raw) < usize::MAX),
            final(self).ref_state(raw) == ref_step(old(self).ref_state(raw), RefOp::Acquire),
            final(self).live(raw) ==> final(self).stage(raw) == old(self).stage(raw)
                && final(self).joiner(raw) == old(self).joiner(raw),
            final(self).others_unchanged(old(self), raw),
            final(self).slot_count() == old(self).slot_count(),
            final(self).deferred() == old(self).deferred(),
    {
        if !self.is_live(raw) {
            return false;
        }
        let ghost before = *self;
        let mut e = self.take_entity(raw);
        let ok = if e.header.refcount < usize::MAX {
            e.header.ref_inc();
            true
        } else {
            false
        };
        self.restore_entity(raw, e);
        proof {
            Self::lemma_slot_frame(&before, self, raw, Slot { generation: raw.generation, entity: Some(e) });
        }
        ok
    }

    /// Drops one reference. Releasing the last one frees the entity, which
    /// is handed back so that what it holds can be released in turn.
    pub(crate) fn dec_ref(&mut self, raw: RawTask) -> (r: Option<TaskEntity<F, T>>)
        requires
            old(self).wf(),
        ensures
            final(self).wf(),
            final(self).ref_state(raw) == ref_step(old(self).ref_state(raw), RefOp::Release),
            r is Some <==> (old(self).live(raw) && old(self).refs(raw) <= 1),
            r is Some ==> r->0 == old(self).entity(raw),
            final(self).live(raw) ==> final(self).stage(raw) == old(self).stage(raw)
                && final(self).joiner(raw) == old(self).joiner(raw),
            final(self).others_unchanged(old(self), raw),
            r is Some ==> final(self).slot_count() + 1 == old(self).slot_count(),
            r is None ==> final(self).slot_count() == old(self).slot_count(),
            final(self).deferred() == old(self).deferred(),
    {
        if !self.is_live(raw) {
            return None;
        }
        let ghost before = *self;
        let mut e = self.take_entity(raw);
        if e.header.refcount <= 1 {
            self.free.push(raw.index);
            proof {
                Self::lemma_slot_frame(&before, self, raw, Slot { generation: raw.generation, entity: None });
                assert forall|k: int| 0 <= k < self.free@.len() implies {
                    &&& #[trigger] self.free@[k] < self.slots@.len()
                    &&& self.slots@[self.free@[k] as int].entity is None
                } by {
                    if k < self.free@.len() - 1 {
                        assert(self.free@[k] == before.free@[k]);
                        assert(before.free@[k] < before.slots@.len());
                    }
                }
                assert forall|i: int, j: int|
                    0 <= i < self.free@.len() && 0 <= j < self.free@.len() && i != j implies self.free@[i]
                    != self.free@[j] by {
                    let n = self.free@.len() - 1;
                    if i < n && j < n {
                        assert(before.free@.no_duplicates());
                    } else if i == n {
                        assert(!before.free@.contains(raw.index));
                        assert(self.free@[j] == before.free@[j]);
                    } else {
                        assert(!before.free@.contains(raw.index));
                        assert(self.free@[i] == before.free@[i]);
                    }
                }
            }
            return Some(e);
        }
        e.header.ref_dec();
        self.restore_entity(raw, e);
        proof {
            Self::lemma_slot_frame(&before, self, raw, Slot { generation: raw.generation, entity: Some(e) });
        }
        None
    }

    /// Releases one reference. If that frees the entity, the joiner waker
    /// it held is deferred (see `collect`), so that exactly one count moves.
    pub(crate) fn release(&mut self, raw: RawTask)
        requires
            old(self).wf(),
        ensures
            final(self).wf(),
            final(self).ref_state(raw) == ref_step(old(self).ref_state(raw), RefOp::Release),
            final(self).live(raw) ==> final(self).stage(raw) == old(self).stage(raw)
                && final(self).joiner(raw) == old(self).joiner(raw),
            final(self).others_unchanged(old(self), raw),
            final(self).slot_count() + final(self).deferred().len() <= old(self).slot_count()
                + old(self).deferred().len(),
    {
        match self.dec_ref(raw) {
            Some(e) => match e.trailer.join_waker {
                Some(w) => {
                    let ghost mid = *self;
                    self.deferred.push(w);
                    proof {
                        assert(self.slots@ == mid.slots@);
                        assert(self.deferred() =~= mid.deferred().push(w@));
                        assert(self.slot_count() == mid.slot_count());
                        assert(self.deferred().len() == mid.deferred().len() + 1);
                        assert forall|r: RawTask| #[trigger] self.live(r) == mid.live(r) by {}
                        assert forall|r: RawTask| mid.live(r) implies #[trigger] self.entity(r)
                            == mid.entity(r) by {}
                    }
                },
                None => {},
            },
            None => {},
        }
    }

    /// Holds on to `waker`'s reference until the next `collect`.
    pub(crate) fn defer(&mut self, waker: Waker)
        requires
            old(self).wf(),
        ensures
            final(self).wf(),
            final(self).deferred() == old(self).deferred().push(waker@),
            forall|r: RawTask| #[trigger] final(self).live(r) == old(self).live(r),
            forall|r: RawTask| old(self).live(r) ==> #[trigger] final(self).entity(r) == old(self).entity(r),
    {
        self.deferred.push(waker);
        assert(self.deferred() =~= old(self).deferred().push(waker@));
    }

    /// Releases every deferred reference, and in turn the joiner wakers of
    /// the entities this frees.
    pub fn collect(&mut self)
        requires
            old(self).wf(),
        ensures
            final(self).wf(),
            final(self).deferred().len() == 0,
            final(self).only_released(old(self)),
    {
        let ghost orig = *self;
        loop
            invariant
                self.wf(),
                self.only_released(&orig),
            ensures
                self.deferred().len() == 0,
            decreases self.slot_count() + self.deferred().len(),
        {
            let ghost before = *self;
            let popped = self.deferred.pop();
            proof {
                assert(self.slots@ == before.slots@);
                assert forall|r: RawTask| #[trigger] self.live(r) == before.live(r) by {}
                assert forall|r: RawTask| before.live(r) implies #[trigger] self.entity(r)
                    == before.entity(r) by {}
                if popped is Some {
                    assert(self.deferred() =~= before.deferred().drop_last());
                }
            }
            match popped {
                Some(w) => {
                    let ghost mid = *self;
                    self.release(w.raw);
                    assert(self.only_released(&orig)) by {
                        assert forall|r: RawTask| #[trigger] self.live(r) implies {
                            &&& orig.live(r)
                            &&& self.refs(r) <= orig.refs(r)
                            &&& self.stage(r) == orig.stage(r)
                            &&& self.joiner(r) == orig.joiner(r)
                        } by {
                            assert(mid.live(r));
                            assert(before.live(r));
                            if r != w@ {
                                assert(self.entity(r) == mid.entity(r));
                                assert(mid.entity(r) == before.entity(r));
                            } else {
                                assert(mid.stage(r) == before.stage(r));
                            }
                        }
                    }
                },
                None => {
                    break ;
                },
            }
        }
    }

    /// Takes the computation out to poll it; the stage is `Pending` until it
    /// is put back or finished.
    pub(crate) fn take_future(&mut self, raw: RawTask) -> (r: Option<F>)
        requires
            old(self).wf(),
        ensures
            final(self).wf(),
            old(self).live(raw) && old(self).stage(raw) is Runnable ==> {
                &&& r == Some(old(self).stage(raw)->Runnable_0)
                &&& final(self).live(raw)
                &&& final(self).stage(raw) == Stage::<F, T>::Pending
                &&& final(self).refs(raw) == old(self).refs(raw)
                &&& final(self).joiner(raw) == old(self).joiner(raw)
                &&& final(self).others_unchanged(old(self), raw)
            },
            !(old(self).live(raw) && old(self).stage(raw) is Runnable) ==> r is None && *final(self)
                == *old(self),
            final(self).slot_count() == old(self).slot_count(),
            final(self).deferred() == old(self).deferred(),
    {
        if !self.is_live(raw) {
            return None;
        }
        if !matches!(self.slots[raw.index].entity.as_ref().unwrap().core.stage, Stage::Runnable(_)) {
            return None;
        }
        let ghost before = *self;
        let mut e = self.take_entity(raw);
        let mut stage = Stage::Pending;
        std::mem::swap(&mut e.core.stage, &mut stage);
        self.restore_entity(raw, e);
        proof {
            Self::lemma_slot_frame(&before, self, raw, Slot { generation: raw.generation, entity: Some(e) });
        }
        match stage {
            Stage::Runnable(f) => Some(f),
            _ => None,
        }
    }

    /// Moves the stage from `Pending` to `next`; any other stage is left as
    /// it is (and `next` dropped).
    fn settle(&mut self, raw: RawTask, next: Stage<F, T>) -> (r: bool)
        requires
            old(self).wf(),
        ensures
            final(self).wf(),
            r == (old(self).live(raw) && old(self).stage(raw) is Pending),
            r ==> {
                &&& final(self).live(raw)
                &&& final(self).stage(raw) == next
                &&& final(self).refs(raw) == old(self).refs(raw)
                &&& final(self).joiner(raw) == old(self).joiner(raw)
                &&& final(self).others_unchanged(old(self), raw)
            },
            !r ==> *final(self) == *old(self),
            final(self).slot_count() == old(self).slot_count(),
            final(self).deferred() == old(self).deferred(),
    {
        if !self.is_live(raw) {
            return false;
        }
        if !matches!(self.slots[raw.index].entity.as_ref().unwrap().core.stage, Stage::Pending) {
            return false;
        }
        let ghost before = *self;
        let mut e = self.take_entity(raw);
        e.core.stage = next;
        self.restore_entity(raw, e);
        proof {
            Self::lemma_slot_frame(&before, self, raw, Slot { generation: raw.generation, entity: Some(e) });
        }
        true
    }

    /// Puts a polled computation back: `Pending` becomes `Runnable(future)`.
    pub(crate) fn put_back(&mut self, raw: RawTask, future: F) -> (r: bool)
        requires
            old(self).wf(),
        ensures
            final(self).wf(),
            r == (old(self).live(raw) && old(self).stage(raw) is Pending),
            r ==> {
                &&& final(self).live(raw)
                &&& final(self).stage(raw) == Stage::<F, T>::Runnable(future)
                &&& final(self).refs(raw) == old(self).refs(raw)
                &&& final(self).joiner(raw) == old(self).joiner(raw)
                &&& final(self).others_unchanged(old(self), raw)
            },
            !r ==> *final(self) == *old(self),
            final(self).deferred() == old(self).deferred(),
    {
        self.settle(raw, Stage::Runnable(future))
    }

    /// Records the output of a computation that was taken out:
    /// `Pending` becomes `Finished(output)`.
    pub(crate) fn finish(&mut self, raw: RawTask, output: T) -> (r: bool)
        requires
            old(self).wf(),
        ensures
            final(self).wf(),
            r == (old(self).live(raw) && old(self).stage(raw) is Pending),
            r ==> {
                &&& final(self).live(raw)
                &&& final(self).stage(raw) == Stage::<F, T>::Finished(output)
                &&& final(self).refs(raw) == old(self).refs(raw)
                &&& final(self).joiner(raw) == old(self).joiner(raw)
                &&& final(self).others_unchanged(old(self), raw)
            },
            !r ==> *final(self) == *old(self),
            final(self).deferred() == old(self).deferred(),
    {
        self.settle(raw, Stage::Finished(output))
    }

    /// Takes the output if the task has finished (see `read_output`).
    pub(crate) fn try_read_output(&mut self, raw: RawTask) -> (r: Poll<T>)
        requires
            old(self).wf(),
        ensures
            final(self).wf(),
            !old(self).live(raw) ==> r is Pending && *final(self) == *old(self),
            old(self).live(raw) ==> {
                &&& (r, final(self).stage(raw)) == read_output(old(self).stage(raw))
                &&& final(self).live(raw)
                &&& final(self).refs(raw) == old(self).refs(raw)
                &&& final(self).joiner(raw) == old(self).joiner(raw)
                &&& final(self).others_unchanged(old(self), raw)
            },
            final(self).deferred() == old(self).deferred(),
    {
        if !self.is_live(raw) {
            return Poll::Pending;
        }
        let ghost before = *self;
        let mut e = self.take_entity(raw);
        let r = e.core.try_read_output();
        self.restore_entity(raw, e);
        proof {
            Self::lemma_slot_frame(&before, self, raw, Slot { generation: raw.generation, entity: Some(e) });
        }
        r
    }

    /// The task that the registered joiner waker would wake, if any.
    pub fn join_waker_raw(&self, raw: RawTask) -> (r: Option<RawTask>)
        ensures
            self.live(raw) && self.joiner(raw) is Some ==> r == Some(self.joiner(raw)->0@),
            !(self.live(raw) && self.joiner(raw) is Some) ==> r is None,
    {
        if !self.is_live(raw) {
            return None;
        }
        match &self.slots[raw.index].entity.as_ref().unwrap().trailer.join_waker {
            Some(w) => Some(w.raw),
            None => None,
        }
    }

    /// Registers `waker` as the joiner of `raw`. Returns the waker that is
    /// no longer held: the given one when an equivalent one is already
    /// registered (or the entity is gone), else the one it replaces.
    pub(crate) fn set_join_waker(&mut self, raw: RawTask, waker: Waker) -> (r: Option<Waker>)
        requires
            old(self).wf(),
        ensures
            final(self).wf(),
            !old(self).live(raw) ==> r == Some(waker) && *final(self) == *old(self),
            old(self).live(raw) ==> {
                &&& final(self).live(raw)
                &&& final(self).joiner(raw) is Some
                &&& final(self).joiner(raw)->0@ == waker@
                &&& final(self).stage(raw) == old(self).stage(raw)
                &&& final(self).refs(raw) == old(self).refs(raw)
                &&& final(self).others_unchanged(old(self), raw)
                &&& old(self).joiner(raw) is Some && old(self).joiner(raw)->0@ == waker@ ==> r == Some(
                    waker,
                )
                &&& !(old(self).joiner(raw) is Some && old(self).joiner(raw)->0@ == waker@) ==> r
                    == old(self).joiner(raw)
            },
            final(self).deferred() == old(self).deferred(),
    {
        if !self.is_live(raw) {
            return Some(waker);
        }
        let ghost before = *self;
        let mut e = self.take_entity(raw);
        let same = match &e.trailer.join_waker {
            Some(w) => w.will_wake(&waker),
            None => false,
        };
        let r = if same {
            Some(waker)
        } else {
            let mut slot = Some(waker);
            std::mem::swap(&mut e.trailer.join_waker, &mut slot);
            slot
        };
        self.restore_entity(raw, e);
        proof {
            Self::lemma_slot_frame(&before, self, raw, Slot { generation: raw.generation, entity: Some(e) });
        }
        r
    }
}
impl RawTask {
    /// Places a new entity for `future` in the arena, with no reference yet.
    pub fn new<F, T>(arena: &mut TaskArena<F, T>, future: F) -> (r: RawTask)
        requires
            old(arena).wf(),
        ensures
            final(arena).wf(),
            !old(arena).live(r),
            final(arena).live(r),
            final(arena).entity(r) == (TaskEntity {
                header: Header { refcount: 0 },
                core: Core { stage: Stage::<F, T>::Runnable(future) },
                trailer: Trailer { join_waker: None },
            }),
            final(arena).others_unchanged(old(arena), r),
    {
        arena.place(future)
    }
}

/// Builds a waker for `raw`: one more reference to it. `None` when the
/// entity is gone or its count cannot grow.
pub fn raw_waker<F, T>(arena: &mut TaskArena<F, T>, raw: RawTask) -> (r: Option<Waker>)
    requires
        old(arena).wf(),
    ensures
        final(arena).wf(),
        r is Some == (old(arena).live(raw) && old(arena).refs(raw) < usize::MAX),
        r is Some ==> r->0@ == raw,
        final(arena).ref_state(raw) == ref_step(old(arena).ref_state(raw), RefOp::Acquire),
        final(arena).live(raw) ==> final(arena).stage(raw) == old(arena).stage(raw)
            && final(arena).joiner(raw) == old(arena).joiner(raw),
        final(arena).others_unchanged(old(arena), raw),
        final(arena).deferred() == old(arena).deferred(),
{
    if arena.inc_ref(raw) {
        Some(Waker { raw })
    } else {
        None
    }
}

impl Waker {
    /// A second waker for the same task (one more reference).
    pub fn clone_waker<F, T>(&self, arena: &mut TaskArena<F, T>) -> (r: Option<Waker>)
        requires
            old(arena).wf(),
        ensures
            final(arena).wf(),
            r is Some == (old(arena).live(self@) && old(arena).refs(self@) < usize::MAX),
            r is Some ==> r->0@ == self@,
            final(arena).ref_state(self@) == ref_step(old(arena).ref_state(self@), RefOp::Acquire),
            final(arena).live(self@) ==> final(arena).stage(self@) == old(arena).stage(self@)
                && final(arena).joiner(self@) == old(arena).joiner(self@),
            final(arena).others_unchanged(old(arena), self@),
            final(arena).deferred() == old(arena).deferred(),
    {
        raw_waker(arena, self.raw)
    }

    /// Gives up this waker's reference (the joiner waker of an entity this
    /// frees is deferred, see `TaskArena::collect`).
    pub fn drop_waker<F, T>(self, arena: &mut TaskArena<F, T>)
        requires
            old(arena).wf(),
        ensures
            final(arena).wf(),
            final(arena).ref_state(self@) == ref_step(old(arena).ref_state(self@), RefOp::Release),
            final(arena).live(self@) ==> final(arena).stage(self@) == old(arena).stage(self@)
                && final(arena).joiner(self@) == old(arena).joiner(self@),
            final(arena).others_unchanged(old(arena), self@),
    {
        TaskHandle::from_raw(self.raw).drop_ref(arena)
    }

    /// Schedules the task through a new `Task` handle (one more reference),
    /// keeping this waker usable.
    pub fn wake_by_ref<F, T, S: Schedule>(
        &self,
        arena: &mut TaskArena<F, T>,
        scheduler: &S,
        queue: &mut TaskQueue,
    ) -> (r: bool)
        requires
            old(arena).wf(),
        ensures
            final(arena).wf(),
            r == (old(arena).live(self@) && old(arena).refs(self@) < usize::MAX),
            final(arena).ref_state(self@) == ref_step(old(arena).ref_state(self@), RefOp::Acquire),
            final(arena).live(self@) ==> final(arena).stage(self@) == old(arena).stage(self@)
                && final(arena).joiner(self@) == old(arena).joiner(self@),
            final(arena).others_unchanged(old(arena), self@),
            r ==> final(queue)@.len() == old(queue)@.len() + 1,
            r ==> final(queue)@.last()@ == self@ || final(queue)@[0]@ == self@,
            !r ==> final(queue)@ == old(queue)@,
    {
        TaskHandle::from_raw(self.raw).wake_by_ref(arena, scheduler, queue)
    }

    /// Schedules the task using this waker's own reference.
    pub fn wake_by_val<F, T, S: Schedule>(
        self,
        arena: &TaskArena<F, T>,
        scheduler: &S,
        queue: &mut TaskQueue,
    ) -> (r: bool)
        ensures
            r == arena.live(self@),
            r ==> final(queue)@.len() == old(queue)@.len() + 1,
            r ==> final(queue)@.last()@ == self@ || final(queue)@[0]@ == self@,
            !r ==> final(queue)@ == old(queue)@,
    {
        TaskHandle::from_raw(self.raw).wake_by_val(arena, scheduler, queue)
    }
}

/// Scheduler-facing handle: "poll me". Holds one counted reference.
pub struct Task {
    raw: RawTask,
}

impl View for Task {
    type V = RawTask;

    closed spec fn view(&self) -> RawTask {
        self.raw
    }
}

/// What a computation sees while it is polled: which task it runs in, the
/// waker made for this poll (which it may keep, e.g. to register it with
/// the reactor), and a way to ask to be polled again.
pub struct Context {
    task: RawTask,
    waker: Option<Waker>,
    woken: bool,
}

impl Context {
    pub closed spec fn woken(&self) -> bool {
        self.woken
    }

    pub closed spec fn task_spec(&self) -> RawTask {
        self.task
    }

    pub closed spec fn waker_spec(&self) -> Option<Waker> {
        self.waker
    }

    pub fn task(&self) -> (r: RawTask)
        ensures
            r == self.task_spec(),
    {
        self.task
    }

    /// Takes the waker of this poll; each poll offers one.
    pub fn take_waker(&mut self) -> (r: Option<Waker>)
        ensures
            r == old(self).waker_spec(),
            final(self).waker_spec() is None,
            final(self).task_spec() == old(self).task_spec(),
            final(self).woken() == old(self).woken(),
    {
        let mut w = None;
        std::mem::swap(&mut self.waker, &mut w);
        w
    }

    /// Asks for the task to be scheduled again after this poll.
    pub fn wake_by_ref(&mut self)
        ensures
            final(self).woken(),
            final(self).task_spec() == old(self).task_spec(),
            final(self).waker_spec() == old(self).waker_spec(),
    {
        self.woken = true;
    }
}

/// A computation that a task drives to its output by repeated polls.
pub trait TaskFuture<T> {
    fn poll(&mut self, cx: &mut Context) -> Poll<T>;
}

impl Task {
    /// A new handle to `raw` (one more reference).
    pub fn new<F, T>(raw: RawTask, arena: &mut TaskArena<F, T>) -> (r: Option<Task>)
        requires
            old(arena).wf(),
        ensures
            final(arena).wf(),
            r is Some == (old(arena).live(raw) && old(arena).refs(raw) < usize::MAX),
            r is Some ==> r->0@ == raw,
            final(arena).ref_state(raw) == ref_step(old(arena).ref_state(raw), RefOp::Acquire),
            final(arena).live(raw) ==> final(arena).stage(raw) == old(arena).stage(raw)
                && final(arena).joiner(raw) == old(arena).joiner(raw),
            final(arena).others_unchanged(old(arena), raw),
            final(arena).deferred() == old(arena).deferred(),
    {
        if arena.inc_ref(raw) {
            Some(Task { raw })
        } else {
            None
        }
    }

    pub fn raw(&self) -> (r: RawTask)
        ensures
            r == self@,
    {
        self.raw
    }

    /// Gives up this handle's reference.
    pub fn release<F, T>(self, arena: &mut TaskArena<F, T>)
        requires
            old(arena).wf(),
        ensures
            final(arena).wf(),
            final(arena).ref_state(self@) == ref_step(old(arena).ref_state(self@), RefOp::Release),
            final(arena).live(self@) ==> final(arena).stage(self@) == old(arena).stage(self@)
                && final(arena).joiner(self@) == old(arena).joiner(self@),
            final(arena).others_unchanged(old(arena), self@),
    {
        TaskHandle::from_raw(self.raw).drop_ref(arena)
    }

    /// Takes the computation out for one poll, with a context that offers a
    /// waker of its own (one more reference, unless the count is at its
    /// maximum). The task must be live and runnable.
    pub fn start_poll<F, T>(&self, arena: &mut TaskArena<F, T>) -> (r: (F, Context))
        requires
            old(arena).wf(),
            old(arena).live(self@),
            old(arena).stage(self@) is Runnable,
        ensures
            final(arena).wf(),
            ({
                let (future, cx) = r;
                &&& future == old(arena).stage(self@)->Runnable_0
                &&& cx.task_spec() == self@
                &&& !cx.woken()
                &&& cx.waker_spec() is Some == (old(arena).refs(self@) < usize::MAX)
                &&& cx.waker_spec() is Some ==> cx.waker_spec()->0@ == self@
            }),
            final(arena).live(self@),
            final(arena).stage(self@) == Stage::<F, T>::Pending,
            final(arena).joiner(self@) == old(arena).joiner(self@),
            final(arena).refs(self@) == ref_step(old(arena).ref_state(self@), RefOp::Acquire).1,
            final(arena).others_unchanged(old(arena), self@),
            final(arena).deferred() == old(arena).deferred(),
    {
        let raw = self.raw;
        let f = arena.take_future(raw).unwrap();
        let waker = raw_waker(arena, raw);
        (f, Context { task: raw, waker, woken: false })
    }

    /// Settles one poll and consumes this handle, releasing its reference.
    /// `Ready(output)`: the output is stored and the registered joiner, if
    /// any, is woken. `Pending`: the computation goes back, and is scheduled
    /// again if it asked to be during the poll. The context's waker, unless
    /// the computation kept it, is deferred (see `TaskArena::collect`).
    /// Returns whether the task finished.
    pub fn finish_poll<F, T, S: Schedule>(
        self,
        arena: &mut TaskArena<F, T>,
        scheduler: &S,
        queue: &mut TaskQueue,
        future: F,
        cx: Context,
        outcome: Poll<T>,
    ) -> (r: bool)
        requires
            old(arena).wf(),
        ensures
            final(arena).wf(),
            ({
                let raw = self@;
                let taken = old(arena).live(raw) && old(arena).stage(raw) is Pending;
                let j = old(arena).joiner(raw)->0@;
                let wakes_joiner = outcome is Ready && taken && old(arena).joiner(raw) is Some
                    && old(arena).live(j) && old(arena).refs(j) < usize::MAX;
                let wakes_self = outcome is Pending && taken && cx.woken() && old(arena).refs(raw)
                    < usize::MAX;
                &&& r == (outcome is Ready && taken)
                &&& taken && old(arena).refs(raw) >= 2 ==> final(arena).live(raw)
                &&& taken ==> final(arena).refs(raw) <= old(arena).refs(raw) && final(arena).refs(raw)
                    + 1 >= old(arena).refs(raw)
                &&& taken && old(arena).refs(raw) >= 1 && !wakes_self && !(wakes_joiner && j == raw)
                    ==> final(arena).refs(raw) + 1 == old(arena).refs(raw)
                &&& r && final(arena).live(raw) ==> final(arena).stage(raw) == Stage::<F, T>::Finished(
                    outcome->Ready_0,
                )
                &&& outcome is Pending && taken && final(arena).live(raw) ==> final(arena).stage(raw)
                    == Stage::<F, T>::Runnable(future)
                &&& taken && final(arena).live(raw) ==> final(arena).joiner(raw) == old(arena).joiner(
                    raw,
                )
                &&& wakes_joiner ==> final(queue)@.len() == old(queue)@.len() + 1 && (final(queue)@.last()@
                    == j || final(queue)@[0]@ == j)
                &&& wakes_joiner && scheduler.appends() ==> final(queue)@.drop_last() == old(queue)@
                    && final(queue)@.last()@ == j
                &&& wakes_self ==> final(queue)@.len() == old(queue)@.len() + 1 && (final(queue)@.last()@
                    == raw || final(queue)@[0]@ == raw)
                &&& wakes_self && scheduler.appends() ==> final(queue)@.drop_last() == old(queue)@
                    && final(queue)@.last()@ == raw
                &&& !wakes_joiner && !wakes_self ==> final(queue)@ == old(queue)@
            }),
    {
        let raw = self.raw;
        let mut cx = cx;
        let done = match outcome {
            Poll::Ready(output) => {
                let finished = arena.finish(raw, output);
                if finished {
                    let ghost a1 = *arena;
                    match arena.join_waker_raw(raw) {
                        Some(joiner) => {
                            proof {
                                let j = old(arena).joiner(raw)->0@;
                                assert(joiner == j);
                                if joiner != raw {
                                    assert(a1.live(j) == old(arena).live(j));
                                    if old(arena).live(j) {
                                        assert(a1.entity(j) == old(arena).entity(j));
                                    }
                                }
                            }
                            let woke = TaskHandle::from_raw(joiner).wake_by_ref(arena, scheduler, queue);
                            assert(!woke ==> queue@ == old(queue)@);
                            assert(woke == (old(arena).live(joiner) && old(arena).refs(joiner) < usize::MAX));
                        },
                        None => {
                            assert(old(arena).joiner(raw) is None);
                        },
                    }
                }
                finished
            },
            Poll::Pending => {
                let back = arena.put_back(raw, future);
                if cx.woken && back {
                    let woke = TaskHandle::from_raw(raw).wake_by_ref(arena, scheduler, queue);
                    assert(!woke ==> queue@ == old(queue)@);
                    assert(woke == (old(arena).refs(raw) < usize::MAX));
                }
                assert(!(cx.woken && back) ==> queue@ == old(queue)@);
                false
            },
        };
        match cx.take_waker() {
            Some(w) => arena.defer(w),
            None => {},
        }
        self.release(arena);
        done
    }

    /// Polls the task's computation once (see `start_poll` and
    /// `finish_poll`) and consumes this handle. Returns whether the
    /// computation finished. The task must be live and runnable; it stays
    /// live, its own reference given up and the poll's waker still held
    /// (by the computation, or deferred).
    pub fn run<F: TaskFuture<T>, T, S: Schedule>(
        self,
        arena: &mut TaskArena<F, T>,
        scheduler: &S,
        queue: &mut TaskQueue,
    ) -> (r: bool)
        requires
            old(arena).wf(),
            old(arena).live(self@),
            old(arena).stage(self@) is Runnable,
        ensures
            final(arena).wf(),
            1 <= old(arena).refs(self@) < usize::MAX ==> {
                &&& final(arena).live(self@)
                &&& old(arena).refs(self@) <= final(arena).refs(self@)
                &&& final(arena).refs(self@) <= old(arena).refs(self@) + 1
            },
            r && final(arena).live(self@) ==> final(arena).stage(self@) is Finished,
            !r && final(arena).live(self@) ==> final(arena).stage(self@) is Runnable,
            final(queue)@.len() <= old(queue)@.len() + 1,
    {
        let (future, cx) = self.start_poll(arena);
        let mut future = future;
        let mut cx = cx;
        let outcome = future.poll(&mut cx);
        self.finish_poll(arena, scheduler, queue, future, cx, outcome)
    }
}

/// Caller-facing handle that yields the task's output once. Holds one
/// counted reference.
pub struct JoinHandle<T> {
    raw: RawTask,
    _p: PhantomData<T>,
}

impl<T> View for JoinHandle<T> {
    type V = RawTask;

    closed spec fn view(&self) -> RawTask {
        self.raw
    }
}

impl<T> JoinHandle<T> {
    /// A new join handle to `raw` (one more reference).
    pub fn new<F>(raw: RawTask, arena: &mut TaskArena<F, T>) -> (r: Option<JoinHandle<T>>)
        requires
            old(arena).wf(),
        ensures
            final(arena).wf(),
            r is Some == (old(arena).live(raw) && old(arena).refs(raw) < usize::MAX),
            r is Some ==> r->0@ == raw,
            final(arena).ref_state(raw) == ref_step(old(arena).ref_state(raw), RefOp::Acquire),
            final(arena).live(raw) ==> final(arena).stage(raw) == old(arena).stage(raw)
                && final(arena).joiner(raw) == old(arena).joiner(raw),
            final(arena).others_unchanged(old(arena), raw),
            final(arena).deferred() == old(arena).deferred(),
    {
        if arena.inc_ref(raw) {
            Some(JoinHandle { raw, _p: PhantomData })
        } else {
            None
        }
    }

    pub fn raw(&self) -> (r: RawTask)
        ensures
            r == self@,
    {
        self.raw
    }

    /// Registers `waker` as the joiner and takes the output if the task has
    /// finished: `Ready` once, then `Pending` for ever after. A waker left
    /// unheld (an equivalent one was registered) is deferred.
    pub fn poll<F>(&self, arena: &mut TaskArena<F, T>, waker: Waker) -> (r: Poll<T>)
        requires
            old(arena).wf(),
        ensures
            final(arena).wf(),
            !old(arena).live(self@) ==> r is Pending,
            forall|x: RawTask| #[trigger] final(arena).live(x) == old(arena).live(x),
            final(arena).others_unchanged(old(arena), self@),
            old(arena).live(self@) ==> {
                &&& (r, final(arena).stage(self@)) == read_output(old(arena).stage(self@))
                &&& final(arena).refs(self@) == old(arena).refs(self@)
                &&& final(arena).joiner(self@) is Some
                &&& final(arena).joiner(self@)->0@ == waker@
            },
    {
        TaskHandle::from_raw(self.raw).try_read_output(arena, waker)
    }

    /// Takes the output if the task has finished, without registering a
    /// joiner.
    pub fn try_join<F>(&self, arena: &mut TaskArena<F, T>) -> (r: Poll<T>)
        requires
            old(arena).wf(),
        ensures
            final(arena).wf(),
            !old(arena).live(self@) ==> r is Pending && *final(arena) == *old(arena),
            old(arena).live(self@) ==> {
                &&& (r, final(arena).stage(self@)) == read_output(old(arena).stage(self@))
                &&& final(arena).live(self@)
                &&& final(arena).refs(self@) == old(arena).refs(self@)
                &&& final(arena).joiner(self@) == old(arena).joiner(self@)
                &&& final(arena).others_unchanged(old(arena), self@)
            },
    {
        arena.try_read_output(self.raw)
    }

    /// Gives up this handle's reference.
    pub fn release<F>(self, arena: &mut TaskArena<F, T>)
        requires
            old(arena).wf(),
        ensures
            final(arena).wf(),
            final(arena).ref_state(self@) == ref_step(old(arena).ref_state(self@), RefOp::Release),
            final(arena).live(self@) ==> final(arena).stage(self@) == old(arena).stage(self@)
                && final(arena).joiner(self@) == old(arena).joiner(self@),
            final(arena).others_unchanged(old(arena), self@),
    {
        TaskHandle::from_raw(self.raw).drop_ref(arena)
    }
}

/// An uncounted view of one entity, through which handles act on it.
#[derive(Clone, Copy)]
pub struct TaskHandle {
    pub raw: RawTask,
}

impl TaskHandle {
    pub fn from_raw(raw: RawTask) -> (r: TaskHandle)
        ensures
            r.raw == raw,
    {
        TaskHandle { raw }
    }

    pub fn has_join_waker<F, T>(&self, arena: &TaskArena<F, T>) -> (r: bool)
        ensures
            r == (arena.live(self.raw) && arena.joiner(self.raw) is Some),
    {
        arena.join_waker_raw(self.raw).is_some()
    }

    /// Takes the output if finished, then registers `waker` as the joiner;
    /// the waker this leaves unheld is deferred.
    pub fn try_read_output<F, T>(&self, arena: &mut TaskArena<F, T>, waker: Waker) -> (r: Poll<T>)
        requires
            old(arena).wf(),
        ensures
            final(arena).wf(),
            !old(arena).live(self.raw) ==> r is Pending,
            forall|x: RawTask| #[trigger] final(arena).live(x) == old(arena).live(x),
            final(arena).others_unchanged(old(arena), self.raw),
            old(arena).live(self.raw) ==> {
                &&& (r, final(arena).stage(self.raw)) == read_output(old(arena).stage(self.raw))
                &&& final(arena).refs(self.raw) == old(arena).refs(self.raw)
                &&& final(arena).joiner(self.raw) is Some
                &&& final(arena).joiner(self.raw)->0@ == waker@
            },
    {
        let r = arena.try_read_output(self.raw);
        let unheld = arena.set_join_waker(self.raw, waker);
        match unheld {
            Some(w) => arena.defer(w),
            None => {},
        }
        r
    }

    /// Gives up one reference to the entity.
    pub(crate) fn drop_ref<F, T>(self, arena: &mut TaskArena<F, T>)
        requires
            old(arena).wf(),
        ensures
            final(arena).wf(),
            final(arena).ref_state(self.raw) == ref_step(old(arena).ref_state(self.raw), RefOp::Release),
            final(arena).live(self.raw) ==> final(arena).stage(self.raw) == old(arena).stage(self.raw)
                && final(arena).joiner(self.raw) == old(arena).joiner(self.raw),
            final(arena).others_unchanged(old(arena), self.raw),
    {
        arena.release(self.raw)
    }

    /// A new `Task` handle for this entity (one more reference).
    pub fn get_new_task<F, T>(&self, arena: &mut TaskArena<F, T>) -> (r: Option<Task>)
        requires
            old(arena).wf(),
        ensures
            final(arena).wf(),
            r is Some == (old(arena).live(self.raw) && old(arena).refs(self.raw) < usize::MAX),
            r is Some ==> r->0@ == self.raw,
            final(arena).ref_state(self.raw) == ref_step(old(arena).ref_state(self.raw), RefOp::Acquire),
            final(arena).live(self.raw) ==> final(arena).stage(self.raw) == old(arena).stage(self.raw)
                && final(arena).joiner(self.raw) == old(arena).joiner(self.raw),
            final(arena).others_unchanged(old(arena), self.raw),
            final(arena).deferred() == old(arena).deferred(),
    {
        Task::new(self.raw, arena)
    }

    /// Schedules the entity through a new `Task` handle.
    pub fn wake_by_ref<F, T, S: Schedule>(
        &self,
        arena: &mut TaskArena<F, T>,
        scheduler: &S,
        queue: &mut TaskQueue,
    ) -> (r: bool)
        requires
            old(arena).wf(),
        ensures
            final(arena).wf(),
            r == (old(arena).live(self.raw) && old(arena).refs(self.raw) < usize::MAX),
            final(arena).ref_state(self.raw) == ref_step(old(arena).ref_state(self.raw), RefOp::Acquire),
            final(arena).live(self.raw) ==> final(arena).stage(self.raw) == old(arena).stage(self.raw)
                && final(arena).joiner(self.raw) == old(arena).joiner(self.raw),
            final(arena).others_unchanged(old(arena), self.raw),
            r ==> final(queue)@.len() == old(queue)@.len() + 1,
            r ==> final(queue)@.last()@ == self.raw || final(queue)@[0]@ == self.raw,
            r && scheduler.appends() ==> final(queue)@.drop_last() == old(queue)@
                && final(queue)@.last()@ == self.raw,
            !r ==> final(queue)@ == old(queue)@,
            final(arena).deferred() == old(arena).deferred(),
    {
        match self.get_new_task(arena) {
            Some(task) => {
                scheduler.schedule(queue, task);
                true
            },
            None => false,
        }
    }

    /// Schedules the entity with a reference its caller already holds
    /// (a consumed waker's); nothing is scheduled if the entity is gone.
    pub(crate) fn wake_by_val<F, T, S: Schedule>(
        self,
        arena: &TaskArena<F, T>,
        scheduler: &S,
        queue: &mut TaskQueue,
    ) -> (r: bool)
        ensures
            r == arena.live(self.raw),
            r ==> final(queue)@.len() == old(queue)@.len() + 1,
            r ==> final(queue)@.last()@ == self.raw || final(queue)@[0]@ == self.raw,
            !r ==> final(queue)@ == old(queue)@,
    {
        if arena.is_live(self.raw) {
            scheduler.schedule(queue, Task { raw: self.raw });
            true
        } else {
            false
        }
    }
}

/// Spawns `future` as a new entity, with one `Task` and one `JoinHandle`
/// referring to it (count 2).
pub fn new_task<F, T>(arena: &mut TaskArena<F, T>, future: F) -> (r: (Task, JoinHandle<T>))
    requires
        old(arena).wf(),
    ensures
        final(arena).wf(),
        r.0@ == r.1@,
        !old(arena).live(r.0@),
        final(arena).live(r.0@),
        final(arena).refs(r.0@) == 2,
        final(arena).stage(r.0@) == Stage::<F, T>::Runnable(future),
        final(arena).joiner(r.0@) is None,
        final(arena).others_unchanged(old(arena), r.0@),
{
    let raw = RawTask::new(arena, future);
    let ghost a1 = *arena;
    arena.inc_ref(raw);
    let ghost a2 = *arena;
    arena.inc_ref(raw);
    proof {
        assert forall|r: RawTask| r != raw && old(arena).live(r) implies #[trigger] arena.entity(r)
            == old(arena).entity(r) by {
            assert(a1.live(r));
            assert(a2.live(r));
        }
    }
    (Task { raw }, JoinHandle { raw, _p: PhantomData })
}

/// Creates the entity of a blocking computation, which runs elsewhere
/// (stage `Pending`), with one `Task` (carried by the worker) and one
/// `JoinHandle` referring to it (count 2).
pub fn new_blocking_task<F, T>(arena: &mut TaskArena<F, T>) -> (r: (Task, JoinHandle<T>))
    requires
        old(arena).wf(),
    ensures
        final(arena).wf(),
        r.0@ == r.1@,
        !old(arena).live(r.0@),
        final(arena).live(r.0@),
        final(arena).refs(r.0@) == 2,
        final(arena).stage(r.0@) == Stage::<F, T>::Pending,
        final(arena).joiner(r.0@) is None,
        final(arena).others_unchanged(old(arena), r.0@),
{
    let raw = arena.place_pending();
    let ghost a1 = *arena;
    arena.inc_ref(raw);
    let ghost a2 = *arena;
    arena.inc_ref(raw);
    proof {
        assert forall|r: RawTask| r != raw && old(arena).live(r) implies #[trigger] arena.entity(r)
            == old(arena).entity(r) by {
            assert(a1.live(r));
            assert(a2.live(r));
        }
    }
    (Task { raw }, JoinHandle { raw, _p: PhantomData })
}

/// The (alive, count) pair after a sequence of handle operations.
pub open spec fn ref_trace(s: (bool, nat), ops: Seq<RefOp>) -> (bool, nat)
    decreases ops.len(),
{
    if ops.len() == 0 {
        s
    } else {
        ref_trace(ref_step(s, ops[0]), ops.drop_first())
    }
}

/// How many of the operations freed the entity.
pub open spec fn free_count(s: (bool, nat), ops: Seq<RefOp>) -> nat
    decreases ops.len(),
{
    if ops.len() == 0 {
        0
    } else {
        (if s.0 && !ref_step(s, ops[0]).0 {
            1nat
        } else {
            0nat
        }) + free_count(ref_step(s, ops[0]), ops.drop_first())
    }
}

/// Reference counting frees an entity exactly once: for any sequence of
/// acquires and releases on a live entity, it is freed at most once, it is
/// gone at the end exactly when it was freed, and a step frees it exactly
/// when it releases the last reference.
pub proof fn lemma_freed_exactly_once(s: (bool, nat), ops: Seq<RefOp>)
    requires
        s.0,
    ensures
        free_count(s, ops) <= 1,
        free_count(s, ops) == 1 <==> !ref_trace(s, ops).0,
        forall|t: (bool, nat), op: RefOp|
            (t.0 && !#[trigger] ref_step(t, op).0) <==> (t.0 && t.1 <= 1 && op is Release),
    decreases ops.len(),
{
    if ops.len() > 0 {
        let n = ref_step(s, ops[0]);
        if n.0 {
            lemma_freed_exactly_once(n, ops.drop_first());
        } else {
            lemma_gone_stays_gone(n, ops.drop_first());
        }
    }
}

proof fn lemma_gone_stays_gone(s: (bool, nat), ops: Seq<RefOp>)
    requires
        !s.0,
    ensures
        free_count(s, ops) == 0,
        ref_trace(s, ops) == s,
    decreases ops.len(),
{
    if ops.len() > 0 {
        lemma_gone_stays_gone(ref_step(s, ops[0]), ops.drop_first());
    }
}

/// A join handle yields the output exactly once: after a read that
/// returned it, every further read returns nothing, and a consumed stage
/// stays consumed.
pub proof fn lemma_join_exactly_once<F, T>(s: Stage<F, T>)
    ensures
        read_output(s).0 is Ready ==> read_output(read_output(s).1).0 is Pending,
        read_output(s).0 is Ready ==> read_output(s).1 is Consumed,
        s is Consumed ==> read_output(s) == (Poll::<T>::Pending, s),
{
}

} // verus!
