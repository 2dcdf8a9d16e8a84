//! The mathematical model of the job queue, and what holds of every queue.

use crate::job::{DataView, KeyView};
use vstd::prelude::*;

verus! {

/// What becomes of a job whose download failed.
#[derive(Clone, Copy, Debug, PartialEq, Eq, Structural)]
pub enum FailurePolicy {
    /// The job goes back to the end of the queue.
    Retry,
    /// The job is forgotten; a later push of its key starts anew.
    Drop,
}

/// The state of one job in the model.
pub enum JobState {
    Pending { data: DataView },
    InWork { slot: nat, data: DataView },
    Done,
}

/// The mathematical model of a job queue.
pub struct QueueModel {
    pub slots: Seq<Option<KeyView>>,
    pub jobs: Map<KeyView, JobState>,
    pub queue: Seq<KeyView>,
    pub policy: FailurePolicy,
}

impl QueueModel {
    /// The queue with `n` idle slots and no job.
    pub open spec fn empty(n: nat, policy: FailurePolicy) -> QueueModel {
        QueueModel {
            slots: Seq::new(n, |i: int| None::<KeyView>),
            jobs: Map::empty(),
            queue: Seq::empty(),
            policy,
        }
    }

    /// Every queued key is a pending job and the reverse, no key is queued
    /// twice, and a slot holds a key exactly when that key's job is in work in
    /// that slot.
    pub open spec fn wf(self) -> bool {
        &&& self.queue.no_duplicates()
        &&& forall|k: KeyView|
            #![trigger self.queue.contains(k)]
            #![trigger self.jobs[k]]
            self.queue.contains(k) <==> (self.jobs.contains_key(k) && self.jobs[k] is Pending)
        &&& forall|i: int|
            0 <= i < self.slots.len() && (#[trigger] self.slots[i]) is Some ==> self.in_work_at(
                self.slots[i]->0,
                i,
            )
        &&& forall|k: KeyView|
            self.jobs.contains_key(k) && (#[trigger] self.jobs[k]) is InWork ==> {
                &&& self.jobs[k]->slot < self.slots.len()
                &&& self.slots[self.jobs[k]->slot as int] == Some(k)
            }
    }

    /// The job of `k` is in work in slot `i`.
    pub open spec fn in_work_at(self, k: KeyView, i: int) -> bool {
        &&& self.jobs.contains_key(k)
        &&& self.jobs[k] is InWork
        &&& self.jobs[k]->slot == i
    }

    /// The slot exists and holds no job.
    pub open spec fn idle(self, slot: int) -> bool {
        0 <= slot < self.slots.len() && self.slots[slot] is None
    }

    /// The slot exists and holds a job.
    pub open spec fn busy(self, slot: int) -> bool {
        0 <= slot < self.slots.len() && self.slots[slot] is Some
    }

    /// A new key becomes a pending job at the end of the queue; a known key
    /// changes nothing.
    pub open spec fn push(self, k: KeyView, d: DataView) -> QueueModel {
        if self.jobs.contains_key(k) {
            self
        } else {
            QueueModel {
                jobs: self.jobs.insert(k, JobState::Pending { data: d }),
                queue: self.queue.push(k),
                ..self
            }
        }
    }

    /// A job can be handed to `slot`.
    pub open spec fn can_pop(self, slot: int) -> bool {
        self.idle(slot) && self.queue.len() > 0
    }

    /// The key and data that `pop` hands out.
    pub open spec fn pop_result(self, slot: int) -> Option<(KeyView, DataView)> {
        if self.can_pop(slot) {
            Some((self.queue[0], self.jobs[self.queue[0]]->Pending_data))
        } else {
            None
        }
    }

    /// The head of the queue moves into `slot`, where one is idle and the
    /// queue is not empty.
    pub open spec fn pop(self, slot: int) -> QueueModel {
        if self.can_pop(slot) {
            let k = self.queue[0];
            QueueModel {
                slots: self.slots.update(slot, Some(k)),
                jobs: self.jobs.insert(
                    k,
                    JobState::InWork { slot: slot as nat, data: self.jobs[k]->Pending_data },
                ),
                queue: self.queue.drop_first(),
                ..self
            }
        } else {
            self
        }
    }

    /// The job in `slot` is done and the slot idle again.
    pub open spec fn complete(self, slot: int) -> QueueModel {
        if self.busy(slot) {
            QueueModel {
                slots: self.slots.update(slot, None),
                jobs: self.jobs.insert(self.slots[slot]->0, JobState::Done),
                ..self
            }
        } else {
            self
        }
    }

    /// The job in `slot` failed: by policy it goes to the end of the queue or
    /// is forgotten; the slot is idle again.
    pub open spec fn reset(self, slot: int) -> QueueModel {
        if self.busy(slot) {
            let k = self.slots[slot]->0;
            match self.policy {
                FailurePolicy::Retry => QueueModel {
                    slots: self.slots.update(slot, None),
                    jobs: self.jobs.insert(
                        k,
                        JobState::Pending { data: self.jobs[k]->InWork_data },
                    ),
                    queue: self.queue.push(k),
                    ..self
                },
                FailurePolicy::Drop => QueueModel {
                    slots: self.slots.update(slot, None),
                    jobs: self.jobs.remove(k),
                    ..self
                },
            }
        } else {
            self
        }
    }
}

/// A push keeps the queue well formed.
pub proof fn lemma_push_wf(m: QueueModel, k: KeyView, d: DataView)
    requires
        m.wf(),
    ensures
        m.push(k, d).wf(),
{
    let n = m.push(k, d);
    if !m.jobs.contains_key(k) {
        assert(!m.queue.contains(k));
        assert forall|x: KeyView|
            #![trigger n.queue.contains(x)]
            #![trigger n.jobs[x]]
            n.queue.contains(x) <==> (n.jobs.contains_key(x) && n.jobs[x] is Pending) by {
            if x == k {
                assert(n.queue[n.queue.len() - 1] == k);
            } else {
                if m.queue.contains(x) {
                    let i = choose|i: int| 0 <= i < m.queue.len() && m.queue[i] == x;
                    assert(n.queue[i] == x);
                }
                if n.queue.contains(x) {
                    let i = choose|i: int| 0 <= i < n.queue.len() && n.queue[i] == x;
                    assert(m.queue[i] == x);
                }
            }
        }
        assert forall|i: int| 0 <= i < n.slots.len() && (#[trigger] n.slots[i]) is Some implies n.in_work_at(
            n.slots[i]->0,
            i,
        ) by {
            assert(m.in_work_at(m.slots[i]->0, i));
        }
    }
}

/// The empty queue is well formed.
pub proof fn lemma_empty_wf(n: nat, policy: FailurePolicy)
    ensures
        QueueModel::empty(n, policy).wf(),
{
}

/// A pop keeps the queue well formed.
pub proof fn lemma_pop_wf(m: QueueModel, slot: int)
    requires
        m.wf(),
    ensures
        m.pop(slot).wf(),
{
    let n = m.pop(slot);
    if m.can_pop(slot) {
        let k = m.queue[0];
        assert(m.queue.contains(k));
        assert forall|x: KeyView|
            #![trigger n.queue.contains(x)]
            #![trigger n.jobs[x]]
            n.queue.contains(x) <==> (n.jobs.contains_key(x) && n.jobs[x] is Pending) by {
            if n.queue.contains(x) {
                let i = choose|i: int| 0 <= i < n.queue.len() && n.queue[i] == x;
                assert(m.queue[i + 1] == x);
            }
            if x != k && m.queue.contains(x) {
                let i = choose|i: int| 0 <= i < m.queue.len() && m.queue[i] == x;
                assert(n.queue[i - 1] == x);
            }
        }
        assert forall|i: int| 0 <= i < n.slots.len() && (#[trigger] n.slots[i]) is Some implies n.in_work_at(
            n.slots[i]->0,
            i,
        ) by {
            if i != slot {
                assert(m.in_work_at(m.slots[i]->0, i));
            }
        }
    }
}

/// Completing a slot keeps the queue well formed.
pub proof fn lemma_complete_wf(m: QueueModel, slot: int)
    requires
        m.wf(),
    ensures
        m.complete(slot).wf(),
{
    let n = m.complete(slot);
    if m.busy(slot) {
        let k = m.slots[slot]->0;
        assert(m.in_work_at(k, slot));
        assert forall|i: int| 0 <= i < n.slots.len() && (#[trigger] n.slots[i]) is Some implies n.in_work_at(
            n.slots[i]->0,
            i,
        ) by {
            assert(m.in_work_at(m.slots[i]->0, i));
        }
    }
}

/// Resetting a slot keeps the queue well formed, under either policy.
pub proof fn lemma_reset_wf(m: QueueModel, slot: int)
    requires
        m.wf(),
    ensures
        m.reset(slot).wf(),
{
    let n = m.reset(slot);
    if m.busy(slot) {
        let k = m.slots[slot]->0;
        assert(m.in_work_at(k, slot));
        assert(!m.queue.contains(k));
        assert forall|x: KeyView|
            #![trigger n.queue.contains(x)]
            #![trigger n.jobs[x]]
            n.queue.contains(x) <==> (n.jobs.contains_key(x) && n.jobs[x] is Pending) by {
            if m.policy == FailurePolicy::Retry {
                if x == k {
                    assert(n.queue[n.queue.len() - 1] == k);
                } else {
                    if m.queue.contains(x) {
                        let i = choose|i: int| 0 <= i < m.queue.len() && m.queue[i] == x;
                        assert(n.queue[i] == x);
                    }
                    if n.queue.contains(x) {
                        let i = choose|i: int| 0 <= i < n.queue.len() && n.queue[i] == x;
                        assert(m.queue[i] == x);
                    }
                }
            }
        }
        assert forall|i: int| 0 <= i < n.slots.len() && (#[trigger] n.slots[i]) is Some implies n.in_work_at(
            n.slots[i]->0,
            i,
        ) by {
            assert(m.in_work_at(m.slots[i]->0, i));
        }
    }
}

/// In a well-formed queue no key is in work in two slots at once.
pub proof fn lemma_one_slot_per_key(m: QueueModel, i: int, j: int)
    requires
        m.wf(),
        m.busy(i),
        m.busy(j),
        m.slots[i] == m.slots[j],
    ensures
        i == j,
{
    assert(m.in_work_at(m.slots[i]->0, i));
    assert(m.in_work_at(m.slots[j]->0, j));
}

/// One step that a queue can take.
pub enum QueueOp {
    Push { key: KeyView, data: DataView },
    Pop { slot: int },
    Complete { slot: int },
    Reset { slot: int },
}

impl QueueModel {
    /// The queue after one step.
    pub open spec fn step(self, op: QueueOp) -> QueueModel {
        match op {
            QueueOp::Push { key, data } => self.push(key, data),
            QueueOp::Pop { slot } => self.pop(slot),
            QueueOp::Complete { slot } => self.complete(slot),
            QueueOp::Reset { slot } => self.reset(slot),
        }
    }

    /// The queue after the steps of `ops`, first to last.
    pub open spec fn run(self, ops: Seq<QueueOp>) -> QueueModel
        decreases ops.len(),
    {
        if ops.len() == 0 {
            self
        } else {
            self.run(ops.drop_last()).step(ops.last())
        }
    }
}

/// Whatever steps a queue takes from a well-formed state, it stays well formed.
pub proof fn lemma_run_wf(m: QueueModel, ops: Seq<QueueOp>)
    requires
        m.wf(),
    ensures
        m.run(ops).wf(),
    decreases ops.len(),
{
    if ops.len() > 0 {
        lemma_run_wf(m, ops.drop_last());
        let before = m.run(ops.drop_last());
        match ops.last() {
            QueueOp::Push { key, data } => lemma_push_wf(before, key, data),
            QueueOp::Pop { slot } => lemma_pop_wf(before, slot),
            QueueOp::Complete { slot } => lemma_complete_wf(before, slot),
            QueueOp::Reset { slot } => lemma_reset_wf(before, slot),
        }
    }
}

/// However often keys are pushed, and whatever else happens in between, a
/// queue that started empty never has one key in work in two slots.
pub proof fn lemma_at_most_one_in_flight(
    n: nat,
    policy: FailurePolicy,
    ops: Seq<QueueOp>,
    i: int,
    j: int,
)
    requires
        QueueModel::empty(n, policy).run(ops).busy(i),
        QueueModel::empty(n, policy).run(ops).busy(j),
        QueueModel::empty(n, policy).run(ops).slots[i] == QueueModel::empty(n, policy).run(
            ops,
        ).slots[j],
    ensures
        i == j,
{
    lemma_empty_wf(n, policy);
    lemma_run_wf(QueueModel::empty(n, policy), ops);
    lemma_one_slot_per_key(QueueModel::empty(n, policy).run(ops), i, j);
}

/// Keys leave the queue in the order in which they entered it: a pop takes the
/// oldest, and a push leaves every queued key where it was.
pub proof fn lemma_fifo(m: QueueModel, k: KeyView, d: DataView, slot: int)
    requires
        m.wf(),
    ensures
        m.push(k, d).queue.len() >= m.queue.len(),
        forall|i: int| 0 <= i < m.queue.len() ==> m.push(k, d).queue[i] == m.queue[i],
        m.can_pop(slot) ==> (m.pop_result(slot) matches Some((key, _)) && key == m.queue[0]),
        m.can_pop(slot) ==> m.pop(slot).queue == m.queue.drop_first(),
{
}

} // verus!
