//! The queue of pending fetches: a FIFO of keys without duplicates, the state
//! of every job ever pushed, and the job that each worker slot holds.

use crate::job::{DataView, JobData, JobKey, KeyView};
use crate::queue_model::{
    lemma_complete_wf, lemma_pop_wf, lemma_push_wf, lemma_reset_wf, FailurePolicy, JobState,
    QueueModel,
};
use std::collections::VecDeque;
use vstd::prelude::*;

verus! {

/// The state of one job.
#[derive(Debug)]
pub enum Job {
    /// A worker slot is fetching the file.
    InWork { slot: usize, data: JobData },
    /// The job waits in the queue.
    Pending { data: JobData },
    /// The file was fetched.
    Done,
}

impl View for Job {
    type V = JobState;

    open spec fn view(&self) -> JobState {
        match self {
            Job::InWork { slot, data } => JobState::InWork { slot: *slot as nat, data: data@ },
            Job::Pending { data } => JobState::Pending { data: data@ },
            Job::Done => JobState::Done,
        }
    }
}

impl Job {
    /// The data of a job that is not done.
    pub fn data(&self) -> (data: Option<&JobData>)
        ensures
            match *self {
                Job::InWork { data: d, .. } => data == Some(&d),
                Job::Pending { data: d } => data == Some(&d),
                Job::Done => data is None,
            },
    {
        match self {
            Job::InWork { data, .. } => Some(data),
            Job::Pending { data } => Some(data),
            Job::Done => None,
        }
    }
}

impl Clone for Job {
    fn clone(&self) -> (copy: Self)
        ensures
            copy@ == self@,
    {
        match self {
            Job::InWork { slot, data } => Job::InWork { slot: *slot, data: data.clone() },
            Job::Pending { data } => Job::Pending { data: data.clone() },
            Job::Done => Job::Done,
        }
    }
}

struct JobEntry {
    key: JobKey,
    job: Job,
}

/// The queue of fetches of a download pool with a fixed number of worker
/// slots.
pub struct JobQueue {
    /// Which key each slot is working on.
    slots: Vec<Option<JobKey>>,
    /// Every job by key; no key occurs twice.
    jobs: Vec<JobEntry>,
    /// The pending keys, oldest first.
    queue: VecDeque<JobKey>,
    policy: FailurePolicy,
}

/// The value of an optional key.
pub open spec fn key_view(key: Option<JobKey>) -> Option<KeyView> {
    match key {
        Some(k) => Some(k@),
        None => None,
    }
}

/// The value of an optional pair of key and data.
pub open spec fn pair_view(pair: Option<(JobKey, JobData)>) -> Option<(KeyView, DataView)> {
    match pair {
        Some((k, d)) => Some((k@, d@)),
        None => None,
    }
}

/// The value of an optional job.
pub open spec fn job_view(job: Option<Job>) -> Option<JobState> {
    match job {
        Some(j) => Some(j@),
        None => None,
    }
}

spec fn unique_keys(jobs: Seq<JobEntry>) -> bool {
    forall|i: int, j: int|
        0 <= i < j < jobs.len() ==> (#[trigger] jobs[i]).key@ != (#[trigger] jobs[j]).key@
}

spec fn has_key(jobs: Seq<JobEntry>, k: KeyView) -> bool {
    exists|i: int| 0 <= i < jobs.len() && (#[trigger] jobs[i]).key@ == k
}

spec fn index_of(jobs: Seq<JobEntry>, k: KeyView) -> int {
    choose|i: int| 0 <= i < jobs.len() && (#[trigger] jobs[i]).key@ == k
}

spec fn jobs_map(jobs: Seq<JobEntry>) -> Map<KeyView, JobState> {
    Map::new(|k: KeyView| has_key(jobs, k), |k: KeyView| jobs[index_of(jobs, k)].job@)
}

proof fn lemma_jobs_lookup(jobs: Seq<JobEntry>, i: int)
    requires
        unique_keys(jobs),
        0 <= i < jobs.len(),
    ensures
        jobs_map(jobs).contains_key(jobs[i].key@),
        jobs_map(jobs)[jobs[i].key@] == jobs[i].job@,
{
    let k = jobs[i].key@;
    assert(has_key(jobs, k));
    let j = index_of(jobs, k);
    assert(jobs[j].key@ == k);
    if i < j {
        assert(jobs[i].key@ != jobs[j].key@);
    } else if j < i {
        assert(jobs[j].key@ != jobs[i].key@);
    }
}

proof fn lemma_jobs_push(jobs: Seq<JobEntry>, e: JobEntry)
    requires
        unique_keys(jobs),
        !has_key(jobs, e.key@),
    ensures
        unique_keys(jobs.push(e)),
        jobs_map(jobs.push(e)) == jobs_map(jobs).insert(e.key@, e.job@),
{
    let after = jobs.push(e);
    assert forall|i: int, j: int| 0 <= i < j < after.len() implies (#[trigger] after[i]).key@ != (
    #[trigger] after[j]).key@ by {
        if j == jobs.len() {
            assert(jobs[i].key@ != e.key@);
        } else {
            assert(jobs[i].key@ != jobs[j].key@);
        }
    }
    assert forall|k: KeyView| has_key(after, k) <==> (has_key(jobs, k) || k == e.key@) by {
        if has_key(jobs, k) {
            let i = index_of(jobs, k);
            assert(after[i].key@ == k);
        }
        if k == e.key@ {
            assert(after[jobs.len() as int].key@ == k);
        }
        if has_key(after, k) {
            let i = index_of(after, k);
            if i < jobs.len() {
                assert(jobs[i].key@ == k);
            }
        }
    }
    assert forall|k: KeyView| has_key(after, k) implies #[trigger] jobs_map(after)[k] == jobs_map(
        jobs,
    ).insert(e.key@, e.job@)[k] by {
        let i = index_of(after, k);
        lemma_jobs_lookup(after, i);
        if i < jobs.len() {
            assert(jobs[i].key@ == k);
            lemma_jobs_lookup(jobs, i);
        }
    }
    assert(jobs_map(after) =~= jobs_map(jobs).insert(e.key@, e.job@));
}

proof fn lemma_jobs_update(jobs: Seq<JobEntry>, at: int, e: JobEntry)
    requires
        unique_keys(jobs),
        0 <= at < jobs.len(),
        jobs[at].key@ == e.key@,
    ensures
        unique_keys(jobs.update(at, e)),
        jobs_map(jobs.update(at, e)) == jobs_map(jobs).insert(e.key@, e.job@),
{
    let after = jobs.update(at, e);
    assert forall|i: int, j: int| 0 <= i < j < after.len() implies (#[trigger] after[i]).key@ != (
    #[trigger] after[j]).key@ by {
        assert(jobs[i].key@ != jobs[j].key@);
    }
    assert forall|k: KeyView| has_key(after, k) <==> has_key(jobs, k) by {
        if has_key(jobs, k) {
            let i = index_of(jobs, k);
            assert(after[i].key@ == k);
        }
        if has_key(after, k) {
            let i = index_of(after, k);
            assert(jobs[i].key@ == k);
        }
    }
    assert(has_key(jobs, e.key@));
    assert forall|k: KeyView| has_key(after, k) implies #[trigger] jobs_map(after)[k] == jobs_map(
        jobs,
    ).insert(e.key@, e.job@)[k] by {
        let i = index_of(after, k);
        lemma_jobs_lookup(after, i);
        assert(jobs[i].key@ == k);
        lemma_jobs_lookup(jobs, i);
        if i != at {
            if i < at {
                assert(jobs[i].key@ != jobs[at].key@);
            } else {
                assert(jobs[at].key@ != jobs[i].key@);
            }
        }
    }
    assert(jobs_map(after) =~= jobs_map(jobs).insert(e.key@, e.job@));
}

proof fn lemma_jobs_remove(jobs: Seq<JobEntry>, at: int)
    requires
        unique_keys(jobs),
        0 <= at < jobs.len(),
    ensures
        unique_keys(jobs.remove(at)),
        jobs_map(jobs.remove(at)) == jobs_map(jobs).remove(jobs[at].key@),
{
    let after = jobs.remove(at);
    let gone = jobs[at].key@;
    assert forall|i: int| 0 <= i < after.len() implies #[trigger] after[i] == jobs[if i < at {
        i
    } else {
        i + 1
    }] by {}
    assert forall|i: int, j: int| 0 <= i < j < after.len() implies (#[trigger] after[i]).key@ != (
    #[trigger] after[j]).key@ by {
        let oi = if i < at { i } else { i + 1 };
        let oj = if j < at { j } else { j + 1 };
        assert(jobs[oi].key@ != jobs[oj].key@);
    }
    assert forall|k: KeyView| has_key(after, k) <==> (has_key(jobs, k) && k != gone) by {
        if has_key(jobs, k) && k != gone {
            let i = index_of(jobs, k);
            if i < at {
                assert(after[i].key@ == k);
            } else {
                assert(after[i - 1].key@ == k);
            }
        }
        if has_key(after, k) {
            let i = index_of(after, k);
            let oi = if i < at { i } else { i + 1 };
            assert(jobs[oi].key@ == k);
            if oi < at {
                assert(jobs[oi].key@ != jobs[at].key@);
            } else {
                assert(jobs[at].key@ != jobs[oi].key@);
            }
        }
    }
    assert forall|k: KeyView| has_key(after, k) implies #[trigger] jobs_map(after)[k] == jobs_map(
        jobs,
    ).remove(gone)[k] by {
        let i = index_of(after, k);
        lemma_jobs_lookup(after, i);
        let oi = if i < at { i } else { i + 1 };
        assert(jobs[oi].key@ == k);
        lemma_jobs_lookup(jobs, oi);
    }
    assert(jobs_map(after) =~= jobs_map(jobs).remove(gone));
}

impl View for JobQueue {
    type V = QueueModel;

    closed spec fn view(&self) -> QueueModel {
        QueueModel {
            slots: Seq::new(self.slots@.len(), |i: int| key_view(self.slots@[i])),
            jobs: jobs_map(self.jobs@),
            queue: Seq::new(self.queue@.len(), |i: int| self.queue@[i]@),
            policy: self.policy,
        }
    }
}

impl JobQueue {
    /// No key has two jobs.
    pub closed spec fn inv(&self) -> bool {
        unique_keys(self.jobs@)
    }

    /// The queue holds what its model says, and the model is well formed.
    pub open spec fn wf(&self) -> bool {
        self.inv() && self@.wf()
    }

    /// A queue for `slots` workers that forgets failed jobs.
    pub fn new(slots: usize) -> (q: JobQueue)
        ensures
            q.wf(),
            q@ == QueueModel::empty(slots as nat, FailurePolicy::Drop),
    {
        JobQueue::with_policy(slots, FailurePolicy::Drop)
    }

    /// A queue for `slots` workers with the given policy for failed jobs.
    pub fn with_policy(slots: usize, policy: FailurePolicy) -> (q: JobQueue)
        ensures
            q.wf(),
            q@ == QueueModel::empty(slots as nat, policy),
    {
        let mut idle: Vec<Option<JobKey>> = Vec::new();
        let mut i: usize = 0;
        while i < slots
            invariant
                i <= slots,
                idle@.len() == i,
                forall|j: int| 0 <= j < i ==> idle@[j] is None,
            decreases slots - i,
        {
            idle.push(None);
            i = i + 1;
        }
        let q = JobQueue { slots: idle, jobs: Vec::new(), queue: VecDeque::new(), policy };
        proof {
            let m = QueueModel::empty(slots as nat, policy);
            assert(q@.slots =~= m.slots);
            assert(q@.jobs =~= m.jobs);
            assert(q@.queue =~= m.queue);
        }
        q
    }

    /// The position of `key` among the jobs.
    fn find(&self, key: &JobKey) -> (at: Option<usize>)
        ensures
            match at {
                Some(i) => i < self.jobs@.len() && self.jobs@[i as int].key@ == key@,
                None => !has_key(self.jobs@, key@),
            },
    {
        let mut i: usize = 0;
        while i < self.jobs.len()
            invariant
                i <= self.jobs@.len(),
                forall|j: int| 0 <= j < i ==> (#[trigger] self.jobs@[j]).key@ != key@,
            decreases self.jobs@.len() - i,
        {
            if self.jobs[i].key == *key {
                return Some(i);
            }
            i = i + 1;
        }
        None
    }

    /// Adds a job for `key` at the end of the queue unless `key` is known
    /// already, whatever its state.
    pub fn push(&mut self, key: JobKey, data: JobData)
        requires
            old(self).wf(),
        ensures
            final(self).wf(),
            final(self)@ == old(self)@.push(key@, data@),
    {
        match self.find(&key) {
            Some(i) => {
                proof {
                    lemma_jobs_lookup(self.jobs@, i as int);
                }
            },
            None => {
                let entry = JobEntry { key: key.clone(), job: Job::Pending { data } };
                proof {
                    lemma_jobs_push(self.jobs@, entry);
                    lemma_push_wf(self@, key@, data@);
                }
                self.queue.push_back(key);
                self.jobs.push(entry);
                proof {
                    let m = old(self)@.push(key@, data@);
                    assert(self@.slots =~= m.slots);
                    assert(self@.queue =~= m.queue);
                }
            },
        }
    }

    /// Hands the oldest pending job to `slot` and returns its key and data,
    /// where the slot exists and is idle and a job waits; otherwise changes
    /// nothing and returns `None`.
    pub fn pop(&mut self, slot: usize) -> (handed: Option<(JobKey, JobData)>)
        requires
            old(self).wf(),
        ensures
            final(self).wf(),
            final(self)@ == old(self)@.pop(slot as int),
            pair_view(handed) == old(self)@.pop_result(slot as int),
    {
        if slot >= self.slots.len() || self.slots[slot].is_some() || self.queue.len() == 0 {
            return None;
        }
        let ghost before = self@;
        assert(before.can_pop(slot as int));
        assert(before.queue.contains(before.queue[0]));
        let key = self.queue.pop_front().unwrap();
        assert(key@ == before.queue[0]);
        match self.find(&key) {
            Some(i) => {
                proof {
                    lemma_jobs_lookup(self.jobs@, i as int);
                }
                let data = self.jobs[i].job.data().unwrap().clone();
                let entry = JobEntry {
                    key: key.clone(),
                    job: Job::InWork { slot, data: data.clone() },
                };
                proof {
                    lemma_jobs_update(self.jobs@, i as int, entry);
                    lemma_pop_wf(before, slot as int);
                }
                self.jobs.set(i, entry);
                self.slots.set(slot, Some(key.clone()));
                proof {
                    let m = before.pop(slot as int);
                    assert(self@.slots =~= m.slots);
                    assert(self@.queue =~= m.queue);
                }
                Some((key, data))
            },
            None => {
                proof {
                    assert(before.jobs.contains_key(key@));
                    assert(false);
                }
                None
            },
        }
    }

    /// Marks the job in `slot` as done and frees the slot; changes nothing
    /// where the slot does not exist or is idle.
    pub fn complete(&mut self, slot: usize)
        requires
            old(self).wf(),
        ensures
            final(self).wf(),
            final(self)@ == old(self)@.complete(slot as int),
    {
        if slot >= self.slots.len() {
            return;
        }
        let ghost before = self@;
        let held = self.slots[slot].clone();
        match held {
            None => {},
            Some(key) => {
                assert(before.busy(slot as int));
                assert(before.in_work_at(key@, slot as int));
                match self.find(&key) {
                    Some(i) => {
                        let entry = JobEntry { key, job: Job::Done };
                        proof {
                            lemma_jobs_update(self.jobs@, i as int, entry);
                            lemma_complete_wf(before, slot as int);
                        }
                        self.jobs.set(i, entry);
                        self.slots.set(slot, None);
                        proof {
                            let m = before.complete(slot as int);
                            assert(self@.slots =~= m.slots);
                            assert(self@.queue =~= m.queue);
                        }
                    },
                    None => {
                        proof {
                            assert(false);
                        }
                    },
                }
            },
        }
    }

    /// Treats the job in `slot` as failed and frees the slot: by the queue's
    /// policy the job returns to the end of the queue or is forgotten.
    /// Changes nothing where the slot does not exist or is idle.
    pub fn reset(&mut self, slot: usize)
        requires
            old(self).wf(),
        ensures
            final(self).wf(),
            final(self)@ == old(self)@.reset(slot as int),
    {
        if slot >= self.slots.len() {
            return;
        }
        let ghost before = self@;
        let held = self.slots[slot].clone();
        match held {
            None => {},
            Some(key) => {
                assert(before.busy(slot as int));
                assert(before.in_work_at(key@, slot as int));
                match self.find(&key) {
                    Some(i) => {
                        proof {
                            lemma_jobs_lookup(self.jobs@, i as int);
                            lemma_reset_wf(before, slot as int);
                        }
                        match self.policy {
                            FailurePolicy::Retry => {
                                let data = self.jobs[i].job.data().unwrap().clone();
                                let entry = JobEntry {
                                    key: key.clone(),
                                    job: Job::Pending { data },
                                };
                                proof {
                                    lemma_jobs_update(self.jobs@, i as int, entry);
                                }
                                self.jobs.set(i, entry);
                                self.queue.push_back(key);
                            },
                            FailurePolicy::Drop => {
                                proof {
                                    lemma_jobs_remove(self.jobs@, i as int);
                                }
                                self.jobs.remove(i);
                            },
                        }
                        self.slots.set(slot, None);
                        proof {
                            let m = before.reset(slot as int);
                            assert(self@.slots =~= m.slots);
                            assert(self@.queue =~= m.queue);
                        }
                    },
                    None => {
                        proof {
                            assert(false);
                        }
                    },
                }
            },
        }
    }

    /// The number of worker slots.
    pub fn slots(&self) -> (n: usize)
        ensures
            n == self@.slots.len(),
    {
        self.slots.len()
    }

    /// The key that `slot` works on, if it exists and is busy.
    pub fn slot_key(&self, slot: usize) -> (key: Option<JobKey>)
        ensures
            key_view(key) == if slot < self@.slots.len() {
                self@.slots[slot as int]
            } else {
                None
            },
    {
        if slot < self.slots.len() {
            self.slots[slot].clone()
        } else {
            None
        }
    }

    /// The state of the job of `key`, if `key` was ever pushed and not
    /// forgotten since.
    pub fn job(&self, key: &JobKey) -> (state: Option<Job>)
        requires
            self.wf(),
        ensures
            job_view(state) == if self@.jobs.contains_key(key@) {
                Some(self@.jobs[key@])
            } else {
                None
            },
    {
        match self.find(key) {
            Some(i) => {
                proof {
                    lemma_jobs_lookup(self.jobs@, i as int);
                }
                Some(self.jobs[i].job.clone())
            },
            None => None,
        }
    }

    /// The policy for failed jobs.
    pub fn policy(&self) -> (policy: FailurePolicy)
        ensures
            policy == self@.policy,
    {
        self.policy
    }

    /// True when no job waits; slots may still be busy.
    pub fn is_empty(&self) -> (empty: bool)
        ensures
            empty == (self@.queue.len() == 0),
    {
        self.queue.len() == 0
    }
}

} // verus!
