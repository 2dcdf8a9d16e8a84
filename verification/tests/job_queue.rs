use bcdn::job::{JobData, JobKey};
use bcdn::job_queue::{Job, JobQueue};
use bcdn::queue_model::FailurePolicy;

fn key(name: &str) -> JobKey {
    JobKey::new("pkg", name)
}

fn data(name: &str) -> JobData {
    JobData::new(&format!("http://origin/p/{}", name), &format!("/var/lib/bcdn/pkg/{}", name))
}

#[test]
fn new_queue_is_empty() {
    let q = JobQueue::new(3);
    assert!(q.is_empty());
    assert_eq!(q.slots(), 3);
    assert_eq!(q.policy(), FailurePolicy::Drop);
    assert!(q.slot_key(0).is_none());
}

#[test]
fn push_twice_queues_once() {
    let mut q = JobQueue::new(2);
    q.push(key("a.txt"), data("a.txt"));
    q.push(key("a.txt"), data("other"));
    assert!(!q.is_empty());
    let (k, d) = q.pop(0).unwrap();
    assert_eq!(k, key("a.txt"));
    assert_eq!(d, data("a.txt"));
    assert!(q.is_empty());
    assert!(q.pop(1).is_none());
}

#[test]
fn pop_is_first_in_first_out() {
    let mut q = JobQueue::new(3);
    q.push(key("a"), data("a"));
    q.push(key("b"), data("b"));
    q.push(key("c"), data("c"));
    assert_eq!(q.pop(2).unwrap().0, key("a"));
    assert_eq!(q.pop(0).unwrap().0, key("b"));
    assert_eq!(q.pop(1).unwrap().0, key("c"));
    assert_eq!(q.slot_key(2), Some(key("a")));
    assert_eq!(q.slot_key(0), Some(key("b")));
    assert_eq!(q.slot_key(1), Some(key("c")));
}

#[test]
fn pop_needs_an_idle_slot_that_exists() {
    let mut q = JobQueue::new(1);
    q.push(key("a"), data("a"));
    q.push(key("b"), data("b"));
    assert!(q.pop(1).is_none());
    assert!(q.pop(0).is_some());
    assert!(q.pop(0).is_none());
    assert!(!q.is_empty());
}

#[test]
fn complete_marks_done_and_frees_the_slot() {
    let mut q = JobQueue::new(1);
    q.push(key("a"), data("a"));
    q.pop(0);
    assert!(matches!(q.job(&key("a")), Some(Job::InWork { slot: 0, .. })));
    q.complete(0);
    assert!(matches!(q.job(&key("a")), Some(Job::Done)));
    assert!(q.slot_key(0).is_none());
    q.push(key("a"), data("a"));
    assert!(q.is_empty());
    q.complete(0);
    q.complete(5);
    assert!(matches!(q.job(&key("a")), Some(Job::Done)));
}

#[test]
fn reset_with_retry_requeues_at_the_back() {
    let mut q = JobQueue::with_policy(1, FailurePolicy::Retry);
    q.push(key("a"), data("a"));
    q.push(key("b"), data("b"));
    q.pop(0);
    q.reset(0);
    assert!(matches!(q.job(&key("a")), Some(Job::Pending { .. })));
    assert_eq!(q.pop(0).unwrap().0, key("b"));
    q.complete(0);
    let (k, d) = q.pop(0).unwrap();
    assert_eq!(k, key("a"));
    assert_eq!(d, data("a"));
}

#[test]
fn reset_with_drop_forgets_the_job() {
    let mut q = JobQueue::new(1);
    q.push(key("a"), data("a"));
    q.pop(0);
    q.reset(0);
    assert!(q.job(&key("a")).is_none());
    assert!(q.slot_key(0).is_none());
    assert!(q.is_empty());
    q.push(key("a"), data("a"));
    assert!(!q.is_empty());
    q.reset(0);
    q.reset(9);
    assert!(!q.is_empty());
}

#[test]
fn a_key_is_in_work_in_one_slot_at_most() {
    let mut q = JobQueue::new(4);
    for _ in 0..50 {
        q.push(key("a"), data("a"));
        for slot in 0..4 {
            q.pop(slot);
        }
    }
    let busy = (0..4).filter(|s| q.slot_key(*s) == Some(key("a"))).count();
    assert_eq!(busy, 1);
}
