use bcdn::cache::Cache;
use bcdn::config::{CacheConfig, Config, Entry, NamedEntry, ProxyConfig};
use bcdn::digest::{hash_content, Digest};
use bcdn::downloader::DownloadStatus;
use bcdn::job::JobKey;
use bcdn::pool::{DownloadPool, DownloadState, PoolError, StartOrder};
use bcdn::queue_model::FailurePolicy;

fn config(max_downloads: usize, on_failure: FailurePolicy) -> Config {
    Config {
        cache: CacheConfig {
            bind: "127.0.0.1:1337".to_string(),
            root_path: "/var/lib/bcdn".to_string(),
            max_downloads,
            on_failure,
        },
        proxy: ProxyConfig::default(),
        entries: vec![NamedEntry {
            name: "pkg".to_string(),
            entry: Entry::new("http://origin/p/"),
        }],
    }
}

fn cache(c: &Config) -> Cache {
    Cache::new("pkg", c, &vec![]).unwrap()
}

fn idle(n: usize) -> Vec<DownloadStatus<JobKey>> {
    (0..n).map(|_| DownloadStatus::Idle).collect()
}

fn busy(name: &str, downloaded: usize, size: usize) -> DownloadStatus<JobKey> {
    DownloadStatus::Downloading { key: JobKey::new("pkg", name), downloaded, size }
}

fn brief(orders: &[StartOrder]) -> Vec<(usize, String, String, String)> {
    orders
        .iter()
        .map(|o| (o.slot, o.key.file_name.clone(), o.data.url.clone(), o.data.path.clone()))
        .collect()
}

fn order(slot: usize, name: &str) -> (usize, String, String, String) {
    (
        slot,
        name.to_string(),
        format!("http://origin/p/{}", name),
        format!("/var/lib/bcdn/pkg/{}", name),
    )
}

#[test]
fn percentage_of_each_state() {
    assert_eq!(DownloadState::NotStarted.percentage(), 0);
    assert_eq!(DownloadState::InWork { downloaded: 0, size: 0 }.percentage(), 0);
    assert_eq!(DownloadState::InWork { downloaded: 0, size: 10 }.percentage(), 0);
    assert_eq!(DownloadState::InWork { downloaded: 3, size: 10 }.percentage(), 30);
    assert_eq!(DownloadState::InWork { downloaded: 1, size: 3 }.percentage(), 33);
    assert_eq!(DownloadState::InWork { downloaded: 2, size: 3 }.percentage(), 66);
    assert_eq!(DownloadState::InWork { downloaded: 10, size: 10 }.percentage(), 100);
    assert_eq!(DownloadState::InWork { downloaded: 20, size: 10 }.percentage(), 200);
    assert_eq!(
        DownloadState::InWork { downloaded: usize::MAX, size: usize::MAX }.percentage(),
        100
    );
    assert_eq!(DownloadState::InWork { downloaded: usize::MAX, size: 1 }.percentage(), i32::MAX);
    let done = Digest::new("/r/a.txt", 5, "text/plain", hash_content(b"hello"));
    assert_eq!(DownloadState::Finished { digest: done }.percentage(), 100);
    let empty = Digest::new("/r/a.txt", 0, "text/plain", hash_content(b""));
    assert_eq!(DownloadState::Finished { digest: empty }.percentage(), 100);
    let part = Digest::partial("/r", "a.txt", 8, 2, "text/plain", hash_content(b"he"));
    assert_eq!(DownloadState::Finished { digest: part }.percentage(), 25);
}

#[test]
fn new_pool_has_idle_slots() {
    let pool = DownloadPool::new(&config(4, FailurePolicy::Drop)).unwrap();
    assert_eq!(pool.slots(), 4);
    assert!(pool.is_empty());
}

#[test]
fn enqueue_then_update_starts_the_job() {
    let c = config(2, FailurePolicy::Drop);
    let cache = cache(&c);
    let mut pool = DownloadPool::new(&c).unwrap();
    assert!(matches!(pool.enqueue(&cache, "a.txt"), Some(DownloadState::NotStarted)));
    assert!(!pool.is_empty());
    let orders = pool.update(idle(2));
    assert_eq!(brief(&orders), vec![order(0, "a.txt")]);
    assert!(pool.is_empty());
    assert!(pool.update(vec![busy("a.txt", 1, 5), DownloadStatus::Idle]).is_empty());
}

#[test]
fn enqueue_is_idempotent() {
    let c = config(2, FailurePolicy::Drop);
    let cache = cache(&c);
    let mut pool = DownloadPool::new(&c).unwrap();
    for _ in 0..100 {
        assert!(matches!(pool.enqueue(&cache, "a.txt"), Some(DownloadState::NotStarted)));
    }
    assert_eq!(brief(&pool.update(idle(2))), vec![order(0, "a.txt")]);
    for _ in 0..100 {
        pool.enqueue(&cache, "a.txt");
    }
    assert!(pool.is_empty());
    assert!(pool.update(vec![busy("a.txt", 0, 5), DownloadStatus::Idle]).is_empty());
    assert!(pool.update(idle(2)).is_empty());
    pool.enqueue(&cache, "a.txt");
    assert!(pool.update(idle(2)).is_empty());
}

#[test]
fn enqueue_reports_progress_and_completion() {
    let c = config(1, FailurePolicy::Drop);
    let mut cache = cache(&c);
    let mut pool = DownloadPool::new(&c).unwrap();
    pool.enqueue(&cache, "a.txt");
    pool.update(idle(1));
    assert!(matches!(pool.enqueue(&cache, "a.txt"), Some(DownloadState::NotStarted)));
    pool.update(vec![busy("a.txt", 2, 5)]);
    match pool.enqueue(&cache, "a.txt") {
        Some(state @ DownloadState::InWork { downloaded: 2, size: 5 }) => {
            assert_eq!(state.percentage(), 40)
        }
        other => panic!("unexpected {:?}", other),
    }
    assert!(matches!(pool.enqueue(&cache, "b.txt"), Some(DownloadState::NotStarted)));
    cache.promote(Digest::new("/var/lib/bcdn/pkg/a.txt", 5, "text/plain", hash_content(b"hello")));
    match pool.enqueue(&cache, "a.txt") {
        Some(DownloadState::Finished { digest }) => assert_eq!(digest.size, 5),
        other => panic!("unexpected {:?}", other),
    }
}

#[test]
fn enqueue_without_a_url_queues_nothing() {
    let c = config(1, FailurePolicy::Drop);
    let cache = cache(&c);
    let mut pool = DownloadPool::new(&c).unwrap();
    assert!(pool.enqueue(&cache, "http://[").is_none());
    assert!(pool.is_empty());
}

#[test]
fn update_hands_out_jobs_in_the_order_of_their_first_push() {
    let c = config(2, FailurePolicy::Drop);
    let cache = cache(&c);
    let mut pool = DownloadPool::new(&c).unwrap();
    for name in ["a", "b", "a", "c", "d"] {
        pool.enqueue(&cache, name);
    }
    assert_eq!(brief(&pool.update(idle(2))), vec![order(0, "a"), order(1, "b")]);
    assert!(pool.update(vec![busy("a", 1, 2), busy("b", 1, 2)]).is_empty());
    assert_eq!(
        brief(&pool.update(vec![busy("a", 2, 2), DownloadStatus::Idle])),
        vec![order(1, "c")]
    );
    assert_eq!(
        brief(&pool.update(vec![DownloadStatus::Idle, busy("c", 0, 2)])),
        vec![order(0, "d")]
    );
    assert!(pool.is_empty());
    assert!(pool.update(idle(2)).is_empty());
}

#[test]
fn failed_job_is_forgotten_by_default() {
    let c = config(1, FailurePolicy::Drop);
    let cache = cache(&c);
    let mut pool = DownloadPool::new(&c).unwrap();
    pool.enqueue(&cache, "a");
    pool.update(idle(1));
    pool.fail(0);
    assert!(pool.is_empty());
    assert!(pool.update(idle(1)).is_empty());
    pool.enqueue(&cache, "a");
    assert_eq!(brief(&pool.update(idle(1))), vec![order(0, "a")]);
}

#[test]
fn failed_job_is_retried_on_demand() {
    let c = config(1, FailurePolicy::Retry);
    let cache = cache(&c);
    let mut pool = DownloadPool::new(&c).unwrap();
    pool.enqueue(&cache, "a");
    pool.enqueue(&cache, "b");
    pool.update(idle(1));
    pool.fail(0);
    assert_eq!(brief(&pool.update(idle(1))), vec![order(0, "b")]);
    assert_eq!(brief(&pool.update(idle(1))), vec![order(0, "a")]);
    assert!(pool.update(idle(1)).is_empty());
}

fn config_of(entries: &[(&str, &str)]) -> Config {
    let mut c = config(2, FailurePolicy::Drop);
    c.entries = entries
        .iter()
        .map(|(name, url)| NamedEntry { name: name.to_string(), entry: Entry::new(url) })
        .collect();
    c
}

#[test]
fn new_pool_maps_entry_names_to_base_urls() {
    let c = config_of(&[
        ("pkg", "http://origin/p/"),
        ("zip", "HTTP://Origin:80/z/"),
        ("pkg", "http://other/"),
    ]);
    let pool = DownloadPool::new(&c).unwrap();
    assert_eq!(pool.base_url("pkg"), Some("http://origin/p/".to_string()));
    assert_eq!(pool.base_url("zip"), Some("http://origin/z/".to_string()));
    assert_eq!(pool.base_url("none"), None);
    assert_eq!(pool.base_url(""), None);
    let empty = DownloadPool::new(&config_of(&[])).unwrap();
    assert_eq!(empty.base_url("pkg"), None);
}

#[test]
fn new_pool_fails_on_a_base_url_that_is_none() {
    let c = config_of(&[("pkg", "http://origin/p/"), ("zip", "nowhere"), ("tar", "also not")]);
    assert_eq!(DownloadPool::new(&c).err(), Some(PoolError::BaseUrl(1)));
    let c = config_of(&[("pkg", "/relative/")]);
    assert_eq!(DownloadPool::new(&c).err(), Some(PoolError::BaseUrl(0)));
}

#[test]
fn enqueue_takes_the_url_from_the_pool() {
    let served = config_of(&[("pkg", "http://origin/p/")]);
    let mut elsewhere = config_of(&[("pkg", "http://mirror/m/")]);
    elsewhere.cache.root_path = "/var/lib/bcdn".to_string();
    let mut pool = DownloadPool::new(&elsewhere).unwrap();
    pool.enqueue(&cache(&served), "a.txt");
    let orders = pool.update(idle(2));
    assert_eq!(orders.len(), 1);
    assert_eq!(orders[0].data.url, "http://mirror/m/a.txt");
    assert_eq!(orders[0].data.path, "/var/lib/bcdn/pkg/a.txt");
}

#[test]
fn enqueue_for_an_entry_that_the_pool_does_not_know() {
    let served = config_of(&[("pkg", "http://origin/p/")]);
    let mut pool = DownloadPool::new(&config_of(&[("zip", "http://origin/z/")])).unwrap();
    assert!(pool.enqueue(&cache(&served), "a.txt").is_none());
    assert!(pool.is_empty());
    assert!(pool.update(idle(2)).is_empty());
}

#[test]
fn marked_slots_are_reset_before_the_round() {
    let c = config(2, FailurePolicy::Retry);
    let cache = cache(&c);
    let mut pool = DownloadPool::new(&c).unwrap();
    for name in ["a", "b", "c"] {
        pool.enqueue(&cache, name);
    }
    assert_eq!(brief(&pool.update(idle(2))), vec![order(0, "a"), order(1, "b")]);
    pool.fail_marked(&vec![false, true]);
    assert_eq!(
        brief(&pool.update(vec![busy("a", 1, 2), DownloadStatus::Idle])),
        vec![order(1, "c")]
    );
    pool.fail_marked(&vec![false, false]);
    pool.fail_marked(&vec![]);
    pool.fail_marked(&vec![true, false, true]);
    assert_eq!(
        brief(&pool.update(vec![DownloadStatus::Idle, busy("c", 1, 2)])),
        vec![order(0, "b")]
    );
    assert_eq!(
        brief(&pool.update(vec![DownloadStatus::Idle, busy("c", 1, 2)])),
        vec![order(0, "a")]
    );
}
