use bcdn::cache::{load_from_path, preprocess_existing, Cache, CacheError, CacheResult, Candidate};
use bcdn::config::{CacheConfig, Config, Entry, NamedEntry, ProxyConfig};
use bcdn::digest::{hash_content, Digest, DigestError, DigestRecord};
use bcdn::hash_serde::serialize;
use bcdn::queue_model::FailurePolicy;

fn config_with(base: &str, patterns: &[&str]) -> Config {
    Config {
        cache: CacheConfig {
            bind: "127.0.0.1:1337".to_string(),
            root_path: "/var/lib/bcdn".to_string(),
            max_downloads: 4,
            on_failure: FailurePolicy::Drop,
        },
        proxy: ProxyConfig::default(),
        entries: vec![NamedEntry {
            name: "pkg".to_string(),
            entry: Entry {
                base_url: base.to_string(),
                patterns: patterns.iter().map(|p| p.to_string()).collect(),
            },
        }],
    }
}

fn config() -> Config {
    config_with("http://origin/p/", &["*"])
}

fn record(name: &str, content: &[u8]) -> DigestRecord {
    DigestRecord {
        version: 1,
        size: content.len() as u64,
        downloaded: content.len() as u64,
        file_name: name.to_string(),
        content_type: "text/plain".to_string(),
        hash: serialize(&hash_content(content)),
    }
}

fn candidate(name: &str, content: &[u8]) -> Candidate {
    Candidate {
        path: format!("/var/lib/bcdn/pkg/{}", name),
        record: Ok(record(name, content)),
        content_hash: Ok(hash_content(content)),
    }
}

fn cached(r: CacheResult) -> Option<Digest> {
    match r {
        CacheResult::Cached(d) => Some(d),
        _ => None,
    }
}

#[test]
fn new_cache_is_empty() {
    let cache = Cache::new("pkg", &config(), &vec![]).unwrap();
    assert_eq!(cache.name(), "pkg");
    assert_eq!(cache.get_path(), "/var/lib/bcdn/pkg");
    assert_eq!(cache.base_url(), "http://origin/p/");
    assert_eq!(Cache::root_for("pkg", &config()), "/var/lib/bcdn/pkg");
    assert!(matches!(cache.get("a.txt"), CacheResult::NotCached));
}

#[test]
fn new_cache_fails_without_entry_pattern_or_url() {
    assert!(matches!(Cache::new("none", &config(), &vec![]), Err(CacheError::ConfigMissing)));
    assert!(matches!(
        Cache::new("pkg", &config_with("http://origin/p/", &["[a"]), &vec![]),
        Err(CacheError::GlobSet(_))
    ));
    assert!(matches!(
        Cache::new("pkg", &config_with("not a url", &["*"]), &vec![]),
        Err(CacheError::BaseUrl(_))
    ));
    assert!(matches!(
        Cache::new("pkg", &config_with("not a url", &["[a"]), &vec![]),
        Err(CacheError::GlobSet(_))
    ));
}

#[test]
fn scan_admits_what_verifies() {
    let found = vec![candidate("a.txt", b"hello"), candidate("b.txt", b"world")];
    let cache = Cache::new("pkg", &config(), &found).unwrap();
    let a = cached(cache.get("a.txt")).unwrap();
    assert_eq!(a.file_name, "a.txt");
    assert_eq!(cached(cache.get("b.txt")).unwrap().file_name, "b.txt");
    assert_eq!(a.size, 5);
    assert_eq!(a.hash(), hash_content(b"hello"));
    assert_eq!(a.get_file_path(), "/var/lib/bcdn/pkg/a.txt");
    assert!(cached(cache.get("b.txt")).is_some());
    assert!(matches!(cache.get("c.txt"), CacheResult::NotCached));
}

#[test]
fn scan_skips_what_does_not_load() {
    let mut wrong_hash = candidate("a.txt", b"hello");
    wrong_hash.content_hash = Ok(hash_content(b"other"));
    let mut no_digest = candidate("b.txt", b"hello");
    no_digest.record = Err(DigestError::IoError);
    let mut no_file = candidate("c.txt", b"hello");
    no_file.content_hash = Err(DigestError::IoError);
    let mut bad_version = candidate("d.txt", b"hello");
    bad_version.record.as_mut().unwrap().version = 7;
    let mut no_name = candidate("e.txt", b"hello");
    no_name.path = "/var/lib/bcdn/pkg/".to_string();
    assert_eq!(load_from_path(&wrong_hash).err(), Some(DigestError::VerifyError));
    assert_eq!(load_from_path(&no_digest).err(), Some(DigestError::IoError));
    assert_eq!(load_from_path(&no_file).err(), Some(DigestError::IoError));
    assert_eq!(load_from_path(&bad_version).err(), Some(DigestError::JsonError));
    assert_eq!(load_from_path(&no_name).err(), Some(DigestError::FileNotFound));
    let found =
        vec![wrong_hash, no_digest, no_file, bad_version, no_name, candidate("f.txt", b"ok")];
    let cache = Cache::new("pkg", &config(), &found).unwrap();
    for name in ["a.txt", "b.txt", "c.txt", "d.txt", "e.txt"] {
        assert!(matches!(cache.get(name), CacheResult::NotCached));
    }
    assert!(cached(cache.get("f.txt")).is_some());
}

#[test]
fn scan_matches_the_path_against_the_patterns() {
    let found = vec![candidate("a.zip", b"zip"), candidate("a.txt", b"txt")];
    let cache = Cache::new("pkg", &config_with("http://origin/p/", &["*.zip"]), &found).unwrap();
    assert!(cached(cache.get("a.zip")).is_some());
    assert!(matches!(cache.get("a.txt"), CacheResult::NotFound));
    assert!(matches!(cache.get("b.zip"), CacheResult::NotCached));
    let set = config_with("http://origin/p/", &["*.zip"]).entries[0].entry.get_globset().unwrap();
    let index = preprocess_existing(&set, &found);
    assert!(index.get("a.zip").is_some());
    assert!(index.get("a.txt").is_none());
}

#[test]
fn scan_keeps_the_later_of_two_with_one_name() {
    let first = candidate("a.txt", b"one");
    let mut second = candidate("copy", b"three");
    second.record.as_mut().unwrap().file_name = "a.txt".to_string();
    let cache = Cache::new("pkg", &config(), &vec![first, second]).unwrap();
    let a = cached(cache.get("a.txt")).unwrap();
    assert_eq!(a.size, 5);
    assert_eq!(a.hash(), hash_content(b"three"));
    assert!(matches!(cache.get("copy"), CacheResult::NotCached));
}

#[test]
fn get_enforces_the_patterns() {
    let mut cache = Cache::new("pkg", &config_with("http://origin/p/", &["*.zip"]), &vec![]).unwrap();
    assert!(matches!(cache.get("a.txt"), CacheResult::NotFound));
    cache.promote(Digest::new("/var/lib/bcdn/pkg/a.txt", 5, "text/plain", hash_content(b"hello")));
    assert!(matches!(cache.get("a.txt"), CacheResult::NotFound));
}

#[test]
fn promote_puts_the_digest_into_the_index() {
    let mut cache = Cache::new("pkg", &config(), &vec![]).unwrap();
    assert!(matches!(cache.get("a.txt"), CacheResult::NotCached));
    cache.promote(Digest::new("/var/lib/bcdn/pkg/a.txt", 5, "text/plain", hash_content(b"hello")));
    let a = cached(cache.get("a.txt")).unwrap();
    assert_eq!(a.content_type, "text/plain");
    cache.promote(Digest::new("/var/lib/bcdn/pkg/a.txt", 6, "text/html", hash_content(b"hello!")));
    let a = cached(cache.get("a.txt")).unwrap();
    assert_eq!(a.size, 6);
    assert_eq!(a.content_type, "text/html");
    assert!(matches!(cache.get("b.txt"), CacheResult::NotCached));
}

#[test]
fn get_redirect_joins_the_file_name_to_the_base() {
    let cache = Cache::new("pkg", &config(), &vec![]).unwrap();
    assert_eq!(cache.get_redirect("a.txt").unwrap().as_str(), "http://origin/p/a.txt");
    assert_eq!(cache.get_redirect("a b.txt").unwrap().as_str(), "http://origin/p/a%20b.txt");
    let cache = Cache::new("pkg", &config_with("http://origin/p", &["*"]), &vec![]).unwrap();
    assert_eq!(cache.get_redirect("a.txt").unwrap().as_str(), "http://origin/a.txt");
    assert!(cache.get_redirect("http://[").is_none());
}
