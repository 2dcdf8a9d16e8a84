use bcdn::cache::CacheError;
use bcdn::cache_info::CacheInfo;
use bcdn::config::{CacheConfig, Config, Entry, NamedEntry, ProxyConfig};

fn config(nodes: &[&str], patterns: &[&str]) -> Config {
    Config {
        cache: CacheConfig::default(),
        proxy: ProxyConfig {
            bind: "127.0.0.1:1336".to_string(),
            nodes: nodes.iter().map(|n| n.to_string()).collect(),
        },
        entries: vec![NamedEntry {
            name: "pkg".to_string(),
            entry: Entry {
                base_url: "http://origin/p/".to_string(),
                patterns: patterns.iter().map(|p| p.to_string()).collect(),
            },
        }],
    }
}

const NODES: [&str; 2] = ["http://cA:1337", "http://cB:1337"];

#[test]
fn info_of_an_entry() {
    let info = CacheInfo::new("pkg", &config(&NODES, &["*"])).unwrap();
    assert_eq!(info.name(), "pkg");
    assert_eq!(info.nodes(), 2);
    assert!(info.serves("a.txt"));
}

#[test]
fn info_fails_without_entry_pattern_or_url() {
    assert!(matches!(
        CacheInfo::new("none", &config(&NODES, &["*"])),
        Err(CacheError::ConfigMissing)
    ));
    assert!(matches!(
        CacheInfo::new("pkg", &config(&NODES, &["{a"])),
        Err(CacheError::GlobSet(_))
    ));
    assert!(matches!(
        CacheInfo::new("pkg", &config(&["http://cA:1337", "nowhere"], &["*"])),
        Err(CacheError::BaseUrl(_))
    ));
}

#[test]
fn redirect_to_a_given_node() {
    let info = CacheInfo::new("pkg", &config(&NODES, &["*"])).unwrap();
    assert_eq!(
        info.redirect_to("a.txt", 0).unwrap().as_str(),
        "http://ca:1337/c/v1/pkg/f/a.txt"
    );
    assert_eq!(
        info.redirect_to("a.txt", 1).unwrap().as_str(),
        "http://cb:1337/c/v1/pkg/f/a.txt"
    );
}

#[test]
fn redirect_goes_to_one_of_the_nodes() {
    let info = CacheInfo::new("pkg", &config(&NODES, &["*"])).unwrap();
    let mut seen = [false, false];
    for _ in 0..200 {
        let url = info.get_redirect("a.txt").unwrap();
        match url.as_str() {
            "http://ca:1337/c/v1/pkg/f/a.txt" => seen[0] = true,
            "http://cb:1337/c/v1/pkg/f/a.txt" => seen[1] = true,
            other => panic!("unexpected redirect {}", other),
        }
    }
    assert!(seen[0] && seen[1]);
}

#[test]
fn no_redirect_for_a_name_that_is_not_served() {
    let info = CacheInfo::new("pkg", &config(&NODES, &["*.zip"])).unwrap();
    assert!(!info.serves("a.txt"));
    assert!(info.get_redirect("a.txt").is_none());
    assert!(info.redirect_to("a.txt", 0).is_none());
    assert!(info.get_redirect("a.zip").is_some());
}

#[test]
fn no_redirect_without_nodes() {
    let info = CacheInfo::new("pkg", &config(&[], &["*"])).unwrap();
    assert_eq!(info.nodes(), 0);
    assert!(info.get_redirect("a.txt").is_none());
}
