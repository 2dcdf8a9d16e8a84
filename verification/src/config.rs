//! The configuration of a node: where it binds, where it keeps files, and the
//! entries it serves.

use crate::globs::{
    builder_add, builder_build, builder_new, builder_patterns, builder_plain, glob_new,
    glob_parses, globset_builds, globset_patterns, globset_plain,
};
use crate::queue_model::FailurePolicy;
use crate::text::same_text;
use vstd::prelude::*;

verus! {

/// The address that a node binds unless told otherwise.
pub fn default_address() -> (address: String)
    ensures
        address@ == "127.0.0.1"@,
{
    "127.0.0.1".to_owned()
}

/// The port of a cache node unless told otherwise.
pub fn default_cache_port() -> (port: u16)
    ensures
        port == 1337,
{
    1337
}

/// The port of a proxy node unless told otherwise.
pub fn default_proxy_port() -> (port: u16)
    ensures
        port == 1336,
{
    1336
}

/// The patterns of an entry unless told otherwise: every file name.
pub fn default_patterns() -> (patterns: Vec<String>)
    ensures
        texts(patterns@) == seq!["*"@],
{
    let mut patterns: Vec<String> = Vec::new();
    patterns.push("*".to_owned());
    assert(texts(patterns@) =~= seq!["*"@]);
    patterns
}

/// The values of a sequence of texts.
pub open spec fn texts(s: Seq<String>) -> Seq<Seq<char>> {
    Seq::new(s.len(), |i: int| s[i]@)
}

/// An upstream origin.
#[derive(Debug)]
pub struct Entry {
    /// The URL below which the origin's files are; it ends in `/`.
    pub base_url: String,
    /// The patterns of the file names that the entry serves.
    pub patterns: Vec<String>,
}

impl Clone for Entry {
    fn clone(&self) -> (copy: Self)
        ensures
            copy.base_url@ == self.base_url@,
            texts(copy.patterns@) == texts(self.patterns@),
    {
        let mut patterns: Vec<String> = Vec::new();
        let mut i: usize = 0;
        while i < self.patterns.len()
            invariant
                i <= self.patterns@.len(),
                patterns@.len() == i,
                forall|j: int| 0 <= j < i ==> patterns@[j]@ == self.patterns@[j]@,
            decreases self.patterns@.len() - i,
        {
            patterns.push(self.patterns[i].clone());
            i = i + 1;
        }
        assert(texts(patterns@) =~= texts(self.patterns@));
        Entry { base_url: self.base_url.clone(), patterns }
    }
}

/// Every pattern of `patterns` is one that can be parsed.
pub open spec fn all_parse(patterns: Seq<Seq<char>>) -> bool {
    forall|i: int| 0 <= i < patterns.len() ==> glob_parses(#[trigger] patterns[i])
}

/// A matcher can be made of `patterns`.
pub open spec fn compiles(patterns: Seq<Seq<char>>) -> bool {
    all_parse(patterns) && globset_builds(patterns)
}

impl Entry {
    /// An entry for the origin at `base_url` that serves every file name.
    pub fn new(base_url: &str) -> (entry: Entry)
        ensures
            entry.base_url@ == base_url@,
            texts(entry.patterns@) == seq!["*"@],
    {
        Entry { base_url: base_url.to_owned(), patterns: default_patterns() }
    }

    /// The matcher of the entry's patterns: an error where a pattern cannot
    /// be parsed or the set cannot be built.
    pub fn get_globset(&self) -> (set: Result<globset::GlobSet, globset::Error>)
        ensures
            match set {
                Ok(s) => {
                    &&& compiles(texts(self.patterns@))
                    &&& globset_patterns(s) == texts(self.patterns@)
                    &&& globset_plain(s)
                },
                Err(_) => !compiles(texts(self.patterns@)),
            },
    {
        let mut builder = builder_new();
        let mut i: usize = 0;
        while i < self.patterns.len()
            invariant
                i <= self.patterns@.len(),
                builder_patterns(builder) == texts(self.patterns@).subrange(0, i as int),
                builder_plain(builder),
                forall|j: int| 0 <= j < i ==> glob_parses(#[trigger] texts(self.patterns@)[j]),
            decreases self.patterns@.len() - i,
        {
            match glob_new(self.patterns[i].as_str()) {
                Err(e) => {
                    assert(!glob_parses(texts(self.patterns@)[i as int]));
                    return Err(e);
                },
                Ok(glob) => {
                    builder_add(&mut builder, glob);
                    assert(texts(self.patterns@).subrange(0, i as int).push(
                        texts(self.patterns@)[i as int],
                    ) =~= texts(self.patterns@).subrange(0, i as int + 1));
                },
            }
            i = i + 1;
        }
        assert(texts(self.patterns@).subrange(0, i as int) =~= texts(self.patterns@));
        builder_build(&builder)
    }
}

/// The settings of a cache node.
#[derive(Debug)]
pub struct CacheConfig {
    /// Host and port to listen on.
    pub bind: String,
    /// The directory below which each entry has its own.
    pub root_path: String,
    /// How many files are downloaded at once; at least one.
    pub max_downloads: usize,
    /// What becomes of a download that failed.
    pub on_failure: FailurePolicy,
}

impl Default for CacheConfig {
    fn default() -> (config: CacheConfig)
        ensures
            config.bind@ == "127.0.0.1:1337"@,
            config.root_path@ == ""@,
            config.max_downloads == 1,
            config.on_failure == FailurePolicy::Drop,
    {
        CacheConfig {
            bind: "127.0.0.1:1337".to_owned(),
            root_path: "".to_owned(),
            max_downloads: 1,
            on_failure: FailurePolicy::Drop,
        }
    }
}

/// The settings of a proxy node.
#[derive(Debug)]
pub struct ProxyConfig {
    /// Host and port to listen on.
    pub bind: String,
    /// The URLs of the cache nodes to redirect to.
    pub nodes: Vec<String>,
}

impl Default for ProxyConfig {
    fn default() -> (config: ProxyConfig)
        ensures
            config.bind@ == "127.0.0.1:1336"@,
            config.nodes@.len() == 0,
    {
        ProxyConfig { bind: "127.0.0.1:1336".to_owned(), nodes: Vec::new() }
    }
}

/// An entry under its name.
#[derive(Debug)]
pub struct NamedEntry {
    pub name: String,
    pub entry: Entry,
}

/// The whole configuration.
#[derive(Debug)]
pub struct Config {
    pub cache: CacheConfig,
    pub proxy: ProxyConfig,
    /// The entries; of two with one name the first counts.
    pub entries: Vec<NamedEntry>,
}

impl Config {
    /// The place of the first entry named `name`.
    pub open spec fn index_of(&self, name: Seq<char>) -> Option<int> {
        if exists|i: int| self.first_named(name, i) {
            Some(choose|i: int| self.first_named(name, i))
        } else {
            None
        }
    }

    /// The entry at `i` is named `name` and none before it is.
    pub open spec fn first_named(&self, name: Seq<char>, i: int) -> bool {
        &&& 0 <= i < self.entries@.len()
        &&& self.entries@[i].name@ == name
        &&& forall|j: int| 0 <= j < i ==> (#[trigger] self.entries@[j]).name@ != name
    }

    /// Some entry is named `name`.
    pub open spec fn has_entry(&self, name: Seq<char>) -> bool {
        exists|i: int| 0 <= i < self.entries@.len() && (#[trigger] self.entries@[i]).name@ == name
    }

    /// The entry named `name`.
    pub fn entry(&self, name: &str) -> (found: Option<&Entry>)
        ensures
            match found {
                Some(e) => self.index_of(name@) matches Some(i) && self.first_named(name@, i)
                    && *e == self.entries@[i].entry,
                None => self.index_of(name@) is None && !self.has_entry(name@),
            },
    {
        let mut i: usize = 0;
        while i < self.entries.len()
            invariant
                i <= self.entries@.len(),
                forall|j: int| 0 <= j < i ==> (#[trigger] self.entries@[j]).name@ != name@,
            decreases self.entries@.len() - i,
        {
            if same_text(self.entries[i].name.as_str(), name) {
                proof {
                    let k = choose|k: int| self.first_named(name@, k);
                    assert(self.first_named(name@, i as int));
                    if k < i {
                        assert(self.entries@[k].name@ != name@);
                    } else if i < k {
                        assert(self.entries@[i as int].name@ != name@);
                    }
                }
                return Some(&self.entries[i].entry);
            }
            i = i + 1;
        }
        None
    }
}

/// A character that may stand in an entry's name: a letter or digit of
/// ASCII, `_` or `-`.
pub open spec fn is_name_char(c: char) -> bool {
    ('A' <= c && c <= 'Z') || ('a' <= c && c <= 'z') || ('0' <= c && c <= '9') || c == '_' || c
        == '-'
}

/// `name` can name an entry: one or more name characters.
pub open spec fn is_entry_name(name: Seq<char>) -> bool {
    name.len() > 0 && forall|i: int| 0 <= i < name.len() ==> is_name_char(#[trigger] name[i])
}

/// `url` ends in `/`, so that file names join below it.
pub open spec fn ends_in_slash(url: Seq<char>) -> bool {
    url.len() > 0 && url.last() == '/'
}

/// What is wrong with a configuration.
#[derive(Clone, Copy, Debug, PartialEq, Eq, Structural)]
pub enum ConfigError {
    /// No download is allowed at once.
    MaxDownloads,
    /// The name of the entry at this place is no entry name.
    EntryName(usize),
    /// The base URL of the entry at this place does not end in `/`.
    BaseUrl(usize),
}

/// Whether `name` can name an entry.
pub fn check_entry_name(name: &str) -> (good: bool)
    ensures
        good == is_entry_name(name@),
{
    let n: usize = name.unicode_len();
    if n == 0 {
        return false;
    }
    let mut i: usize = 0;
    while i < n
        invariant
            n == name@.len(),
            i <= n,
            forall|j: int| 0 <= j < i ==> is_name_char(#[trigger] name@[j]),
        decreases n - i,
    {
        let c: char = name.get_char(i);
        let good = (c >= 'A' && c <= 'Z') || (c >= 'a' && c <= 'z') || (c >= '0' && c <= '9') || c
            == '_' || c == '-';
        if !good {
            assert(!is_name_char(name@[i as int]));
            return false;
        }
        i = i + 1;
    }
    true
}

/// Whether `url` ends in `/`.
pub fn check_ends_in_slash(url: &str) -> (good: bool)
    ensures
        good == ends_in_slash(url@),
{
    let n: usize = url.unicode_len();
    n > 0 && url.get_char(n - 1) == '/'
}

impl Config {
    /// The entry at `i` has a good name and a good base URL.
    pub open spec fn entry_valid(&self, i: int) -> bool {
        is_entry_name(self.entries@[i].name@) && ends_in_slash(self.entries@[i].entry.base_url@)
    }

    /// At least one download is allowed at once, and every entry is valid.
    pub open spec fn valid(&self) -> bool {
        &&& self.cache.max_downloads >= 1
        &&& forall|i: int| 0 <= i < self.entries@.len() ==> self.entry_valid(i)
    }

    /// Looks for what is wrong with the configuration: the number of
    /// downloads first, then the entries in order, the name of each before
    /// its base URL.
    pub fn check(&self) -> (checked: Result<(), ConfigError>)
        ensures
            match checked {
                Ok(()) => self.valid(),
                Err(ConfigError::MaxDownloads) => self.cache.max_downloads == 0,
                Err(ConfigError::EntryName(at)) => {
                    &&& self.cache.max_downloads >= 1
                    &&& at < self.entries@.len()
                    &&& forall|i: int| 0 <= i < at ==> self.entry_valid(i)
                    &&& !is_entry_name(self.entries@[at as int].name@)
                },
                Err(ConfigError::BaseUrl(at)) => {
                    &&& self.cache.max_downloads >= 1
                    &&& at < self.entries@.len()
                    &&& forall|i: int| 0 <= i < at ==> self.entry_valid(i)
                    &&& is_entry_name(self.entries@[at as int].name@)
                    &&& !ends_in_slash(self.entries@[at as int].entry.base_url@)
                },
            },
    {
        if self.cache.max_downloads < 1 {
            return Err(ConfigError::MaxDownloads);
        }
        let mut at: usize = 0;
        while at < self.entries.len()
            invariant
                at <= self.entries@.len(),
                self.cache.max_downloads >= 1,
                forall|i: int| 0 <= i < at ==> self.entry_valid(i),
            decreases self.entries@.len() - at,
        {
            if !check_entry_name(self.entries[at].name.as_str()) {
                return Err(ConfigError::EntryName(at));
            }
            if !check_ends_in_slash(self.entries[at].entry.base_url.as_str()) {
                return Err(ConfigError::BaseUrl(at));
            }
            at = at + 1;
        }
        Ok(())
    }
}

} // verus!
