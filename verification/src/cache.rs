//! One entry's cache: which file names it serves, where its files are, and
//! the digests of those it holds.

use crate::config::{compiles, texts, Config};
use crate::digest::{Digest, DigestError, DigestRecord, DigestView};
use crate::globs::{glob_matches, globset_patterns, globset_plain, is_match};
use crate::index::{named, DigestIndex};
use crate::paths::{join, join_path, split};
use crate::urls::{as_text, url_joined, url_parsed, url_text};
use vstd::prelude::*;

verus! {

/// Why a cache could not be made.
#[derive(Debug)]
pub enum CacheError {
    /// A pattern of the entry is no pattern.
    GlobSet(globset::Error),
    /// The file system failed.
    IO,
    /// The configuration has no entry of that name.
    ConfigMissing,
    /// The entry's base URL is no absolute URL.
    BaseUrl(url::ParseError),
}

/// What a cache knows of a file name.
#[derive(Debug)]
pub enum CacheResult {
    /// The file is held and verified.
    Cached(Digest),
    /// The entry serves the name, but the file is not held.
    NotCached,
    /// The entry does not serve the name.
    NotFound,
}

/// The mathematical value of a lookup.
pub enum Lookup {
    Cached(DigestView),
    NotCached,
    NotFound,
}

impl View for CacheResult {
    type V = Lookup;

    open spec fn view(&self) -> Lookup {
        match self {
            CacheResult::Cached(d) => Lookup::Cached(d@),
            CacheResult::NotCached => Lookup::NotCached,
            CacheResult::NotFound => Lookup::NotFound,
        }
    }
}

/// What was found on disk for one entry of a cache's directory.
#[derive(Debug)]
pub struct Candidate {
    /// The path of the directory entry.
    pub path: String,
    /// What its digest file holds, or why it could not be read.
    pub record: Result<DigestRecord, DigestError>,
    /// The hash of the file that the digest names, or why it could not be
    /// read.
    pub content_hash: Result<[u8; 32], DigestError>,
}

/// The digest that a candidate gives, or the first thing wrong with it: its
/// path names no file, its digest file was not read or holds no valid record,
/// its file was not read, or the file's hash is not the digest's.
pub open spec fn load(c: Candidate) -> Result<DigestView, DigestError> {
    match split(c.path@) {
        None => Err(DigestError::FileNotFound),
        Some((root, _)) => match c.record {
            Err(e) => Err(e),
            Ok(record) => if !record@.valid() {
                Err(DigestError::JsonError)
            } else {
                match c.content_hash {
                    Err(e) => Err(e),
                    Ok(hash) => if hash@ == record@.digest(root).hash {
                        Ok(record@.digest(root))
                    } else {
                        Err(DigestError::VerifyError)
                    },
                }
            },
        },
    }
}

/// The digest with which a candidate enters the index: its path matches the
/// patterns and it loads.
pub open spec fn admitted(patterns: Seq<Seq<char>>, c: Candidate) -> Option<DigestView> {
    if glob_matches(patterns, c.path@) {
        match load(c) {
            Ok(d) => Some(d),
            Err(_) => None,
        }
    } else {
        None
    }
}

/// The index that a scan of `found` gives: each admitted digest under its
/// file name; of two with one name the later stays.
pub open spec fn scan(patterns: Seq<Seq<char>>, found: Seq<Candidate>) -> Map<
    Seq<char>,
    DigestView,
>
    decreases found.len(),
{
    if found.len() == 0 {
        Map::empty()
    } else {
        let before = scan(patterns, found.drop_last());
        match admitted(patterns, found.last()) {
            Some(d) => before.insert(d.file_name, d),
            None => before,
        }
    }
}

/// A scan misses no admitted candidate: the index holds a digest under the
/// file name of each.
pub proof fn lemma_scan_total(patterns: Seq<Seq<char>>, found: Seq<Candidate>, i: int)
    requires
        0 <= i < found.len(),
        admitted(patterns, found[i]) is Some,
    ensures
        scan(patterns, found).contains_key(admitted(patterns, found[i])->0.file_name),
    decreases found.len(),
{
    if i < found.len() - 1 {
        lemma_scan_total(patterns, found.drop_last(), i);
    }
}

/// The digest of a candidate, or the first thing wrong with it.
pub fn load_from_path(c: &Candidate) -> (loaded: Result<Digest, DigestError>)
    ensures
        crate::digest::digest_result_view(loaded) == load(*c),
        loaded matches Ok(d) ==> d@.wf(),
{
    match crate::paths::split_path(c.path.as_str()) {
        None => Err(DigestError::FileNotFound),
        Some((root, _)) => match &c.record {
            Err(e) => Err(*e),
            Ok(record) => match Digest::from_record(record, root.as_str()) {
                Err(e) => Err(e),
                Ok(digest) => match &c.content_hash {
                    Err(e) => Err(*e),
                    Ok(hash) => match digest.verify(hash) {
                        Err(e) => Err(e),
                        Ok(()) => Ok(digest),
                    },
                },
            },
        },
    }
}

/// The index of the digests that `found` gives for the patterns of `glob`.
pub fn preprocess_existing(glob: &globset::GlobSet, found: &Vec<Candidate>) -> (index:
    DigestIndex)
    requires
        globset_plain(*glob),
    ensures
        index.wf(),
        index@ == scan(globset_patterns(*glob), found@),
{
    let mut index = DigestIndex::new();
    let mut i: usize = 0;
    assert(found@.subrange(0, 0) =~= Seq::<Candidate>::empty());
    while i < found.len()
        invariant
            i <= found@.len(),
            globset_plain(*glob),
            index.wf(),
            index@ == scan(globset_patterns(*glob), found@.subrange(0, i as int)),
        decreases found@.len() - i,
    {
        proof {
            let next = found@.subrange(0, i as int + 1);
            assert(next.drop_last() =~= found@.subrange(0, i as int));
            assert(next.last() == found@[i as int]);
        }
        if is_match(glob, found[i].path.as_str()) {
            match load_from_path(&found[i]) {
                Ok(digest) => {
                    index.insert(digest);
                },
                Err(_) => {},
            }
        }
        i = i + 1;
    }
    assert(found@.subrange(0, i as int) =~= found@);
    index
}

/// The cache of one entry.
#[derive(Debug)]
pub struct Cache {
    name: String,
    base: url::Url,
    patterns: globset::GlobSet,
    path: String,
    digests: DigestIndex,
}

/// The mathematical value of a cache.
pub struct CacheView {
    pub name: Seq<char>,
    /// The base URL, written out.
    pub base: Seq<char>,
    pub patterns: Seq<Seq<char>>,
    /// The directory of the cache's files.
    pub path: Seq<char>,
    pub index: Map<Seq<char>, DigestView>,
}

impl CacheView {
    /// Every digest of the index stands under its own file name.
    pub open spec fn wf(self) -> bool {
        named(self.index)
    }

    /// What the cache knows of `filename`: nothing where no pattern matches
    /// it, else the digest in the index, else that the file is not held.
    pub open spec fn get(self, filename: Seq<char>) -> Lookup {
        if !glob_matches(self.patterns, filename) {
            Lookup::NotFound
        } else if self.index.contains_key(filename) {
            Lookup::Cached(self.index[filename])
        } else {
            Lookup::NotCached
        }
    }

    /// The URL, written out, of `filename` at the origin.
    pub open spec fn redirect(self, filename: Seq<char>) -> Option<Seq<char>> {
        url_joined(self.base, filename)
    }

    /// The cache with `digest` in its index.
    pub open spec fn promote(self, digest: DigestView) -> CacheView {
        CacheView { index: self.index.insert(digest.file_name, digest), ..self }
    }
}

/// After a scan, every file that was admitted under its own name, and whose
/// name the patterns match, is served from the index.
pub proof fn lemma_scanned_file_is_served(
    cache: CacheView,
    found: Seq<Candidate>,
    i: int,
    filename: Seq<char>,
)
    requires
        cache.index == scan(cache.patterns, found),
        0 <= i < found.len(),
        admitted(cache.patterns, found[i]) matches Some(d) && d.file_name == filename,
        glob_matches(cache.patterns, filename),
    ensures
        cache.get(filename) is Cached,
{
    lemma_scan_total(cache.patterns, found, i);
}

/// The digest that a cache gives for a file name bears that name.
pub proof fn lemma_found_bears_the_name(cache: CacheView, filename: Seq<char>)
    requires
        cache.wf(),
    ensures
        cache.get(filename) matches Lookup::Cached(digest) ==> digest.file_name == filename,
{
}

/// A promotion keeps every digest under its own name.
pub proof fn lemma_promote_wf(cache: CacheView, digest: DigestView)
    requires
        cache.wf(),
    ensures
        cache.promote(digest).wf(),
{
}

/// A scan puts every digest under its own name.
pub proof fn lemma_scan_named(patterns: Seq<Seq<char>>, found: Seq<Candidate>)
    ensures
        named(scan(patterns, found)),
    decreases found.len(),
{
    if found.len() > 0 {
        lemma_scan_named(patterns, found.drop_last());
    }
}

/// A file name that no pattern matches is never found, whatever the index
/// holds.
pub proof fn lemma_pattern_enforced(cache: CacheView, filename: Seq<char>)
    requires
        !glob_matches(cache.patterns, filename),
    ensures
        cache.get(filename) is NotFound,
{
}

/// A promoted digest is served from then on, where a pattern matches its
/// name.
pub proof fn lemma_promoted_is_served(cache: CacheView, digest: DigestView)
    requires
        glob_matches(cache.patterns, digest.file_name),
    ensures
        cache.promote(digest).get(digest.file_name) == Lookup::Cached(digest),
{
}

impl View for Cache {
    type V = CacheView;

    closed spec fn view(&self) -> CacheView {
        CacheView {
            name: self.name@,
            base: url_text(self.base),
            patterns: globset_patterns(self.patterns),
            path: self.path@,
            index: self.digests@,
        }
    }
}

/// The value of an optional URL.
pub open spec fn url_view(url: Option<url::Url>) -> Option<Seq<char>> {
    match url {
        Some(u) => Some(url_text(u)),
        None => None,
    }
}

impl Cache {
    /// The index holds no name twice, and the patterns were parsed with the
    /// default options.
    pub closed spec fn wf(&self) -> bool {
        self.digests.wf() && globset_plain(self.patterns)
    }

    /// The value of a cache is well formed.
    pub proof fn lemma_wf(&self)
        ensures
            self@.wf(),
    {
        self.digests.lemma_named();
    }

    /// The directory of the files of the entry `name`.
    pub fn root_for(name: &str, config: &Config) -> (root: String)
        ensures
            root@ == join(config.cache.root_path@, name@),
    {
        join_path(config.cache.root_path.as_str(), name)
    }

    /// The cache of the entry `name`, with the index that a scan of `found`,
    /// the entries of its directory, gives. It fails where the configuration
    /// has no such entry, a pattern of the entry cannot be compiled, or its
    /// base URL is no absolute URL, in this order.
    pub fn new(name: &str, config: &Config, found: &Vec<Candidate>) -> (made: Result<
        Cache,
        CacheError,
    >)
        ensures
            match made {
                Ok(cache) => {
                    &&& config.index_of(name@) matches Some(i)
                    &&& compiles(texts(config.entries@[i].entry.patterns@))
                    &&& url_parsed(config.entries@[i].entry.base_url@) == Some(cache@.base)
                    &&& cache.wf()
                    &&& cache@.name == name@
                    &&& cache@.patterns == texts(config.entries@[i].entry.patterns@)
                    &&& cache@.path == join(config.cache.root_path@, name@)
                    &&& cache@.index == scan(cache@.patterns, found@)
                },
                Err(CacheError::ConfigMissing) => config.index_of(name@) is None,
                Err(CacheError::GlobSet(_)) => config.index_of(name@) matches Some(i) && !compiles(
                    texts(config.entries@[i].entry.patterns@),
                ),
                Err(CacheError::BaseUrl(_)) => {
                    &&& config.index_of(name@) matches Some(i)
                    &&& compiles(texts(config.entries@[i].entry.patterns@))
                    &&& url_parsed(config.entries@[i].entry.base_url@) is None
                },
                Err(CacheError::IO) => false,
            },
    {
        let entry = match config.entry(name) {
            None => {
                return Err(CacheError::ConfigMissing);
            },
            Some(entry) => entry,
        };
        let patterns = match entry.get_globset() {
            Err(e) => {
                return Err(CacheError::GlobSet(e));
            },
            Ok(patterns) => patterns,
        };
        let base = match crate::urls::parse(entry.base_url.as_str()) {
            Err(e) => {
                return Err(CacheError::BaseUrl(e));
            },
            Ok(base) => base,
        };
        let digests = preprocess_existing(&patterns, found);
        Ok(Cache { name: name.to_owned(), base, patterns, path: Cache::root_for(name, config), digests })
    }

    /// The entry's name.
    pub fn name(&self) -> (name: &str)
        ensures
            name@ == self@.name,
    {
        self.name.as_str()
    }

    /// What the cache knows of `filename`.
    pub fn get(&self, filename: &str) -> (found: CacheResult)
        requires
            self.wf(),
        ensures
            found@ == self@.get(filename@),
            found matches CacheResult::Cached(digest) ==> digest@.file_name == filename@,
    {
        if !is_match(&self.patterns, filename) {
            return CacheResult::NotFound;
        }
        match self.digests.get(filename) {
            Some(digest) => CacheResult::Cached(digest),
            None => CacheResult::NotCached,
        }
    }

    /// The URL of `filename` at the origin: the file name joined to the base
    /// URL; none where the two give no URL.
    pub fn get_redirect(&self, filename: &str) -> (url: Option<url::Url>)
        ensures
            url_view(url) == self@.redirect(filename@),
    {
        match crate::urls::join(&self.base, filename) {
            Ok(url) => Some(url),
            Err(_) => None,
        }
    }

    /// The directory of the cache's files.
    pub fn get_path(&self) -> (path: &str)
        ensures
            path@ == self@.path,
    {
        self.path.as_str()
    }

    /// The base URL, written out.
    pub fn base_url(&self) -> (text: String)
        ensures
            text@ == self@.base,
    {
        as_text(&self.base)
    }

    /// Takes the digest of a file whose download is complete into the index,
    /// under the file's name.
    pub fn promote(&mut self, digest: Digest)
        requires
            old(self).wf(),
        ensures
            final(self).wf(),
            final(self)@ == old(self)@.promote(digest@),
    {
        self.digests.insert(digest);
    }
}

} // verus!
