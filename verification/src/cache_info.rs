//! What a proxy knows of one entry: the file names it serves and the cache
//! nodes that hold it.

use crate::cache::{url_view, CacheError};
use crate::config::{compiles, texts, Config};
use crate::globs::{glob_matches, globset_patterns, globset_plain, is_match};
use crate::random::{sample_below, thread_rng};
use crate::text::glue;
use crate::urls::{url_joined, url_parsed, url_text};
use vstd::prelude::*;

verus! {

/// A cache node.
#[derive(Debug)]
pub struct NodeCacheInfo {
    url: url::Url,
}

impl NodeCacheInfo {
    /// The node at `url`.
    pub fn new(url: url::Url) -> (node: NodeCacheInfo)
        ensures
            node.url_text() == url_text(url),
    {
        NodeCacheInfo { url }
    }

    /// The node's URL, written out.
    pub closed spec fn url_text(&self) -> Seq<char> {
        url_text(self.url)
    }
}

/// One entry as a proxy sees it.
#[derive(Debug)]
pub struct CacheInfo {
    nodes: Vec<NodeCacheInfo>,
    name: String,
    patterns: globset::GlobSet,
}

/// The mathematical value of an entry at a proxy.
pub struct CacheInfoView {
    /// The nodes' URLs, written out.
    pub nodes: Seq<Seq<char>>,
    pub name: Seq<char>,
    pub patterns: Seq<Seq<char>>,
}

/// The path of a file at a cache node, relative to the node's URL.
pub open spec fn node_path(name: Seq<char>, filename: Seq<char>) -> Seq<char> {
    "c/v1/"@ + name + "/f/"@ + filename
}

impl CacheInfoView {
    /// The URL, written out, of `filename` at the node `node`: none where no
    /// pattern matches the name or the node's URL and the path give no URL.
    pub open spec fn redirect_to(self, filename: Seq<char>, node: int) -> Option<Seq<char>> {
        if glob_matches(self.patterns, filename) {
            url_joined(self.nodes[node], node_path(self.name, filename))
        } else {
            None
        }
    }
}

/// The nodes' URLs parse, one by one, to `nodes`.
pub open spec fn nodes_parse(texts: Seq<Seq<char>>, nodes: Seq<Seq<char>>) -> bool {
    &&& nodes.len() == texts.len()
    &&& forall|i: int| 0 <= i < texts.len() ==> url_parsed(#[trigger] texts[i]) == Some(nodes[i])
}

/// Some node's URL is no absolute URL.
pub open spec fn some_node_fails(texts: Seq<Seq<char>>) -> bool {
    exists|i: int| 0 <= i < texts.len() && url_parsed(#[trigger] texts[i]) is None
}

impl View for CacheInfo {
    type V = CacheInfoView;

    closed spec fn view(&self) -> CacheInfoView {
        CacheInfoView {
            nodes: Seq::new(self.nodes@.len(), |i: int| self.nodes@[i].url_text()),
            name: self.name@,
            patterns: globset_patterns(self.patterns),
        }
    }
}

impl CacheInfo {
    /// The patterns were parsed with the default options.
    #[verifier::type_invariant]
    closed spec fn plain(self) -> bool {
        globset_plain(self.patterns)
    }

    /// The entry `name` as the proxy of `config` sees it. It fails where the
    /// configuration has no such entry, a pattern of the entry cannot be
    /// compiled, or the URL of a node is no absolute URL, in this order.
    #[verifier::loop_isolation(false)]
    pub fn new(name: &str, config: &Config) -> (made: Result<CacheInfo, CacheError>)
        ensures
            match made {
                Ok(info) => {
                    &&& config.index_of(name@) matches Some(i)
                    &&& compiles(texts(config.entries@[i].entry.patterns@))
                    &&& info@.patterns == texts(config.entries@[i].entry.patterns@)
                    &&& info@.name == name@
                    &&& nodes_parse(texts(config.proxy.nodes@), info@.nodes)
                },
                Err(CacheError::ConfigMissing) => config.index_of(name@) is None,
                Err(CacheError::GlobSet(_)) => config.index_of(name@) matches Some(i) && !compiles(
                    texts(config.entries@[i].entry.patterns@),
                ),
                Err(CacheError::BaseUrl(_)) => {
                    &&& config.index_of(name@) matches Some(i)
                    &&& compiles(texts(config.entries@[i].entry.patterns@))
                    &&& some_node_fails(texts(config.proxy.nodes@))
                },
                Err(CacheError::IO) => false,
            },
    {
        let entry = match config.entry(name) {
            None => {
                return Err(CacheError::ConfigMissing);
            },
            Some(entry) => entry,
        };
        let patterns = match entry.get_globset() {
            Err(e) => {
                return Err(CacheError::GlobSet(e));
            },
            Ok(patterns) => patterns,
        };
        let mut nodes: Vec<NodeCacheInfo> = Vec::new();
        let mut i: usize = 0;
        let ghost all = texts(config.proxy.nodes@);
        while i < config.proxy.nodes.len()
            invariant
                i <= config.proxy.nodes@.len(),
                all == texts(config.proxy.nodes@),
                nodes@.len() == i,
                forall|j: int|
                    0 <= j < i ==> url_parsed(#[trigger] all[j]) == Some(nodes@[j].url_text()),
            decreases config.proxy.nodes@.len() - i,
        {
            match crate::urls::parse(config.proxy.nodes[i].as_str()) {
                Err(e) => {
                    assert(url_parsed(all[i as int]) is None);
                    return Err(CacheError::BaseUrl(e));
                },
                Ok(url) => {
                    nodes.push(NodeCacheInfo::new(url));
                },
            }
            i = i + 1;
        }
        Ok(CacheInfo { nodes, name: name.to_owned(), patterns })
    }

    /// The entry's name.
    pub fn name(&self) -> (name: &str)
        ensures
            name@ == self@.name,
    {
        self.name.as_str()
    }

    /// How many nodes hold the entry.
    pub fn nodes(&self) -> (n: usize)
        ensures
            n == self@.nodes.len(),
    {
        self.nodes.len()
    }

    /// Whether a pattern of the entry matches `filename`.
    pub fn serves(&self, filename: &str) -> (yes: bool)
        ensures
            yes == glob_matches(self@.patterns, filename@),
    {
        proof {
            use_type_invariant(self);
        }
        is_match(&self.patterns, filename)
    }

    /// The URL of `filename` at the node `node`.
    pub fn redirect_to(&self, filename: &str, node: usize) -> (url: Option<url::Url>)
        requires
            node < self@.nodes.len(),
        ensures
            url_view(url) == self@.redirect_to(filename@, node as int),
    {
        proof {
            use_type_invariant(self);
        }
        if !is_match(&self.patterns, filename) {
            return None;
        }
        let mut path = glue("c/v1/", self.name.as_str());
        path.append("/f/");
        path.append(filename);
        assert(path@ =~= node_path(self.name@, filename@));
        match crate::urls::join(&self.nodes[node].url, path.as_str()) {
            Ok(url) => Some(url),
            Err(_) => None,
        }
    }

    /// The URL of `filename` at one of the nodes, drawn at random: none where
    /// no pattern matches the name, there is no node, or the drawn node's URL
    /// and the path give no URL.
    pub fn get_redirect(&self, filename: &str) -> (url: Option<url::Url>)
        ensures
            match url {
                Some(u) => exists|node: int|
                    0 <= node < self@.nodes.len() && #[trigger] self@.redirect_to(filename@, node)
                        == Some(url_text(u)),
                None => {
                    ||| !glob_matches(self@.patterns, filename@)
                    ||| self@.nodes.len() == 0
                    ||| exists|node: int|
                        0 <= node < self@.nodes.len() && #[trigger] self@.redirect_to(
                            filename@,
                            node,
                        ) is None
                },
            },
    {
        proof {
            use_type_invariant(self);
        }
        if !is_match(&self.patterns, filename) || self.nodes.len() == 0 {
            return None;
        }
        let mut rng = thread_rng();
        let node = sample_below(&mut rng, self.nodes.len());
        let url = self.redirect_to(filename, node);
        proof {
            let drawn = self@.redirect_to(filename@, node as int);
            assert(url_view(url) == drawn);
        }
        url
    }
}

} // verus!
