//! The index of a cache: the digests of the files it holds, by file name.

use crate::digest::{Digest, DigestView};
use crate::text::same_text;
use vstd::prelude::*;

verus! {

/// Digests by file name; no name occurs twice.
#[derive(Debug)]
pub struct DigestIndex {
    digests: Vec<Digest>,
}

spec fn unique_names(s: Seq<Digest>) -> bool {
    forall|i: int, j: int|
        0 <= i < j < s.len() ==> (#[trigger] s[i])@.file_name != (#[trigger] s[j])@.file_name
}

spec fn has_name(s: Seq<Digest>, name: Seq<char>) -> bool {
    exists|i: int| 0 <= i < s.len() && (#[trigger] s[i])@.file_name == name
}

spec fn place_of(s: Seq<Digest>, name: Seq<char>) -> int {
    choose|i: int| 0 <= i < s.len() && (#[trigger] s[i])@.file_name == name
}

spec fn map_of(s: Seq<Digest>) -> Map<Seq<char>, DigestView> {
    Map::new(|name: Seq<char>| has_name(s, name), |name: Seq<char>| s[place_of(s, name)]@)
}

proof fn lemma_lookup(s: Seq<Digest>, i: int)
    requires
        unique_names(s),
        0 <= i < s.len(),
    ensures
        map_of(s).contains_key(s[i]@.file_name),
        map_of(s)[s[i]@.file_name] == s[i]@,
{
    let name = s[i]@.file_name;
    assert(has_name(s, name));
    let j = place_of(s, name);
    if i < j {
        assert(s[i]@.file_name != s[j]@.file_name);
    } else if j < i {
        assert(s[j]@.file_name != s[i]@.file_name);
    }
}

proof fn lemma_push(s: Seq<Digest>, d: Digest)
    requires
        unique_names(s),
        !has_name(s, d@.file_name),
    ensures
        unique_names(s.push(d)),
        map_of(s.push(d)) == map_of(s).insert(d@.file_name, d@),
{
    let after = s.push(d);
    assert forall|i: int, j: int| 0 <= i < j < after.len() implies (#[trigger] after[i])@.file_name
        != (#[trigger] after[j])@.file_name by {
        if j == s.len() {
            assert(s[i]@.file_name != d@.file_name);
        } else {
            assert(s[i]@.file_name != s[j]@.file_name);
        }
    }
    assert forall|name: Seq<char>| has_name(after, name) <==> (has_name(s, name) || name
        == d@.file_name) by {
        if has_name(s, name) {
            let i = place_of(s, name);
            assert(after[i]@.file_name == name);
        }
        if name == d@.file_name {
            assert(after[s.len() as int]@.file_name == name);
        }
        if has_name(after, name) {
            let i = place_of(after, name);
            if i < s.len() {
                assert(s[i]@.file_name == name);
            }
        }
    }
    assert forall|name: Seq<char>| has_name(after, name) implies #[trigger] map_of(after)[name]
        == map_of(s).insert(d@.file_name, d@)[name] by {
        let i = place_of(after, name);
        lemma_lookup(after, i);
        if i < s.len() {
            assert(s[i]@.file_name == name);
            lemma_lookup(s, i);
        }
    }
    assert(map_of(after) =~= map_of(s).insert(d@.file_name, d@));
}

proof fn lemma_update(s: Seq<Digest>, at: int, d: Digest)
    requires
        unique_names(s),
        0 <= at < s.len(),
        s[at]@.file_name == d@.file_name,
    ensures
        unique_names(s.update(at, d)),
        map_of(s.update(at, d)) == map_of(s).insert(d@.file_name, d@),
{
    let after = s.update(at, d);
    assert forall|i: int, j: int| 0 <= i < j < after.len() implies (#[trigger] after[i])@.file_name
        != (#[trigger] after[j])@.file_name by {
        assert(s[i]@.file_name != s[j]@.file_name);
    }
    assert forall|name: Seq<char>| has_name(after, name) <==> has_name(s, name) by {
        if has_name(s, name) {
            let i = place_of(s, name);
            assert(after[i]@.file_name == name);
        }
        if has_name(after, name) {
            let i = place_of(after, name);
            assert(s[i]@.file_name == name);
        }
    }
    assert(has_name(s, d@.file_name));
    assert forall|name: Seq<char>| has_name(after, name) implies #[trigger] map_of(after)[name]
        == map_of(s).insert(d@.file_name, d@)[name] by {
        let i = place_of(after, name);
        lemma_lookup(after, i);
        assert(s[i]@.file_name == name);
        lemma_lookup(s, i);
        if i < at {
            assert(s[i]@.file_name != s[at]@.file_name);
        } else if at < i {
            assert(s[at]@.file_name != s[i]@.file_name);
        }
    }
    assert(map_of(after) =~= map_of(s).insert(d@.file_name, d@));
}

impl View for DigestIndex {
    type V = Map<Seq<char>, DigestView>;

    closed spec fn view(&self) -> Map<Seq<char>, DigestView> {
        map_of(self.digests@)
    }
}

/// Every digest of `index` stands under its own file name.
pub open spec fn named(index: Map<Seq<char>, DigestView>) -> bool {
    forall|name: Seq<char>| index.contains_key(name) ==> (#[trigger] index[name]).file_name == name
}

/// The value of an optional digest.
pub open spec fn digest_view(d: Option<Digest>) -> Option<DigestView> {
    match d {
        Some(d) => Some(d@),
        None => None,
    }
}

impl DigestIndex {
    /// No name occurs twice in the index.
    pub closed spec fn wf(&self) -> bool {
        unique_names(self.digests@)
    }

    /// In an index every digest stands under its own file name.
    pub proof fn lemma_named(&self)
        ensures
            named(self@),
    {
        assert forall|name: Seq<char>| self@.contains_key(name) implies (#[trigger] self@[name]).file_name
            == name by {
            assert(has_name(self.digests@, name));
        }
    }

    /// An index without digests.
    pub fn new() -> (index: DigestIndex)
        ensures
            index.wf(),
            index@ == Map::<Seq<char>, DigestView>::empty(),
    {
        let index = DigestIndex { digests: Vec::new() };
        assert(index@ =~= Map::<Seq<char>, DigestView>::empty());
        index
    }

    fn find(&self, name: &str) -> (at: Option<usize>)
        ensures
            match at {
                Some(i) => i < self.digests@.len() && self.digests@[i as int]@.file_name == name@,
                None => !has_name(self.digests@, name@),
            },
    {
        let mut i: usize = 0;
        while i < self.digests.len()
            invariant
                i <= self.digests@.len(),
                forall|j: int| 0 <= j < i ==> (#[trigger] self.digests@[j])@.file_name != name@,
            decreases self.digests@.len() - i,
        {
            if same_text(self.digests[i].file_name(), name) {
                return Some(i);
            }
            i = i + 1;
        }
        None
    }

    /// The digest of the file `name`, if the index holds one.
    pub fn get(&self, name: &str) -> (found: Option<Digest>)
        requires
            self.wf(),
        ensures
            digest_view(found) == if self@.contains_key(name@) {
                Some(self@[name@])
            } else {
                None
            },
            found matches Some(d) ==> d@.file_name == name@,
    {
        match self.find(name) {
            Some(i) => {
                proof {
                    lemma_lookup(self.digests@, i as int);
                }
                Some(self.digests[i].clone())
            },
            None => None,
        }
    }

    /// Puts `digest` under its file name, in place of one that was there.
    pub fn insert(&mut self, digest: Digest)
        requires
            old(self).wf(),
        ensures
            final(self).wf(),
            final(self)@ == old(self)@.insert(digest@.file_name, digest@),
    {
        match self.find(digest.file_name()) {
            Some(i) => {
                proof {
                    lemma_update(self.digests@, i as int, digest);
                }
                self.digests.set(i, digest);
            },
            None => {
                proof {
                    lemma_push(self.digests@, digest);
                }
                self.digests.push(digest);
            },
        }
    }
}

} // verus!
