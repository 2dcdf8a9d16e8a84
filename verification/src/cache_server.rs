//! The cache node's answer to `GET /c/<entry>/f/<filename>`.

use crate::cache::{Cache, CacheResult, Lookup};
use crate::digest::{Digest, DigestView};
use crate::text::{contains_char, same_text};
use crate::urls::as_text;
use vstd::prelude::*;

verus! {

pub const OK: u16 = 200;

pub const TEMPORARY_REDIRECT: u16 = 307;

pub const BAD_REQUEST: u16 = 400;

pub const NOT_FOUND: u16 = 404;

pub const INTERNAL_SERVER_ERROR: u16 = 500;

/// A file name is safe when it holds no path separator.
pub open spec fn safe_filename(filename: Seq<char>) -> bool {
    !filename.contains('/')
}

/// The file name itself where it is safe, else nothing.
pub fn check_filename<'a>(filename: &'a str) -> (checked: Option<&'a str>)
    ensures
        match checked {
            Some(name) => safe_filename(filename@) && name@ == filename@,
            None => !safe_filename(filename@),
        },
{
    if contains_char(filename, '/') {
        None
    } else {
        Some(filename)
    }
}

/// What the cache node does with a request.
#[derive(Debug)]
pub enum CacheAction {
    /// Answer 400: the file name is not safe.
    BadRequest,
    /// Answer 404: no such entry, or the entry does not serve the name.
    NotFound,
    /// Answer with the file that the digest certifies.
    Serve(Digest),
    /// Queue the download of the file, and answer 307 to `location`, the
    /// file's URL at the origin, whatever the queue says.
    Fetch { location: String },
    /// Answer 500: the file's URL at the origin cannot be formed.
    Failure,
}

/// The mathematical value of an action.
pub enum ActionView {
    BadRequest,
    NotFound,
    Serve(DigestView),
    Fetch { location: Seq<char> },
    Failure,
}

impl View for CacheAction {
    type V = ActionView;

    open spec fn view(&self) -> ActionView {
        match self {
            CacheAction::BadRequest => ActionView::BadRequest,
            CacheAction::NotFound => ActionView::NotFound,
            CacheAction::Serve(d) => ActionView::Serve(d@),
            CacheAction::Fetch { location } => ActionView::Fetch { location: location@ },
            CacheAction::Failure => ActionView::Failure,
        }
    }
}

impl CacheAction {
    /// The status of the answer; where a file is served, the status before
    /// the request's conditions are looked at.
    pub fn status(&self) -> (status: u16)
        ensures
            status == match *self {
                CacheAction::BadRequest => BAD_REQUEST,
                CacheAction::NotFound => NOT_FOUND,
                CacheAction::Serve(_) => OK,
                CacheAction::Fetch { .. } => TEMPORARY_REDIRECT,
                CacheAction::Failure => INTERNAL_SERVER_ERROR,
            },
    {
        match self {
            CacheAction::BadRequest => BAD_REQUEST,
            CacheAction::NotFound => NOT_FOUND,
            CacheAction::Serve(_) => OK,
            CacheAction::Fetch { .. } => TEMPORARY_REDIRECT,
            CacheAction::Failure => INTERNAL_SERVER_ERROR,
        }
    }
}

/// The place of the first cache named `name`.
pub open spec fn first_cache(caches: Seq<Cache>, name: Seq<char>, i: int) -> bool {
    &&& 0 <= i < caches.len()
    &&& caches[i]@.name == name
    &&& forall|j: int| 0 <= j < i ==> (#[trigger] caches[j])@.name != name
}

/// No cache is named `name`.
pub open spec fn no_cache(caches: Seq<Cache>, name: Seq<char>) -> bool {
    forall|j: int| 0 <= j < caches.len() ==> (#[trigger] caches[j])@.name != name
}

/// The cache named `name`.
pub fn find_cache<'a>(caches: &'a Vec<Cache>, name: &str) -> (found: Option<usize>)
    ensures
        match found {
            Some(i) => first_cache(caches@, name@, i as int),
            None => no_cache(caches@, name@),
        },
{
    let mut i: usize = 0;
    while i < caches.len()
        invariant
            i <= caches@.len(),
            forall|j: int| 0 <= j < i ==> (#[trigger] caches@[j])@.name != name@,
        decreases caches@.len() - i,
    {
        if same_text(caches[i].name(), name) {
            return Some(i);
        }
        i = i + 1;
    }
    None
}

/// The action for a request to a known cache with a safe file name.
pub open spec fn lookup_action(cache: Cache, filename: Seq<char>) -> ActionView {
    match cache@.get(filename) {
        Lookup::NotFound => ActionView::NotFound,
        Lookup::Cached(digest) => ActionView::Serve(digest),
        Lookup::NotCached => match cache@.redirect(filename) {
            Some(location) => ActionView::Fetch { location },
            None => ActionView::Failure,
        },
    }
}

/// The action for a request that names `cache`: 400 for an unsafe file name,
/// 404 where the entry does not serve the name, the file where the cache
/// holds it, else the download and a redirect to the origin.
pub fn respond(cache: &Cache, filename: &str) -> (action: CacheAction)
    requires
        cache.wf(),
    ensures
        action@ == if !safe_filename(filename@) {
            ActionView::BadRequest
        } else {
            lookup_action(*cache, filename@)
        },
{
    let filename = match check_filename(filename) {
        None => {
            return CacheAction::BadRequest;
        },
        Some(filename) => filename,
    };
    match cache.get(filename) {
        CacheResult::NotFound => CacheAction::NotFound,
        CacheResult::Cached(digest) => CacheAction::Serve(digest),
        CacheResult::NotCached => match cache.get_redirect(filename) {
            Some(url) => CacheAction::Fetch { location: as_text(&url) },
            None => CacheAction::Failure,
        },
    }
}

/// The action for `GET /c/<name>/f/<filename>`: 400 for an unsafe file name,
/// whatever the entry; 404 for an unknown entry; else what the entry's cache
/// says.
pub fn data(caches: &Vec<Cache>, name: &str, filename: &str) -> (action: CacheAction)
    requires
        forall|i: int| 0 <= i < caches@.len() ==> (#[trigger] caches@[i]).wf(),
    ensures
        !safe_filename(filename@) ==> action@ is BadRequest,
        safe_filename(filename@) && no_cache(caches@, name@) ==> action@ is NotFound,
        forall|i: int|
            safe_filename(filename@) && first_cache(caches@, name@, i) ==> action@
                == lookup_action(caches@[i], filename@),
{
    if check_filename(filename).is_none() {
        return CacheAction::BadRequest;
    }
    match find_cache(caches, name) {
        None => CacheAction::NotFound,
        Some(at) => {
            assert forall|i: int| first_cache(caches@, name@, i) implies i == at by {
                if i < at {
                    assert(caches@[i]@.name != name@);
                } else if at < i {
                    assert(caches@[at as int]@.name != name@);
                }
            }
            respond(&caches[at], filename)
        },
    }
}

} // verus!
