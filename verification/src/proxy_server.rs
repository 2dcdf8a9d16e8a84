//! The proxy node's answer to `GET /c/<entry>/f/<filename>`.

use crate::cache_info::{CacheInfo, CacheInfoView};
use crate::cache_server::{check_filename, safe_filename, BAD_REQUEST, NOT_FOUND, TEMPORARY_REDIRECT};
use crate::globs::glob_matches;
use crate::text::same_text;
use crate::urls::as_text;
use vstd::prelude::*;

verus! {

/// What the proxy node does with a request.
#[derive(Debug)]
pub enum ProxyAction {
    /// Answer 400: the file name is not safe.
    BadRequest,
    /// Answer 404: no such entry, the entry does not serve the name, or no
    /// node can be named.
    NotFound,
    /// Answer 307 to the file at a cache node.
    Redirect { location: String },
}

/// The mathematical value of an action.
pub enum ProxyView {
    BadRequest,
    NotFound,
    Redirect { location: Seq<char> },
}

impl View for ProxyAction {
    type V = ProxyView;

    open spec fn view(&self) -> ProxyView {
        match self {
            ProxyAction::BadRequest => ProxyView::BadRequest,
            ProxyAction::NotFound => ProxyView::NotFound,
            ProxyAction::Redirect { location } => ProxyView::Redirect { location: location@ },
        }
    }
}

impl ProxyAction {
    /// The status of the answer.
    pub fn status(&self) -> (status: u16)
        ensures
            status == match *self {
                ProxyAction::BadRequest => BAD_REQUEST,
                ProxyAction::NotFound => NOT_FOUND,
                ProxyAction::Redirect { .. } => TEMPORARY_REDIRECT,
            },
    {
        match self {
            ProxyAction::BadRequest => BAD_REQUEST,
            ProxyAction::NotFound => NOT_FOUND,
            ProxyAction::Redirect { .. } => TEMPORARY_REDIRECT,
        }
    }
}

/// The action for a request for `filename` of the entry `info`, once the
/// node `node` was drawn: 400 for an unsafe file name, 404 where the entry
/// does not serve the name or the node's URL gives none for the file, else a
/// redirect to the file at the node.
pub open spec fn action_via(info: CacheInfoView, filename: Seq<char>, node: int) -> ProxyView {
    if !safe_filename(filename) {
        ProxyView::BadRequest
    } else {
        match info.redirect_to(filename, node) {
            Some(location) => ProxyView::Redirect { location },
            None => ProxyView::NotFound,
        }
    }
}

/// The action for a request for `filename` of the entry `info`, once the
/// node `node` was drawn.
pub fn respond_via(info: &CacheInfo, filename: &str, node: usize) -> (action: ProxyAction)
    requires
        node < info@.nodes.len(),
    ensures
        action@ == action_via(info@, filename@, node as int),
{
    if check_filename(filename).is_none() {
        return ProxyAction::BadRequest;
    }
    match info.redirect_to(filename, node) {
        Some(url) => ProxyAction::Redirect { location: as_text(&url) },
        None => ProxyAction::NotFound,
    }
}

/// `action` is an answer that a request for `filename` of the entry `info`
/// may get, whatever node is drawn: 400 for an unsafe file name and nothing
/// else; a redirect only to the file at one of the entry's nodes; 404 only
/// where the entry does not serve the name, has no node, or some node's URL
/// gives none for the file.
pub open spec fn may_answer(info: CacheInfoView, filename: Seq<char>, action: ProxyView) -> bool {
    if !safe_filename(filename) {
        action is BadRequest
    } else {
        match action {
            ProxyView::BadRequest => false,
            ProxyView::Redirect { location } => exists|node: int|
                0 <= node < info.nodes.len() && #[trigger] info.redirect_to(filename, node) == Some(
                    location,
                ),
            ProxyView::NotFound => {
                ||| !glob_matches(info.patterns, filename)
                ||| info.nodes.len() == 0
                ||| exists|node: int|
                    0 <= node < info.nodes.len() && #[trigger] info.redirect_to(filename, node)
                        is None
            },
        }
    }
}

/// A file name that the entry does not serve gets 404, and never a redirect,
/// whatever node is drawn.
pub proof fn lemma_pattern_enforced(info: CacheInfoView, filename: Seq<char>, action: ProxyView)
    requires
        may_answer(info, filename, action),
        safe_filename(filename),
        !glob_matches(info.patterns, filename),
    ensures
        action is NotFound,
{
}

/// The action for a request for `filename` of the entry `info`, with a node
/// drawn at random.
pub fn respond(info: &CacheInfo, filename: &str) -> (action: ProxyAction)
    ensures
        may_answer(info@, filename@, action@),
{
    if check_filename(filename).is_none() {
        return ProxyAction::BadRequest;
    }
    match info.get_redirect(filename) {
        Some(url) => ProxyAction::Redirect { location: as_text(&url) },
        None => ProxyAction::NotFound,
    }
}

/// The entry at `i` is the first that is named `name`.
pub open spec fn first_entry(infos: Seq<CacheInfo>, name: Seq<char>, i: int) -> bool {
    &&& 0 <= i < infos.len()
    &&& infos[i]@.name == name
    &&& forall|j: int| 0 <= j < i ==> (#[trigger] infos[j])@.name != name
}

/// No entry is named `name`.
pub open spec fn no_entry(infos: Seq<CacheInfo>, name: Seq<char>) -> bool {
    forall|j: int| 0 <= j < infos.len() ==> (#[trigger] infos[j])@.name != name
}

/// The action for `GET /c/<name>/f/<filename>`: 400 for an unsafe file name,
/// whatever the entry; 404 for an unknown entry; else what the first entry of
/// that name says.
pub fn data(infos: &Vec<CacheInfo>, name: &str, filename: &str) -> (action: ProxyAction)
    ensures
        !safe_filename(filename@) ==> action@ is BadRequest,
        safe_filename(filename@) && no_entry(infos@, name@) ==> action@ is NotFound,
        forall|i: int| first_entry(infos@, name@, i) ==> may_answer(infos@[i]@, filename@, action@),
{
    if check_filename(filename).is_none() {
        return ProxyAction::BadRequest;
    }
    let mut at: usize = 0;
    while at < infos.len()
        invariant
            at <= infos@.len(),
            forall|j: int| 0 <= j < at ==> (#[trigger] infos@[j])@.name != name@,
        decreases infos@.len() - at,
    {
        if same_text(infos[at].name(), name) {
            let action = respond(&infos[at], filename);
            assert forall|i: int| first_entry(infos@, name@, i) implies i == at by {
                if i < at {
                    assert(infos@[i]@.name != name@);
                } else if at < i {
                    assert(infos@[at as int]@.name != name@);
                }
            }
            return action;
        }
        at = at + 1;
    }
    ProxyAction::NotFound
}

} // verus!
