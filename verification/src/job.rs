//! What identifies a fetch and what a worker needs to carry it out.

use vstd::prelude::*;
use vstd::std_specs::cmp::PartialEqSpecImpl;

verus! {

/// The mathematical value of a key: entry name and file name.
pub type KeyView = (Seq<char>, Seq<char>);

/// The mathematical value of a job's data: target URL and disk path.
pub type DataView = (Seq<char>, Seq<char>);

/// A job's identity: the entry it belongs to and the file it fetches.
#[derive(Debug)]
pub struct JobKey {
    pub entry: String,
    pub file_name: String,
}

impl View for JobKey {
    type V = KeyView;

    open spec fn view(&self) -> KeyView {
        (self.entry@, self.file_name@)
    }
}

impl JobKey {
    pub fn new(entry: &str, file_name: &str) -> (key: JobKey)
        ensures
            key@ == (entry@, file_name@),
    {
        JobKey { entry: entry.to_owned(), file_name: file_name.to_owned() }
    }
}

impl Clone for JobKey {
    fn clone(&self) -> (copy: Self)
        ensures
            copy@ == self@,
    {
        JobKey { entry: self.entry.clone(), file_name: self.file_name.clone() }
    }
}

impl PartialEq for JobKey {
    fn eq(&self, other: &Self) -> (same: bool) {
        self.entry == other.entry && self.file_name == other.file_name
    }
}

impl PartialEqSpecImpl for JobKey {
    open spec fn obeys_eq_spec() -> bool {
        true
    }

    open spec fn eq_spec(&self, other: &Self) -> bool {
        self@ == other@
    }
}

/// Where a job's file comes from and where it goes.
#[derive(Debug)]
pub struct JobData {
    /// The URL to fetch.
    pub url: String,
    /// The path of the file once complete.
    pub path: String,
}

impl View for JobData {
    type V = DataView;

    open spec fn view(&self) -> DataView {
        (self.url@, self.path@)
    }
}

impl JobData {
    pub fn new(url: &str, path: &str) -> (data: JobData)
        ensures
            data@ == (url@, path@),
    {
        JobData { url: url.to_owned(), path: path.to_owned() }
    }
}

impl Clone for JobData {
    fn clone(&self) -> (copy: Self)
        ensures
            copy@ == self@,
    {
        JobData { url: self.url.clone(), path: self.path.clone() }
    }
}

impl PartialEq for JobData {
    fn eq(&self, other: &Self) -> (same: bool) {
        self.url == other.url && self.path == other.path
    }
}

impl PartialEqSpecImpl for JobData {
    open spec fn obeys_eq_spec() -> bool {
        true
    }

    open spec fn eq_spec(&self, other: &Self) -> bool {
        self@ == other@
    }
}

} // verus!
