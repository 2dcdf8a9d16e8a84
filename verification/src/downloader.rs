//! One worker of the download pool: what it answers while idle and while it
//! downloads, and how a download goes from the first byte to the digest.

use crate::digest::{Digest, DigestError, DigestView, VERSION};
use crate::hashing::{
    blake3_hash, hasher_finalize, hasher_input, hasher_input_offset, hasher_new,
    hasher_regular, hasher_update,
};
use crate::job::{JobKey, KeyView};
use crate::paths::{
    download_file_name, download_name, is_file_name, join, join_path, last_part, parent_part,
    split, split_path,
};
use crate::rpc::RpcError;
use crate::text::{all_digits, decimal_value, parse_u64};
use vstd::prelude::*;

verus! {

/// After how many bytes a download writes down how far it is.
pub const CHUNK_SIZE: usize = 1_048_576;

/// What a worker is doing.
#[derive(Debug)]
pub enum DownloadStatus<K> {
    Idle,
    Downloading { key: K, downloaded: usize, size: usize },
}

/// What a worker is asked.
#[derive(Debug)]
pub enum Command<K> {
    /// Fetch the URL into the path, under the key.
    Start(K, String, String),
    /// Give up the current download.
    Stop,
    /// Say what you are doing.
    Status,
    /// End.
    Quit,
}

/// What a worker answers.
#[derive(Debug)]
pub enum Reply<K> {
    /// The command was taken.
    Accepted,
    /// The command cannot be taken now.
    Refused,
    Downloading { key: K, downloaded: usize, size: usize },
    Idle,
}

/// Why a download failed.
#[derive(Clone, Copy, Debug, PartialEq, Eq, Structural)]
pub enum DownloadError {
    /// The file system failed.
    IoError,
    /// The origin did not answer with success, or not with what it announced.
    RequestError,
    /// The pool is gone.
    RpcError(RpcError),
    /// The digest could not be written.
    DigestError(DigestError),
    /// The target path names no file.
    PathError,
}

impl DownloadError {
    /// The error in words.
    pub fn message(&self) -> (text: &'static str)
        ensures
            text@ == match *self {
                DownloadError::IoError => "IO error"@,
                DownloadError::RequestError => "HTTP error"@,
                DownloadError::RpcError(_) => "RPC error"@,
                DownloadError::DigestError(_) => "Digest error"@,
                DownloadError::PathError => "Path error"@,
            },
    {
        match self {
            DownloadError::IoError => "IO error",
            DownloadError::RequestError => "HTTP error",
            DownloadError::RpcError(_) => "RPC error",
            DownloadError::DigestError(_) => "Digest error",
            DownloadError::PathError => "Path error",
        }
    }
}

/// What an idle worker does after a command.
#[derive(Debug)]
pub enum IdleNext<K> {
    /// Wait for the next command.
    Wait,
    /// Fetch the URL into the path, under the key.
    Download(K, String, String),
    /// End.
    Exit,
}

/// What a downloading worker does after a command.
#[derive(Clone, Copy, Debug, PartialEq, Eq, Structural)]
pub enum BusyNext {
    /// Go on with the download.
    Continue,
    /// Give up the download, remove the partial file, and be idle.
    Abort,
    /// Give up the download, remove the partial file, and end.
    Exit,
}

/// What a status says that a reply says.
pub open spec fn status_of_reply<K>(reply: Reply<K>) -> Option<DownloadStatus<K>> {
    match reply {
        Reply::Idle => Some(DownloadStatus::Idle),
        Reply::Downloading { key, downloaded, size } => Some(
            DownloadStatus::Downloading { key, downloaded, size },
        ),
        _ => None,
    }
}

/// The answer of an idle worker: a start is taken, a stop has nothing to
/// stop, a status is `Idle`, and a quit ends the worker.
pub fn idle_reply<K>(command: Command<K>) -> (out: (Reply<K>, IdleNext<K>))
    ensures
        out == match command {
            Command::Start(key, url, path) => (
                Reply::<K>::Accepted,
                IdleNext::<K>::Download(key, url, path),
            ),
            Command::Stop => (Reply::<K>::Accepted, IdleNext::<K>::Wait),
            Command::Status => (Reply::<K>::Idle, IdleNext::<K>::Wait),
            Command::Quit => (Reply::<K>::Accepted, IdleNext::<K>::Exit),
        },
{
    match command {
        Command::Start(key, url, path) => (Reply::Accepted, IdleNext::Download(key, url, path)),
        Command::Stop => (Reply::Accepted, IdleNext::Wait),
        Command::Status => (Reply::Idle, IdleNext::Wait),
        Command::Quit => (Reply::Accepted, IdleNext::Exit),
    }
}

/// The status in an answer to `Status`; none in any other answer.
pub fn reply_status<K>(reply: Reply<K>) -> (status: Option<DownloadStatus<K>>)
    ensures
        status == status_of_reply(reply),
{
    match reply {
        Reply::Idle => Some(DownloadStatus::Idle),
        Reply::Downloading { key, downloaded, size } => Some(
            DownloadStatus::Downloading { key, downloaded, size },
        ),
        _ => None,
    }
}

/// The answer to `Start`: taken or refused.
pub fn reply_started<K>(reply: &Reply<K>) -> (started: Result<(), ()>)
    ensures
        started is Ok <==> *reply is Accepted,
{
    match reply {
        Reply::Accepted => Ok(()),
        _ => Err(()),
    }
}

/// A download under way.
pub struct Download {
    key: JobKey,
    url: String,
    root: String,
    file_name: String,
    content_type: String,
    size: usize,
    downloaded: usize,
    /// The bytes received since the progress was last written down.
    unsaved: usize,
    hasher: blake3::Hasher,
}

/// The mathematical value of a download.
pub struct DownloadView {
    pub key: KeyView,
    pub url: Seq<char>,
    /// The directory of the file.
    pub root: Seq<char>,
    pub file_name: Seq<char>,
    pub content_type: Seq<char>,
    /// The length that the origin announced.
    pub size: nat,
    /// The bytes received so far, in order.
    pub received: Seq<u8>,
    /// How many of them came since the progress was last written down.
    pub unsaved: nat,
}

impl DownloadView {
    /// How many bytes were received.
    pub open spec fn downloaded(self) -> nat {
        self.received.len()
    }

    /// No more was received than announced, and the file has a name.
    pub open spec fn wf(self) -> bool {
        &&& self.received.len() <= self.size
        &&& self.size <= usize::MAX
        &&& self.unsaved <= self.received.len()
        &&& is_file_name(self.file_name)
    }

    /// The chunk does not go beyond the announced length.
    pub open spec fn fits(self, chunk: Seq<u8>) -> bool {
        self.received.len() + chunk.len() <= self.size
    }

    /// After this chunk the progress is written down: a mebibyte or more came
    /// since the last time, and the file is not yet complete.
    pub open spec fn checkpoints(self, chunk: Seq<u8>) -> bool {
        &&& self.unsaved + chunk.len() >= CHUNK_SIZE
        &&& self.received.len() + chunk.len() < self.size
    }

    /// The download after a chunk; one that does not fit changes nothing.
    pub open spec fn receive(self, chunk: Seq<u8>) -> DownloadView {
        if self.fits(chunk) {
            DownloadView {
                received: self.received + chunk,
                unsaved: if self.checkpoints(chunk) {
                    0
                } else {
                    self.unsaved + chunk.len()
                },
                ..self
            }
        } else {
            self
        }
    }

    /// The download after the chunks of `chunks`, first to last.
    pub open spec fn receive_all(self, chunks: Seq<Seq<u8>>) -> DownloadView
        decreases chunks.len(),
    {
        if chunks.len() == 0 {
            self
        } else {
            self.receive_all(chunks.drop_last()).receive(chunks.last())
        }
    }

    /// The digest of what was received so far.
    pub open spec fn digest(self) -> DigestView {
        DigestView {
            version: VERSION,
            size: self.size as u64,
            downloaded: self.received.len() as u64,
            file_name: self.file_name,
            content_type: self.content_type,
            hash: blake3_hash(self.received),
            root: self.root,
        }
    }

    /// The path of the file once complete.
    pub open spec fn path(self) -> Seq<char> {
        join(self.root, self.file_name)
    }

    /// The path of the temporary file that takes the bytes.
    pub open spec fn temporary(self) -> Seq<char> {
        join(self.root, download_name(self.file_name))
    }
}

/// A chunk keeps a download well formed.
pub proof fn lemma_receive_wf(d: DownloadView, chunk: Seq<u8>)
    requires
        d.wf(),
    ensures
        d.receive(chunk).wf(),
{
}

/// Within one download the count of bytes received never goes down, whatever
/// chunks arrive.
pub proof fn lemma_progress_monotonic(d: DownloadView, chunks: Seq<Seq<u8>>)
    requires
        d.wf(),
    ensures
        d.receive_all(chunks).wf(),
        d.receive_all(chunks).downloaded() >= d.downloaded(),
        d.receive_all(chunks).size == d.size,
    decreases chunks.len(),
{
    if chunks.len() > 0 {
        lemma_progress_monotonic(d, chunks.drop_last());
        lemma_receive_wf(d.receive_all(chunks.drop_last()), chunks.last());
    }
}

/// The bytes of `chunks`, one chunk after the other.
pub open spec fn all_bytes(chunks: Seq<Seq<u8>>) -> Seq<u8>
    decreases chunks.len(),
{
    if chunks.len() == 0 {
        Seq::empty()
    } else {
        all_bytes(chunks.drop_last()) + chunks.last()
    }
}

/// A download that takes chunks which together fit the announced length has
/// received just their bytes, in order: so the digest at its end holds the
/// hash of the file's bytes.
pub proof fn lemma_digest_certifies_the_bytes(d: DownloadView, chunks: Seq<Seq<u8>>)
    requires
        d.wf(),
        d.received.len() + all_bytes(chunks).len() <= d.size,
    ensures
        d.receive_all(chunks).received == d.received + all_bytes(chunks),
        d.receive_all(chunks).digest().hash == blake3_hash(d.received + all_bytes(chunks)),
        d.receive_all(chunks).digest().file_name == d.file_name,
        d.receive_all(chunks).path() == d.path(),
    decreases chunks.len(),
{
    if chunks.len() == 0 {
        assert(d.received + all_bytes(chunks) =~= d.received);
    } else {
        assert(all_bytes(chunks).len() == all_bytes(chunks.drop_last()).len() + chunks.last().len());
        lemma_digest_certifies_the_bytes(d, chunks.drop_last());
        lemma_progress_monotonic(d, chunks.drop_last());
        let before = d.receive_all(chunks.drop_last());
        assert(before.fits(chunks.last()));
        assert(before.received + chunks.last() =~= d.received + all_bytes(chunks));
    }
}

/// Of two reports of one download, the later never counts fewer bytes.
pub proof fn lemma_later_status_not_smaller(
    d: DownloadView,
    first: Seq<Seq<u8>>,
    more: Seq<Seq<u8>>,
)
    requires
        d.wf(),
    ensures
        d.receive_all(first).receive_all(more).downloaded() >= d.receive_all(first).downloaded(),
{
    lemma_progress_monotonic(d, first);
    lemma_progress_monotonic(d.receive_all(first), more);
}

/// The length that a `Content-Length` header announces: a decimal number
/// that fits the machine.
pub open spec fn announced(text: Seq<char>) -> Option<nat> {
    if text.len() > 0 && all_digits(text) && decimal_value(text) <= usize::MAX {
        Some(decimal_value(text))
    } else {
        None
    }
}

/// Why a download cannot begin, if it cannot: the path names no file, the
/// origin's status is not one of success, or it announces no length.
pub open spec fn begin_error(path: Seq<char>, status: u16, length: Option<&str>) -> Option<
    DownloadError,
> {
    if split(path) is None {
        Some(DownloadError::PathError)
    } else if !(200 <= status < 300) {
        Some(DownloadError::RequestError)
    } else {
        match length {
            None => Some(DownloadError::RequestError),
            Some(text) => if announced(text@) is None {
                Some(DownloadError::RequestError)
            } else {
                None
            },
        }
    }
}

/// What ends a download well: the digest to write, and the temporary file to
/// rename to the file's path after that.
#[derive(Debug)]
pub struct Commit {
    pub digest: Digest,
    pub temporary: String,
    pub path: String,
}

impl View for Download {
    type V = DownloadView;

    closed spec fn view(&self) -> DownloadView {
        DownloadView {
            key: self.key@,
            url: self.url@,
            root: self.root@,
            file_name: self.file_name@,
            content_type: self.content_type@,
            size: self.size as nat,
            received: hasher_input(self.hasher),
            unsaved: self.unsaved as nat,
        }
    }
}

impl Download {
    /// The download counts what its hasher was fed, and its value is well
    /// formed.
    pub closed spec fn wf(&self) -> bool {
        &&& self@.wf()
        &&& self.downloaded == hasher_input(self.hasher).len()
        &&& hasher_input_offset(self.hasher) == 0
        &&& hasher_regular(self.hasher)
    }

    /// The value of a well-formed download is well formed.
    pub proof fn lemma_wf(&self)
        requires
            self.wf(),
        ensures
            self@.wf(),
    {
    }

    /// Begins the download of `url` into `path`, once the origin has
    /// answered with `status` and the two headers. A missing content type is
    /// `unknown`.
    pub fn begin(
        key: JobKey,
        url: &str,
        path: &str,
        status: u16,
        content_type: Option<&str>,
        content_length: Option<&str>,
    ) -> (begun: Result<Download, DownloadError>)
        ensures
            match begun {
                Ok(d) => {
                    &&& begin_error(path@, status, content_length) is None
                    &&& d.wf()
                    &&& d@ == (DownloadView {
                        key: key@,
                        url: url@,
                        root: parent_part(path@),
                        file_name: last_part(path@),
                        content_type: match content_type {
                            Some(t) => t@,
                            None => "unknown"@,
                        },
                        size: announced(content_length->0@)->0,
                        received: Seq::empty(),
                        unsaved: 0,
                    })
                },
                Err(e) => begin_error(path@, status, content_length) == Some(e),
            },
    {
        let (root, file_name) = match split_path(path) {
            None => {
                return Err(DownloadError::PathError);
            },
            Some(parts) => parts,
        };
        if status < 200 || status >= 300 {
            return Err(DownloadError::RequestError);
        }
        let size: usize = match content_length {
            None => {
                return Err(DownloadError::RequestError);
            },
            Some(text) => match parse_u64(text) {
                None => {
                    return Err(DownloadError::RequestError);
                },
                Some(n) => {
                    if n > usize::MAX as u64 {
                        return Err(DownloadError::RequestError);
                    }
                    n as usize
                },
            },
        };
        let content_type = match content_type {
            Some(t) => t.to_owned(),
            None => "unknown".to_owned(),
        };
        Ok(
            Download {
                key,
                url: url.to_owned(),
                root,
                file_name,
                content_type,
                size,
                downloaded: 0,
                unsaved: 0,
                hasher: hasher_new(),
            },
        )
    }

    /// Takes a chunk of the body: it is hashed and counted. Where a mebibyte
    /// or more came since the progress was last written down and the file is
    /// not complete, the digest of the bytes so far is handed out, to be
    /// written. A chunk that goes beyond the announced length is an error
    /// and changes nothing.
    pub fn on_chunk(&mut self, chunk: &[u8]) -> (taken: Result<Option<Digest>, DownloadError>)
        requires
            old(self).wf(),
        ensures
            final(self).wf(),
            final(self)@ == old(self)@.receive(chunk@),
            match taken {
                Ok(Some(interim)) => {
                    &&& old(self)@.fits(chunk@)
                    &&& old(self)@.checkpoints(chunk@)
                    &&& interim@ == final(self)@.digest()
                    &&& interim@.wf()
                },
                Ok(None) => old(self)@.fits(chunk@) && !old(self)@.checkpoints(chunk@),
                Err(e) => !old(self)@.fits(chunk@) && e == DownloadError::RequestError,
            },
    {
        if chunk.len() > self.size - self.downloaded {
            return Err(DownloadError::RequestError);
        }
        hasher_update(&mut self.hasher, chunk);
        self.downloaded = self.downloaded + chunk.len();
        if chunk.len() >= CHUNK_SIZE - self.unsaved.min(CHUNK_SIZE) && self.downloaded < self.size {
            self.unsaved = 0;
            let hash = hasher_finalize(&self.hasher);
            Ok(
                Some(
                    Digest::partial(
                        self.root.as_str(),
                        self.file_name.as_str(),
                        self.size as u64,
                        self.downloaded as u64,
                        self.content_type.as_str(),
                        hash,
                    ),
                ),
            )
        } else {
            self.unsaved = self.unsaved + chunk.len();
            Ok(None)
        }
    }

    /// What the worker reports while it downloads.
    pub fn status(&self) -> (status: DownloadStatus<JobKey>)
        requires
            self.wf(),
        ensures
            status matches DownloadStatus::Downloading { key, downloaded, size } && key@
                == self@.key && downloaded == self@.downloaded() && size == self@.size,
    {
        DownloadStatus::Downloading {
            key: self.key.clone(),
            downloaded: self.downloaded,
            size: self.size,
        }
    }

    /// The answer of a downloading worker: a start is refused, a status says
    /// how far the download is, and a stop or a quit gives the download up.
    pub fn command(&self, command: &Command<JobKey>) -> (out: (Reply<JobKey>, BusyNext))
        requires
            self.wf(),
        ensures
            match *command {
                Command::Start(_, _, _) => out.0 is Refused && out.1 == BusyNext::Continue,
                Command::Stop => out.0 is Accepted && out.1 == BusyNext::Abort,
                Command::Status => {
                    &&& out.0 matches Reply::Downloading { key, downloaded, size }
                    &&& key@ == self@.key
                    &&& downloaded == self@.downloaded()
                    &&& size == self@.size
                    &&& out.1 == BusyNext::Continue
                },
                Command::Quit => out.0 is Accepted && out.1 == BusyNext::Exit,
            },
    {
        match command {
            Command::Start(_, _, _) => (Reply::Refused, BusyNext::Continue),
            Command::Stop => (Reply::Accepted, BusyNext::Abort),
            Command::Status => (
                Reply::Downloading {
                    key: self.key.clone(),
                    downloaded: self.downloaded,
                    size: self.size,
                },
                BusyNext::Continue,
            ),
            Command::Quit => (Reply::Accepted, BusyNext::Exit),
        }
    }

    /// The path of the temporary file that takes the bytes.
    pub fn temporary_path(&self) -> (path: String)
        ensures
            path@ == self@.temporary(),
    {
        let name = download_file_name(self.file_name.as_str());
        join_path(self.root.as_str(), name.as_str())
    }

    /// The directory of the file.
    pub fn root(&self) -> (root: &str)
        ensures
            root@ == self@.root,
    {
        self.root.as_str()
    }

    /// The URL that is fetched.
    pub fn url(&self) -> (url: &str)
        ensures
            url@ == self@.url,
    {
        self.url.as_str()
    }

    /// Ends the download when the body has ended: the digest of the whole
    /// file, with the hash of all bytes received, and the rename that makes
    /// the file visible. A body shorter than announced is an error.
    pub fn finish(self) -> (done: Result<Commit, DownloadError>)
        requires
            self.wf(),
        ensures
            match done {
                Ok(commit) => {
                    &&& self@.downloaded() == self@.size
                    &&& commit.digest@ == self@.digest()
                    &&& commit.digest@.wf()
                    &&& commit.digest@.complete()
                    &&& commit.temporary@ == self@.temporary()
                    &&& commit.path@ == self@.path()
                },
                Err(e) => self@.downloaded() != self@.size && e == DownloadError::RequestError,
            },
    {
        if self.downloaded != self.size {
            return Err(DownloadError::RequestError);
        }
        let hash = hasher_finalize(&self.hasher);
        let digest = Digest::partial(
            self.root.as_str(),
            self.file_name.as_str(),
            self.size as u64,
            self.downloaded as u64,
            self.content_type.as_str(),
            hash,
        );
        let temporary = self.temporary_path();
        let path = join_path(self.root.as_str(), self.file_name.as_str());
        Ok(Commit { digest, temporary, path })
    }
}

} // verus!
