//! The record that certifies one cached file: its size, type and hash.

use crate::hash_serde::{deserialize, hash_of_text, lemma_hash_text_round_trip, serialize};
use crate::hashing::{blake3_hash, hasher_finalize, hasher_new, hasher_update, hex_encode};
use crate::named_file::{Modified, NamedFile, OK};
use crate::paths::{
    check_file_name, digest_file_name, digest_name, is_file_name, join, join_path, last_part,
    parent_part, split, split_path,
};
use vstd::prelude::*;

verus! {

/// The version of the digest format that this library reads and writes.
pub const VERSION: u32 = 1;

/// Why a digest could not be loaded, written or verified.
#[derive(Clone, Copy, Debug, PartialEq, Eq, Structural)]
pub enum DigestError {
    /// The file system failed.
    IoError,
    /// The digest file does not hold a digest of the known version.
    JsonError,
    /// The file, or the directory it should be in, does not exist.
    FileNotFound,
    /// The file's name is no text.
    InvalidFileName,
    /// The file's hash is not the one in the digest.
    VerifyError,
}

impl DigestError {
    /// The error in words.
    pub fn message(&self) -> (text: &'static str)
        ensures
            text@ == match *self {
                DigestError::IoError => "IO error"@,
                DigestError::JsonError => "Invalid digest file"@,
                DigestError::FileNotFound => "File to create digest from does not exist"@,
                DigestError::InvalidFileName => "File name to create digest from is not valid"@,
                DigestError::VerifyError => "Incorrect hash in digest"@,
            },
    {
        match self {
            DigestError::IoError => "IO error",
            DigestError::JsonError => "Invalid digest file",
            DigestError::FileNotFound => "File to create digest from does not exist",
            DigestError::InvalidFileName => "File name to create digest from is not valid",
            DigestError::VerifyError => "Incorrect hash in digest",
        }
    }
}

/// What a digest file holds, field by field, before it is checked.
#[derive(Debug)]
pub struct DigestRecord {
    pub version: u32,
    pub size: u64,
    pub downloaded: u64,
    pub file_name: String,
    pub content_type: String,
    /// The hash in hexadecimal.
    pub hash: String,
}

/// The mathematical value of a record.
pub struct RecordView {
    pub version: u32,
    pub size: u64,
    pub downloaded: u64,
    pub file_name: Seq<char>,
    pub content_type: Seq<char>,
    pub hash: Seq<char>,
}

impl View for DigestRecord {
    type V = RecordView;

    open spec fn view(&self) -> RecordView {
        RecordView {
            version: self.version,
            size: self.size,
            downloaded: self.downloaded,
            file_name: self.file_name@,
            content_type: self.content_type@,
            hash: self.hash@,
        }
    }
}

/// The digest of one file.
#[derive(Debug)]
pub struct Digest {
    version: u32,
    pub size: u64,
    pub downloaded: u64,
    pub file_name: String,
    pub content_type: String,
    hash: [u8; 32],
    /// The directory that holds the file; no part of the digest file.
    root: String,
}

/// The mathematical value of a digest.
pub struct DigestView {
    pub version: u32,
    pub size: u64,
    pub downloaded: u64,
    pub file_name: Seq<char>,
    pub content_type: Seq<char>,
    pub hash: Seq<u8>,
    pub root: Seq<char>,
}

impl View for Digest {
    type V = DigestView;

    closed spec fn view(&self) -> DigestView {
        DigestView {
            version: self.version,
            size: self.size,
            downloaded: self.downloaded,
            file_name: self.file_name@,
            content_type: self.content_type@,
            hash: self.hash@,
            root: self.root@,
        }
    }
}

impl DigestView {
    /// The digest is of the known version, holds no more bytes than the file
    /// has, names a file, and has a hash of thirty-two bytes.
    pub open spec fn wf(self) -> bool {
        &&& self.version == VERSION
        &&& self.downloaded <= self.size
        &&& is_file_name(self.file_name)
        &&& self.hash.len() == 32
    }

    /// The file is on disk in full.
    pub open spec fn complete(self) -> bool {
        self.downloaded == self.size
    }

    /// What the digest file holds.
    pub open spec fn record(self) -> RecordView {
        RecordView {
            version: self.version,
            size: self.size,
            downloaded: self.downloaded,
            file_name: self.file_name,
            content_type: self.content_type,
            hash: hex_encode(self.hash),
        }
    }

    /// The path of the file.
    pub open spec fn file_path(self) -> Seq<char> {
        join(self.root, self.file_name)
    }

    /// The path of the digest file.
    pub open spec fn digest_path(self) -> Seq<char> {
        join(self.root, digest_name(self.file_name))
    }
}

impl RecordView {
    /// The record can be taken for a digest: the version is the known one,
    /// `downloaded` is not above `size`, the name is a file name, and the
    /// hash is written in sixty-four hexadecimal digits.
    pub open spec fn valid(self) -> bool {
        &&& self.version == VERSION
        &&& self.downloaded <= self.size
        &&& is_file_name(self.file_name)
        &&& hash_of_text(self.hash) is Ok
    }

    /// The digest that the record stands for, for a file in `root`.
    pub open spec fn digest(self, root: Seq<char>) -> DigestView {
        DigestView {
            version: self.version,
            size: self.size,
            downloaded: self.downloaded,
            file_name: self.file_name,
            content_type: self.content_type,
            hash: hash_of_text(self.hash)->Ok_0,
            root,
        }
    }
}

/// A digest that was written to its file and read back is the same digest,
/// but for the directory, which the file does not hold.
pub proof fn lemma_digest_round_trip(d: DigestView, root: Seq<char>)
    requires
        d.wf(),
    ensures
        d.record().valid(),
        d.record().digest(root) == (DigestView { root, ..d }),
{
    lemma_hash_text_round_trip(d.hash);
}

/// Whether two hashes are the same.
pub fn same_hash(a: &[u8; 32], b: &[u8; 32]) -> (same: bool)
    ensures
        same == (a@ == b@),
{
    let mut i: usize = 0;
    while i < 32
        invariant
            i <= 32,
            forall|j: int| 0 <= j < i ==> a@[j] == b@[j],
        decreases 32 - i,
    {
        if a[i] != b[i] {
            return false;
        }
        i = i + 1;
    }
    assert(a@ =~= b@);
    true
}

/// The BLAKE3 hash of `content`.
pub fn hash_content(content: &[u8]) -> (hash: [u8; 32])
    ensures
        hash@ == blake3_hash(content@),
{
    let mut hasher = hasher_new();
    hasher_update(&mut hasher, content);
    assert(Seq::<u8>::empty() + content@ =~= content@);
    hasher_finalize(&hasher)
}

/// The value of a result that holds a digest.
pub open spec fn digest_result_view(r: Result<Digest, DigestError>) -> Result<
    DigestView,
    DigestError,
> {
    match r {
        Ok(d) => Ok(d@),
        Err(e) => Err(e),
    }
}

impl Digest {
    /// The digest of a file that is on disk in full at `path`, `size` bytes
    /// long, with the given type and hash.
    pub fn new(path: &str, size: u64, content_type: &str, hash: [u8; 32]) -> (d: Digest)
        requires
            split(path@) is Some,
        ensures
            d@.wf(),
            d@ == (DigestView {
                version: VERSION,
                size,
                downloaded: size,
                file_name: last_part(path@),
                content_type: content_type@,
                hash: hash@,
                root: parent_part(path@),
            }),
    {
        let (root, file_name) = split_path(path).unwrap();
        Digest {
            version: VERSION,
            size,
            downloaded: size,
            file_name,
            content_type: content_type.to_owned(),
            hash,
            root,
        }
    }

    /// The digest of a file in `root` of which `downloaded` of `size` bytes
    /// are on disk.
    pub fn partial(
        root: &str,
        file_name: &str,
        size: u64,
        downloaded: u64,
        content_type: &str,
        hash: [u8; 32],
    ) -> (d: Digest)
        requires
            is_file_name(file_name@),
            downloaded <= size,
        ensures
            d@.wf(),
            d@ == (DigestView {
                version: VERSION,
                size,
                downloaded,
                file_name: file_name@,
                content_type: content_type@,
                hash: hash@,
                root: root@,
            }),
    {
        Digest {
            version: VERSION,
            size,
            downloaded,
            file_name: file_name.to_owned(),
            content_type: content_type.to_owned(),
            hash,
            root: root.to_owned(),
        }
    }

    /// The digest that `record` stands for, for a file in `root`; an error
    /// where the record is not valid.
    pub fn from_record(record: &DigestRecord, root: &str) -> (loaded: Result<Digest, DigestError>)
        ensures
            digest_result_view(loaded) == if record@.valid() {
                Ok::<DigestView, DigestError>(record@.digest(root@))
            } else {
                Err::<DigestView, DigestError>(DigestError::JsonError)
            },
            loaded matches Ok(d) ==> d@.wf(),
    {
        if record.version != VERSION || record.downloaded > record.size || !check_file_name(
            record.file_name.as_str(),
        ) {
            return Err(DigestError::JsonError);
        }
        match deserialize(record.hash.as_str()) {
            Err(_) => Err(DigestError::JsonError),
            Ok(hash) => Ok(
                Digest {
                    version: record.version,
                    size: record.size,
                    downloaded: record.downloaded,
                    file_name: record.file_name.clone(),
                    content_type: record.content_type.clone(),
                    hash,
                    root: root.to_owned(),
                },
            ),
        }
    }

    /// The path of the digest file that accompanies the file at `path`;
    /// `FileNotFound` where `path` names no file.
    pub fn digest_path_for(path: &str) -> (found: Result<String, DigestError>)
        ensures
            match found {
                Ok(p) => split(path@) matches Some((root, name)) && p@ == join(
                    root,
                    digest_name(name),
                ),
                Err(e) => split(path@) is None && e == DigestError::FileNotFound,
            },
    {
        match split_path(path) {
            None => Err(DigestError::FileNotFound),
            Some((root, name)) => {
                let digest = digest_file_name(name.as_str());
                Ok(join_path(root.as_str(), digest.as_str()))
            },
        }
    }

    /// The digest of the file at `path`, given what its digest file holds:
    /// `FileNotFound` where `path` names no file, `JsonError` where the
    /// record is not valid.
    pub fn for_path(path: &str, record: &DigestRecord) -> (loaded: Result<Digest, DigestError>)
        ensures
            digest_result_view(loaded) == match split(path@) {
                None => Err::<DigestView, DigestError>(DigestError::FileNotFound),
                Some((root, name)) => if record@.valid() {
                    Ok::<DigestView, DigestError>(record@.digest(root))
                } else {
                    Err::<DigestView, DigestError>(DigestError::JsonError)
                },
            },
            loaded matches Ok(d) ==> d@.wf(),
    {
        match split_path(path) {
            None => Err(DigestError::FileNotFound),
            Some((root, name)) => Digest::from_record(record, root.as_str()),
        }
    }

    /// What the digest file holds.
    pub fn to_record(&self) -> (record: DigestRecord)
        ensures
            record@ == self@.record(),
    {
        DigestRecord {
            version: self.version,
            size: self.size,
            downloaded: self.downloaded,
            file_name: self.file_name.clone(),
            content_type: self.content_type.clone(),
            hash: serialize(&self.hash),
        }
    }

    /// Where in `root` the digest file goes and what it holds.
    pub fn write(&self, root: &str) -> (out: (String, DigestRecord))
        ensures
            out.0@ == join(root@, digest_name(self@.file_name)),
            out.1@ == self@.record(),
    {
        let name = digest_file_name(self.file_name.as_str());
        (join_path(root, name.as_str()), self.to_record())
    }

    /// Holds the hash of the file's bytes against the digest's:
    /// `VerifyError` where they differ.
    pub fn verify(&self, content_hash: &[u8; 32]) -> (verified: Result<(), DigestError>)
        ensures
            verified == if content_hash@ == self@.hash {
                Ok::<(), DigestError>(())
            } else {
                Err::<(), DigestError>(DigestError::VerifyError)
            },
    {
        if same_hash(content_hash, &self.hash) {
            Ok(())
        } else {
            Err(DigestError::VerifyError)
        }
    }

    /// Hashes `content`, the file's bytes, and holds the hash against the
    /// digest's: `VerifyError` where they differ.
    pub fn verify_content(&self, content: &[u8]) -> (verified: Result<(), DigestError>)
        ensures
            verified == if blake3_hash(content@) == self@.hash {
                Ok::<(), DigestError>(())
            } else {
                Err::<(), DigestError>(DigestError::VerifyError)
            },
    {
        let hash = hash_content(content);
        self.verify(&hash)
    }

    /// The path of the file.
    pub fn get_file_path(&self) -> (path: String)
        ensures
            path@ == self@.file_path(),
    {
        join_path(self.root.as_str(), self.file_name.as_str())
    }

    /// The path of the digest file.
    pub fn get_digest_path(&self) -> (path: String)
        ensures
            path@ == self@.digest_path(),
    {
        let name = digest_file_name(self.file_name.as_str());
        join_path(self.root.as_str(), name.as_str())
    }

    /// The file's name.
    pub fn file_name(&self) -> (name: &str)
        ensures
            name@ == self@.file_name,
    {
        self.file_name.as_str()
    }

    /// The file's content type.
    pub fn content_type(&self) -> (content_type: &str)
        ensures
            content_type@ == self@.content_type,
    {
        self.content_type.as_str()
    }

    /// The file's length in bytes.
    pub fn size(&self) -> (size: u64)
        ensures
            size == self@.size,
    {
        self.size
    }

    /// How many of the file's bytes are on disk.
    pub fn downloaded(&self) -> (downloaded: u64)
        ensures
            downloaded == self@.downloaded,
    {
        self.downloaded
    }

    /// The file's hash.
    pub fn hash(&self) -> (hash: [u8; 32])
        ensures
            hash@ == self@.hash,
    {
        self.hash
    }

    /// The directory that holds the file.
    pub fn root(&self) -> (root: &str)
        ensures
            root@ == self@.root,
    {
        self.root.as_str()
    }

    /// The version of the digest's format.
    pub fn version(&self) -> (version: u32)
        ensures
            version == self@.version,
    {
        self.version
    }

    /// The file as a response serves it: at the file's path, with the
    /// digest's content type, and with what the file system says of it.
    pub fn serve(&self, len: u64, ino: u64, modified: Option<Modified>) -> (file: NamedFile)
        ensures
            file.path@ == self@.file_path(),
            file.content_type@ == self@.content_type,
            file.len == len,
            file.ino == ino,
            file.modified == modified,
            file.status_code == OK,
    {
        let path = self.get_file_path();
        NamedFile::new(path.as_str(), len, ino, modified).set_content_type(
            self.content_type.clone(),
        )
    }
}

impl Clone for Digest {
    fn clone(&self) -> (copy: Self)
        ensures
            copy@ == self@,
    {
        Digest {
            version: self.version,
            size: self.size,
            downloaded: self.downloaded,
            file_name: self.file_name.clone(),
            content_type: self.content_type.clone(),
            hash: self.hash,
            root: self.root.clone(),
        }
    }
}

} // verus!
