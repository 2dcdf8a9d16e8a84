//! How a cached file answers a request: status, validators, and the part of
//! the file that forms the body.

use crate::entity_tag::{
    any_match, matches_any, matches_none, none_match, tag_view, EntityTag, EntityTagView, Header,
    TagCondition,
};
use crate::range::{parse_range, HttpRange};
use crate::text::{decimal_digits, hex_digits, push_decimal, push_hex};
use vstd::prelude::*;

verus! {

/// When a file was last changed, counted from the epoch.
#[derive(Clone, Copy, Debug, PartialEq, Eq, Structural)]
pub struct Modified {
    pub secs: u64,
    pub nanos: u32,
}

/// What a request asks of the response.
#[derive(Debug)]
pub struct Conditions {
    pub if_match: Header<TagCondition>,
    pub if_none_match: Header<TagCondition>,
    /// `If-Unmodified-Since`, in seconds from the epoch.
    pub if_unmodified_since: Header<u64>,
    /// `If-Modified-Since`, in seconds from the epoch.
    pub if_modified_since: Header<u64>,
    /// `Range`; invalid where its bytes are no text.
    pub range: Header<String>,
}

/// The body of a response.
#[derive(Clone, Copy, Debug, PartialEq, Eq, Structural)]
pub enum Body {
    Empty,
    /// `length` bytes of the file from `offset` on.
    File { offset: u64, length: u64 },
}

/// A response, ready to be sent.
#[derive(Debug)]
pub struct Response {
    pub status: u16,
    /// `Last-Modified`, in seconds from the epoch.
    pub last_modified: Option<u64>,
    pub etag: Option<EntityTag>,
    /// Whether `Accept-Ranges: bytes` is sent.
    pub accept_ranges: bool,
    pub content_range: Option<String>,
    /// Whether the body must go out unencoded.
    pub identity: bool,
    pub body: Body,
}

/// The mathematical value of a response.
pub struct ResponseView {
    pub status: u16,
    pub last_modified: Option<u64>,
    pub etag: Option<EntityTagView>,
    pub accept_ranges: bool,
    pub content_range: Option<Seq<char>>,
    pub identity: bool,
    pub body: Body,
}

impl View for Response {
    type V = ResponseView;

    open spec fn view(&self) -> ResponseView {
        ResponseView {
            status: self.status,
            last_modified: self.last_modified,
            etag: tag_view(self.etag),
            accept_ranges: self.accept_ranges,
            content_range: match self.content_range {
                Some(text) => Some(text@),
                None => None,
            },
            identity: self.identity,
            body: self.body,
        }
    }
}

pub const OK: u16 = 200;

pub const PARTIAL_CONTENT: u16 = 206;

pub const NOT_MODIFIED: u16 = 304;

pub const BAD_REQUEST: u16 = 400;

pub const PRECONDITION_FAILED: u16 = 412;

pub const RANGE_NOT_SATISFIABLE: u16 = 416;

/// A file on disk as far as a response depends on it.
#[derive(Debug)]
pub struct NamedFile {
    pub path: String,
    pub modified: Option<Modified>,
    /// The file's length in bytes.
    pub len: u64,
    /// The file's inode number; zero where the system has none.
    pub ino: u64,
    pub status_code: u16,
    pub content_type: String,
}

/// The text of the tag of a file: inode, length, seconds and nanoseconds of
/// the last change, each in hexadecimal, with colons between.
pub open spec fn etag_text(ino: u64, len: u64, modified: Modified) -> Seq<char> {
    hex_digits(ino as nat) + ":"@ + hex_digits(len as nat) + ":"@ + hex_digits(
        modified.secs as nat,
    ) + ":"@ + hex_digits(modified.nanos as nat)
}

/// The `Content-Range` of a part of a file.
pub open spec fn content_range_text(range: HttpRange, total: u64) -> Seq<char> {
    "bytes "@ + decimal_digits(range.start as nat) + "-"@ + decimal_digits(
        (range.start + range.length - 1) as nat,
    ) + "/"@ + decimal_digits(total as nat)
}

/// The `Content-Range` that says only how long the file is.
pub open spec fn unsatisfied_range_text(total: u64) -> Seq<char> {
    "bytes */"@ + decimal_digits(total as nat)
}

impl NamedFile {
    /// A file at `path` that answers with status 200 and the type
    /// `application/octet-stream`.
    pub fn new(path: &str, len: u64, ino: u64, modified: Option<Modified>) -> (file: NamedFile)
        ensures
            file.path@ == path@,
            file.len == len,
            file.ino == ino,
            file.modified == modified,
            file.status_code == OK,
            file.content_type@ == "application/octet-stream"@,
    {
        NamedFile {
            path: path.to_owned(),
            modified,
            len,
            ino,
            status_code: OK,
            content_type: "application/octet-stream".to_owned(),
        }
    }

    /// The file's path.
    pub fn path(&self) -> (path: &str)
        ensures
            path@ == self.path@,
    {
        self.path.as_str()
    }

    /// The same file with another status.
    pub fn set_status_code(self, status: u16) -> (file: NamedFile)
        ensures
            file == (NamedFile { status_code: status, ..self }),
    {
        let mut file = self;
        file.status_code = status;
        file
    }

    /// The same file with another content type.
    pub fn set_content_type(self, content_type: String) -> (file: NamedFile)
        ensures
            file == (NamedFile { content_type, ..self }),
    {
        let mut file = self;
        file.content_type = content_type;
        file
    }

    /// The tag that the file has: none where the time of its last change is
    /// unknown.
    pub open spec fn etag_view(&self) -> Option<EntityTagView> {
        match self.modified {
            Some(modified) => Some(
                EntityTagView { weak: false, tag: etag_text(self.ino, self.len, modified) },
            ),
            None => None,
        }
    }

    /// The time of the last change in whole seconds.
    pub open spec fn last_modified_view(&self) -> Option<u64> {
        match self.modified {
            Some(modified) => Some(modified.secs),
            None => None,
        }
    }

    /// A strong tag made of inode, length and time of the last change.
    pub fn etag(&self) -> (tag: Option<EntityTag>)
        ensures
            tag_view(tag) == self.etag_view(),
    {
        match self.modified {
            Some(modified) => {
                let mut text = String::new();
                push_hex(&mut text, self.ino);
                text.append(":");
                push_hex(&mut text, self.len);
                text.append(":");
                push_hex(&mut text, modified.secs);
                text.append(":");
                push_hex(&mut text, modified.nanos as u64);
                assert(text@ =~= etag_text(self.ino, self.len, modified));
                Some(EntityTag::strong(text))
            },
            None => None,
        }
    }

    /// The time of the last change in whole seconds, as `Last-Modified`
    /// gives it.
    pub fn last_modified(&self) -> (secs: Option<u64>)
        ensures
            secs == self.last_modified_view(),
    {
        match self.modified {
            Some(modified) => Some(modified.secs),
            None => None,
        }
    }
}

/// What the `Range` header of a request comes to for a file.
pub enum RangeOutcome {
    /// No header: the whole file.
    Whole,
    /// The header's bytes are no text.
    Unreadable,
    /// The header names no part of the file.
    Unsatisfiable,
    /// The header names this part.
    Part(HttpRange),
}

impl NamedFile {
    /// A precondition of the request fails: `If-Match` finds no equal tag, or
    /// the file changed after `If-Unmodified-Since`.
    pub open spec fn precondition_failed(&self, req: &Conditions) -> bool {
        ||| !matches_any(self.etag_view(), req.if_match)
        ||| match (self.modified, req.if_unmodified_since) {
            (Some(modified), Header::Value(since)) => modified.secs > since,
            _ => false,
        }
    }

    /// The client's copy is still good: `If-None-Match` finds an equal tag,
    /// or, where that header is missing, the file did not change after
    /// `If-Modified-Since`.
    pub open spec fn not_modified(&self, req: &Conditions) -> bool {
        ||| !matches_none(self.etag_view(), req.if_none_match)
        ||| match (req.if_none_match, self.modified, req.if_modified_since) {
            (Header::Absent, Some(modified), Header::Value(since)) => modified.secs <= since,
            _ => false,
        }
    }

    /// What the request's `Range` header comes to.
    pub open spec fn range_outcome(&self, req: &Conditions) -> RangeOutcome {
        match req.range {
            Header::Absent => RangeOutcome::Whole,
            Header::Invalid => RangeOutcome::Unreadable,
            Header::Value(text) => match parse_range(text@, self.len as nat) {
                Some(range) => RangeOutcome::Part(range),
                None => RangeOutcome::Unsatisfiable,
            },
        }
    }

    /// The status of the response to a request for a file whose own status
    /// is 200: a bad `Range` header comes first, then a failed precondition,
    /// then an unchanged file, then the part or the whole.
    pub open spec fn status(&self, req: &Conditions) -> u16 {
        match self.range_outcome(req) {
            RangeOutcome::Unreadable => BAD_REQUEST,
            RangeOutcome::Unsatisfiable => RANGE_NOT_SATISFIABLE,
            outcome => if self.precondition_failed(req) {
                PRECONDITION_FAILED
            } else if self.not_modified(req) {
                NOT_MODIFIED
            } else {
                match outcome {
                    RangeOutcome::Part(range) => if range.start != 0 || range.length != self.len {
                        PARTIAL_CONTENT
                    } else {
                        OK
                    },
                    _ => OK,
                }
            },
        }
    }

    /// The response to a request.
    pub open spec fn response(&self, req: &Conditions) -> ResponseView {
        if self.status_code != OK {
            ResponseView {
                status: self.status_code,
                last_modified: None,
                etag: None,
                accept_ranges: false,
                content_range: None,
                identity: false,
                body: Body::File { offset: 0, length: self.len },
            }
        } else {
            let status = self.status(req);
            let outcome = self.range_outcome(req);
            ResponseView {
                status,
                last_modified: self.last_modified_view(),
                etag: self.etag_view(),
                accept_ranges: true,
                content_range: match outcome {
                    RangeOutcome::Part(range) => Some(content_range_text(range, self.len)),
                    RangeOutcome::Unsatisfiable => Some(unsatisfied_range_text(self.len)),
                    _ => None,
                },
                identity: outcome is Part,
                body: if status == OK || status == PARTIAL_CONTENT {
                    match outcome {
                        RangeOutcome::Part(range) => Body::File {
                            offset: range.start,
                            length: range.length,
                        },
                        _ => Body::File { offset: 0, length: self.len },
                    }
                } else {
                    Body::Empty
                },
            }
        }
    }

    /// Answers a request for the file.
    pub fn into_response(self, req: &Conditions) -> (resp: Response)
        ensures
            resp@ == self.response(req),
    {
        if self.status_code != OK {
            return Response {
                status: self.status_code,
                last_modified: None,
                etag: None,
                accept_ranges: false,
                content_range: None,
                identity: false,
                body: Body::File { offset: 0, length: self.len },
            };
        }
        let etag = self.etag();
        let last_modified = self.last_modified();

        let precondition_failed = if !any_match(&etag, &req.if_match) {
            true
        } else {
            match (last_modified, &req.if_unmodified_since) {
                (Some(changed), Header::Value(since)) => changed > *since,
                _ => false,
            }
        };

        let not_modified = if !none_match(&etag, &req.if_none_match) {
            true
        } else {
            match &req.if_none_match {
                Header::Absent => match (last_modified, &req.if_modified_since) {
                    (Some(changed), Header::Value(since)) => changed <= *since,
                    _ => false,
                },
                _ => false,
            }
        };
        assert(precondition_failed == self.precondition_failed(req));
        assert(not_modified == self.not_modified(req));

        let mut resp = Response {
            status: OK,
            last_modified,
            etag,
            accept_ranges: true,
            content_range: None,
            identity: false,
            body: Body::Empty,
        };
        let mut length: u64 = self.len;
        let mut offset: u64 = 0;

        match &req.range {
            Header::Absent => {},
            Header::Invalid => {
                resp.status = BAD_REQUEST;
                return resp;
            },
            Header::Value(text) => {
                match HttpRange::parse(text.as_str(), self.len) {
                    Some(range) => {
                        length = range.length;
                        offset = range.start;
                        resp.identity = true;
                        let mut line = "bytes ".to_owned();
                        push_decimal(&mut line, offset);
                        line.append("-");
                        push_decimal(&mut line, offset + length - 1);
                        line.append("/");
                        push_decimal(&mut line, self.len);
                        assert(line@ =~= content_range_text(range, self.len));
                        resp.content_range = Some(line);
                    },
                    None => {
                        let mut line = "bytes */".to_owned();
                        push_decimal(&mut line, self.len);
                        resp.content_range = Some(line);
                        resp.status = RANGE_NOT_SATISFIABLE;
                        return resp;
                    },
                }
            },
        }

        if precondition_failed {
            resp.status = PRECONDITION_FAILED;
            return resp;
        } else if not_modified {
            resp.status = NOT_MODIFIED;
            return resp;
        }
        if offset != 0 || length != self.len {
            resp.status = PARTIAL_CONTENT;
        }
        resp.body = Body::File { offset, length };
        resp
    }
}

} // verus!
