use bcdn::entity_tag::{EntityTag, Header, TagCondition};
use bcdn::named_file::{Body, Conditions, Modified, NamedFile, Response};

fn file() -> NamedFile {
    NamedFile::new("/r/a.txt", 1000, 0x2a, Some(Modified { secs: 0x5f5e100, nanos: 0x1f }))
}

fn plain() -> Conditions {
    Conditions {
        if_match: Header::Absent,
        if_none_match: Header::Absent,
        if_unmodified_since: Header::Absent,
        if_modified_since: Header::Absent,
        range: Header::Absent,
    }
}

fn tags(items: &[&str]) -> Header<TagCondition> {
    Header::Value(TagCondition::Items(
        items.iter().map(|t| EntityTag::strong(t.to_string())).collect(),
    ))
}

fn tag_text(r: &Response) -> Option<String> {
    r.etag.as_ref().map(|t| t.tag.clone())
}

const TAG: &str = "2a:3e8:5f5e100:1f";

#[test]
fn etag_is_made_of_inode_length_and_time() {
    let tag = file().etag().unwrap();
    assert!(!tag.weak);
    assert_eq!(tag.tag, TAG);
    assert_eq!(file().last_modified(), Some(100_000_000));
    let unknown = NamedFile::new("/r/a.txt", 1000, 42, None);
    assert!(unknown.etag().is_none());
    assert_eq!(unknown.last_modified(), None);
}

#[test]
fn new_file_has_defaults() {
    let f = file();
    assert_eq!(f.path(), "/r/a.txt");
    assert_eq!(f.status_code, 200);
    assert_eq!(f.content_type, "application/octet-stream");
    let f = f.set_status_code(404).set_content_type("text/plain".to_string());
    assert_eq!(f.status_code, 404);
    assert_eq!(f.content_type, "text/plain");
    assert_eq!(f.len, 1000);
}

#[test]
fn plain_request_gets_the_whole_file() {
    let r = file().into_response(&plain());
    assert_eq!(r.status, 200);
    assert_eq!(r.body, Body::File { offset: 0, length: 1000 });
    assert_eq!(r.last_modified, Some(100_000_000));
    assert_eq!(tag_text(&r), Some(TAG.to_string()));
    assert!(r.accept_ranges);
    assert_eq!(r.content_range, None);
    assert!(!r.identity);
}

#[test]
fn another_status_sends_the_file_without_validators() {
    let mut req = plain();
    req.range = Header::Value("bytes=0-1".to_string());
    req.if_none_match = Header::Value(TagCondition::Any);
    let r = file().set_status_code(404).into_response(&req);
    assert_eq!(r.status, 404);
    assert_eq!(r.body, Body::File { offset: 0, length: 1000 });
    assert!(r.etag.is_none());
    assert_eq!(r.last_modified, None);
    assert!(!r.accept_ranges);
    assert_eq!(r.content_range, None);
}

#[test]
fn range_gets_a_part() {
    let mut req = plain();
    req.range = Header::Value("bytes=10-19".to_string());
    let r = file().into_response(&req);
    assert_eq!(r.status, 206);
    assert_eq!(r.body, Body::File { offset: 10, length: 10 });
    assert_eq!(r.content_range, Some("bytes 10-19/1000".to_string()));
    assert!(r.identity);
}

#[test]
fn range_of_the_whole_file_is_no_part() {
    let mut req = plain();
    req.range = Header::Value("bytes=0-999".to_string());
    let r = file().into_response(&req);
    assert_eq!(r.status, 200);
    assert_eq!(r.body, Body::File { offset: 0, length: 1000 });
    assert_eq!(r.content_range, Some("bytes 0-999/1000".to_string()));
}

#[test]
fn range_beyond_the_file_is_not_satisfiable() {
    let mut req = plain();
    req.range = Header::Value("bytes=1000-1001".to_string());
    let r = file().into_response(&req);
    assert_eq!(r.status, 416);
    assert_eq!(r.body, Body::Empty);
    assert_eq!(r.content_range, Some("bytes */1000".to_string()));
    req.range = Header::Value("lines=1-2".to_string());
    assert_eq!(file().into_response(&req).status, 416);
}

#[test]
fn unreadable_range_is_a_bad_request() {
    let mut req = plain();
    req.range = Header::Invalid;
    req.if_match = tags(&["other"]);
    let r = file().into_response(&req);
    assert_eq!(r.status, 400);
    assert_eq!(r.body, Body::Empty);
    assert_eq!(r.content_range, None);
}

#[test]
fn if_match_without_the_tag_fails_the_precondition() {
    let mut req = plain();
    req.if_match = tags(&["other"]);
    let r = file().into_response(&req);
    assert_eq!(r.status, 412);
    assert_eq!(r.body, Body::Empty);
    req.if_match = tags(&["other", TAG]);
    assert_eq!(file().into_response(&req).status, 200);
    req.if_match = Header::Value(TagCondition::Any);
    assert_eq!(file().into_response(&req).status, 200);
}

#[test]
fn if_unmodified_since_compares_seconds() {
    let mut req = plain();
    req.if_unmodified_since = Header::Value(99_999_999);
    assert_eq!(file().into_response(&req).status, 412);
    req.if_unmodified_since = Header::Value(100_000_000);
    assert_eq!(file().into_response(&req).status, 200);
    req.if_unmodified_since = Header::Invalid;
    assert_eq!(file().into_response(&req).status, 200);
}

#[test]
fn if_none_match_with_the_tag_is_not_modified() {
    let mut req = plain();
    req.if_none_match = tags(&[TAG]);
    let r = file().into_response(&req);
    assert_eq!(r.status, 304);
    assert_eq!(r.body, Body::Empty);
    assert_eq!(tag_text(&r), Some(TAG.to_string()));
    req.if_none_match = Header::Value(TagCondition::Any);
    assert_eq!(file().into_response(&req).status, 304);
    req.if_none_match = tags(&["other"]);
    assert_eq!(file().into_response(&req).status, 200);
}

#[test]
fn if_modified_since_counts_only_without_if_none_match() {
    let mut req = plain();
    req.if_modified_since = Header::Value(100_000_000);
    assert_eq!(file().into_response(&req).status, 304);
    req.if_modified_since = Header::Value(99_999_999);
    assert_eq!(file().into_response(&req).status, 200);
    req.if_modified_since = Header::Value(100_000_000);
    req.if_none_match = tags(&["other"]);
    assert_eq!(file().into_response(&req).status, 200);
    req.if_none_match = Header::Invalid;
    assert_eq!(file().into_response(&req).status, 200);
}

#[test]
fn failed_precondition_comes_before_not_modified() {
    let mut req = plain();
    req.if_match = tags(&["other"]);
    req.if_none_match = tags(&[TAG]);
    assert_eq!(file().into_response(&req).status, 412);
}

#[test]
fn bad_range_comes_before_the_preconditions() {
    let mut req = plain();
    req.if_match = tags(&["other"]);
    req.range = Header::Value("bytes=2000-3000".to_string());
    assert_eq!(file().into_response(&req).status, 416);
    req.range = Header::Value("bytes=0-9".to_string());
    let r = file().into_response(&req);
    assert_eq!(r.status, 412);
    assert_eq!(r.content_range, Some("bytes 0-9/1000".to_string()));
    assert_eq!(r.body, Body::Empty);
}

#[test]
fn file_without_time_has_no_validators() {
    let f = NamedFile::new("/r/a.txt", 10, 1, None);
    let mut req = plain();
    req.if_modified_since = Header::Value(u64::MAX);
    req.if_unmodified_since = Header::Value(0);
    let r = f.into_response(&req);
    assert_eq!(r.status, 200);
    assert!(r.etag.is_none());
    assert_eq!(r.last_modified, None);
    let f = NamedFile::new("/r/a.txt", 10, 1, None);
    req.if_match = tags(&["x"]);
    assert_eq!(f.into_response(&req).status, 412);
}
