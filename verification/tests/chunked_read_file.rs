use bcdn::chunked_read_file::{ChunkedReadFile, ReadError, MAX_READ};

#[test]
fn reads_go_on_until_the_part_is_read() {
    let mut r = ChunkedReadFile::new(100, 70_000);
    assert_eq!(r, ChunkedReadFile { size: 70_000, offset: 100, counter: 0 });
    assert_eq!(r.next_read(), Some((100, 65_536)));
    assert_eq!(r.advance(65_536), Ok(()));
    assert_eq!(r.next_read(), Some((65_636, 4_464)));
    assert_eq!(r.advance(4_000), Ok(()));
    assert_eq!(r.next_read(), Some((69_636, 464)));
    assert_eq!(r.advance(464), Ok(()));
    assert_eq!(r.next_read(), None);
    assert_eq!(r, ChunkedReadFile { size: 70_000, offset: 70_100, counter: 70_000 });
}

#[test]
fn an_empty_part_has_no_read() {
    let r = ChunkedReadFile::new(5, 0);
    assert_eq!(r.next_read(), None);
    assert_eq!(MAX_READ, 65_536);
}

#[test]
fn a_read_that_brings_nothing_is_an_error() {
    let mut r = ChunkedReadFile::new(0, 10);
    assert_eq!(r.advance(0), Err(ReadError::UnexpectedEof));
    assert_eq!(r.advance(11), Err(ReadError::UnexpectedEof));
    assert_eq!(r, ChunkedReadFile { size: 10, offset: 0, counter: 0 });
    assert_eq!(r.advance(10), Ok(()));
    assert_eq!(r.advance(1), Err(ReadError::UnexpectedEof));
}
