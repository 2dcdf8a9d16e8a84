use bcdn::digest::hash_content;
use bcdn::downloader::{
    idle_reply, reply_started, reply_status, BusyNext, Command, Download, DownloadError,
    DownloadStatus, IdleNext, Reply, CHUNK_SIZE,
};
use bcdn::digest::DigestError;
use bcdn::job::JobKey;
use bcdn::rpc::RpcError;

fn key() -> JobKey {
    JobKey::new("pkg", "a.txt")
}

fn begin(len: &str) -> Download {
    Download::begin(
        key(),
        "http://origin/p/a.txt",
        "/var/lib/bcdn/pkg/a.txt",
        200,
        Some("text/plain"),
        Some(len),
    )
    .unwrap()
}

fn progress(d: &Download) -> (usize, usize) {
    match d.status() {
        DownloadStatus::Downloading { key: k, downloaded, size } => {
            assert_eq!(k, key());
            (downloaded, size)
        }
        DownloadStatus::Idle => panic!("a download is never idle"),
    }
}

#[test]
fn idle_worker_answers() {
    let start = Command::Start(key(), "http://o/a".to_string(), "/r/a".to_string());
    match idle_reply(start) {
        (Reply::Accepted, IdleNext::Download(k, url, path)) => {
            assert_eq!(k, key());
            assert_eq!(url, "http://o/a");
            assert_eq!(path, "/r/a");
        }
        other => panic!("unexpected {:?}", other),
    }
    assert!(matches!(idle_reply::<JobKey>(Command::Stop), (Reply::Accepted, IdleNext::Wait)));
    assert!(matches!(idle_reply::<JobKey>(Command::Status), (Reply::Idle, IdleNext::Wait)));
    assert!(matches!(idle_reply::<JobKey>(Command::Quit), (Reply::Accepted, IdleNext::Exit)));
}

#[test]
fn replies_as_results() {
    assert!(matches!(reply_status::<JobKey>(Reply::Idle), Some(DownloadStatus::Idle)));
    assert!(matches!(
        reply_status(Reply::Downloading { key: key(), downloaded: 3, size: 9 }),
        Some(DownloadStatus::Downloading { downloaded: 3, size: 9, .. })
    ));
    assert!(reply_status::<JobKey>(Reply::Accepted).is_none());
    assert!(reply_status::<JobKey>(Reply::Refused).is_none());
    assert_eq!(reply_started::<JobKey>(&Reply::Accepted), Ok(()));
    assert_eq!(reply_started::<JobKey>(&Reply::Refused), Err(()));
    assert_eq!(reply_started::<JobKey>(&Reply::Idle), Err(()));
}

#[test]
fn begin_needs_success_a_length_and_a_file_name() {
    let go = |path: &str, status: u16, len: Option<&str>| {
        Download::begin(key(), "http://o/a", path, status, None, len).err()
    };
    assert_eq!(go("/r/a.txt", 200, Some("5")), None);
    assert_eq!(go("/r/a.txt", 299, Some("0")), None);
    assert_eq!(go("/r/a.txt", 404, Some("5")), Some(DownloadError::RequestError));
    assert_eq!(go("/r/a.txt", 199, Some("5")), Some(DownloadError::RequestError));
    assert_eq!(go("/r/a.txt", 300, Some("5")), Some(DownloadError::RequestError));
    assert_eq!(go("/r/a.txt", 200, None), Some(DownloadError::RequestError));
    assert_eq!(go("/r/a.txt", 200, Some("five")), Some(DownloadError::RequestError));
    assert_eq!(go("/r/a.txt", 200, Some("")), Some(DownloadError::RequestError));
    assert_eq!(
        go("/r/a.txt", 200, Some("99999999999999999999999")),
        Some(DownloadError::RequestError)
    );
    assert_eq!(go("/r/", 200, Some("5")), Some(DownloadError::PathError));
    assert_eq!(go("/r/", 404, None), Some(DownloadError::PathError));
}

#[test]
fn content_type_defaults_to_unknown() {
    let d = Download::begin(key(), "http://o/a", "/r/a.txt", 200, None, Some("0")).unwrap();
    let commit = d.finish().unwrap();
    assert_eq!(commit.digest.content_type, "unknown");
    assert_eq!(commit.digest.size, 0);
    assert_eq!(commit.digest.hash(), hash_content(b""));
}

#[test]
fn first_time_fetch_of_hello() {
    let mut d = begin("5");
    assert_eq!(d.url(), "http://origin/p/a.txt");
    assert_eq!(d.root(), "/var/lib/bcdn/pkg");
    assert_eq!(d.temporary_path(), "/var/lib/bcdn/pkg/.a.txt.download");
    assert_eq!(progress(&d), (0, 5));
    assert!(matches!(d.on_chunk(b"hel"), Ok(None)));
    assert_eq!(progress(&d), (3, 5));
    assert!(matches!(d.on_chunk(b"lo"), Ok(None)));
    assert_eq!(progress(&d), (5, 5));
    let commit = d.finish().unwrap();
    assert_eq!(commit.path, "/var/lib/bcdn/pkg/a.txt");
    assert_eq!(commit.temporary, "/var/lib/bcdn/pkg/.a.txt.download");
    assert_eq!(commit.digest.file_name, "a.txt");
    assert_eq!(commit.digest.content_type, "text/plain");
    assert_eq!(commit.digest.size, 5);
    assert_eq!(commit.digest.downloaded, 5);
    assert_eq!(commit.digest.hash(), hash_content(b"hello"));
    assert_eq!(commit.digest.get_digest_path(), "/var/lib/bcdn/pkg/a.txt.digest");
    assert_eq!(commit.digest.verify_content(b"hello"), Ok(()));
}

#[test]
fn chunk_beyond_the_length_is_refused() {
    let mut d = begin("5");
    assert!(matches!(d.on_chunk(b"hello!"), Err(DownloadError::RequestError)));
    assert_eq!(progress(&d), (0, 5));
    assert!(matches!(d.on_chunk(b"hell"), Ok(None)));
    assert!(matches!(d.on_chunk(b"oo"), Err(DownloadError::RequestError)));
    assert_eq!(progress(&d), (4, 5));
    assert!(matches!(d.on_chunk(b"o"), Ok(None)));
    assert_eq!(d.finish().unwrap().digest.hash(), hash_content(b"hello"));
}

#[test]
fn short_body_does_not_finish() {
    let mut d = begin("5");
    assert!(matches!(d.on_chunk(b"hell"), Ok(None)));
    assert_eq!(d.finish().err(), Some(DownloadError::RequestError));
}

#[test]
fn progress_is_written_down_every_mebibyte() {
    assert_eq!(CHUNK_SIZE, 1024 * 1024);
    let total = 3 * CHUNK_SIZE;
    let mut d = begin(&total.to_string());
    let half = vec![1u8; CHUNK_SIZE / 2];
    assert!(matches!(d.on_chunk(&half), Ok(None)));
    let interim = d.on_chunk(&half).unwrap().unwrap();
    assert_eq!(interim.size, total as u64);
    assert_eq!(interim.downloaded, CHUNK_SIZE as u64);
    assert_eq!(interim.file_name, "a.txt");
    assert_eq!(interim.hash(), hash_content(&vec![1u8; CHUNK_SIZE]));
    assert!(matches!(d.on_chunk(&half), Ok(None)));
    assert!(matches!(d.on_chunk(&[1u8; 10]), Ok(None)));
    let interim = d.on_chunk(&half).unwrap().unwrap();
    assert_eq!(interim.downloaded, (2 * CHUNK_SIZE + 10) as u64);
    let rest = vec![1u8; CHUNK_SIZE - 10];
    assert!(matches!(d.on_chunk(&rest), Ok(None)));
    assert_eq!(progress(&d), (total, total));
    assert_eq!(d.finish().unwrap().digest.hash(), hash_content(&vec![1u8; total]));
}

#[test]
fn status_reports_never_go_down() {
    let mut d = begin("100");
    let mut last = 0;
    for chunk in [&b"0123456789"[..], b"", b"abc", &[0u8; 200][..], b"xyz"] {
        let _ = d.on_chunk(chunk);
        let (now, size) = progress(&d);
        assert!(now >= last);
        assert_eq!(size, 100);
        last = now;
    }
    assert_eq!(last, 16);
}

#[test]
fn downloading_worker_answers() {
    let mut d = begin("5");
    d.on_chunk(b"he").unwrap();
    let start = Command::Start(key(), "u".to_string(), "p".to_string());
    assert!(matches!(d.command(&start), (Reply::Refused, BusyNext::Continue)));
    assert!(matches!(d.command(&Command::Stop), (Reply::Accepted, BusyNext::Abort)));
    assert!(matches!(d.command(&Command::Quit), (Reply::Accepted, BusyNext::Exit)));
    match d.command(&Command::Status) {
        (Reply::Downloading { key: k, downloaded, size }, BusyNext::Continue) => {
            assert_eq!(k, key());
            assert_eq!(downloaded, 2);
            assert_eq!(size, 5);
        }
        other => panic!("unexpected {:?}", other),
    }
}

#[test]
fn download_errors_in_words() {
    assert_eq!(DownloadError::IoError.message(), "IO error");
    assert_eq!(DownloadError::RequestError.message(), "HTTP error");
    assert_eq!(DownloadError::RpcError(RpcError::Empty).message(), "RPC error");
    assert_eq!(DownloadError::DigestError(DigestError::IoError).message(), "Digest error");
    assert_eq!(DownloadError::PathError.message(), "Path error");
    assert_eq!(RpcError::ReceiverClosed.message(), "Receiver end closed");
    assert_eq!(RpcError::SenderClosed.message(), "Sender end closed");
    assert_eq!(RpcError::Empty.message(), "No pending queries");
}
