use boulder_upstream::build::download::{Download, DownloadAction, DownloadReply};
use boulder_upstream::build::upstream::Plain;
use boulder_upstream::effect::{FetchError, IoError, IoErrorKind, RequestError, Step};
use boulder_upstream::uri::Url;

const HELLO: &str = "b94d27b9934d3e08a52e52d7da7dabfac484efe37a5380ee9088f7ace2efcde9";
const NOTHING: &str = "e3b0c44298fc1c149afbf4c8996fb92427ae41e4649b934ca495991b7852b855";

fn begin() -> Download {
    let url = Url::parse("https://example.com/f", "f".to_owned(), "f".to_owned()).unwrap();
    Plain::fetch(&url, "/tmp/f")
}

fn go(download: Download, reply: DownloadReply) -> Download {
    match download.resume(reply) {
        Step::Perform(next) => next,
        Step::Done(result) => panic!("{result:?}"),
    }
}

fn reading() -> Download {
    let download = go(begin(), DownloadReply::Opened(Ok(())));
    go(download, DownloadReply::Io(Ok(())))
}

fn digest_of(chunks: &[&[u8]]) -> (String, Vec<u8>) {
    let mut download = reading();
    let mut file = Vec::new();
    for chunk in chunks {
        assert!(matches!(download.action(), DownloadAction::Next));
        assert!(download.has_room(chunk.len()));
        download = go(download, DownloadReply::Chunk(Some(Ok(chunk.to_vec()))));
        let DownloadAction::Write(bytes) = download.action() else { panic!() };
        file.extend_from_slice(bytes);
        download = go(download, DownloadReply::Io(Ok(())));
    }
    download = go(download, DownloadReply::Chunk(None));
    assert!(matches!(download.action(), DownloadAction::Flush));
    let Step::Done(Ok(hash)) = download.resume(DownloadReply::Io(Ok(()))) else { panic!() };
    (hash.to_text(), file)
}

#[test]
fn a_download_requests_and_creates_first() {
    let download = begin();
    assert!(matches!(download.action(), DownloadAction::Open("https://example.com/f")));
    let download = go(download, DownloadReply::Opened(Ok(())));
    assert!(matches!(download.action(), DownloadAction::Create("/tmp/f")));
}

#[test]
fn the_digest_is_that_of_what_is_written() {
    let (digest, file) = digest_of(&[b"hello world"]);
    assert_eq!(digest, HELLO);
    assert_eq!(digest.len(), 64);
    assert_eq!(file, b"hello world");
    let (digest, file) = digest_of(&[]);
    assert_eq!(digest, NOTHING);
    assert!(file.is_empty());
}

#[test]
fn pieces_make_no_difference_to_the_digest() {
    assert_eq!(digest_of(&[b"hel", b"", b"lo wor", b"ld"]).0, HELLO);
    assert_eq!(digest_of(&[b"hello ", b"world"]).0, HELLO);
}

#[test]
fn requests_may_fail() {
    let error = RequestError { message: "refused".to_owned() };
    assert!(matches!(
        begin().resume(DownloadReply::Opened(Err(error))),
        Step::Done(Err(FetchError::Request(_)))
    ));
    let error = RequestError { message: "cut off".to_owned() };
    assert!(matches!(
        reading().resume(DownloadReply::Chunk(Some(Err(error)))),
        Step::Done(Err(FetchError::Request(e))) if e.message == "cut off"
    ));
}

#[test]
fn files_may_fail() {
    let full = || IoError { kind: IoErrorKind::Other, message: "disk full".to_owned() };
    let download = go(begin(), DownloadReply::Opened(Ok(())));
    assert!(matches!(
        download.resume(DownloadReply::Io(Err(full()))),
        Step::Done(Err(FetchError::Io(_)))
    ));
    let download = go(reading(), DownloadReply::Chunk(Some(Ok(vec![1, 2]))));
    assert!(matches!(
        download.resume(DownloadReply::Io(Err(full()))),
        Step::Done(Err(FetchError::Io(_)))
    ));
    let download = go(reading(), DownloadReply::Chunk(None));
    assert!(matches!(
        download.resume(DownloadReply::Io(Err(full()))),
        Step::Done(Err(FetchError::Io(e))) if e.message == "disk full"
    ));
}

#[test]
fn there_is_room_for_less_than_the_limit() {
    assert!(begin().has_room(0x1fff_ffff_ffff_ffff));
    assert!(!begin().has_room(0x2000_0000_0000_0000));
    let download = go(reading(), DownloadReply::Chunk(Some(Ok(vec![0; 3]))));
    assert!(!download.has_room(0x1fff_ffff_ffff_fffd));
    assert!(download.has_room(0x1fff_ffff_ffff_fffc));
}
