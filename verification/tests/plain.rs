use boulder_upstream::effect::{
    Action, IoError, IoErrorKind, Program, Reply, Request, RequestError, Step,
};
use boulder_upstream::upstream::plain::{self, Error, Plain, Store, StoredPlain};
use boulder_upstream::uri::Url;

const KEY: &str = "0395ea6d8c82c06913a84cfeb8996534a040d43cfcf8361a7d0abe676cc7d16e";

fn url(text: &str) -> Url {
    Url::parse(text, "pkg-1.0.tar.xz".to_owned(), "pkg-1.0.tar.xz".to_owned()).unwrap()
}

fn archive() -> Plain {
    Plain {
        url: url("https://example.com/pkg-1.0.tar.xz"),
        hash: plain::Hash::from_str("0123456789abcdef").unwrap(),
        rename: None,
    }
}

fn path() -> String {
    format!("/cache/{}/{}/{}", &KEY[..5], &KEY[59..], KEY)
}

fn dir() -> String {
    format!("/cache/{}/{}", &KEY[..5], &KEY[59..])
}

fn io_error(kind: IoErrorKind) -> IoError {
    IoError { kind, message: "it failed".to_owned() }
}

fn go(store: Store, reply: Reply) -> Store {
    match store.resume(reply) {
        Step::Perform(next) => next,
        Step::Done(result) => panic!("{result:?}"),
    }
}

fn end(store: Store, reply: Reply) -> Result<StoredPlain, Error> {
    match store.resume(reply) {
        Step::Perform(next) => panic!("{next:?}"),
        Step::Done(result) => result,
    }
}

#[test]
fn the_name_is_the_given_one_or_that_of_the_url() {
    let mut plain = archive();
    assert_eq!(plain.name(), "pkg-1.0.tar.xz");
    plain.rename = Some("source.tar.xz".to_owned());
    assert_eq!(plain.name(), "source.tar.xz");
}

#[test]
fn the_path_is_made_of_the_digest_of_url_and_hash() {
    let plain = archive();
    assert_eq!(plain.file_path(), format!("{}/{}/{}", &KEY[..5], &KEY[59..], KEY));
    assert_eq!(plain.stored_path("/cache"), path());
}

#[test]
fn the_path_changes_with_the_url_and_with_the_hash() {
    let plain = archive();
    let mut moved = plain.clone();
    moved.url = url("https://example.com/pkg-1.1.tar.xz");
    assert_ne!(moved.file_path(), plain.file_path());
    let mut rebuilt = plain.clone();
    rebuilt.hash = plain::Hash::from_str("0123456789abcdee").unwrap();
    assert_ne!(rebuilt.file_path(), plain.file_path());
    assert_eq!(plain.clone().file_path(), plain.file_path());
}

#[test]
fn the_path_stays_where_the_same_bytes_are_hashed() {
    let mut short = archive();
    short.url = url("https://example.com/ab");
    short.hash = plain::Hash::from_str("cdefgh").unwrap();
    let mut long = archive();
    long.url = url("https://example.com/abc");
    long.hash = plain::Hash::from_str("defgh").unwrap();
    assert_eq!(short.file_path(), long.file_path());
}

#[test]
fn a_cached_archive_is_not_downloaded() {
    let store = archive().store("/cache");
    assert!(matches!(store.action(), Action::Exists(p) if p == path()));
    let stored = end(store, Reply::Found(true)).unwrap();
    assert_eq!(stored.name, "pkg-1.0.tar.xz");
    assert_eq!(stored.path, path());
    assert!(stored.was_cached);
}

#[test]
fn an_archive_with_the_expected_hash_is_kept() {
    let store = go(archive().store("/cache"), Reply::Found(false));
    assert!(matches!(store.action(), Action::EnsureDir(d) if d == dir()));
    let store = go(store, Reply::Io(Ok(())));
    assert!(matches!(
        store.action(),
        Action::Download { url, dest }
            if url == "https://example.com/pkg-1.0.tar.xz" && dest == path()
    ));
    let stored = end(store, Reply::Downloaded(Ok("0123456789abcdef".to_owned()))).unwrap();
    assert_eq!(stored.path, path());
    assert!(!stored.was_cached);
    let copy = stored.clone();
    assert_eq!(copy.path, stored.path);
    assert_eq!(copy.name, stored.name);
    assert_eq!(copy.was_cached, stored.was_cached);
}

#[test]
fn an_archive_with_another_hash_is_removed() {
    let store = go(archive().store("/cache"), Reply::Found(false));
    let store = go(store, Reply::Io(Ok(())));
    let store = go(store, Reply::Downloaded(Ok("fedcba".to_owned())));
    assert!(matches!(store.action(), Action::RemoveFile(p) if p == path()));
    let error = end(store, Reply::Io(Ok(()))).unwrap_err();
    assert_eq!(
        error.message(),
        "hash mismatch for pkg-1.0.tar.xz, expected \"0123456789abcdef\" got \"fedcba\""
    );
    assert!(matches!(
        error,
        Error::HashMismatch { name, expected, got }
            if name == "pkg-1.0.tar.xz" && expected == "0123456789abcdef"
                && got.as_str() == "fedcba"
    ));
}

#[test]
fn errors_end_the_storing() {
    let store = go(archive().store("/cache"), Reply::Found(false));
    let error = end(store, Reply::Io(Err(io_error(IoErrorKind::Other)))).unwrap_err();
    assert!(matches!(error, Error::Io(_)));
    assert_eq!(error.message(), "io");

    let store = go(archive().store("/cache"), Reply::Found(false));
    let store = go(store, Reply::Io(Ok(())));
    let request = RequestError { message: "404".to_owned() };
    let error = end(store, Reply::Downloaded(Err(request))).unwrap_err();
    assert!(matches!(&error, Error::Request(e) if e.message == "404"));
    assert_eq!(error.message(), "request");

    let store = go(archive().store("/cache"), Reply::Found(false));
    let store = go(store, Reply::Io(Ok(())));
    let error = end(store, Reply::Downloaded(Ok("abc".to_owned()))).unwrap_err();
    assert!(matches!(error, Error::ParseHash(_)));
    assert_eq!(error.message(), "parse hash");

    let store = go(archive().store("/cache"), Reply::Found(false));
    let store = go(store, Reply::Io(Ok(())));
    let store = go(store, Reply::Downloaded(Ok("fedcba".to_owned())));
    let error = end(store, Reply::Io(Err(io_error(IoErrorKind::NotFound)))).unwrap_err();
    assert!(matches!(error, Error::Io(e) if e.kind == IoErrorKind::NotFound));
}

#[test]
fn a_reply_to_something_else_changes_nothing() {
    let store = go(archive().store("/cache"), Reply::Io(Ok(())));
    assert!(matches!(store.action(), Action::Exists(p) if p == path()));
}

#[test]
fn a_new_archive_expects_what_was_downloaded() {
    let new = Plain::fetch_new_progress(
        url("https://example.com/new"),
        Ok("0123456789".to_owned()),
    )
    .unwrap();
    assert_eq!(new.hash.as_str(), "0123456789");
    assert_eq!(new.url.as_str(), "https://example.com/new");
    assert!(new.rename.is_none());
    assert!(matches!(
        Plain::fetch_new_progress(url("https://example.com/new"), Ok("0123".to_owned())),
        Err(Error::ParseHash(_))
    ));
    let failed = Err(RequestError { message: "no route".to_owned() });
    assert!(matches!(
        Plain::fetch_new_progress(url("https://example.com/new"), failed),
        Err(Error::Request(_))
    ));
}

#[test]
fn removing_an_archive_removes_empty_directories_too() {
    let removal = archive().remove("/cache");
    assert!(matches!(removal.action(), Action::RemoveFile(p) if p == path()));
    let Step::Perform(removal) = removal.resume(Reply::Io(Ok(()))) else { panic!() };
    assert!(matches!(
        removal.action(),
        Action::RemoveEmptyDirs { start, root } if start == dir() && root == "/cache"
    ));
    assert!(matches!(removal.resume(Reply::Io(Ok(()))), Step::Done(Ok(()))));
}

#[test]
fn an_archive_that_cannot_be_removed_is_an_error() {
    let removal = archive().remove("/cache");
    let Step::Done(Err(error)) = removal.resume(Reply::Io(Err(io_error(IoErrorKind::NotFound))))
    else {
        panic!()
    };
    assert!(matches!(error, Error::Io(_)));
    assert!(matches!(Error::from(io_error(IoErrorKind::Other)), Error::Io(_)));
}

fn stored() -> StoredPlain {
    StoredPlain { name: "x.tar".to_owned(), path: "/cache/x".to_owned(), was_cached: true }
}

fn is_link(request: Request) -> bool {
    matches!(request, Action::HardLink { from, to } if from == "/cache/x" && to == "/dest/x.tar")
}

#[test]
fn an_archive_is_linked() {
    let share = stored().share("/dest");
    assert!(is_link(share.action()));
    assert!(matches!(share.resume(Reply::Io(Ok(()))), Step::Done(Ok(()))));
}

#[test]
fn an_archive_is_copied_across_filesystems() {
    let share = stored().share("/dest");
    let crossing = Reply::Io(Err(io_error(IoErrorKind::CrossesDevices)));
    let Step::Perform(share) = share.resume(crossing) else { panic!() };
    assert!(matches!(
        share.action(),
        Action::Copy { from, to } if from == "/cache/x" && to == "/dest/x.tar"
    ));
    assert!(matches!(share.resume(Reply::Io(Ok(()))), Step::Done(Ok(()))));
}

#[test]
fn any_other_failure_to_link_is_reported() {
    let share = stored().share("/dest");
    let failed = Reply::Io(Err(io_error(IoErrorKind::NotFound)));
    assert!(matches!(
        share.resume(failed),
        Step::Done(Err(Error::Io(e))) if e.kind == IoErrorKind::NotFound
    ));
}

#[test]
fn what_was_stored_is_found_again_and_removed() {
    let store = go(archive().store("/cache"), Reply::Found(false));
    let store = go(store, Reply::Io(Ok(())));
    let stored = end(store, Reply::Downloaded(Ok("0123456789abcdef".to_owned()))).unwrap();
    let second = archive().store("/cache");
    assert!(matches!(second.action(), Action::Exists(p) if p == stored.path));
    let again = end(second, Reply::Found(true)).unwrap();
    assert_eq!(again.path, stored.path);
    assert_eq!(again.name, stored.name);
    assert!(again.was_cached);
    let removal = archive().remove("/cache");
    assert!(matches!(removal.action(), Action::RemoveFile(p) if p == stored.path));
}
