use boulder_upstream::build::store::{GitStore, Share, Stored};
use boulder_upstream::build::syncing::{Finished, Syncing};
use boulder_upstream::build::upstream::{
    self, parse, sync, Error, Git, Paths, Plain, Upstream,
};
use boulder_upstream::command::GitCommand;
use boulder_upstream::effect::{
    Action, FetchError, IoError, IoErrorKind, Program, Reply, Request, RequestError, Step,
};
use boulder_upstream::recipe::{self, Kind, Props, Recipe, SourceUri};
use boulder_upstream::upstream::git::GitError;
use boulder_upstream::upstream::plain;
use boulder_upstream::uri::Url;

const KEY: &str = "0395ea6d8c82c06913a84cfeb8996534a040d43cfcf8361a7d0abe676cc7d16e";

fn archive_url() -> Url {
    let name = "pkg-1.0.tar.xz".to_owned();
    Url::parse("https://example.com/pkg-1.0.tar.xz", name.clone(), name).unwrap()
}

fn repo_url() -> Url {
    Url::parse(
        "https://example.com/group/repo.git",
        "repo.git".to_owned(),
        "group/repo.git".to_owned(),
    )
    .unwrap()
}

fn archive() -> Plain {
    Plain {
        url: archive_url(),
        hash: plain::Hash::from_str("0123456789abcdef").unwrap(),
        rename: None,
    }
}

fn repo(staging: bool) -> Git {
    Git { uri: repo_url(), ref_id: "v1.0".to_owned(), staging, original_index: 3 }
}

fn paths() -> Paths {
    Paths { upstreams: "/cache".to_owned(), shared: "/guest/src".to_owned() }
}

fn archive_path() -> String {
    format!("/cache/fetched/{}/{}/{}", &KEY[..5], &KEY[59..], KEY)
}

fn archive_dir() -> String {
    format!("/cache/fetched/{}/{}", &KEY[..5], &KEY[59..])
}

const FINAL: &str = "/cache/git/group/repo.git";
const STAGING: &str = "/cache/staging/git/group/repo.git";

fn io_error() -> IoError {
    IoError { kind: IoErrorKind::NotFound, message: "no such file".to_owned() }
}

fn go<P>(program: P, reply: Reply) -> P
where
    P: Program,
{
    match program.resume(reply) {
        Step::Perform(next) => next,
        Step::Done(_) => panic!("the program ended"),
    }
}

fn end<P>(program: P, reply: Reply) -> P::Output
where
    P: Program,
{
    match program.resume(reply) {
        Step::Perform(_) => panic!("the program goes on"),
        Step::Done(result) => result,
    }
}

fn git_args(request: Request) -> (Vec<String>, Option<String>) {
    match request {
        Action::Git { command, cwd } => (command.args(), cwd),
        other => panic!("{other:?}"),
    }
}

fn expect_git(store: &GitStore, args: &[&str], cwd: Option<&str>) {
    let (found, at) = git_args(store.action());
    assert_eq!(found, args);
    assert_eq!(at.as_deref(), cwd);
}

#[test]
fn archives_are_kept_by_the_digest_of_url_and_hash() {
    assert_eq!(archive().path(&paths()), archive_path());
    let mut other = archive();
    other.hash = plain::Hash::from_str("0123456789abcdee").unwrap();
    assert_ne!(other.path(&paths()), archive_path());
    assert_eq!(archive().clone().name(), "pkg-1.0.tar.xz");
}

#[test]
fn a_cached_archive_is_not_fetched() {
    let store = archive().store(&paths());
    assert!(matches!(store.action(), Action::EnsureDir(d) if d == archive_dir()));
    let store = go(store, Reply::Io(Ok(())));
    assert!(matches!(store.action(), Action::Exists(p) if p == archive_path()));
    let stored = end(store, Reply::Found(true)).unwrap();
    assert!(stored.was_cached());
    assert_eq!(stored.cached_tag(), " (cached)");
}

#[test]
fn a_fetched_archive_is_renamed_from_its_partial_file() {
    let store = go(archive().store(&paths()), Reply::Io(Ok(())));
    let store = go(store, Reply::Found(false));
    assert!(matches!(
        store.action(),
        Action::Fetch { url, dest }
            if url == "https://example.com/pkg-1.0.tar.xz" && dest == archive_path() + ".part"
    ));
    let hash = plain::Hash::from_str("0123456789abcdef").unwrap();
    let store = go(store, Reply::Fetched(Ok(hash)));
    assert!(matches!(
        store.action(),
        Action::Rename { from, to }
            if from == archive_path() + ".part" && to == archive_path()
    ));
    let stored = end(store, Reply::Io(Ok(()))).unwrap();
    assert!(!stored.was_cached());
    assert_eq!(stored.cached_tag(), "");
    assert!(matches!(
        stored,
        Stored::Plain { name, path, .. } if name == "pkg-1.0.tar.xz" && path == archive_path()
    ));
}

#[test]
fn partial_files_have_the_extension_of_the_standard_library() {
    let expected = std::path::PathBuf::from(archive_path()).with_extension("part");
    assert_eq!(archive().store(&paths()).partial, expected.to_str().unwrap());
}

#[test]
fn an_archive_with_another_hash_is_refused() {
    let store = go(archive().store(&paths()), Reply::Io(Ok(())));
    let store = go(store, Reply::Found(false));
    let hash = plain::Hash::from_str("fedcba").unwrap();
    let store = go(store, Reply::Fetched(Ok(hash)));
    assert!(matches!(
        store.action(),
        Action::RemoveFile(p) if p == archive_path() + ".part"
    ));
    let error = end(store, Reply::Io(Ok(()))).unwrap_err();
    assert_eq!(
        error.message(),
        "hash mismatch for pkg-1.0.tar.xz, expected \"0123456789abcdef\" got Hash(\"fedcba\")"
    );
}

#[test]
fn a_partial_file_that_cannot_be_removed_is_an_error_of_its_own() {
    let store = go(archive().store(&paths()), Reply::Io(Ok(())));
    let store = go(store, Reply::Found(false));
    let hash = plain::Hash::from_str("fedcba").unwrap();
    let store = go(store, Reply::Fetched(Ok(hash)));
    assert!(matches!(end(store, Reply::Io(Err(io_error()))), Err(Error::Io(_))));
}

#[test]
fn a_fetch_that_fails_ends_the_storing() {
    let fetching = || {
        let store = go(archive().store(&paths()), Reply::Io(Ok(())));
        go(store, Reply::Found(false))
    };
    let request = FetchError::Request(RequestError { message: "404".to_owned() });
    assert!(matches!(
        end(fetching(), Reply::Fetched(Err(request))),
        Err(Error::Request(_))
    ));
    assert!(matches!(
        end(fetching(), Reply::Fetched(Err(FetchError::Io(io_error())))),
        Err(Error::Io(_))
    ));
    let short = plain::ParseHashError::TooShort("ab".to_owned());
    assert!(matches!(
        end(fetching(), Reply::Fetched(Err(FetchError::ParseHash(short)))),
        Err(Error::ParseHash(_))
    ));
}

#[test]
fn repositories_are_kept_by_their_place_in_the_tree() {
    assert_eq!(repo(true).final_path(&paths()), FINAL);
    assert_eq!(repo(true).staging_path(&paths()), STAGING);
    assert_eq!(repo(true).name(), "repo.git");
}

#[test]
fn a_working_copy_with_the_reference_is_cached() {
    let store = repo(false).store(&paths());
    assert!(matches!(store.action(), Action::EnsureDir(d) if d == "/cache/git/group"));
    let store = go(store, Reply::Io(Ok(())));
    assert!(matches!(store.action(), Action::EnsureDir(d) if d == "/cache/git/group"));
    let store = go(store, Reply::Io(Ok(())));
    assert!(matches!(store.action(), Action::Exists(p) if p == FINAL));
    let store = go(store, Reply::Found(true));
    expect_git(&store, &["fetch"], Some(FINAL));
    let store = go(store, Reply::Ran(Ok(true)));
    expect_git(&store, &["cat-file", "-e", "v1.0"], Some(FINAL));
    let store = go(store, Reply::Ran(Ok(true)));
    expect_git(&store, &["reset", "--hard", "v1.0"], Some(FINAL));
    let store = go(store, Reply::Ran(Ok(true)));
    expect_git(
        &store,
        &["submodule", "update", "--init", "--recursive", "--depth", "1", "--jobs", "4"],
        Some(FINAL),
    );
    let store = go(store, Reply::Ran(Ok(true)));
    assert!(matches!(
        store.action(),
        Action::ResolveRef { path, ref_id, uri }
            if path == FINAL && ref_id == "v1.0" && uri == "https://example.com/group/repo.git"
    ));
    let stored = end(store, Reply::Resolved(Ok("c0ffee".to_owned()))).unwrap();
    assert!(stored.was_cached());
    assert!(matches!(
        stored,
        Stored::Git { name, path, original_ref, resolved_hash, original_index: 3, .. }
            if name == "repo.git" && path == FINAL && original_ref == "v1.0"
                && resolved_hash == "c0ffee"
    ));
}

#[test]
fn a_missing_repository_is_cloned_in_place() {
    let store = go(repo(false).store(&paths()), Reply::Io(Ok(())));
    let store = go(store, Reply::Io(Ok(())));
    let store = go(store, Reply::Found(false));
    assert!(matches!(store.action(), Action::RemoveDirAll(p) if p == FINAL));
    let store = go(store, Reply::Io(Err(io_error())));
    expect_git(&store, &["clone", "--", "https://example.com/group/repo.git", FINAL], None);
    let store = go(store, Reply::Ran(Ok(true)));
    expect_git(&store, &["reset", "--hard", "v1.0"], Some(FINAL));
    let store = go(store, Reply::Ran(Ok(true)));
    let store = go(store, Reply::Ran(Ok(true)));
    let stored = end(store, Reply::Resolved(Ok("c0ffee".to_owned()))).unwrap();
    assert!(!stored.was_cached());
}

#[test]
fn a_mirror_is_cloned_first() {
    let store = repo(true).store(&paths());
    assert!(matches!(store.action(), Action::EnsureDir(d) if d == "/cache/staging/git/group"));
    let store = go(store, Reply::Io(Ok(())));
    let store = go(store, Reply::Io(Ok(())));
    let store = go(store, Reply::Found(true));
    let store = go(store, Reply::Ran(Ok(true)));
    let store = go(store, Reply::Ran(Ok(false)));
    assert!(matches!(store.action(), Action::RemoveDirAll(p) if p == STAGING));
    let store = go(store, Reply::Io(Ok(())));
    assert!(matches!(store.action(), Action::RemoveDirAll(p) if p == FINAL));
    let store = go(store, Reply::Io(Ok(())));
    expect_git(
        &store,
        &["clone", "--mirror", "--", "https://example.com/group/repo.git", STAGING],
        None,
    );
    let store = go(store, Reply::Ran(Ok(true)));
    expect_git(&store, &["clone", "--", STAGING, FINAL], None);
    let store = go(store, Reply::Ran(Ok(true)));
    expect_git(&store, &["reset", "--hard", "v1.0"], Some(FINAL));
}

#[test]
fn a_git_program_that_fails_fails_the_repository() {
    let store = go(repo(false).store(&paths()), Reply::Io(Ok(())));
    let store = go(store, Reply::Io(Ok(())));
    let store = go(store, Reply::Found(true));
    let error = end(store, Reply::Ran(Ok(false))).unwrap_err();
    assert_eq!(error.message(), "failed to clone https://example.com/group/repo.git");

    let store = go(repo(false).store(&paths()), Reply::Io(Ok(())));
    let store = go(store, Reply::Io(Ok(())));
    let store = go(store, Reply::Found(true));
    assert!(matches!(end(store, Reply::Ran(Err(io_error()))), Err(Error::Io(_))));
}

#[test]
fn an_unresolved_reference_is_an_error() {
    let store = go(repo(false).store(&paths()), Reply::Io(Ok(())));
    let store = go(store, Reply::Io(Ok(())));
    let store = go(store, Reply::Found(true));
    let store = go(store, Reply::Ran(Ok(true)));
    let store = go(store, Reply::Ran(Ok(true)));
    let store = go(store, Reply::Ran(Ok(true)));
    let store = go(store, Reply::Ran(Ok(true)));
    let error = end(store, Reply::Resolved(Err(GitError::Utf8("bad".to_owned())))).unwrap_err();
    assert_eq!(error.message(), "git");
}

#[test]
fn clone_operands_are_never_options() {
    for mirror in [false, true] {
        let command = GitCommand::Clone {
            mirror,
            source: "--upload-pack=x".to_owned(),
            target: "--bare".to_owned(),
        };
        let args = command.args();
        let separator = args.iter().position(|arg| arg == "--").unwrap();
        assert_eq!(&args[separator + 1..], ["--upload-pack=x", "--bare"]);
    }
}

#[test]
fn archives_are_linked_or_copied() {
    let stored = Stored::Plain {
        name: "x.tar".to_owned(),
        path: "/cache/x".to_owned(),
        was_cached: false,
    };
    let share = stored.share("/guest");
    assert!(matches!(
        share.action(),
        Action::HardLink { from, to } if from == "/cache/x" && to == "/guest/x.tar"
    ));
    assert!(matches!(end(share, Reply::Io(Ok(()))), Ok(())));
    let share = go(stored.share("/guest"), Reply::Io(Err(io_error())));
    assert!(matches!(
        share.action(),
        Action::Copy { from, to } if from == "/cache/x" && to == "/guest/x.tar"
    ));
    assert!(matches!(end(share, Reply::Io(Err(io_error()))), Err(Error::Io(_))));
}

#[test]
fn working_copies_are_copied() {
    let stored = Stored::Git {
        name: "r".to_owned(),
        path: "/cache/git/r".to_owned(),
        was_cached: true,
        uri: repo_url(),
        original_ref: "v1".to_owned(),
        resolved_hash: "c0ffee".to_owned(),
        original_index: 0,
    };
    let share = stored.share("/guest");
    assert!(matches!(&share, Share::CopyDir { from, to }
        if from == "/cache/git/r" && to == "/guest/r"));
    assert!(matches!(share.action(), Action::CopyDir { .. }));
    assert!(matches!(end(share, Reply::Io(Ok(()))), Ok(())));
    assert!(matches!(
        end(stored.share("/guest"), Reply::Io(Err(io_error()))),
        Err(Error::Io(_))
    ));
}

fn recipe(upstreams: Vec<recipe::Upstream>) -> Recipe {
    Recipe {
        source: "upstreams: []".to_owned(),
        path: "/work/stone.yaml".to_owned(),
        upstreams,
    }
}

fn archive_entry(hash: &str) -> recipe::Upstream {
    recipe::Upstream {
        url: archive_url(),
        props: Props::Plain { hash: hash.to_owned(), rename: Some("src.tar.xz".to_owned()) },
    }
}

fn repo_entry() -> recipe::Upstream {
    recipe::Upstream {
        url: repo_url(),
        props: Props::Git { git_ref: "v2".to_owned(), staging: true },
    }
}

#[test]
fn recipes_are_parsed_in_order() {
    let upstreams = parse(&recipe(vec![archive_entry("abcdef"), repo_entry()])).unwrap();
    assert_eq!(upstreams.len(), 2);
    assert_eq!(upstreams[0].name(), "src.tar.xz");
    assert!(matches!(
        &upstreams[1],
        Upstream::Git(git) if git.ref_id == "v2" && git.staging && git.original_index == 1
    ));
    assert!(parse(&recipe(Vec::new())).unwrap().is_empty());
}

#[test]
fn the_first_short_hash_of_a_recipe_is_reported() {
    let broken = recipe(vec![repo_entry(), archive_entry("ab"), archive_entry("cd")]);
    assert!(matches!(
        parse(&broken),
        Err(Error::ParseHash(plain::ParseHashError::TooShort(text))) if text == "ab"
    ));
}

#[test]
fn a_new_archive_expects_what_was_fetched() {
    let uri = SourceUri { kind: Kind::Archive, url: archive_url() };
    let hash = plain::Hash::from_str("abcdef").unwrap();
    let Ok(Upstream::Plain(plain)) = Upstream::fetch_new(uri, Ok(hash)) else { panic!() };
    assert_eq!(plain.hash.as_str(), "abcdef");
    assert!(plain.rename.is_none());
    let uri = SourceUri { kind: Kind::Archive, url: archive_url() };
    assert!(matches!(
        Upstream::fetch_new(uri, Err(FetchError::Io(io_error()))),
        Err(Error::Io(_))
    ));
}

#[test]
fn upstreams_are_removed_one_after_another() {
    let upstreams = vec![Upstream::Plain(archive()), Upstream::Git(repo(false))];
    let Step::Perform(mut removal) = upstream::remove(&paths(), &upstreams) else { panic!() };
    let mut asked = Vec::new();
    let result = loop {
        asked.push(match removal.action() {
            Action::RemoveFile(path) => format!("file {path}"),
            Action::RemoveDirAll(path) => format!("tree {path}"),
            Action::RemoveEmptyDirs { start, root } => format!("empty {start} in {root}"),
            other => panic!("{other:?}"),
        });
        match removal.resume(Reply::Io(Ok(()))) {
            Step::Perform(next) => removal = next,
            Step::Done(result) => break result,
        }
    };
    assert!(result.is_ok());
    assert_eq!(
        asked,
        [
            format!("file {}", archive_path()),
            format!("empty {} in /cache", archive_dir()),
            format!("tree {STAGING}"),
            "empty /cache/staging/git/group in /cache".to_owned(),
            format!("tree {FINAL}"),
            "empty /cache/git/group in /cache".to_owned(),
        ]
    );
}

#[test]
fn a_failed_removal_ends_the_rest() {
    let removal = Upstream::Git(repo(true)).remove(&paths());
    let removal = go(removal, Reply::Io(Ok(())));
    let removal = go(removal, Reply::Io(Ok(())));
    assert!(matches!(removal.action(), Action::RemoveDirAll(p) if p == FINAL));
    let error = end(removal, Reply::Io(Err(io_error()))).unwrap_err();
    assert!(matches!(error, Error::Io(_)));
    assert!(matches!(
        end(archive().remove(&paths()), Reply::Io(Err(io_error()))),
        Err(Error::Io(e)) if e.kind == IoErrorKind::NotFound
    ));
    assert!(matches!(repo(false).remove(&paths()).action(), Action::RemoveDirAll(p)
        if p == STAGING));
}

#[test]
fn nothing_to_remove_is_done_at_once() {
    assert!(matches!(upstream::remove(&paths(), &Vec::new()), Step::Done(Ok(()))));
}

fn two_upstreams() -> Syncing {
    let upstreams = vec![Upstream::Plain(archive()), Upstream::Git(repo(false))];
    let sync = sync(&recipe(Vec::new()), &paths(), &upstreams, 2);
    assert_eq!(sync.dir(), "/guest/src");
    match sync.begin(Ok(())) {
        Step::Perform(syncing) => syncing,
        Step::Done(result) => panic!("{result:?}"),
    }
}

fn go_on(syncing: Syncing, index: usize, reply: Reply) -> Syncing {
    match syncing.resume(index, reply) {
        Step::Perform(next) => next,
        Step::Done(result) => panic!("{result:?}"),
    }
}

fn repo_is_installed(mut syncing: Syncing) -> Step<Syncing, Result<Finished, Error>> {
    let replies = [
        Reply::Io(Ok(())),
        Reply::Io(Ok(())),
        Reply::Found(true),
        Reply::Ran(Ok(true)),
        Reply::Ran(Ok(true)),
        Reply::Ran(Ok(true)),
        Reply::Ran(Ok(true)),
        Reply::Resolved(Ok("c0ffee".to_owned())),
    ];
    for reply in replies {
        syncing = go_on(syncing, 1, reply);
    }
    assert!(matches!(
        syncing.installation(1).unwrap().action(),
        Action::CopyDir { from, to } if from == FINAL && to == "/guest/src/repo.git"
    ));
    syncing.resume(1, Reply::Io(Ok(())))
}

#[test]
fn every_upstream_is_installed_in_the_shared_directory() {
    let syncing = two_upstreams();
    assert_eq!(syncing.len(), 2);
    assert!(syncing.stored().is_empty());
    let syncing = go_on(syncing, 0, Reply::Io(Ok(())));
    let syncing = go_on(syncing, 0, Reply::Found(true));
    assert!(matches!(
        syncing.installation(0).unwrap().action(),
        Action::HardLink { from, to }
            if from == archive_path() && to == "/guest/src/pkg-1.0.tar.xz"
    ));
    let syncing = go_on(syncing, 0, Reply::Io(Ok(())));
    assert!(syncing.installation(0).is_none());
    assert_eq!(syncing.stored().len(), 1);
    let Step::Done(Ok(finished)) = repo_is_installed(syncing) else { panic!() };
    let rewrite = finished.rewrite();
    assert_eq!(rewrite.source, "upstreams: []");
    assert_eq!(rewrite.stored.len(), 2);
    assert!(matches!(&rewrite.stored[0], Stored::Plain { .. }));
    assert!(matches!(
        &rewrite.stored[1],
        Stored::Git { resolved_hash, .. } if resolved_hash == "c0ffee"
    ));
}

#[test]
fn upstreams_may_be_installed_in_any_order() {
    let Step::Perform(syncing) = repo_is_installed(two_upstreams()) else { panic!() };
    let syncing = go_on(syncing, 0, Reply::Io(Ok(())));
    let syncing = go_on(syncing, 0, Reply::Found(true));
    let Step::Done(Ok(finished)) = syncing.resume(0, Reply::Io(Ok(()))) else { panic!() };
    assert!(matches!(finished.rewrite().stored[0], Stored::Git { .. }));
    assert!(matches!(finished.rewrite().stored[1], Stored::Plain { .. }));
}

#[test]
fn one_upstream_that_fails_fails_all() {
    let Step::Perform(syncing) = repo_is_installed(two_upstreams()) else { panic!() };
    assert!(matches!(
        syncing.resume(0, Reply::Io(Err(io_error()))),
        Step::Done(Err(Error::Io(_)))
    ));
}

#[test]
fn replies_to_no_installation_change_nothing() {
    let Step::Perform(syncing) = repo_is_installed(two_upstreams()) else { panic!() };
    let syncing = go_on(syncing, 1, Reply::Io(Err(io_error())));
    let syncing = go_on(syncing, 2, Reply::Io(Err(io_error())));
    assert!(syncing.installation(2).is_none());
    assert_eq!(syncing.stored().len(), 1);
}

#[test]
fn nothing_is_installed_without_the_shared_directory() {
    let upstreams = vec![Upstream::Plain(archive())];
    let sync = sync(&recipe(Vec::new()), &paths(), &upstreams, 1);
    assert!(matches!(sync.begin(Err(io_error())), Step::Done(Err(Error::Io(_)))));
}

#[test]
fn an_upstream_that_cannot_be_shared_is_not_installed() {
    let install = Upstream::Plain(archive()).install(&paths());
    let install = go(install, Reply::Io(Ok(())));
    let install = go(install, Reply::Found(true));
    let install = go(install, Reply::Io(Err(io_error())));
    assert!(matches!(install.action(), Action::Copy { .. }));
    assert!(matches!(end(install, Reply::Io(Err(io_error()))), Err(Error::Io(_))));
}

#[test]
fn a_recipe_is_rewritten_only_where_references_were_resolved() {
    let installed = || match sync(&recipe(Vec::new()), &paths(), &Vec::new(), 8).begin(Ok(())) {
        Step::Done(Ok(finished)) => finished,
        other => panic!("{other:?}"),
    };
    assert_eq!(installed().rewrite().source, "upstreams: []");
    assert!(installed().rewrite().stored.is_empty());
    assert!(matches!(installed().publish(Ok(None)), Step::Done(Ok(false))));
    assert!(matches!(
        installed().publish(Err(GitError::Utf8("bad".to_owned()))),
        Step::Done(Err(Error::Git(_)))
    ));
    let Step::Perform(publishing) = installed().publish(Ok(Some("new".to_owned()))) else {
        panic!()
    };
    assert!(matches!(
        publishing.action(),
        Action::WriteFile { path, contents } if path == "/work/stone.yaml" && contents == "new"
    ));
    assert!(matches!(end(publishing, Reply::Io(Ok(()))), Ok(true)));
}

#[test]
fn what_was_stored_is_found_where_it_was_put() {
    let store = go(archive().store(&paths()), Reply::Io(Ok(())));
    let store = go(store, Reply::Found(false));
    let hash = upstream::Hash::from_str("0123456789abcdef").unwrap();
    let store = go(store, Reply::Fetched(Ok(hash)));
    let Ok(Stored::Plain { path, .. }) = end(store, Reply::Io(Ok(()))) else { panic!() };
    let second = go(archive().store(&paths()), Reply::Io(Ok(())));
    assert!(matches!(second.action(), Action::Exists(p) if p == path));
    assert!(matches!(archive().remove(&paths()).action(), Action::RemoveFile(p) if p == path));
}

#[test]
fn a_mirror_and_its_working_copy_are_kept_apart() {
    assert_ne!(repo(true).staging_path(&paths()), repo(true).final_path(&paths()));
}

#[test]
fn upstreams_are_shared_under_their_names() {
    let mut archive = archive();
    archive.rename = Some("source.tar.xz".to_owned());
    let install = go(Upstream::Plain(archive).install(&paths()), Reply::Io(Ok(())));
    let install = go(install, Reply::Found(true));
    assert!(matches!(
        install.action(),
        Action::HardLink { to, .. } if to == "/guest/src/source.tar.xz"
    ));
    let stored = end(install, Reply::Io(Ok(()))).unwrap();
    assert!(matches!(stored, Stored::Plain { name, .. } if name == "source.tar.xz"));
}

fn store_with_files(
    body: &str,
    files: &mut std::collections::BTreeMap<String, String>,
) -> Result<Stored, Error> {
    let digest = HELLO;
    let plain = Plain {
        url: archive_url(),
        hash: plain::Hash::from_str(digest).unwrap(),
        rename: None,
    };
    let mut store = plain.store(&paths());
    loop {
        let reply = match store.action() {
            Action::EnsureDir(_) => Reply::Io(Ok(())),
            Action::Exists(path) => Reply::Found(files.contains_key(&path)),
            Action::Fetch { dest, .. } => {
                files.insert(dest, body.to_owned());
                let got = if body == "hello world" { digest } else { "fedcba" };
                Reply::Fetched(Ok(plain::Hash::from_str(got).unwrap()))
            }
            Action::RemoveFile(path) => {
                Reply::Io(files.remove(&path).map(|_| ()).ok_or_else(io_error))
            }
            Action::Rename { from, to } => Reply::Io(match files.remove(&from) {
                Some(contents) => {
                    files.insert(to, contents);
                    Ok(())
                }
                None => Err(io_error()),
            }),
            other => panic!("{other:?}"),
        };
        match store.resume(reply) {
            Step::Perform(next) => store = next,
            Step::Done(result) => return result,
        }
    }
}

const HELLO: &str = "b94d27b9934d3e08a52e52d7da7dabfac484efe37a5380ee9088f7ace2efcde9";

#[test]
fn a_fresh_archive_ends_up_in_its_place() {
    let mut files = std::collections::BTreeMap::new();
    let Ok(Stored::Plain { path, was_cached: false, .. }) =
        store_with_files("hello world", &mut files)
    else {
        panic!()
    };
    assert_eq!(files.len(), 1);
    assert_eq!(files[&path], "hello world");
    let again = store_with_files("anything", &mut files).unwrap();
    assert!(again.was_cached());
    assert_eq!(files[&path], "hello world");
}

#[test]
fn a_wrong_archive_leaves_nothing_behind() {
    let mut files = std::collections::BTreeMap::new();
    assert!(matches!(
        store_with_files("something else", &mut files),
        Err(Error::HashMismatch { expected, got, .. })
            if expected == HELLO && got.as_str() == "fedcba"
    ));
    assert!(files.is_empty());
}

#[test]
fn upstreams_are_installed_a_few_at_a_time() {
    let upstreams = vec![
        Upstream::Plain(archive()),
        Upstream::Plain(archive()),
        Upstream::Git(repo(false)),
    ];
    let sync = sync(&recipe(Vec::new()), &paths(), &upstreams, 1);
    let Step::Perform(syncing) = sync.begin(Ok(())) else { panic!() };
    assert!(syncing.installation(0).is_some());
    assert!(syncing.installation(1).is_none());
    assert!(syncing.installation(2).is_none());
    let syncing = go_on(syncing, 1, Reply::Io(Err(io_error())));
    let syncing = go_on(syncing, 0, Reply::Io(Ok(())));
    let syncing = go_on(syncing, 0, Reply::Found(true));
    let syncing = go_on(syncing, 0, Reply::Io(Ok(())));
    assert!(syncing.installation(0).is_none());
    assert!(syncing.installation(1).is_some());
    assert!(syncing.installation(2).is_none());
}

#[test]
fn no_directory_is_made_above_a_root() {
    let mut at_root = repo(false);
    at_root.uri = Url::parse("https://example.com/", "r".to_owned(), "/".to_owned()).unwrap();
    let store = at_root.store(&paths());
    assert!(matches!(store.action(), Action::Exists(p) if p == "/"));
    let removal = at_root.remove(&paths());
    let removal = go(removal, Reply::Io(Ok(())));
    assert!(matches!(removal.action(), Action::RemoveDirAll(p) if p == "/"));
    assert!(matches!(end(removal, Reply::Io(Ok(()))), Ok(())));
}

#[test]
fn upstreams_can_be_copied() {
    let upstream = Upstream::Git(repo(true));
    let copy = upstream.clone();
    assert_eq!(copy.name(), upstream.name());
    assert!(matches!(copy, Upstream::Git(git) if git.staging && git.original_index == 3));
    let stored = Stored::Plain {
        name: "x".to_owned(),
        path: "/x".to_owned(),
        was_cached: true,
    };
    assert!(stored.clone().was_cached());
    assert!(matches!(stored.clone(), Stored::Plain { name, path, .. }
        if name == "x" && path == "/x"));
}

#[test]
fn equally_long_hashes_never_share_a_path() {
    let plain = |url: &str, hash: &str| Plain {
        url: Url::parse(url, "f".to_owned(), "f".to_owned()).unwrap(),
        hash: plain::Hash::from_str(hash).unwrap(),
        rename: None,
    };
    let first = plain("https://h.org/a", "bcdef0").path(&paths());
    assert_eq!(first, plain("https://h.org/ab", "cdef0").path(&paths()));
    assert_ne!(first, plain("https://h.org/ab", "cdef01").path(&paths()));
    assert_ne!(first, plain("https://h.org/a", "bcdef1").path(&paths()));
}
