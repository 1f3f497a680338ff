use boulder_upstream::effect::{Action, IoError, IoErrorKind, Program, Reply, Step};
use boulder_upstream::git2wrap;
use boulder_upstream::upstream::git::{Error, Git, GitError, Store, StoredGit, Transfer};
use boulder_upstream::uri::Url;

fn git(text: &str) -> Git {
    Git {
        url: Url::parse(text, "repo.git".to_owned(), "group/repo.git".to_owned()).unwrap(),
        ref_id: "refs/heads/main".to_owned(),
    }
}

fn git_error(code: git2wrap::ErrorCode) -> git2wrap::Error {
    git2wrap::Error {
        code,
        class: git2wrap::ErrorClass::Other("; class=Net (12)".to_owned()),
        message: "it failed".to_owned(),
    }
}

fn generic() -> git2wrap::ErrorCode {
    git2wrap::ErrorCode::Other(String::new())
}

fn user() -> git2wrap::ErrorCode {
    git2wrap::ErrorCode::Other("; code=User (-7)".to_owned())
}

fn io_error(kind: IoErrorKind) -> IoError {
    IoError { kind, message: "no such thing".to_owned() }
}

const DIR: &str = "/cache/example.com..group.repo.git";

fn begin() -> Store {
    git("https://example.com/group/repo.git").store("/cache")
}

fn go(store: Store, reply: Reply) -> Store {
    match store.resume(reply) {
        Step::Perform(next) => next,
        Step::Done(result) => panic!("{result:?}"),
    }
}

fn end(store: Store, reply: Reply) -> Result<StoredGit, Error> {
    match store.resume(reply) {
        Step::Perform(next) => panic!("{next:?}"),
        Step::Done(result) => result,
    }
}

#[test]
fn directories_are_named_after_host_and_path() {
    assert_eq!(
        git("https://example.com/group/repo.git").directory_name(),
        "example.com..group.repo.git"
    );
    assert_eq!(git("file:///srv/repo").directory_name(), ".srv.repo");
    assert_eq!(git("ssh://git@example.com").directory_name(), "example.com.");
}

#[test]
fn directory_names_tell_hosts_and_paths_apart() {
    let names = [
        git("https://example.com/a/b").directory_name(),
        git("https://example.com/a/c").directory_name(),
        git("https://example.org/a/b").directory_name(),
        git("https://www.example.com/a/b").directory_name(),
        git("file:///example.com/a/b").directory_name(),
    ];
    for i in 0..names.len() {
        for j in 0..i {
            assert_ne!(names[i], names[j]);
        }
    }
}

#[test]
fn slashes_and_dots_are_not_told_apart() {
    assert_ne!(
        git("https://example.com/a/b").directory_name(),
        git("https://example.org/a.b").directory_name()
    );
    assert_eq!(
        git("https://example.com/a/b").directory_name(),
        git("https://example.com/a.b").directory_name()
    );
}

#[test]
fn the_name_is_that_of_the_url() {
    assert_eq!(git("https://example.com/group/repo.git").name(), "repo.git");
}

#[test]
fn a_repository_with_the_reference_is_cached() {
    let store = begin();
    assert!(matches!(store.action(), Action::CreateDirAll(d) if d == "/cache"));
    let store = go(store, Reply::Io(Ok(())));
    assert!(matches!(store.action(), Action::OpenBare(d) if d == DIR));
    let store = go(store, Reply::Repository(Ok(())));
    assert!(matches!(
        store.action(),
        Action::FindReference { repo, name } if repo == DIR && name == "refs/heads/main"
    ));
    let stored = end(store, Reply::Repository(Ok(()))).unwrap();
    assert!(stored.was_cached);
    assert_eq!(stored.name, "repo.git");
    assert_eq!(stored.repo.path, DIR);
    assert_eq!(stored.reference, "refs/heads/main");
}

#[test]
fn a_missing_reference_is_fetched() {
    let store = go(begin(), Reply::Io(Ok(())));
    let store = go(store, Reply::Repository(Ok(())));
    let missing = git_error(generic());
    let store = go(store, Reply::Repository(Err(missing)));
    assert!(matches!(
        store.action(),
        Action::FindRemote { repo, name } if repo == DIR && name == "origin"
    ));
    let store = go(store, Reply::Repository(Ok(())));
    assert!(matches!(
        store.action(),
        Action::FetchRefs { repo, remote, git_refs }
            if repo == DIR && remote == "origin" && git_refs == ["refs/heads/main"]
    ));
    let store = go(store, Reply::Repository(Ok(())));
    assert!(matches!(
        store.action(),
        Action::FindReference { repo, name } if repo == DIR && name == "refs/heads/main"
    ));
    let stored = end(store, Reply::Repository(Ok(()))).unwrap();
    assert!(!stored.was_cached);
}

#[test]
fn a_reference_that_cannot_be_fetched_is_an_error() {
    let store = go(begin(), Reply::Io(Ok(())));
    let store = go(store, Reply::Repository(Ok(())));
    let store = go(store, Reply::Repository(Err(git_error(git2wrap::ErrorCode::NotFound))));
    let store = go(store, Reply::Repository(Ok(())));
    let error = end(store, Reply::Repository(Err(git_error(git2wrap::ErrorCode::NotFound))));
    assert!(matches!(error, Err(Error::Git(_))));
}

#[test]
fn a_reference_that_is_not_there_after_the_fetch_is_an_error() {
    let store = go(begin(), Reply::Io(Ok(())));
    let store = go(store, Reply::Repository(Ok(())));
    let store = go(store, Reply::Repository(Err(git_error(git2wrap::ErrorCode::NotFound))));
    let store = go(store, Reply::Repository(Ok(())));
    let store = go(store, Reply::Repository(Ok(())));
    let error = end(store, Reply::Repository(Err(git_error(git2wrap::ErrorCode::NotFound))));
    assert!(matches!(error, Err(Error::Git(_))));
}

#[test]
fn a_missing_repository_is_cloned() {
    let store = go(begin(), Reply::Io(Ok(())));
    let store = go(store, Reply::Repository(Err(git_error(git2wrap::ErrorCode::NotFound))));
    assert!(matches!(
        store.action(),
        Action::Clone { url, path, bare: true, reports_progress: true }
            if url == "https://example.com/group/repo.git" && path == DIR
    ));
    let stored = end(store, Reply::Repository(Ok(()))).unwrap();
    assert!(!stored.was_cached);
    assert_eq!(stored.repo.path, DIR);
}

#[test]
fn a_failed_clone_is_cleaned_up() {
    let store = go(begin(), Reply::Io(Ok(())));
    let store = go(store, Reply::Repository(Err(git_error(git2wrap::ErrorCode::NotFound))));
    let store = go(store, Reply::Repository(Err(git_error(user()))));
    assert!(matches!(store.action(), Action::RemoveDirAll(d) if d == DIR));
    let error = end(store, Reply::Io(Err(io_error(IoErrorKind::NotFound)))).unwrap_err();
    assert!(matches!(
        error,
        Error::Git(e) if e.code == user()
    ));
}

#[test]
fn a_repository_that_cannot_be_opened_is_left_alone() {
    let store = go(begin(), Reply::Io(Ok(())));
    let error = end(store, Reply::Repository(Err(git_error(generic()))))
        .unwrap_err();
    assert_eq!(error.message(), "it failed; class=Net (12)");
    assert!(matches!(error, Error::Git(_)));
}

#[test]
fn a_storage_directory_that_cannot_be_made_is_an_error() {
    let error = end(begin(), Reply::Io(Err(io_error(IoErrorKind::Other)))).unwrap_err();
    assert_eq!(error.message(), "no such thing");
    assert!(matches!(error, Error::Io(_)));
}

#[test]
fn removing_what_is_not_there_succeeds() {
    let git = git("https://example.com/group/repo.git");
    let removal = git.remove("/cache");
    assert!(matches!(removal.action(), Action::RemoveDirAll(d) if d == DIR));
    assert!(matches!(removal.resume(Reply::Io(Ok(()))), Step::Done(Ok(()))));
    let missing = Reply::Io(Err(io_error(IoErrorKind::NotFound)));
    assert!(matches!(git.remove("/cache").resume(missing), Step::Done(Ok(()))));
    let failed = Reply::Io(Err(io_error(IoErrorKind::Other)));
    assert!(matches!(
        git.clone().remove("/cache").resume(failed),
        Step::Done(Err(Error::Io(_)))
    ));
}

fn stored() -> StoredGit {
    StoredGit {
        name: "repo.git".to_owned(),
        was_cached: true,
        repo: git2wrap::Repository { path: DIR.to_owned() },
        reference: "refs/heads/main".to_owned(),
    }
}

#[test]
fn a_repository_is_shared_as_a_worktree() {
    let share = stored().share("/build/repo.git");
    assert!(matches!(
        share.action(),
        Action::FindReference { repo, name } if repo == DIR && name == "refs/heads/main"
    ));
    let Step::Perform(share) = share.resume(Reply::Repository(Ok(()))) else { panic!() };
    assert!(matches!(
        share.action(),
        Action::AddWorktree { repo, name, path, git_ref }
            if repo == DIR && name == "repo.git" && path == "/build/repo.git"
                && git_ref == "refs/heads/main"
    ));
    let Step::Done(Ok(shared)) = share.resume(Reply::Repository(Ok(()))) else { panic!() };
    let removal = shared.remove();
    assert!(matches!(
        removal.action(),
        Action::Prune { repo, name, locked: true, valid: true }
            if repo == DIR && name == "repo.git"
    ));
    let Step::Perform(removal) = removal.resume(Reply::Repository(Ok(()))) else { panic!() };
    assert!(matches!(removal.action(), Action::RemoveDirAll(p) if p == "/build/repo.git"));
    assert!(matches!(removal.resume(Reply::Io(Ok(()))), Step::Done(Ok(()))));
}

#[test]
fn a_worktree_needs_a_name() {
    let share = stored().share("/");
    let Step::Done(Err(Error::Git(error))) = share.resume(Reply::Repository(Ok(()))) else {
        panic!()
    };
    assert_eq!(error.code, git2wrap::ErrorCode::Invalid);
    assert_eq!(error.class, git2wrap::ErrorClass::Reference);
    assert_eq!(error.message, "invalid branch name \"\"");
    assert_eq!(
        Error::Git(error).message(),
        "invalid branch name \"\"; class=Reference (4); code=Invalid (-21)"
    );
}

#[test]
fn a_reference_must_be_there_to_be_shared() {
    let share = stored().share("/");
    let missing = Reply::Repository(Err(git_error(git2wrap::ErrorCode::NotFound)));
    assert!(matches!(
        share.resume(missing),
        Step::Done(Err(Error::Git(e))) if e.code == git2wrap::ErrorCode::NotFound
    ));
}

#[test]
fn a_shared_repository_that_cannot_be_removed_is_an_error() {
    let worktree = git2wrap::Worktree {
        repo: DIR.to_owned(),
        name: "w".to_owned(),
        path: "/w".to_owned(),
    };
    let removal = boulder_upstream::upstream::git::SharedGit { worktree }.remove();
    let Step::Perform(removal) = removal.resume(Reply::Repository(Ok(()))) else { panic!() };
    let Step::Done(Err(Error::Git(error))) =
        removal.resume(Reply::Io(Err(io_error(IoErrorKind::Other))))
    else {
        panic!()
    };
    assert_eq!(error.code, git2wrap::ErrorCode::Directory);
    assert_eq!(error.class, git2wrap::ErrorClass::Os);
    assert_eq!(error.message, "no such thing");
    assert_eq!(
        Error::Git(error).message(),
        "no such thing; class=Os (2); code=Directory (-23)"
    );
}

#[test]
fn what_is_reported_of_a_transfer_adds_up() {
    let mut transfer = Transfer::new();
    let mut sum: u64 = 0;
    for total in [0, 10, 10, 250, 4096] {
        sum += transfer.advance(total);
    }
    assert_eq!(sum, 4096);
    assert_eq!(transfer.advance(5000), 904);
}

#[test]
fn errors_of_references_are_put_in_words() {
    let url = git("https://example.com/group/repo.git").url;
    let error = GitError::UnresolvedRef { ref_id: "v1".to_owned(), uri: url };
    assert_eq!(
        error.message(),
        "ref 'v1' did not resolve to a valid commit hash for https://example.com/group/repo.git"
    );
    assert_eq!(GitError::Io(io_error(IoErrorKind::Other)).message(), "no such thing");
    assert_eq!(GitError::Utf8("bad bytes".to_owned()).message(), "bad bytes");
}

#[test]
fn what_was_stored_is_found_again_and_removed_as_a_tree() {
    let store = go(begin(), Reply::Io(Ok(())));
    let store = go(store, Reply::Repository(Err(git_error(git2wrap::ErrorCode::NotFound))));
    let stored = end(store, Reply::Repository(Ok(()))).unwrap();
    let second = go(begin(), Reply::Io(Ok(())));
    assert!(matches!(second.action(), Action::OpenBare(d) if d == stored.repo.path));
    let second = go(second, Reply::Repository(Ok(())));
    let again = end(second, Reply::Repository(Ok(()))).unwrap();
    assert!(again.was_cached);
    assert_eq!(again.repo.path, stored.repo.path);
    assert_eq!(again.reference, stored.reference);
    let removal = git("https://example.com/group/repo.git").remove("/cache");
    assert!(matches!(removal.action(), Action::RemoveDirAll(d) if d == stored.repo.path));
}
