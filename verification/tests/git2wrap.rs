use boulder_upstream::effect::{Action, Program, Reply, Step};
use boulder_upstream::git2wrap::{
    CloneOptions, Error, ErrorClass, ErrorCode, Reference, Repository, Worktree,
};
use boulder_upstream::uri::Url;

fn url() -> Url {
    Url::parse("https://example.com/r", "r".to_owned(), "r".to_owned()).unwrap()
}

fn error() -> Error {
    Error {
        code: ErrorCode::NotFound,
        class: ErrorClass::Os,
        message: "broken".to_owned(),
    }
}

fn repo() -> Repository {
    Repository { path: "/r".to_owned() }
}

#[test]
fn a_repository_is_one_that_could_be_opened() {
    let opening = Repository::open_bare("/r");
    assert!(matches!(opening.action(), Action::OpenBare(path) if path == "/r"));
    let Step::Done(Ok(opened)) = opening.resume(Reply::Repository(Ok(()))) else { panic!() };
    assert_eq!(opened.path, "/r");
    let failed = Repository::open_bare("/r").resume(Reply::Repository(Err(error())));
    assert!(matches!(failed, Step::Done(Err(e)) if e.code == ErrorCode::NotFound));
}

#[test]
fn clones_are_bare_and_silent_unless_told() {
    let cloning = Repository::clone_bare(&url(), "/r");
    assert!(matches!(
        cloning.action(),
        Action::Clone { url, path, bare: true, reports_progress: false }
            if url == "https://example.com/r" && path == "/r"
    ));
    let Step::Done(Ok(cloned)) = cloning.resume(Reply::Repository(Ok(()))) else { panic!() };
    assert_eq!(cloned.path, "/r");
    let mut options = CloneOptions::new();
    options.progress_callback();
    let cloning = options.clone_bare(&url(), "/r");
    assert!(matches!(
        cloning.action(),
        Action::Clone { bare: true, reports_progress: true, .. }
    ));
    assert!(matches!(
        cloning.resume(Reply::Repository(Err(error()))),
        Step::Done(Err(e)) if e.message == "broken"
    ));
    assert!(!CloneOptions::default().reports_progress);
}

#[test]
fn a_reference_that_cannot_be_found_is_not_there() {
    let probe = repo().has_ref("main");
    assert!(matches!(
        probe.action(),
        Action::FindReference { repo, name } if repo == "/r" && name == "main"
    ));
    assert!(matches!(probe.resume(Reply::Repository(Ok(()))), Step::Done(true)));
    assert!(matches!(
        repo().has_ref("main").resume(Reply::Repository(Err(error()))),
        Step::Done(false)
    ));
    let lookup = repo().reference("main");
    assert!(matches!(
        lookup.action(),
        Action::FindReference { repo, name } if repo == "/r" && name == "main"
    ));
    let Step::Done(Ok(reference)) = lookup.resume(Reply::Repository(Ok(()))) else { panic!() };
    assert_eq!(reference.name, "main");
    assert!(matches!(
        repo().reference("main").resume(Reply::Repository(Err(error()))),
        Step::Done(Err(_))
    ));
}

#[test]
fn all_references_are_fetched_from_origin() {
    let repo = Repository { path: "/r".to_owned() };
    let update = repo.update(vec!["a".to_owned(), "b".to_owned()]);
    assert!(matches!(
        update.action(),
        Action::FindRemote { repo, name } if repo == "/r" && name == "origin"
    ));
    let Step::Perform(update) = update.resume(Reply::Repository(Ok(()))) else { panic!() };
    assert!(matches!(
        update.action(),
        Action::FetchRefs { repo, remote, git_refs }
            if repo == "/r" && remote == "origin" && git_refs == ["a", "b"]
    ));
    let Step::Perform(update) = update.resume(Reply::Repository(Ok(()))) else { panic!() };
    assert!(matches!(
        update.action(),
        Action::FindReference { repo, name } if repo == "/r" && name == "a"
    ));
    let Step::Perform(update) = update.resume(Reply::Repository(Ok(()))) else { panic!() };
    assert!(matches!(
        update.action(),
        Action::FindReference { repo, name } if repo == "/r" && name == "b"
    ));
    assert!(matches!(update.resume(Reply::Repository(Ok(()))), Step::Done(Ok(()))));
}

#[test]
fn an_update_without_references_ends_with_the_fetch() {
    let update = Repository { path: "/r".to_owned() }.update(Vec::new());
    let Step::Perform(update) = update.resume(Reply::Repository(Ok(()))) else { panic!() };
    assert!(matches!(update.resume(Reply::Repository(Ok(()))), Step::Done(Ok(()))));
}

#[test]
fn a_reference_that_is_missing_after_the_fetch_is_an_error() {
    let update = Repository { path: "/r".to_owned() }.update(vec!["a".to_owned()]);
    let Step::Perform(update) = update.resume(Reply::Repository(Ok(()))) else { panic!() };
    let Step::Perform(update) = update.resume(Reply::Repository(Ok(()))) else { panic!() };
    assert!(matches!(
        update.resume(Reply::Repository(Err(error()))),
        Step::Done(Err(e)) if e.message == "broken"
    ));
}

#[test]
fn a_repository_without_origin_cannot_be_updated() {
    let update = Repository { path: "/r".to_owned() }.update(Vec::new());
    assert!(matches!(
        update.resume(Reply::Repository(Err(error()))),
        Step::Done(Err(e)) if e.message == "broken"
    ));
}

#[test]
fn worktrees_are_named_after_their_directory() {
    let repo = Repository { path: "/r".to_owned() };
    let reference = Reference { name: "refs/heads/main".to_owned() };
    let adding = repo.add_worktree("/work/tree/", &reference).unwrap();
    assert!(matches!(
        adding.action(),
        Action::AddWorktree { repo, name, path, git_ref }
            if repo == "/r" && name == "tree" && path == "/work/tree/"
                && git_ref == "refs/heads/main"
    ));
    let Step::Done(Ok(worktree)) = adding.resume(Reply::Repository(Ok(()))) else { panic!() };
    assert_eq!(worktree.repo, "/r");
    assert_eq!(worktree.name, "tree");
    assert_eq!(worktree.path, "/work/tree/");
    let refused = repo.add_worktree("/work/..", &reference).unwrap_err();
    assert_eq!(refused.code, ErrorCode::Invalid);
    assert_eq!(refused.message, "invalid branch name \"\"");
}

#[test]
fn a_worktree_that_cannot_be_pruned_keeps_its_directory() {
    let worktree = Worktree {
        repo: "/r".to_owned(),
        name: "w".to_owned(),
        path: "/elsewhere/w".to_owned(),
    };
    let removal = worktree.remove();
    assert!(matches!(
        removal.action(),
        Action::Prune { repo, name, locked: true, valid: true } if repo == "/r" && name == "w"
    ));
    assert!(matches!(
        removal.resume(Reply::Repository(Err(error()))),
        Step::Done(Err(e)) if e.code == ErrorCode::NotFound
    ));
}

#[test]
fn errors_are_printed_as_git2_prints_them() {
    let cases = [
        (ErrorCode::NotFound, git2::ErrorCode::NotFound),
        (ErrorCode::Invalid, git2::ErrorCode::Invalid),
        (ErrorCode::Directory, git2::ErrorCode::Directory),
        (ErrorCode::Other(String::new()), git2::ErrorCode::GenericError),
        (ErrorCode::Other("; code=Locked (-14)".to_owned()), git2::ErrorCode::Locked),
    ];
    for (code, git2_code) in cases {
        let classes = [
            (ErrorClass::Reference, git2::ErrorClass::Reference),
            (ErrorClass::Os, git2::ErrorClass::Os),
            (ErrorClass::Other(String::new()), git2::ErrorClass::None),
            (ErrorClass::Other("; class=Net (12)".to_owned()), git2::ErrorClass::Net),
        ];
        for (class, git2_class) in classes {
            let printed = git2::Error::new(git2_code, git2_class, "broken").to_string();
            let text = format!("broken{}{}", class.as_str(), code.as_str());
            assert_eq!(text, printed);
        }
    }
    assert_eq!(error().message(), "broken; class=Os (2); code=NotFound (-3)");
}
