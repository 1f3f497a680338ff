//! The few things that are done with git repositories.

use crate::effect::{Action, IoError, Program, Reply, Request, Step, Wanted};
use crate::path;
use crate::uri::Url;
use vstd::prelude::*;
use vstd::string::*;

verus! {

/// What went wrong with a repository, as far as it is told apart.
#[derive(Debug, PartialEq, Eq)]
pub enum ErrorCode {
    /// Something that was asked for does not exist.
    NotFound,
    /// A name is not valid.
    Invalid,
    /// A directory could not be dealt with.
    Directory,
    /// Anything else, by what is said of it behind the message.
    Other(String),
}

impl ErrorCode {
    /// What is said of the code behind the message of an error.
    pub open spec fn says(self) -> Seq<char> {
        match self {
            ErrorCode::NotFound => "; code=NotFound (-3)"@,
            ErrorCode::Invalid => "; code=Invalid (-21)"@,
            ErrorCode::Directory => "; code=Directory (-23)"@,
            ErrorCode::Other(text) => text@,
        }
    }

    /// What is said of the code behind the message of an error.
    pub fn as_str(&self) -> (text: &str)
        ensures
            text@ == self.says(),
    {
        match self {
            ErrorCode::NotFound => "; code=NotFound (-3)",
            ErrorCode::Invalid => "; code=Invalid (-21)",
            ErrorCode::Directory => "; code=Directory (-23)",
            ErrorCode::Other(text) => text.as_str(),
        }
    }
}

/// Which part of the work with a repository went wrong, as far as it is told apart.
#[derive(Debug, PartialEq, Eq)]
pub enum ErrorClass {
    /// A reference.
    Reference,
    /// The operating system.
    Os,
    /// Anything else, by what is said of it behind the message.
    Other(String),
}

impl ErrorClass {
    /// What is said of the class behind the message of an error.
    pub open spec fn says(self) -> Seq<char> {
        match self {
            ErrorClass::Reference => "; class=Reference (4)"@,
            ErrorClass::Os => "; class=Os (2)"@,
            ErrorClass::Other(text) => text@,
        }
    }

    /// What is said of the class behind the message of an error.
    pub fn as_str(&self) -> (text: &str)
        ensures
            text@ == self.says(),
    {
        match self {
            ErrorClass::Reference => "; class=Reference (4)",
            ErrorClass::Os => "; class=Os (2)",
            ErrorClass::Other(text) => text.as_str(),
        }
    }
}

/// An error in the work with a repository.
#[derive(Debug)]
pub struct Error {
    pub code: ErrorCode,
    pub class: ErrorClass,
    pub message: String,
}

impl Error {
    /// What the error says of itself: its message, its class and its code.
    pub open spec fn says(self) -> Seq<char> {
        self.message@ + self.class.says() + self.code.says()
    }

    /// The error in words.
    pub fn message(&self) -> (text: String)
        ensures
            text@ == self.says(),
    {
        let mut text = self.message.clone();
        text.append(self.class.as_str());
        text.append(self.code.as_str());
        text
    }
}

/// A bare repository in a local directory.
#[derive(Debug)]
pub struct Repository {
    pub path: String,
}

/// A reference of a repository.
#[derive(Debug)]
pub struct Reference {
    pub name: String,
}

/// A working copy that belongs to a repository.
#[derive(Debug)]
pub struct Worktree {
    /// The repository.
    pub repo: String,
    /// What the repository calls the working copy.
    pub name: String,
    /// Where it is.
    pub path: String,
}

/// What a worktree at a path is called: the last name in the path. A path without one has
/// no name for a branch.
pub open spec fn is_worktree_name(name: Result<String, Error>, path: Seq<char>) -> bool {
    match name {
        Ok(name) => path::last_name(path) == Some(name@),
        Err(error) => {
            &&& path::last_name(path) is None
            &&& error.code == ErrorCode::Invalid
            &&& error.class == ErrorClass::Reference
            &&& error.message@ == "invalid branch name \"\""@
        },
    }
}

/// Finds the name of a worktree.
pub fn worktree_name(path: &str) -> (name: Result<String, Error>)
    ensures
        is_worktree_name(name, path@),
{
    match path::file_name(path) {
        Some(name) => Ok(name),
        None => Err(no_branch_name()),
    }
}

/// The error of a worktree without a name.
fn no_branch_name() -> (error: Error)
    ensures
        error.code == ErrorCode::Invalid,
        error.class == ErrorClass::Reference,
        error.message@ == "invalid branch name \"\""@,
{
    Error {
        code: ErrorCode::Invalid,
        class: ErrorClass::Reference,
        message: "invalid branch name \"\"".to_owned(),
    }
}

impl Repository {
    /// Opens the bare repository at a path.
    pub fn open_bare(path: &str) -> (opening: Opening)
        ensures
            opening.path@ == path@,
    {
        Opening { path: path.to_owned() }
    }

    /// Makes a bare clone of the repository at a URL, and reports nothing of it.
    pub fn clone_bare(url: &Url, path: &str) -> (cloning: Cloning)
        ensures
            cloning.url@ == url@.text,
            cloning.path@ == path@,
            !cloning.reports_progress,
    {
        CloneOptions::new().clone_bare(url, path)
    }

    /// Finds out whether the repository has a reference. Where the repository cannot be asked,
    /// it counts as not having it.
    pub fn has_ref(&self, git_ref: &str) -> (probe: RefProbe)
        ensures
            probe.lookup.repo == self.path,
            probe.lookup.name@ == git_ref@,
    {
        RefProbe { lookup: self.reference(git_ref) }
    }

    /// Looks a reference up.
    pub fn reference(&self, git_ref: &str) -> (lookup: RefLookup)
        ensures
            lookup.repo == self.path,
            lookup.name@ == git_ref@,
    {
        RefLookup { repo: self.path.clone(), name: git_ref.to_owned() }
    }

    /// Fetches references from where the repository was cloned from, and makes sure that
    /// the repository has all of them.
    pub fn update(&self, git_refs: Vec<String>) -> (update: Update)
        ensures
            update.is_start_of(self.path@, crate::effect::texts(git_refs@)),
    {
        Update { repo: self.path.clone(), git_refs, stage: UpdateStage::FindRemote }
    }

    /// Adds a worktree of a reference, at a path whose last name it goes by.
    pub fn add_worktree(&self, path: &str, reference: &Reference) -> (adding: Result<
        Adding,
        Error,
    >)
        ensures
            match adding {
                Ok(adding) => {
                    &&& adding.repo == self.path
                    &&& path::last_name(path@) == Some(adding.name@)
                    &&& adding.path@ == path@
                    &&& adding.git_ref == reference.name
                },
                Err(error) => is_worktree_name(Err(error), path@),
            },
    {
        match worktree_name(path) {
            Ok(name) => Ok(
                Adding {
                    repo: self.path.clone(),
                    name,
                    path: path.to_owned(),
                    git_ref: reference.name.clone(),
                },
            ),
            Err(error) => Err(error),
        }
    }
}

/// The opening of a bare repository.
#[derive(Debug)]
pub struct Opening {
    pub path: String,
}

impl Program for Opening {
    type Output = Result<Repository, Error>;

    open spec fn wants(&self) -> Wanted {
        Action::OpenBare(self.path@)
    }

    open spec fn after(self, reply: Reply) -> Step<Self, Self::Output> {
        match reply {
            Reply::Repository(Ok(_)) => Step::Done(Ok(Repository { path: self.path })),
            Reply::Repository(Err(error)) => Step::Done(Err(error)),
            _ => Step::Perform(self),
        }
    }

    fn action(&self) -> (action: Request) {
        Action::OpenBare(self.path.clone())
    }

    fn resume(self, reply: Reply) -> (step: Step<Self, Self::Output>) {
        match reply {
            Reply::Repository(Ok(_)) => Step::Done(Ok(Repository { path: self.path })),
            Reply::Repository(Err(error)) => Step::Done(Err(error)),
            _ => Step::Perform(self),
        }
    }
}

/// The making of a bare clone.
#[derive(Debug)]
pub struct Cloning {
    pub url: String,
    pub path: String,
    /// Whether the progress of the transfer is reported.
    pub reports_progress: bool,
}

impl Program for Cloning {
    type Output = Result<Repository, Error>;

    open spec fn wants(&self) -> Wanted {
        Action::Clone {
            url: self.url@,
            path: self.path@,
            bare: true,
            reports_progress: self.reports_progress,
        }
    }

    open spec fn after(self, reply: Reply) -> Step<Self, Self::Output> {
        match reply {
            Reply::Repository(Ok(_)) => Step::Done(Ok(Repository { path: self.path })),
            Reply::Repository(Err(error)) => Step::Done(Err(error)),
            _ => Step::Perform(self),
        }
    }

    fn action(&self) -> (action: Request) {
        Action::Clone {
            url: self.url.clone(),
            path: self.path.clone(),
            bare: true,
            reports_progress: self.reports_progress,
        }
    }

    fn resume(self, reply: Reply) -> (step: Step<Self, Self::Output>) {
        match reply {
            Reply::Repository(Ok(_)) => Step::Done(Ok(Repository { path: self.path })),
            Reply::Repository(Err(error)) => Step::Done(Err(error)),
            _ => Step::Perform(self),
        }
    }
}

/// The looking up of a reference.
#[derive(Debug)]
pub struct RefLookup {
    pub repo: String,
    pub name: String,
}

impl Program for RefLookup {
    type Output = Result<Reference, Error>;

    open spec fn wants(&self) -> Wanted {
        Action::FindReference { repo: self.repo@, name: self.name@ }
    }

    open spec fn after(self, reply: Reply) -> Step<Self, Self::Output> {
        match reply {
            Reply::Repository(Ok(_)) => Step::Done(Ok(Reference { name: self.name })),
            Reply::Repository(Err(error)) => Step::Done(Err(error)),
            _ => Step::Perform(self),
        }
    }

    fn action(&self) -> (action: Request) {
        Action::FindReference { repo: self.repo.clone(), name: self.name.clone() }
    }

    fn resume(self, reply: Reply) -> (step: Step<Self, Self::Output>) {
        match reply {
            Reply::Repository(Ok(_)) => Step::Done(Ok(Reference { name: self.name })),
            Reply::Repository(Err(error)) => Step::Done(Err(error)),
            _ => Step::Perform(self),
        }
    }
}

/// The finding out whether there is a reference.
#[derive(Debug)]
pub struct RefProbe {
    pub lookup: RefLookup,
}

impl Program for RefProbe {
    type Output = bool;

    open spec fn wants(&self) -> Wanted {
        self.lookup.wants()
    }

    open spec fn after(self, reply: Reply) -> Step<Self, Self::Output> {
        match self.lookup.after(reply) {
            Step::Perform(lookup) => Step::Perform(RefProbe { lookup }),
            Step::Done(found) => Step::Done(found is Ok),
        }
    }

    fn action(&self) -> (action: Request) {
        self.lookup.action()
    }

    fn resume(self, reply: Reply) -> (step: Step<Self, Self::Output>) {
        match self.lookup.resume(reply) {
            Step::Perform(lookup) => Step::Perform(RefProbe { lookup }),
            Step::Done(found) => Step::Done(found.is_ok()),
        }
    }
}

/// The adding of a worktree.
#[derive(Debug)]
pub struct Adding {
    pub repo: String,
    pub name: String,
    pub path: String,
    pub git_ref: String,
}

impl Program for Adding {
    type Output = Result<Worktree, Error>;

    open spec fn wants(&self) -> Wanted {
        Action::AddWorktree {
            repo: self.repo@,
            name: self.name@,
            path: self.path@,
            git_ref: self.git_ref@,
        }
    }

    open spec fn after(self, reply: Reply) -> Step<Self, Self::Output> {
        match reply {
            Reply::Repository(Ok(_)) => Step::Done(
                Ok(Worktree { repo: self.repo, name: self.name, path: self.path }),
            ),
            Reply::Repository(Err(error)) => Step::Done(Err(error)),
            _ => Step::Perform(self),
        }
    }

    fn action(&self) -> (action: Request) {
        Action::AddWorktree {
            repo: self.repo.clone(),
            name: self.name.clone(),
            path: self.path.clone(),
            git_ref: self.git_ref.clone(),
        }
    }

    fn resume(self, reply: Reply) -> (step: Step<Self, Self::Output>) {
        match reply {
            Reply::Repository(Ok(_)) => Step::Done(
                Ok(Worktree { repo: self.repo, name: self.name, path: self.path }),
            ),
            Reply::Repository(Err(error)) => Step::Done(Err(error)),
            _ => Step::Perform(self),
        }
    }
}

/// The stages of updating a repository.
#[derive(Debug, Clone, Copy, PartialEq, Eq, Structural)]
pub enum UpdateStage {
    /// The remote is being looked up.
    FindRemote,
    /// The references are being fetched from it.
    Fetch,
    /// The reference at this index is being looked up.
    Check(usize),
}

/// The updating of a repository from the remote `origin`.
#[derive(Debug)]
pub struct Update {
    repo: String,
    git_refs: Vec<String>,
    stage: UpdateStage,
}

impl Update {
    #[verifier::type_invariant]
    spec fn is_at_a_reference(self) -> bool {
        self.stage matches UpdateStage::Check(index) ==> index < self.git_refs@.len()
    }

    /// The repository to update.
    pub closed spec fn repo(self) -> Seq<char> {
        self.repo@
    }

    /// The references to fetch.
    pub closed spec fn git_refs(self) -> Seq<Seq<char>> {
        crate::effect::texts(self.git_refs@)
    }

    /// The stage that the updating is at.
    pub closed spec fn stage(self) -> UpdateStage {
        self.stage
    }

    /// Whether this is the beginning of updating a repository.
    pub open spec fn is_start_of(self, repo: Seq<char>, git_refs: Seq<Seq<char>>) -> bool {
        &&& self.repo() == repo
        &&& self.git_refs() == git_refs
        &&& self.stage() is FindRemote
    }

    /// The same updating, at another stage.
    pub closed spec fn at(self, stage: UpdateStage) -> Update {
        Update { stage, ..self }
    }

    /// Going on leaves the repository and the references as they are.
    pub proof fn lemma_at(self, stage: UpdateStage)
        ensures
            self.at(stage).repo() == self.repo(),
            self.at(stage).git_refs() == self.git_refs(),
            self.at(stage).stage() == stage,
            forall|next: UpdateStage| #[trigger] self.at(stage).at(next) == self.at(next),
    {
    }

    /// Goes on to the reference at an index, or ends behind the last.
    pub open spec fn check_from(self, index: int) -> Step<Update, Result<(), Error>> {
        if index < self.git_refs().len() {
            Step::Perform(self.at(UpdateStage::Check(index as usize)))
        } else {
            Step::Done(Ok(()))
        }
    }
}

/// Copies a list of texts.
fn copy_all(list: &Vec<String>) -> (copy: Vec<String>)
    ensures
        copy@ == list@,
{
    let mut copy: Vec<String> = Vec::new();
    for i in 0..list.len()
        invariant
            copy@ == list@.take(i as int),
    {
        copy.push(list[i].clone());
        assert(list@.take(i + 1) =~= list@.take(i as int).push(list@[i as int]));
    }
    assert(list@.take(list@.len() as int) =~= list@);
    copy
}

impl Program for Update {
    type Output = Result<(), Error>;

    open spec fn wants(&self) -> Wanted {
        match self.stage() {
            UpdateStage::FindRemote => Action::FindRemote { repo: self.repo(), name: "origin"@ },
            UpdateStage::Fetch => Action::FetchRefs {
                repo: self.repo(),
                remote: "origin"@,
                git_refs: self.git_refs(),
            },
            UpdateStage::Check(index) => Action::FindReference {
                repo: self.repo(),
                name: self.git_refs()[index as int],
            },
        }
    }

    open spec fn after(self, reply: Reply) -> Step<Self, Self::Output> {
        match (self.stage(), reply) {
            (UpdateStage::FindRemote, Reply::Repository(Ok(_))) => Step::Perform(
                self.at(UpdateStage::Fetch),
            ),
            (UpdateStage::Fetch, Reply::Repository(Ok(_))) => self.check_from(0),
            (UpdateStage::Check(index), Reply::Repository(Ok(_))) => self.check_from(index + 1),
            (_, Reply::Repository(Err(error))) => Step::Done(Err(error)),
            _ => Step::Perform(self),
        }
    }

    fn action(&self) -> (action: Request) {
        proof {
            use_type_invariant(self);
        }
        match self.stage {
            UpdateStage::FindRemote => Action::FindRemote {
                repo: self.repo.clone(),
                name: "origin".to_owned(),
            },
            UpdateStage::Fetch => Action::FetchRefs {
                repo: self.repo.clone(),
                remote: "origin".to_owned(),
                git_refs: copy_all(&self.git_refs),
            },
            UpdateStage::Check(index) => Action::FindReference {
                repo: self.repo.clone(),
                name: self.git_refs[index].clone(),
            },
        }
    }

    fn resume(self, reply: Reply) -> (step: Step<Self, Self::Output>) {
        proof {
            use_type_invariant(&self);
        }
        let Update { repo, git_refs, stage } = self;
        let len: usize = git_refs.len();
        let next: usize = match (stage, reply) {
            (UpdateStage::FindRemote, Reply::Repository(Ok(_))) => {
                return Step::Perform(Update { repo, git_refs, stage: UpdateStage::Fetch });
            },
            (UpdateStage::Fetch, Reply::Repository(Ok(_))) => 0,
            (UpdateStage::Check(index), Reply::Repository(Ok(_))) => index + 1,
            (_, Reply::Repository(Err(error))) => {
                return Step::Done(Err(error));
            },
            _ => {
                return Step::Perform(Update { repo, git_refs, stage });
            },
        };
        if next < len {
            Step::Perform(Update { repo, git_refs, stage: UpdateStage::Check(next) })
        } else {
            Step::Done(Ok(()))
        }
    }
}

/// The steps that look references up, one after another.
pub open spec fn checks(repo: Seq<char>, git_refs: Seq<Seq<char>>) -> Seq<Wanted> {
    git_refs.map_values(|name: Seq<char>| Wanted::FindReference { repo, name })
}

/// An update succeeds only after the remote was found, the references were fetched from it,
/// and then every single one of them was found in the repository. A failure ends it at once,
/// with its error; where there is no remote `origin`, nothing is fetched.
pub proof fn lemma_update_conversation(update: Update, replies: Seq<Reply>)
    requires
        update.stage() is FindRemote,
        update.git_refs().len() <= usize::MAX,
        crate::effect::answered(update, replies),
    ensures
        crate::effect::run(update, replies) matches Step::Done(result) ==> {
            let trace = crate::effect::trace(update, replies);
            match result {
                Ok(_) => {
                    &&& trace == seq![
                        Wanted::FindRemote { repo: update.repo(), name: "origin"@ },
                        Wanted::FetchRefs {
                            repo: update.repo(),
                            remote: "origin"@,
                            git_refs: update.git_refs(),
                        },
                    ] + checks(update.repo(), update.git_refs())
                    &&& replies.len() == trace.len()
                    &&& forall|i: int|
                        0 <= i < replies.len() ==> #[trigger] replies[i] is Repository
                            && replies[i]->Repository_0 is Ok
                },
                Err(error) => {
                    &&& replies.last() == Reply::Repository(Err(error))
                    &&& replies[0]->Repository_0 is Err ==> trace == seq![
                        Wanted::FindRemote { repo: update.repo(), name: "origin"@ },
                    ]
                },
            }
        },
        crate::effect::run(update, replies) is Perform ==> {
            &&& replies.len() < 2 + update.git_refs().len()
            &&& forall|i: int|
                0 <= i < replies.len() ==> #[trigger] replies[i] is Repository
                    && replies[i]->Repository_0 is Ok
        },
{
    let fetching = update.at(UpdateStage::Fetch);
    let first = fetching.check_from(0);
    update.lemma_at(UpdateStage::Fetch);
    reveal_with_fuel(crate::effect::run, 3);
    reveal_with_fuel(crate::effect::trace, 3);
    reveal_with_fuel(crate::effect::answered, 3);
    if replies.len() > 2 {
        let rest = replies.drop_first().drop_first();
        if let Step::Perform(checking) = first {
            fetching.lemma_at(UpdateStage::Check(0));
            if crate::effect::answered(checking, rest) {
                lemma_checks(checking, 0, rest);
                let all = checks(update.repo(), update.git_refs());
                assert(all.skip(0) =~= all);
                assert forall|i: int| 2 <= i < replies.len() implies rest[i - 2]
                    == #[trigger] replies[i] by {}
            }
        }
    }
    if replies.len() == 2 {
        assert(checks(update.repo(), update.git_refs()).len() == update.git_refs().len());
    }
}

proof fn lemma_checks(update: Update, index: int, replies: Seq<Reply>)
    requires
        0 <= index < update.git_refs().len() <= usize::MAX,
        update.stage() == UpdateStage::Check(index as usize),
        crate::effect::answered(update, replies),
    ensures
        crate::effect::run(update, replies) matches Step::Done(result) ==> {
            match result {
                Ok(_) => {
                    &&& crate::effect::trace(update, replies) == checks(
                        update.repo(),
                        update.git_refs(),
                    ).skip(index)
                    &&& replies.len() == update.git_refs().len() - index
                    &&& forall|i: int|
                        0 <= i < replies.len() ==> #[trigger] replies[i] is Repository
                            && replies[i]->Repository_0 is Ok
                },
                Err(error) => replies.len() > 0 && replies.last() == Reply::Repository(Err(error)),
            }
        },
        crate::effect::run(update, replies) is Perform ==> {
            &&& replies.len() < update.git_refs().len() - index
            &&& forall|i: int|
                0 <= i < replies.len() ==> #[trigger] replies[i] is Repository
                    && replies[i]->Repository_0 is Ok
        },
    decreases replies.len(),
{
    let all = checks(update.repo(), update.git_refs());
    if replies.len() > 0 {
        let rest = replies.drop_first();
        let trace = crate::effect::trace(update, replies);
        match update.after(replies[0]) {
            Step::Perform(next) => {
                update.lemma_at(UpdateStage::Check((index + 1) as usize));
                lemma_checks(next, index + 1, rest);
                assert forall|i: int| 1 <= i < replies.len() implies rest[i - 1]
                    == #[trigger] replies[i] by {}
                if crate::effect::run(update, replies) is Done {
                    assert(rest.len() > 0);
                    assert(rest.last() == replies.last());
                    assert(seq![all[index]] + all.skip(index + 1) =~= all.skip(index));
                }
            },
            Step::Done(Ok(_)) => {
                assert(trace =~= all.skip(index));
            },
            Step::Done(Err(_)) => {},
        }
    }
}

impl Worktree {
    /// Removes the worktree: the repository forgets it, even if it is locked or in use, and
    /// then its directory is removed.
    pub fn remove(self) -> (removal: WorktreeRemoval)
        ensures
            removal == (WorktreeRemoval { worktree: self, stage: WorktreeRemovalStage::Prune }),
    {
        WorktreeRemoval { worktree: self, stage: WorktreeRemovalStage::Prune }
    }
}

/// The stages of removing a worktree.
#[derive(Debug)]
pub enum WorktreeRemovalStage {
    /// The repository is being made to forget it.
    Prune,
    /// Its directory is being removed.
    RemoveDir,
}

/// The removal of a worktree.
#[derive(Debug)]
pub struct WorktreeRemoval {
    pub worktree: Worktree,
    pub stage: WorktreeRemovalStage,
}

impl Program for WorktreeRemoval {
    type Output = Result<(), Error>;

    open spec fn wants(&self) -> Wanted {
        match self.stage {
            WorktreeRemovalStage::Prune => Action::Prune {
                repo: self.worktree.repo@,
                name: self.worktree.name@,
                locked: true,
                valid: true,
            },
            WorktreeRemovalStage::RemoveDir => Action::RemoveDirAll(self.worktree.path@),
        }
    }

    open spec fn after(self, reply: Reply) -> Step<Self, Self::Output> {
        match (self.stage, reply) {
            (WorktreeRemovalStage::Prune, Reply::Repository(Ok(_))) => Step::Perform(
                WorktreeRemoval { stage: WorktreeRemovalStage::RemoveDir, ..self },
            ),
            (WorktreeRemovalStage::Prune, Reply::Repository(Err(error))) => Step::Done(Err(error)),
            (WorktreeRemovalStage::RemoveDir, Reply::Io(Ok(_))) => Step::Done(Ok(())),
            (WorktreeRemovalStage::RemoveDir, Reply::Io(Err(error))) => Step::Done(
                Err(
                    Error {
                        code: ErrorCode::Directory,
                        class: ErrorClass::Os,
                        message: error.message,
                    },
                ),
            ),
            _ => Step::Perform(self),
        }
    }

    fn action(&self) -> (action: Request) {
        match self.stage {
            WorktreeRemovalStage::Prune => Action::Prune {
                repo: self.worktree.repo.clone(),
                name: self.worktree.name.clone(),
                locked: true,
                valid: true,
            },
            WorktreeRemovalStage::RemoveDir => Action::RemoveDirAll(self.worktree.path.clone()),
        }
    }

    fn resume(self, reply: Reply) -> (step: Step<Self, Self::Output>) {
        let WorktreeRemoval { worktree, stage } = self;
        match (stage, reply) {
            (WorktreeRemovalStage::Prune, Reply::Repository(Ok(_))) => Step::Perform(
                WorktreeRemoval { worktree, stage: WorktreeRemovalStage::RemoveDir },
            ),
            (WorktreeRemovalStage::Prune, Reply::Repository(Err(error))) => Step::Done(Err(error)),
            (WorktreeRemovalStage::RemoveDir, Reply::Io(Ok(_))) => Step::Done(Ok(())),
            (WorktreeRemovalStage::RemoveDir, Reply::Io(Err(error))) => Step::Done(
                Err(
                    Error {
                        code: ErrorCode::Directory,
                        class: ErrorClass::Os,
                        message: error.message,
                    },
                ),
            ),
            (stage, _) => Step::Perform(WorktreeRemoval { worktree, stage }),
        }
    }
}

/// How to clone a repository.
#[derive(Debug)]
pub struct CloneOptions {
    /// Whether the progress of the transfer is reported.
    pub reports_progress: bool,
}

impl Default for CloneOptions {
    fn default() -> (options: CloneOptions)
        ensures
            !options.reports_progress,
    {
        CloneOptions { reports_progress: false }
    }
}

impl CloneOptions {
    /// A clone that reports nothing.
    pub fn new() -> (options: CloneOptions)
        ensures
            !options.reports_progress,
    {
        CloneOptions::default()
    }

    /// Has the progress of the transfer reported.
    pub fn progress_callback(&mut self) -> (options: &mut CloneOptions)
        ensures
            options.reports_progress,
            *final(self) == *final(options),
    {
        self.reports_progress = true;
        self
    }

    /// Makes a bare clone of the repository at a URL.
    pub fn clone_bare(self, url: &Url, path: &str) -> (cloning: Cloning)
        ensures
            cloning.url@ == url@.text,
            cloning.path@ == path@,
            cloning.reports_progress == self.reports_progress,
    {
        Cloning {
            url: url.as_str().to_owned(),
            path: path.to_owned(),
            reports_progress: self.reports_progress,
        }
    }
}

/// An error says its message, then its class, then its code, as far as these are told apart,
/// and nothing else.
pub proof fn lemma_error_says(error: Error)
    ensures
        ({
            let class = match error.class {
                ErrorClass::Reference => "; class=Reference (4)"@,
                ErrorClass::Os => "; class=Os (2)"@,
                ErrorClass::Other(text) => text@,
            };
            let code = match error.code {
                ErrorCode::NotFound => "; code=NotFound (-3)"@,
                ErrorCode::Invalid => "; code=Invalid (-21)"@,
                ErrorCode::Directory => "; code=Directory (-23)"@,
                ErrorCode::Other(text) => text@,
            };
            error.says() == error.message@ + class + code
        }),
{
}

/// A worktree goes by the last name in its path; where there is none, the error says so.
pub proof fn lemma_worktree_name(name: Result<String, Error>, path: Seq<char>)
    requires
        is_worktree_name(name, path),
    ensures
        match path::last_name(path) {
            Some(last) => name matches Ok(name) && name@ == last,
            None => name matches Err(error) && error.code is Invalid && error.class is Reference
                && error.message@ == "invalid branch name \"\""@,
        },
{
}

/// A repository is opened where it was asked for, and is the one at that path; where that
/// fails, the error is handed on.
pub proof fn lemma_opening(opening: Opening, opened: Result<(), Error>)
    ensures
        opening.wants() == Wanted::OpenBare(opening.path@),
        opening.after(Reply::Repository(opened)) matches Step::Done(result) && match opened {
            Ok(_) => result matches Ok(repository) && repository.path == opening.path,
            Err(error) => result matches Err(cause) && cause == error,
        },
{
}

/// A bare clone is made from the URL to the path, and is the repository at that path; where
/// that fails, the error is handed on.
pub proof fn lemma_cloning(cloning: Cloning, cloned: Result<(), Error>)
    ensures
        cloning.wants() matches Wanted::Clone { url, path, bare, reports_progress } && url
            == cloning.url@ && path == cloning.path@ && bare && reports_progress
            == cloning.reports_progress,
        cloning.after(Reply::Repository(cloned)) matches Step::Done(result) && match cloned {
            Ok(_) => result matches Ok(repository) && repository.path == cloning.path,
            Err(error) => result matches Err(cause) && cause == error,
        },
{
}

/// A reference is looked up by its name in its repository. It is there exactly when it was
/// found, and then it is the one of that name; where it is not, the error is handed on.
pub proof fn lemma_lookup(lookup: RefLookup, found: Result<(), Error>)
    ensures
        lookup.wants() matches Wanted::FindReference { repo, name } && repo == lookup.repo@
            && name == lookup.name@,
        lookup.after(Reply::Repository(found)) matches Step::Done(result) && match found {
            Ok(_) => result matches Ok(reference) && reference.name == lookup.name,
            Err(error) => result matches Err(cause) && cause == error,
        },
        (RefProbe { lookup }).wants() matches Wanted::FindReference { repo, name } && repo
            == lookup.repo@ && name == lookup.name@,
        (RefProbe { lookup }).after(Reply::Repository(found)) matches Step::Done(has) && has == (
        found is Ok),
{
}

/// A worktree is added under its name, at its path and of its reference, to its repository;
/// where that fails, the error is handed on.
pub proof fn lemma_adding(adding: Adding, added: Result<(), Error>)
    ensures
        adding.wants() matches Wanted::AddWorktree { repo, name, path, git_ref } && repo
            == adding.repo@ && name == adding.name@ && path == adding.path@ && git_ref
            == adding.git_ref@,
        adding.after(Reply::Repository(added)) matches Step::Done(result) && match added {
            Ok(_) => result matches Ok(worktree) && worktree.repo == adding.repo && worktree.name
                == adding.name && worktree.path == adding.path,
            Err(error) => result matches Err(cause) && cause == error,
        },
{
}

/// A worktree is removed in two steps: its repository forgets it, locked or in use though it
/// may be, and then its directory goes. A failure of the first leaves the directory alone.
pub proof fn lemma_worktree_removal(
    removal: WorktreeRemoval,
    pruned: Result<(), Error>,
    removed: Result<(), IoError>,
)
    requires
        removal.stage is Prune,
    ensures
        ({
            let worktree = removal.worktree;
            let replies = seq![Reply::Repository(pruned), Reply::Io(removed)];
            let trace = crate::effect::trace(removal, replies);
            &&& trace.len() > 0
            &&& trace[0] matches Wanted::Prune { repo, name, locked, valid } && repo
                == worktree.repo@ && name == worktree.name@ && locked && valid
            &&& trace.len() == if pruned is Ok {
                2int
            } else {
                1int
            }
            &&& pruned is Ok ==> trace[1] == Wanted::RemoveDirAll(worktree.path@)
            &&& crate::effect::run(removal, replies) matches Step::Done(result) && match (
                pruned,
                removed,
            ) {
                (Err(error), _) => result matches Err(cause) && cause == error,
                (Ok(_), Err(error)) => result matches Err(cause) && cause.code is Directory
                    && cause.class is Os && cause.message == error.message,
                (Ok(_), Ok(_)) => result is Ok,
            }
        }),
{
    reveal_with_fuel(crate::effect::run, 3);
    reveal_with_fuel(crate::effect::trace, 3);
}

/// Updating a repository asks for its remote `origin`, fetches all the references that were
/// asked for from it, and looks each of them up, in their order; and it succeeds where all of
/// that does.
pub proof fn lemma_update_of_repository(
    update: Update,
    repo: Seq<char>,
    git_refs: Seq<Seq<char>>,
    replies: Seq<Reply>,
)
    requires
        update.is_start_of(repo, git_refs),
        git_refs.len() <= usize::MAX,
        crate::effect::answered(update, replies),
        replies.len() == 2 + git_refs.len(),
        forall|i: int|
            0 <= i < replies.len() ==> #[trigger] replies[i] is Repository
                && replies[i]->Repository_0 is Ok,
    ensures
        ({
            let trace = crate::effect::trace(update, replies);
            &&& crate::effect::run(update, replies) matches Step::Done(Ok(_))
            &&& trace.len() == 2 + git_refs.len()
            &&& trace[0] == (Wanted::FindRemote { repo, name: "origin"@ })
            &&& trace[1] == (Wanted::FetchRefs { repo, remote: "origin"@, git_refs })
            &&& forall|i: int|
                0 <= i < git_refs.len() ==> trace[2 + i] == (Wanted::FindReference {
                    repo,
                    name: #[trigger] git_refs[i],
                })
        }),
{
    lemma_update_conversation(update, replies);
    if let Step::Done(Err(error)) = crate::effect::run(update, replies) {
        assert(replies[replies.len() - 1] is Repository);
    }
}

/// A reply to something else than a program waits for leaves the program where it is.
pub proof fn lemma_other_replies_change_nothing(
    opening: Opening,
    cloning: Cloning,
    ref_lookup: RefLookup,
    ref_probe: RefProbe,
    adding: Adding,
    update: Update,
    worktree_removal: WorktreeRemoval,
    reply: Reply,
)
    ensures
        crate::effect::minds_its_replies(opening, reply),
        crate::effect::minds_its_replies(cloning, reply),
        crate::effect::minds_its_replies(ref_lookup, reply),
        crate::effect::minds_its_replies(ref_probe, reply),
        crate::effect::minds_its_replies(adding, reply),
        crate::effect::minds_its_replies(update, reply),
        crate::effect::minds_its_replies(worktree_removal, reply),
{
}

} // verus!
