//! Upstreams that are a git repository.

use crate::effect::{Action, IoError, IoErrorKind, Program, Reply, Request, Step, Wanted};
use crate::git2wrap;
use crate::git2wrap::{
    Adding, CloneOptions, Cloning, Opening, RefLookup, RefProbe, Reference, Repository, Update,
    Worktree, WorktreeRemoval,
};
use crate::path;
use crate::uri::Url;
use vstd::prelude::*;
use vstd::string::*;

verus! {

/// Why a repository could not be stored, shared or removed.
#[derive(Debug)]
pub enum Error {
    /// The repository could not be dealt with.
    Git(git2wrap::Error),
    /// A file or a directory could not be dealt with.
    Io(IoError),
}

impl Error {
    /// What the error says of itself.
    pub open spec fn says(self) -> Seq<char> {
        match self {
            Error::Git(error) => error.says(),
            Error::Io(error) => error.message@,
        }
    }

    /// The error in words.
    pub fn message(&self) -> (message: String)
        ensures
            message@ == self.says(),
    {
        match self {
            Error::Git(error) => error.message(),
            Error::Io(error) => error.message.clone(),
        }
    }
}

/// Why no commit could be found for a reference.
#[derive(Debug)]
pub enum GitError {
    /// The reference stands for no commit.
    UnresolvedRef { ref_id: String, uri: Url },
    /// The git program could not be run.
    Io(IoError),
    /// What it printed is not UTF-8.
    Utf8(String),
}

impl GitError {
    /// What the error says of itself.
    pub open spec fn says(self) -> Seq<char> {
        match self {
            GitError::UnresolvedRef { ref_id, uri } => "ref '"@ + ref_id@
                + "' did not resolve to a valid commit hash for "@ + uri@.text,
            GitError::Io(error) => error.message@,
            GitError::Utf8(message) => message@,
        }
    }

    /// The error in words.
    pub fn message(&self) -> (message: String)
        ensures
            message@ == self.says(),
    {
        match self {
            GitError::UnresolvedRef { ref_id, uri } => {
                let mut message = "ref '".to_owned();
                message.append(ref_id.as_str());
                message.append("' did not resolve to a valid commit hash for ");
                message.append(uri.as_str());
                message
            },
            GitError::Io(error) => error.message.clone(),
            GitError::Utf8(message) => message.clone(),
        }
    }
}

/// The name of the directory for the repository at a host and a path: the host, a dot, and
/// the path with dots for its slashes. Where there is no host, the path alone.
pub open spec fn directory_name(host: Option<Seq<char>>, url_path: Seq<char>) -> Seq<char> {
    let dotted = path::replaced(url_path, '/', '.');
    match host {
        Some(host) => host.push('.') + dotted,
        None => dotted,
    }
}

/// A repository to clone.
#[derive(Debug)]
pub struct Git {
    /// Where the repository comes from.
    pub url: Url,
    /// The reference that is wanted of it.
    pub ref_id: String,
}

impl Clone for Git {
    fn clone(&self) -> (copy: Self)
        ensures
            copy == *self,
    {
        Git { url: self.url.clone(), ref_id: self.ref_id.clone() }
    }
}

impl Git {
    /// Where the repository is kept.
    pub open spec fn place_in(self, storage_dir: Seq<char>) -> Seq<char> {
        path::joined(storage_dir, directory_name(self.url@.host, self.url@.path))
    }

    /// The name that the repository is shared under.
    pub fn name(&self) -> (name: &str)
        ensures
            name@ == self.url@.file_name,
    {
        self.url.file_name()
    }

    /// The name of the directory that holds the repository.
    pub fn directory_name(&self) -> (name: String)
        ensures
            name@ == directory_name(self.url@.host, self.url@.path),
    {
        let dotted = path::replace(self.url.path(), '/', '.');
        match self.url.host_str() {
            Some(host) => {
                let mut name = host.to_owned();
                name.push('.');
                name.append(dotted.as_str());
                name
            },
            None => dotted,
        }
    }

    /// Stores the repository: one that is there already is brought to have the reference,
    /// any other is cloned.
    pub fn store(&self, storage_dir: &str) -> (store: Store)
        ensures
            store.is_start_of(*self, storage_dir@),
    {
        let dir = path::join(storage_dir, self.directory_name().as_str());
        let mut git_refs: Vec<String> = Vec::new();
        git_refs.push(self.ref_id.clone());
        assert(crate::effect::texts(git_refs@) =~= seq![self.ref_id@]);
        let repo = Repository { path: dir.clone() };
        Store {
            name: self.name().to_owned(),
            storage_dir: storage_dir.to_owned(),
            dir,
            url: self.url.clone(),
            ref_id: self.ref_id.clone(),
            update: repo.update(git_refs),
            stage: StoreStage::MakeStorage,
        }
    }

    /// Removes the repository from the cache. One that is not there counts as removed.
    pub fn remove(&self, storage_dir: &str) -> (removal: Removal)
        ensures
            removal.dir@ == self.place_in(storage_dir@),
    {
        Removal { dir: path::join(storage_dir, self.directory_name().as_str()) }
    }
}

/// The removal of a repository.
#[derive(Debug)]
pub struct Removal {
    pub dir: String,
}

impl Program for Removal {
    type Output = Result<(), Error>;

    open spec fn wants(&self) -> Wanted {
        Action::RemoveDirAll(self.dir@)
    }

    open spec fn after(self, reply: Reply) -> Step<Self, Self::Output> {
        match reply {
            Reply::Io(Ok(_)) => Step::Done(Ok(())),
            Reply::Io(Err(error)) => if error.kind == IoErrorKind::NotFound {
                Step::Done(Ok(()))
            } else {
                Step::Done(Err(Error::Io(error)))
            },
            _ => Step::Perform(self),
        }
    }

    fn action(&self) -> (action: Request) {
        Action::RemoveDirAll(self.dir.clone())
    }

    fn resume(self, reply: Reply) -> (step: Step<Self, Self::Output>) {
        match reply {
            Reply::Io(Ok(_)) => Step::Done(Ok(())),
            Reply::Io(Err(error)) => if error.kind == IoErrorKind::NotFound {
                Step::Done(Ok(()))
            } else {
                Step::Done(Err(Error::Io(error)))
            },
            _ => Step::Perform(self),
        }
    }
}

/// A repository in the cache.
#[derive(Debug)]
pub struct StoredGit {
    /// The name to share it under.
    pub name: String,
    /// Whether it was there already, with the reference.
    pub was_cached: bool,
    /// The repository.
    pub repo: Repository,
    /// The reference that is wanted of it.
    pub reference: String,
}

/// The stages of storing a repository.
#[derive(Debug)]
pub enum StoreStage {
    /// The storage directory is being made.
    MakeStorage,
    /// The repository is being opened.
    Open,
    /// The reference is being looked up in it.
    Find,
    /// The reference is being fetched.
    Update,
    /// The repository is being cloned.
    Clone,
    /// What a failed clone left is being removed.
    CleanUp(git2wrap::Error),
}

/// The storing of a repository.
#[derive(Debug)]
pub struct Store {
    pub name: String,
    pub storage_dir: String,
    pub dir: String,
    pub url: Url,
    pub ref_id: String,
    pub update: Update,
    pub stage: StoreStage,
}

impl Store {
    /// Whether this is the beginning of storing a repository in a directory.
    pub open spec fn is_start_of(self, git: Git, storage_dir: Seq<char>) -> bool {
        &&& self.name@ == git.url@.file_name
        &&& self.storage_dir@ == storage_dir
        &&& self.dir@ == git.place_in(storage_dir)
        &&& self.url == git.url
        &&& self.ref_id == git.ref_id
        &&& self.update.is_start_of(self.dir@, seq![git.ref_id@])
        &&& self.stage is MakeStorage
    }

    /// The same storing, at another stage.
    pub open spec fn at(self, stage: StoreStage) -> Store {
        Store { stage, ..self }
    }

    /// The repository in the cache.
    pub open spec fn stored(self, was_cached: bool) -> StoredGit {
        StoredGit {
            name: self.name,
            was_cached,
            repo: Repository { path: self.dir },
            reference: self.ref_id,
        }
    }
}

impl Program for Store {
    type Output = Result<StoredGit, Error>;

    open spec fn wants(&self) -> Wanted {
        match self.stage {
            StoreStage::MakeStorage => Action::CreateDirAll(self.storage_dir@),
            StoreStage::Open => Action::OpenBare(self.dir@),
            StoreStage::Find => Action::FindReference { repo: self.dir@, name: self.ref_id@ },
            StoreStage::Update => self.update.wants(),
            StoreStage::Clone => Action::Clone {
                url: self.url@.text,
                path: self.dir@,
                bare: true,
                reports_progress: true,
            },
            StoreStage::CleanUp(_) => Action::RemoveDirAll(self.dir@),
        }
    }

    open spec fn after(self, reply: Reply) -> Step<Self, Self::Output> {
        match (self.stage, reply) {
            (StoreStage::MakeStorage, Reply::Io(Ok(_))) => Step::Perform(
                self.at(StoreStage::Open),
            ),
            (StoreStage::MakeStorage, Reply::Io(Err(error))) => Step::Done(Err(Error::Io(error))),
            (StoreStage::Open, Reply::Repository(Ok(_))) => Step::Perform(
                self.at(StoreStage::Find),
            ),
            (StoreStage::Open, Reply::Repository(Err(error))) => if error.code is NotFound {
                Step::Perform(self.at(StoreStage::Clone))
            } else {
                Step::Done(Err(Error::Git(error)))
            },
            (StoreStage::Find, Reply::Repository(Ok(_))) => Step::Done(Ok(self.stored(true))),
            (StoreStage::Find, Reply::Repository(Err(_))) => Step::Perform(
                self.at(StoreStage::Update),
            ),
            (StoreStage::Update, reply) => match self.update.after(reply) {
                Step::Perform(update) => Step::Perform(Store { update, ..self }),
                Step::Done(Ok(_)) => Step::Done(Ok(self.stored(false))),
                Step::Done(Err(error)) => Step::Done(Err(Error::Git(error))),
            },
            (StoreStage::Clone, Reply::Repository(Ok(_))) => Step::Done(Ok(self.stored(false))),
            (StoreStage::Clone, Reply::Repository(Err(error))) => Step::Perform(
                self.at(StoreStage::CleanUp(error)),
            ),
            (StoreStage::CleanUp(error), Reply::Io(_)) => Step::Done(Err(Error::Git(error))),
            _ => Step::Perform(self),
        }
    }

    fn action(&self) -> (action: Request) {
        match self.stage {
            StoreStage::MakeStorage => Action::CreateDirAll(self.storage_dir.clone()),
            StoreStage::Open => self.opening().action(),
            StoreStage::Find => self.probe().action(),
            StoreStage::Update => self.update.action(),
            StoreStage::Clone => self.cloning().action(),
            StoreStage::CleanUp(_) => Action::RemoveDirAll(self.dir.clone()),
        }
    }

    fn resume(self, reply: Reply) -> (step: Step<Self, Self::Output>) {
        match self.stage {
            StoreStage::MakeStorage => match reply {
                Reply::Io(Ok(_)) => Step::Perform(self.go(StoreStage::Open)),
                Reply::Io(Err(error)) => Step::Done(Err(Error::Io(error))),
                _ => Step::Perform(self),
            },
            StoreStage::Open => match self.opening().resume(reply) {
                Step::Perform(_) => Step::Perform(self),
                Step::Done(Ok(_)) => Step::Perform(self.go(StoreStage::Find)),
                Step::Done(Err(error)) => match error.code {
                    git2wrap::ErrorCode::NotFound => Step::Perform(self.go(StoreStage::Clone)),
                    _ => Step::Done(Err(Error::Git(error))),
                },
            },
            StoreStage::Find => match self.probe().resume(reply) {
                Step::Perform(_) => Step::Perform(self),
                Step::Done(true) => Step::Done(Ok(self.hand_over(true))),
                Step::Done(false) => Step::Perform(self.go(StoreStage::Update)),
            },
            StoreStage::Update => {
                let Store { name, storage_dir, dir, url, ref_id, update, stage } = self;
                match update.resume(reply) {
                    Step::Perform(update) => Step::Perform(
                        Store { name, storage_dir, dir, url, ref_id, update, stage },
                    ),
                    Step::Done(Ok(_)) => Step::Done(
                        Ok(
                            StoredGit {
                                name,
                                was_cached: false,
                                repo: Repository { path: dir },
                                reference: ref_id,
                            },
                        ),
                    ),
                    Step::Done(Err(error)) => Step::Done(Err(Error::Git(error))),
                }
            },
            StoreStage::Clone => match self.cloning().resume(reply) {
                Step::Perform(_) => Step::Perform(self),
                Step::Done(Ok(_)) => Step::Done(Ok(self.hand_over(false))),
                Step::Done(Err(error)) => Step::Perform(self.go(StoreStage::CleanUp(error))),
            },
            StoreStage::CleanUp(error) => match reply {
                Reply::Io(_) => Step::Done(Err(Error::Git(error))),
                _ => Step::Perform(
                    Store {
                        name: self.name,
                        storage_dir: self.storage_dir,
                        dir: self.dir,
                        url: self.url,
                        ref_id: self.ref_id,
                        update: self.update,
                        stage: StoreStage::CleanUp(error),
                    },
                ),
            },
        }
    }
}

impl Store {
    /// The opening of the repository.
    fn opening(&self) -> (opening: Opening)
        ensures
            opening.path@ == self.dir@,
    {
        Repository::open_bare(self.dir.as_str())
    }

    /// The finding out whether the repository has the reference.
    fn probe(&self) -> (probe: RefProbe)
        ensures
            probe.lookup.repo@ == self.dir@,
            probe.lookup.name@ == self.ref_id@,
    {
        Repository { path: self.dir.clone() }.has_ref(self.ref_id.as_str())
    }

    /// The cloning of the repository, whose progress is reported.
    fn cloning(&self) -> (cloning: Cloning)
        ensures
            cloning.url@ == self.url@.text,
            cloning.path@ == self.dir@,
            cloning.reports_progress,
    {
        let mut options = CloneOptions::new();
        options.progress_callback();
        options.clone_bare(&self.url, self.dir.as_str())
    }

    /// Goes on to a stage.
    fn go(self, stage: StoreStage) -> (next: Store)
        ensures
            next == self.at(stage),
    {
        Store {
            name: self.name,
            storage_dir: self.storage_dir,
            dir: self.dir,
            url: self.url,
            ref_id: self.ref_id,
            update: self.update,
            stage,
        }
    }

    /// Hands the repository over.
    fn hand_over(self, was_cached: bool) -> (stored: StoredGit)
        ensures
            stored == self.stored(was_cached),
    {
        StoredGit {
            name: self.name,
            was_cached,
            repo: Repository { path: self.dir },
            reference: self.ref_id,
        }
    }
}

impl StoredGit {
    /// Makes the reference available as a worktree at a path.
    pub fn share(&self, dest_dir: &str) -> (share: Share)
        ensures
            share matches Share::Find { lookup, adding } && {
                &&& lookup.repo == self.repo.path
                &&& lookup.name@ == self.reference@
                &&& match adding {
                    Ok(adding) => {
                        &&& adding.repo == self.repo.path
                        &&& path::last_name(dest_dir@) == Some(adding.name@)
                        &&& adding.path@ == dest_dir@
                        &&& adding.git_ref == self.reference
                    },
                    Err(error) => git2wrap::is_worktree_name(Err(error), dest_dir@),
                }
            },
    {
        let reference = Reference { name: self.reference.clone() };
        Share::Find {
            lookup: self.repo.reference(self.reference.as_str()),
            adding: self.repo.add_worktree(dest_dir, &reference),
        }
    }
}

/// The sharing of a repository.
#[derive(Debug)]
pub enum Share {
    /// The reference is being looked up. Next comes the adding of the worktree, if there is a
    /// name for it.
    Find { lookup: RefLookup, adding: Result<Adding, git2wrap::Error> },
    /// The worktree is being added.
    Add(Adding),
}

impl Program for Share {
    type Output = Result<SharedGit, Error>;

    open spec fn wants(&self) -> Wanted {
        match *self {
            Share::Find { lookup, .. } => lookup.wants(),
            Share::Add(adding) => adding.wants(),
        }
    }

    open spec fn after(self, reply: Reply) -> Step<Self, Self::Output> {
        match self {
            Share::Find { lookup, adding } => match lookup.after(reply) {
                Step::Perform(lookup) => Step::Perform(Share::Find { lookup, adding }),
                Step::Done(Ok(_)) => match adding {
                    Ok(adding) => Step::Perform(Share::Add(adding)),
                    Err(error) => Step::Done(Err(Error::Git(error))),
                },
                Step::Done(Err(error)) => Step::Done(Err(Error::Git(error))),
            },
            Share::Add(adding) => match adding.after(reply) {
                Step::Perform(adding) => Step::Perform(Share::Add(adding)),
                Step::Done(Ok(worktree)) => Step::Done(Ok(SharedGit { worktree })),
                Step::Done(Err(error)) => Step::Done(Err(Error::Git(error))),
            },
        }
    }

    fn action(&self) -> (action: Request) {
        match self {
            Share::Find { lookup, .. } => lookup.action(),
            Share::Add(adding) => adding.action(),
        }
    }

    fn resume(self, reply: Reply) -> (step: Step<Self, Self::Output>) {
        match self {
            Share::Find { lookup, adding } => match lookup.resume(reply) {
                Step::Perform(lookup) => Step::Perform(Share::Find { lookup, adding }),
                Step::Done(Ok(_)) => match adding {
                    Ok(adding) => Step::Perform(Share::Add(adding)),
                    Err(error) => Step::Done(Err(Error::Git(error))),
                },
                Step::Done(Err(error)) => Step::Done(Err(Error::Git(error))),
            },
            Share::Add(adding) => match adding.resume(reply) {
                Step::Perform(adding) => Step::Perform(Share::Add(adding)),
                Step::Done(Ok(worktree)) => Step::Done(Ok(SharedGit { worktree })),
                Step::Done(Err(error)) => Step::Done(Err(Error::Git(error))),
            },
        }
    }
}

/// A repository that is available as a worktree.
#[derive(Debug)]
pub struct SharedGit {
    pub worktree: Worktree,
}

impl SharedGit {
    /// Removes the worktree.
    pub fn remove(self) -> (removal: SharedRemoval)
        ensures
            removal.steps.worktree == self.worktree,
            removal.steps.stage is Prune,
    {
        SharedRemoval { steps: self.worktree.remove() }
    }
}

/// The removal of a shared repository.
#[derive(Debug)]
pub struct SharedRemoval {
    pub steps: WorktreeRemoval,
}

impl Program for SharedRemoval {
    type Output = Result<(), Error>;

    open spec fn wants(&self) -> Wanted {
        self.steps.wants()
    }

    open spec fn after(self, reply: Reply) -> Step<Self, Self::Output> {
        match self.steps.after(reply) {
            Step::Perform(steps) => Step::Perform(SharedRemoval { steps }),
            Step::Done(Ok(_)) => Step::Done(Ok(())),
            Step::Done(Err(error)) => Step::Done(Err(Error::Git(error))),
        }
    }

    fn action(&self) -> (action: Request) {
        self.steps.action()
    }

    fn resume(self, reply: Reply) -> (step: Step<Self, Self::Output>) {
        match self.steps.resume(reply) {
            Step::Perform(steps) => Step::Perform(SharedRemoval { steps }),
            Step::Done(Ok(_)) => Step::Done(Ok(())),
            Step::Done(Err(error)) => Step::Done(Err(Error::Git(error))),
        }
    }
}

/// How far a transfer has come.
#[derive(Debug)]
pub struct Transfer {
    pub previous_total: usize,
}

impl Transfer {
    /// A transfer of which nothing has been received.
    pub fn new() -> (transfer: Transfer)
        ensures
            transfer.previous_total == 0,
    {
        Transfer { previous_total: 0 }
    }

    /// Takes the number of bytes received in all, and says by how many it has grown.
    pub fn advance(&mut self, received: usize) -> (delta: u64)
        requires
            old(self).previous_total <= received,
        ensures
            delta == received - old(self).previous_total,
            final(self).previous_total == received,
    {
        let delta: usize = received - self.previous_total;
        self.previous_total = received;
        delta as u64
    }
}

/// Whether a host is made of labels that are not empty, with single dots between them.
pub open spec fn is_dotted_host(host: Seq<char>) -> bool {
    &&& host.len() > 0
    &&& host[0] != '.'
    &&& host.last() != '.'
    &&& forall|i: int| 0 <= i < host.len() - 1 && #[trigger] host[i] == '.' ==> host[i + 1] != '.'
}

/// Whether a host, if there is one, is made of such labels, and a path is absolute or empty.
pub open spec fn is_location(host: Option<Seq<char>>, url_path: Seq<char>) -> bool {
    &&& host matches Some(host) ==> is_dotted_host(host)
    &&& url_path.len() > 0 ==> url_path[0] == '/'
}

/// Whether a slash of one path stands where the other has a dot.
pub open spec fn slash_meets_dot(a: Seq<char>, b: Seq<char>) -> bool {
    exists|i: int|
        0 <= i < a.len() && 0 <= i < b.len() && ((#[trigger] a[i] == '/' && b[i] == '.') || (a[i]
            == '.' && b[i] == '/'))
}

/// What a host adds to the name of a directory: itself and a dot.
pub open spec fn host_part(host: Option<Seq<char>>) -> Seq<char> {
    match host {
        Some(host) => host.push('.'),
        None => Seq::empty(),
    }
}

/// Whether what one host adds to a name begins with what the other adds, and the path on the
/// other host goes on, in dots, with the rest of it and then like the path on the one.
pub open spec fn runs_on(
    host: Option<Seq<char>>,
    url_path: Seq<char>,
    longer_host: Option<Seq<char>>,
    longer_path: Seq<char>,
) -> bool {
    let part = host_part(host);
    let longer_part = host_part(longer_host);
    &&& part.len() < longer_part.len()
    &&& longer_part.take(part.len() as int) == part
    &&& path::replaced(url_path, '/', '.') == longer_part.skip(part.len() as int)
        + path::replaced(longer_path, '/', '.')
}

/// The name of a directory is unique to the host and the path, wherever that can be.
///
/// Two repositories have directories of the same name exactly when they are on the same host
/// and their paths are the same but for slashes in the place of dots, or when the dots of one
/// host run on into the path on the other. So on one host, whatever its form, paths have
/// directories of their own unless a slash of one stands where the other has a dot. And two
/// hosts never share a directory where both are made of labels with single dots between them,
/// and both paths are absolute or empty.
pub proof fn lemma_directory_name_is_unique(
    host_a: Option<Seq<char>>,
    path_a: Seq<char>,
    host_b: Option<Seq<char>>,
    path_b: Seq<char>,
)
    ensures
        directory_name(host_a, path_a) == directory_name(host_b, path_b) <==> {
            ||| host_a == host_b && path::replaced(path_a, '/', '.') == path::replaced(
                path_b,
                '/',
                '.',
            )
            ||| runs_on(host_a, path_a, host_b, path_b)
            ||| runs_on(host_b, path_b, host_a, path_a)
        },
        host_a == host_b && path_a != path_b && !slash_meets_dot(path_a, path_b) ==> directory_name(
            host_a,
            path_a,
        ) != directory_name(host_b, path_b),
        host_a != host_b && is_location(host_a, path_a) && is_location(host_b, path_b)
            ==> directory_name(host_a, path_a) != directory_name(host_b, path_b),
{
    let name_a = directory_name(host_a, path_a);
    let name_b = directory_name(host_b, path_b);
    let part_a = host_part(host_a);
    let part_b = host_part(host_b);
    let dotted_a = path::replaced(path_a, '/', '.');
    let dotted_b = path::replaced(path_b, '/', '.');
    assert(name_a =~= part_a + dotted_a);
    assert(name_b =~= part_b + dotted_b);
    if host_a == host_b && dotted_a == dotted_b && !slash_meets_dot(path_a, path_b) {
        assert(path_a.len() == dotted_a.len() && path_b.len() == dotted_b.len());
        assert forall|i: int| 0 <= i < path_a.len() implies path_a[i] == path_b[i] by {
            assert(dotted_a[i] == dotted_b[i]);
        }
        assert(path_a =~= path_b);
    }
    if part_a.len() < part_b.len() {
        lemma_parts_run_on(host_a, path_a, host_b, path_b);
    }
    if part_b.len() < part_a.len() {
        lemma_parts_run_on(host_b, path_b, host_a, path_a);
    }
    if name_a == name_b && part_a.len() == part_b.len() {
        assert(part_a =~= name_a.take(part_a.len() as int));
        assert(part_b =~= name_b.take(part_b.len() as int));
        assert(dotted_a =~= name_a.skip(part_a.len() as int));
        assert(dotted_b =~= name_b.skip(part_b.len() as int));
        if let (Some(a), Some(b)) = (host_a, host_b) {
            assert(a =~= part_a.drop_last());
            assert(b =~= part_b.drop_last());
        }
    }
}

/// Names are the same, where one host adds less than the other, exactly when it runs on; and
/// it does not where hosts and paths are well-formed.
proof fn lemma_parts_run_on(
    host: Option<Seq<char>>,
    url_path: Seq<char>,
    longer_host: Option<Seq<char>>,
    longer_path: Seq<char>,
)
    requires
        host_part(host).len() < host_part(longer_host).len(),
    ensures
        (host_part(host) + path::replaced(url_path, '/', '.') == host_part(longer_host)
            + path::replaced(longer_path, '/', '.')) <==> runs_on(
            host,
            url_path,
            longer_host,
            longer_path,
        ),
        is_location(host, url_path) && is_location(longer_host, longer_path) ==> !runs_on(
            host,
            url_path,
            longer_host,
            longer_path,
        ),
{
    let part = host_part(host);
    let longer_part = host_part(longer_host);
    let dotted = path::replaced(url_path, '/', '.');
    let longer_dotted = path::replaced(longer_path, '/', '.');
    let name = part + dotted;
    let longer_name = longer_part + longer_dotted;
    let n = part.len() as int;
    let rest = longer_part.skip(n);
    if name == longer_name {
        assert(part =~= name.take(n));
        assert(longer_part.take(n) =~= longer_name.take(n));
        assert(dotted =~= name.skip(n));
        assert(rest + longer_dotted =~= longer_name.skip(n));
    }
    if runs_on(host, url_path, longer_host, longer_path) {
        assert(longer_part =~= part + rest);
        assert(longer_name =~= part + (rest + longer_dotted));
        if is_location(host, url_path) && is_location(longer_host, longer_path) {
            let longer = longer_host->Some_0;
            assert(dotted[0] == '.');
            assert(longer_part[n] == '.');
            if n == 0 {
                assert(longer[0] == '.');
            } else {
                assert(longer_part.take(n)[n - 1] == '.');
                assert(longer[n - 1] == '.');
                if n < longer.len() {
                    assert(longer[n] == '.');
                } else {
                    assert(longer.last() == '.');
                }
            }
        }
    }
}

/// How storing a repository ends, whatever the host replies.
///
/// A repository counts as cached exactly when it could be opened and had the reference, and
/// nothing is done to it then. Any other is handed over only after the reference was
/// fetched and found, or the whole was cloned. A clone that fails is cleaned up before its error is
/// reported.
pub proof fn lemma_store_conversation(store: Store, replies: Seq<Reply>)
    requires
        store.stage is MakeStorage,
        store.update.is_start_of(store.dir@, seq![store.ref_id@]),
        crate::effect::answered(store, replies),
    ensures
        crate::effect::run(store, replies) matches Step::Done(result) ==> {
            let trace = crate::effect::trace(store, replies);
            let opened = seq![Wanted::CreateDirAll(store.storage_dir@), Wanted::OpenBare(store.dir@)];
            let found = opened.push(
                Action::FindReference { repo: store.dir@, name: store.ref_id@ },
            );
            let cloned = opened.push(
                Action::Clone {
                    url: store.url@.text,
                    path: store.dir@,
                    bare: true,
                    reports_progress: true,
                },
            );
            match result {
                Ok(stored) => {
                    &&& stored == store.stored(stored.was_cached)
                    &&& stored.was_cached ==> trace == found
                    &&& !stored.was_cached ==> trace == cloned || {
                        &&& trace == found + seq![
                            Wanted::FindRemote { repo: store.dir@, name: "origin"@ },
                            Wanted::FetchRefs {
                                repo: store.dir@,
                                remote: "origin"@,
                                git_refs: seq![store.ref_id@],
                            },
                            Wanted::FindReference { repo: store.dir@, name: store.ref_id@ },
                        ]
                        &&& replies.last() matches Reply::Repository(Ok(_))
                    }
                },
                Err(error) => trace.len() > 2 && trace[2] is Clone ==> {
                    &&& trace == cloned.push(Action::RemoveDirAll(store.dir@))
                    &&& error matches Error::Git(cause) && replies[2] == Reply::Repository(
                        Err(cause),
                    )
                },
            }
        },
{
    reveal_with_fuel(crate::effect::run, 8);
    reveal_with_fuel(crate::effect::trace, 8);
    reveal_with_fuel(crate::effect::answered, 8);
    store.update.lemma_at(git2wrap::UpdateStage::Fetch);
    store.update.at(git2wrap::UpdateStage::Fetch).lemma_at(git2wrap::UpdateStage::Check(0));
    if replies.len() == 6 {
        assert(crate::effect::trace(store, replies).skip(3) =~= seq![
            Wanted::FindRemote { repo: store.dir@, name: "origin"@ },
            Wanted::FetchRefs {
                repo: store.dir@,
                remote: "origin"@,
                git_refs: seq![store.ref_id@],
            },
            Wanted::FindReference { repo: store.dir@, name: store.ref_id@ },
        ]);
    }
}

/// What the host finds when it stores a repository.
pub struct StoreFindings {
    /// How making the storage directory went.
    pub made: Result<(), IoError>,
    /// How opening the repository went.
    pub opened: Result<(), git2wrap::Error>,
    /// How looking the reference up went.
    pub found: Result<(), git2wrap::Error>,
    /// How looking the remote up went.
    pub remote: Result<(), git2wrap::Error>,
    /// How fetching the reference went.
    pub fetched: Result<(), git2wrap::Error>,
    /// How looking the reference up once more went.
    pub available: Result<(), git2wrap::Error>,
    /// How cloning the repository went.
    pub cloned: Result<(), git2wrap::Error>,
    /// How removing what a failed clone left went.
    pub cleaned: Result<(), IoError>,
}

impl StoreFindings {
    /// The findings in the order in which they are asked for.
    pub open spec fn replies(self) -> Seq<Reply> {
        seq![Reply::Io(self.made), Reply::Repository(self.opened)] + if self.opened is Ok {
            seq![
                Reply::Repository(self.found),
                Reply::Repository(self.remote),
                Reply::Repository(self.fetched),
                Reply::Repository(self.available),
            ]
        } else {
            seq![Reply::Repository(self.cloned), Reply::Io(self.cleaned)]
        }
    }

    /// What storing the repository comes to.
    pub open spec fn result(self, store: Store) -> Result<StoredGit, Error> {
        if self.made is Err {
            Err(Error::Io(self.made->Err_0))
        } else if self.opened is Ok {
            if self.found is Ok {
                Ok(store.stored(true))
            } else if self.remote is Err {
                Err(Error::Git(self.remote->Err_0))
            } else if self.fetched is Err {
                Err(Error::Git(self.fetched->Err_0))
            } else if self.available is Err {
                Err(Error::Git(self.available->Err_0))
            } else {
                Ok(store.stored(false))
            }
        } else if self.opened->Err_0.code !is NotFound {
            Err(Error::Git(self.opened->Err_0))
        } else if self.cloned is Err {
            Err(Error::Git(self.cloned->Err_0))
        } else {
            Ok(store.stored(false))
        }
    }
}

/// Storing a repository comes to the result of what the host finds.
pub proof fn lemma_store_result(store: Store, findings: StoreFindings)
    requires
        store.stage is MakeStorage,
        store.update.is_start_of(store.dir@, seq![store.ref_id@]),
    ensures
        crate::effect::run(store, findings.replies()) == Step::<Store, _>::Done(
            findings.result(store),
        ),
{
    reveal_with_fuel(crate::effect::run, 8);
    store.update.lemma_at(git2wrap::UpdateStage::Fetch);
    store.update.at(git2wrap::UpdateStage::Fetch).lemma_at(git2wrap::UpdateStage::Check(0));
}

/// A repository that has been stored is found by whoever stores it again: it is looked for
/// where it was put, and then handed over as cached, under the same name and with the same
/// reference.
pub proof fn lemma_stored_repository_is_found_again(
    git: Git,
    storage_dir: Seq<char>,
    first: Store,
    replies: Seq<Reply>,
    stored: StoredGit,
    second: Store,
)
    requires
        first.is_start_of(git, storage_dir),
        crate::effect::answered(first, replies),
        crate::effect::run(first, replies) == Step::<Store, _>::Done(
            Ok::<StoredGit, Error>(stored),
        ),
        second.is_start_of(git, storage_dir),
    ensures
        ({
            let found = seq![
                Reply::Io(Ok(())),
                Reply::Repository(Ok(())),
                Reply::Repository(Ok(())),
            ];
            &&& crate::effect::trace(second, found) == seq![
                Wanted::CreateDirAll(storage_dir),
                Wanted::OpenBare(stored.repo.path@),
                Wanted::FindReference { repo: stored.repo.path@, name: stored.reference@ },
            ]
            &&& crate::effect::run(second, found) matches Step::Done(Ok(again))
            &&& again.was_cached
            &&& again.name@ == stored.name@
            &&& again.repo.path@ == stored.repo.path@
            &&& again.reference == stored.reference
        }),
{
    lemma_store_conversation(first, replies);
    reveal_with_fuel(crate::effect::run, 4);
    reveal_with_fuel(crate::effect::trace, 4);
}

/// What has been stored is what a removal removes.
pub proof fn lemma_removal_reaches_what_is_stored(
    git: Git,
    storage_dir: Seq<char>,
    store: Store,
    replies: Seq<Reply>,
    stored: StoredGit,
    removal: Removal,
)
    requires
        store.is_start_of(git, storage_dir),
        crate::effect::answered(store, replies),
        crate::effect::run(store, replies) == Step::<Store, _>::Done(
            Ok::<StoredGit, Error>(stored),
        ),
        removal.dir@ == git.place_in(storage_dir),
    ensures
        removal.wants() == Wanted::RemoveDirAll(stored.repo.path@),
{
    lemma_store_conversation(store, replies);
}

/// A repository is shared as a worktree once its reference was found, if there is a name for
/// the worktree; and the removal of what is shared has the repository forget that worktree,
/// and then removes its directory.
pub proof fn lemma_share_result(
    lookup: RefLookup,
    adding: Result<Adding, git2wrap::Error>,
    found: Result<(), git2wrap::Error>,
    added: Result<(), git2wrap::Error>,
)
    ensures
        ({
            let share = Share::Find { lookup, adding };
            let replies = seq![Reply::Repository(found), Reply::Repository(added)];
            crate::effect::run(share, replies) == Step::<Share, _>::Done(
                if found is Err {
                    Err::<SharedGit, Error>(Error::Git(found->Err_0))
                } else if adding is Err {
                    Err(Error::Git(adding->Err_0))
                } else if added is Err {
                    Err(Error::Git(added->Err_0))
                } else {
                    let adding = adding->Ok_0;
                    let worktree = Worktree {
                        repo: adding.repo,
                        name: adding.name,
                        path: adding.path,
                    };
                    Ok(SharedGit { worktree })
                },
            )
        }),
{
    reveal_with_fuel(crate::effect::run, 3);
}

/// What the removal of a shared repository comes to, and what it asks for: the directory is
/// removed only once the repository has forgotten the worktree, locked or in use though it
/// may be.
pub proof fn lemma_shared_removal_result(
    removal: SharedRemoval,
    pruned: Result<(), git2wrap::Error>,
    removed: Result<(), IoError>,
)
    requires
        removal.steps.stage is Prune,
    ensures
        ({
            let worktree = removal.steps.worktree;
            let replies = seq![Reply::Repository(pruned), Reply::Io(removed)];
            let prune = Wanted::Prune {
                repo: worktree.repo@,
                name: worktree.name@,
                locked: true,
                valid: true,
            };
            &&& crate::effect::trace(removal, replies) == if pruned is Ok {
                seq![prune, Wanted::RemoveDirAll(worktree.path@)]
            } else {
                seq![prune]
            }
            &&& crate::effect::run(removal, replies) == Step::<SharedRemoval, _>::Done(
                if pruned is Err {
                    Err::<(), Error>(Error::Git(pruned->Err_0))
                } else if removed is Err {
                    let error = git2wrap::Error {
                        code: git2wrap::ErrorCode::Directory,
                        class: git2wrap::ErrorClass::Os,
                        message: removed->Err_0.message,
                    };
                    Err(Error::Git(error))
                } else {
                    Ok(())
                },
            )
        }),
{
    reveal_with_fuel(crate::effect::run, 3);
    reveal_with_fuel(crate::effect::trace, 3);
}

/// A repository is removed, or was not there, unless removing it failed in another way.
pub proof fn lemma_remove_result(removal: Removal, removed: Result<(), IoError>)
    ensures
        crate::effect::run(removal, seq![Reply::Io(removed)]) == Step::<Removal, _>::Done(
            match removed {
                Ok(_) => Ok(()),
                Err(error) => if error.kind == IoErrorKind::NotFound {
                    Ok(())
                } else {
                    Err(Error::Io(error))
                },
            },
        ),
{
    reveal_with_fuel(crate::effect::run, 2);
}

/// The sum of what [`Transfer::advance`] says when it is told the totals one after another.
pub open spec fn deltas_sum(previous: int, totals: Seq<usize>) -> int
    decreases totals.len(),
{
    if totals.len() == 0 {
        0
    } else {
        totals[0] - previous + deltas_sum(totals[0] as int, totals.drop_first())
    }
}

/// What has been reported of a transfer adds up to what has been received.
pub proof fn lemma_deltas_add_up(previous: int, totals: Seq<usize>)
    ensures
        deltas_sum(previous, totals) == if totals.len() == 0 {
            0
        } else {
            totals.last() - previous
        },
    decreases totals.len(),
{
    if totals.len() > 0 {
        let rest = totals.drop_first();
        lemma_deltas_add_up(totals[0] as int, rest);
        assert(rest.len() > 0 ==> rest.last() == totals.last());
    }
}

/// The directory of a repository is named after its host and a dot, where there is a host, and
/// then after its path, in which every slash is a dot and nothing else is changed.
pub proof fn lemma_directory_name(host: Option<Seq<char>>, url_path: Seq<char>)
    ensures
        ({
            let name = directory_name(host, url_path);
            let cut = match host {
                Some(host) => host.len() + 1,
                None => 0,
            };
            &&& name.len() == cut + url_path.len()
            &&& host matches Some(host) ==> name.take(host.len() as int) == host
                && name[host.len() as int] == '.'
            &&& forall|i: int|
                0 <= i < url_path.len() ==> name[cut + i] == if #[trigger] url_path[i] == '/' {
                    '.'
                } else {
                    url_path[i]
                }
        }),
{
    if let Some(host) = host {
        assert(directory_name(Some(host), url_path).take(host.len() as int) =~= host);
    }
}

/// Errors say what their causes do; one of a reference names it and its repository.
pub proof fn lemma_errors_say(error: Error, git_error: GitError)
    ensures
        match error {
            Error::Git(cause) => error.says() == cause.says(),
            Error::Io(cause) => error.says() == cause.message@,
        },
        match git_error {
            GitError::UnresolvedRef { ref_id, uri } => git_error.says() == "ref '"@ + ref_id@
                + "' did not resolve to a valid commit hash for "@ + uri@.text,
            GitError::Io(cause) => git_error.says() == cause.message@,
            GitError::Utf8(cause) => git_error.says() == cause@,
        },
{
}

/// What storing a repository does and comes to, from the repository and from what the host
/// finds.
///
/// The storage directory is made and the repository is opened in the directory that it is to
/// have. One that opens is looked into for the reference: where it is there, the repository is
/// handed over as cached; otherwise the reference is fetched from `origin` and looked up again.
/// One that does not exist is cloned from its URL, and what a failed clone left is removed.
/// Whatever fails is reported as it is, but for that last removal.
pub proof fn lemma_store_of_repository(
    git: Git,
    storage_dir: Seq<char>,
    store: Store,
    findings: StoreFindings,
)
    requires
        store.is_start_of(git, storage_dir),
    ensures
        ({
            let dir = path::joined(storage_dir, directory_name(git.url@.host, git.url@.path));
            let find = Wanted::FindReference { repo: dir, name: git.ref_id@ };
            let opened = findings.opened;
            let replies = seq![Reply::Io(findings.made), Reply::Repository(opened)] + if opened
                is Ok {
                seq![
                    Reply::Repository(findings.found),
                    Reply::Repository(findings.remote),
                    Reply::Repository(findings.fetched),
                    Reply::Repository(findings.available),
                ]
            } else {
                seq![Reply::Repository(findings.cloned), Reply::Io(findings.cleaned)]
            };
            let trace = crate::effect::trace(store, replies);
            let look = seq![Wanted::CreateDirAll(storage_dir), Wanted::OpenBare(dir)];
            let update = look + seq![
                find,
                Wanted::FindRemote { repo: dir, name: "origin"@ },
                Wanted::FetchRefs { repo: dir, remote: "origin"@, git_refs: seq![git.ref_id@] },
                find,
            ];
            let clone = look + seq![
                Wanted::Clone {
                    url: git.url@.text,
                    path: dir,
                    bare: true,
                    reports_progress: true,
                },
                Wanted::RemoveDirAll(dir),
            ];
            &&& crate::effect::run(store, replies) matches Step::Done(result)
            &&& result matches Ok(stored) ==> stored.name@ == git.url@.file_name
                && stored.repo.path@ == dir && stored.reference == git.ref_id
            &&& if findings.made is Err {
                &&& trace == look.take(1)
                &&& result == Err::<StoredGit, Error>(Error::Io(findings.made->Err_0))
            } else if opened is Ok && findings.found is Ok {
                &&& trace == update.take(3)
                &&& result matches Ok(stored) && stored.was_cached
            } else if opened is Ok && findings.remote is Err {
                &&& trace == update.take(4)
                &&& result == Err::<StoredGit, Error>(Error::Git(findings.remote->Err_0))
            } else if opened is Ok && findings.fetched is Err {
                &&& trace == update.take(5)
                &&& result == Err::<StoredGit, Error>(Error::Git(findings.fetched->Err_0))
            } else if opened is Ok && findings.available is Err {
                &&& trace == update
                &&& result == Err::<StoredGit, Error>(Error::Git(findings.available->Err_0))
            } else if opened is Ok {
                &&& trace == update
                &&& result matches Ok(stored) && !stored.was_cached
            } else if opened->Err_0.code !is NotFound {
                &&& trace == look
                &&& result == Err::<StoredGit, Error>(Error::Git(opened->Err_0))
            } else if findings.cloned is Err {
                &&& trace == clone
                &&& result == Err::<StoredGit, Error>(Error::Git(findings.cloned->Err_0))
            } else {
                &&& trace == clone.take(3)
                &&& result matches Ok(stored) && !stored.was_cached
            }
        }),
{
    reveal_with_fuel(crate::effect::run, 7);
    reveal_with_fuel(crate::effect::trace, 7);
    store.update.lemma_at(git2wrap::UpdateStage::Fetch);
    store.update.at(git2wrap::UpdateStage::Fetch).lemma_at(git2wrap::UpdateStage::Check(0));
}

/// Removing a repository removes the directory that it is kept in, and counts as done where
/// there is none.
pub proof fn lemma_remove_of_repository(
    git: Git,
    storage_dir: Seq<char>,
    removal: Removal,
    removed: Result<(), IoError>,
)
    requires
        removal.dir@ == git.place_in(storage_dir),
    ensures
        removal.wants() == Wanted::RemoveDirAll(
            path::joined(storage_dir, directory_name(git.url@.host, git.url@.path)),
        ),
        removal.after(Reply::Io(removed)) matches Step::Done(result) && match removed {
            Ok(_) => result is Ok,
            Err(error) => if error.kind is NotFound {
                result is Ok
            } else {
                result == Err::<(), Error>(Error::Io(error))
            },
        },
{
}

/// Sharing a repository looks its reference up in it, and then adds the worktree that was
/// prepared, which is what is handed over.
pub proof fn lemma_share_trace(
    lookup: RefLookup,
    adding: Adding,
    added: Result<(), git2wrap::Error>,
)
    ensures
        ({
            let share = Share::Find { lookup, adding: Ok(adding) };
            let replies = seq![Reply::Repository(Ok(())), Reply::Repository(added)];
            let trace = crate::effect::trace(share, replies);
            &&& trace.len() == 2
            &&& trace[0] matches Wanted::FindReference { repo, name } && repo == lookup.repo@
                && name == lookup.name@
            &&& trace[1] matches Wanted::AddWorktree { repo, name, path, git_ref } && repo
                == adding.repo@ && name == adding.name@ && path == adding.path@ && git_ref
                == adding.git_ref@
            &&& crate::effect::run(share, replies) matches Step::Done(result) && match added {
                Ok(_) => result matches Ok(shared) && shared.worktree.repo == adding.repo
                    && shared.worktree.name == adding.name && shared.worktree.path
                    == adding.path,
                Err(error) => result == Err::<SharedGit, Error>(Error::Git(error)),
            }
        }),
{
    reveal_with_fuel(crate::effect::run, 3);
    reveal_with_fuel(crate::effect::trace, 3);
}

/// A reply to something else than a program waits for leaves the program where it is.
pub proof fn lemma_other_replies_change_nothing(
    store: Store,
    share: Share,
    removal: Removal,
    shared_removal: SharedRemoval,
    reply: Reply,
)
    ensures
        crate::effect::minds_its_replies(store, reply),
        crate::effect::minds_its_replies(share, reply),
        crate::effect::minds_its_replies(removal, reply),
        crate::effect::minds_its_replies(shared_removal, reply),
{
}

} // verus!
