//! What the library asks of the world, what the world answers, and programs that
//! alternate between the two.
//!
//! A [`Program`] names the one [`Action`] it waits for. Its host performs the action and
//! hands the [`Reply`] back, until the program is done.

use crate::command::GitCommand;
use crate::git2wrap;
use crate::upstream::git::GitError;
use crate::upstream::plain;
use vstd::prelude::*;

verus! {

/// The kinds of input/output error that are told apart.
#[derive(Debug, Clone, Copy, PartialEq, Eq, Structural)]
pub enum IoErrorKind {
    /// Nothing stands at the path.
    NotFound,
    /// Two paths lie on different filesystems.
    CrossesDevices,
    /// Anything else.
    Other,
}

/// An input/output error.
#[derive(Debug)]
pub struct IoError {
    pub kind: IoErrorKind,
    pub message: String,
}

/// An error of a network request.
#[derive(Debug)]
pub struct RequestError {
    pub message: String,
}

/// Why a file could not be fetched.
#[derive(Debug)]
pub enum FetchError {
    ParseHash(plain::ParseHashError),
    Request(RequestError),
    Io(IoError),
}

/// Something for the host to do. Paths, names and URLs are of type `S`, lists of them of
/// type `L`: running programs have [`Request`]s, contracts speak of what is [`Wanted`].
#[derive(Debug)]
pub enum Action<S, L> {
    /// Say whether something stands at the path.
    Exists(S),
    /// Make sure that the directory exists, along with those above it.
    EnsureDir(S),
    /// Create the directory, along with those above it, unless it is there.
    CreateDirAll(S),
    /// Remove a file.
    RemoveFile(S),
    /// Remove a directory and all it holds.
    RemoveDirAll(S),
    /// Remove the directory `start` if it is empty, and those above it, but not `root`.
    RemoveEmptyDirs { start: S, root: S },
    /// Rename a file.
    Rename { from: S, to: S },
    /// Make `to` another name of the file `from`.
    HardLink { from: S, to: S },
    /// Copy a file.
    Copy { from: S, to: S },
    /// Copy a directory and all it holds.
    CopyDir { from: S, to: S },
    /// Replace the contents of a file.
    WriteFile { path: S, contents: S },
    /// Download a file and report the digest that the download service computed.
    Download { url: S, dest: S },
    /// Stream a file to `dest` and report its digest.
    Fetch { url: S, dest: S },
    /// Run the git program, in the given directory or in the current one.
    Git { command: GitCommand<S>, cwd: Option<S> },
    /// Find the commit that `ref_id` stands for in the working copy at `path`.
    ResolveRef { path: S, ref_id: S, uri: S },
    /// Open the bare repository at the path.
    OpenBare(S),
    /// Clone a repository.
    Clone { url: S, path: S, bare: bool, reports_progress: bool },
    /// Look a reference up in the repository at `repo`.
    FindReference { repo: S, name: S },
    /// Look a remote up in the repository at `repo`.
    FindRemote { repo: S, name: S },
    /// Fetch references from a remote into the repository at `repo`.
    FetchRefs { repo: S, remote: S, git_refs: L },
    /// Check a reference of the repository at `repo` out as a new worktree.
    AddWorktree { repo: S, name: S, path: S, git_ref: S },
    /// Have the repository at `repo` forget the worktree of that name.
    Prune { repo: S, name: S, locked: bool, valid: bool },
}

/// An action, for the host.
pub type Request = Action<String, Vec<String>>;

/// An action, as contracts see it.
pub type Wanted = Action<Seq<char>, Seq<Seq<char>>>;

/// The texts of a list.
pub open spec fn texts(list: Seq<String>) -> Seq<Seq<char>> {
    list.map_values(|text: String| text@)
}

impl View for Request {
    type V = Wanted;

    open spec fn view(&self) -> Wanted {
        match *self {
            Action::Exists(path) => Action::Exists(path@),
            Action::EnsureDir(path) => Action::EnsureDir(path@),
            Action::CreateDirAll(path) => Action::CreateDirAll(path@),
            Action::RemoveFile(path) => Action::RemoveFile(path@),
            Action::RemoveDirAll(path) => Action::RemoveDirAll(path@),
            Action::RemoveEmptyDirs { start, root } => Action::RemoveEmptyDirs {
                start: start@,
                root: root@,
            },
            Action::Rename { from, to } => Action::Rename { from: from@, to: to@ },
            Action::HardLink { from, to } => Action::HardLink { from: from@, to: to@ },
            Action::Copy { from, to } => Action::Copy { from: from@, to: to@ },
            Action::CopyDir { from, to } => Action::CopyDir { from: from@, to: to@ },
            Action::WriteFile { path, contents } => Action::WriteFile {
                path: path@,
                contents: contents@,
            },
            Action::Download { url, dest } => Action::Download { url: url@, dest: dest@ },
            Action::Fetch { url, dest } => Action::Fetch { url: url@, dest: dest@ },
            Action::Git { command, cwd } => Action::Git {
                command: command@,
                cwd: crate::uri::chars_of(cwd),
            },
            Action::ResolveRef { path, ref_id, uri } => Action::ResolveRef {
                path: path@,
                ref_id: ref_id@,
                uri: uri@,
            },
            Action::OpenBare(path) => Action::OpenBare(path@),
            Action::Clone { url, path, bare, reports_progress } => Action::Clone {
                url: url@,
                path: path@,
                bare,
                reports_progress,
            },
            Action::FindReference { repo, name } => Action::FindReference {
                repo: repo@,
                name: name@,
            },
            Action::FindRemote { repo, name } => Action::FindRemote { repo: repo@, name: name@ },
            Action::FetchRefs { repo, remote, git_refs } => Action::FetchRefs {
                repo: repo@,
                remote: remote@,
                git_refs: texts(git_refs@),
            },
            Action::AddWorktree { repo, name, path, git_ref } => Action::AddWorktree {
                repo: repo@,
                name: name@,
                path: path@,
                git_ref: git_ref@,
            },
            Action::Prune { repo, name, locked, valid } => Action::Prune {
                repo: repo@,
                name: name@,
                locked,
                valid,
            },
        }
    }
}

/// The host's answer to an action.
#[derive(Debug)]
pub enum Reply {
    /// To [`Action::Exists`].
    Found(bool),
    /// To the other actions on files and directories.
    Io(Result<(), IoError>),
    /// To [`Action::Download`]: the digest, in hexadecimal.
    Downloaded(Result<String, RequestError>),
    /// To [`Action::Fetch`].
    Fetched(Result<plain::Hash, FetchError>),
    /// To [`Action::Git`]: whether the program ended in success, if it could be run.
    Ran(Result<bool, IoError>),
    /// To [`Action::ResolveRef`].
    Resolved(Result<String, GitError>),
    /// To the actions on repositories.
    Repository(Result<(), git2wrap::Error>),
}

impl Reply {
    /// Whether this is the kind of reply that the action calls for.
    pub open spec fn answers<S, L>(self, action: Action<S, L>) -> bool {
        match action {
            Action::Exists(_) => self is Found,
            Action::EnsureDir(_)
            | Action::CreateDirAll(_)
            | Action::RemoveFile(_)
            | Action::RemoveDirAll(_)
            | Action::RemoveEmptyDirs { .. }
            | Action::Rename { .. }
            | Action::HardLink { .. }
            | Action::Copy { .. }
            | Action::CopyDir { .. }
            | Action::WriteFile { .. } => self is Io,
            Action::Download { .. } => self is Downloaded,
            Action::Fetch { .. } => self is Fetched,
            Action::Git { .. } => self is Ran,
            Action::ResolveRef { .. } => self is Resolved,
            Action::OpenBare(_)
            | Action::Clone { .. }
            | Action::FindReference { .. }
            | Action::FindRemote { .. }
            | Action::FetchRefs { .. }
            | Action::AddWorktree { .. }
            | Action::Prune { .. } => self is Repository,
        }
    }
}

/// Where a program stands after a reply.
#[derive(Debug)]
pub enum Step<P, T> {
    /// It waits for another action.
    Perform(P),
    /// It is done.
    Done(T),
}

/// A computation that waits for one action after another.
pub trait Program: Sized {
    /// What the program comes to in the end.
    type Output;

    /// The action that the program waits for.
    spec fn wants(&self) -> Wanted;

    /// Where the reply takes the program. A reply of another kind than it waits for leaves it
    /// where it is.
    spec fn after(self, reply: Reply) -> Step<Self, Self::Output>;

    /// Says which action the program waits for.
    fn action(&self) -> (action: Request)
        ensures
            action@ == self.wants(),
    ;

    /// Takes the reply to that action.
    fn resume(self, reply: Reply) -> (step: Step<Self, Self::Output>)
        ensures
            step == self.after(reply),
    ;
}

/// Whether a program stays where it is if the reply is to something else than it waits for.
pub open spec fn minds_its_replies<P: Program>(program: P, reply: Reply) -> bool {
    !reply.answers(program.wants()) ==> (program.after(reply) matches Step::Perform(same) && same
        == program)
}

/// Where a program stands after a sequence of replies, of which it takes no more than it
/// waits for.
pub open spec fn run<P: Program>(program: P, replies: Seq<Reply>) -> Step<P, P::Output>
    decreases replies.len(),
{
    if replies.len() == 0 {
        Step::Perform(program)
    } else {
        match program.after(replies[0]) {
            Step::Perform(next) => run(next, replies.drop_first()),
            Step::Done(output) => Step::Done(output),
        }
    }
}

/// Whether the replies are a conversation with the program: each is of the kind that the
/// program waits for, and none comes after it is done.
pub open spec fn answered<P: Program>(program: P, replies: Seq<Reply>) -> bool
    decreases replies.len(),
{
    replies.len() > 0 ==> {
        &&& replies[0].answers(program.wants())
        &&& match program.after(replies[0]) {
            Step::Perform(next) => answered(next, replies.drop_first()),
            Step::Done(_) => replies.len() == 1,
        }
    }
}

/// The actions that a program waited for, up to the last one that a reply was given to.
pub open spec fn trace<P: Program>(program: P, replies: Seq<Reply>) -> Seq<Wanted>
    decreases replies.len(),
{
    if replies.len() == 0 {
        Seq::empty()
    } else {
        seq![program.wants()] + match program.after(replies[0]) {
            Step::Perform(next) => trace(next, replies.drop_first()),
            Step::Done(_) => Seq::empty(),
        }
    }
}

/// A program goes on from where a part of the replies takes it.
pub proof fn lemma_run_append<P: Program>(program: P, first: Seq<Reply>, then: Seq<Reply>)
    ensures
        run(program, first + then) == match run(program, first) {
            Step::Perform(next) => run(next, then),
            Step::Done(output) => Step::Done(output),
        },
    decreases first.len(),
{
    if first.len() == 0 {
        assert(first + then =~= then);
    } else {
        assert((first + then)[0] == first[0]);
        assert((first + then).drop_first() =~= first.drop_first() + then);
        if let Step::Perform(next) = program.after(first[0]) {
            lemma_run_append(next, first.drop_first(), then);
        }
    }
}

/// Contracts see an action as it is: the same action, on the same texts.
pub proof fn lemma_request_is_seen_as_it_is(request: Request)
    ensures
        match request {
            Action::Exists(path) => request@ == Wanted::Exists(path@),
            Action::EnsureDir(path) => request@ == Wanted::EnsureDir(path@),
            Action::CreateDirAll(path) => request@ == Wanted::CreateDirAll(path@),
            Action::RemoveFile(path) => request@ == Wanted::RemoveFile(path@),
            Action::RemoveDirAll(path) => request@ == Wanted::RemoveDirAll(path@),
            Action::RemoveEmptyDirs { start, root } => request@ == (Wanted::RemoveEmptyDirs {
                start: start@,
                root: root@,
            }),
            Action::Rename { from, to } => request@ == (Wanted::Rename {
                from: from@,
                to: to@,
            }),
            Action::HardLink { from, to } => request@ == (Wanted::HardLink {
                from: from@,
                to: to@,
            }),
            Action::Copy { from, to } => request@ == (Wanted::Copy {
                from: from@,
                to: to@,
            }),
            Action::CopyDir { from, to } => request@ == (Wanted::CopyDir {
                from: from@,
                to: to@,
            }),
            Action::WriteFile { path, contents } => request@ == (Wanted::WriteFile {
                path: path@,
                contents: contents@,
            }),
            Action::Download { url, dest } => request@ == (Wanted::Download {
                url: url@,
                dest: dest@,
            }),
            Action::Fetch { url, dest } => request@ == (Wanted::Fetch {
                url: url@,
                dest: dest@,
            }),
            Action::ResolveRef { path, ref_id, uri } => request@ == (Wanted::ResolveRef {
                path: path@,
                ref_id: ref_id@,
                uri: uri@,
            }),
            Action::OpenBare(path) => request@ == Wanted::OpenBare(path@),
            Action::FindReference { repo, name } => request@ == (Wanted::FindReference {
                repo: repo@,
                name: name@,
            }),
            Action::FindRemote { repo, name } => request@ == (Wanted::FindRemote {
                repo: repo@,
                name: name@,
            }),
            Action::AddWorktree { repo, name, path, git_ref } => request@ == (Wanted::AddWorktree {
                repo: repo@,
                name: name@,
                path: path@,
                git_ref: git_ref@,
            }),
            Action::Git { command, cwd } => request@ matches Wanted::Git { command: seen, cwd: dir }
                && seen == command@ && match cwd {
                Some(cwd) => dir == Some(cwd@),
                None => dir is None,
            },
            Action::Clone { url, path, bare, reports_progress } => request@ == (Wanted::Clone {
                url: url@,
                path: path@,
                bare,
                reports_progress,
            }),
            Action::FetchRefs { repo, remote, git_refs } => request@ matches Wanted::FetchRefs {
                repo: seen_repo,
                remote: seen_remote,
                git_refs: seen_refs,
            } && seen_repo == repo@ && seen_remote == remote@ && seen_refs.len() == git_refs@.len()
                && forall|i: int|
                0 <= i < seen_refs.len() ==> #[trigger] seen_refs[i] == git_refs@[i]@,
            Action::Prune { repo, name, locked, valid } => request@ == (Wanted::Prune {
                repo: repo@,
                name: name@,
                locked,
                valid,
            }),
        },
{
}

/// A list of texts is seen as it is.
pub proof fn lemma_texts(list: Seq<String>)
    ensures
        texts(list).len() == list.len(),
        forall|i: int| 0 <= i < list.len() ==> #[trigger] texts(list)[i] == list[i]@,
{
}

} // verus!
