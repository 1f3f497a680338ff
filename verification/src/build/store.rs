//! How upstreams are stored in the cache and shared with the build.

use crate::build::upstream::{Error, Git, Plain, Upstream};
use crate::command::GitCommand;
use crate::effect::{Action, IoError, Program, Reply, Request, Step, Wanted};
use crate::path;
use crate::upstream::plain;
use crate::uri::Url;
use vstd::prelude::*;

verus! {

/// An upstream in the cache.
#[derive(Debug)]
pub enum Stored {
    /// An archive.
    Plain { name: String, path: String, was_cached: bool },
    /// A working copy of a git repository, and the commit that it is at.
    Git {
        name: String,
        path: String,
        was_cached: bool,
        uri: Url,
        original_ref: String,
        resolved_hash: String,
        original_index: usize,
    },
}

impl Clone for Stored {
    fn clone(&self) -> (copy: Self)
        ensures
            copy == *self,
    {
        match self {
            Stored::Plain { name, path, was_cached } => Stored::Plain {
                name: name.clone(),
                path: path.clone(),
                was_cached: *was_cached,
            },
            Stored::Git {
                name,
                path,
                was_cached,
                uri,
                original_ref,
                resolved_hash,
                original_index,
            } => Stored::Git {
                name: name.clone(),
                path: path.clone(),
                was_cached: *was_cached,
                uri: uri.clone(),
                original_ref: original_ref.clone(),
                resolved_hash: resolved_hash.clone(),
                original_index: *original_index,
            },
        }
    }
}

impl Stored {
    /// The name to share the upstream under.
    pub open spec fn name(self) -> String {
        match self {
            Stored::Plain { name, .. } => name,
            Stored::Git { name, .. } => name,
        }
    }

    /// The path of the upstream in the cache.
    pub open spec fn path(self) -> String {
        match self {
            Stored::Plain { path, .. } => path,
            Stored::Git { path, .. } => path,
        }
    }

    /// Whether the upstream was in the cache already.
    pub open spec fn cached(self) -> bool {
        match self {
            Stored::Plain { was_cached, .. } => was_cached,
            Stored::Git { was_cached, .. } => was_cached,
        }
    }

    /// Whether the upstream was in the cache already.
    pub fn was_cached(&self) -> (cached: bool)
        ensures
            cached == self.cached(),
    {
        match self {
            Stored::Plain { was_cached, .. } => *was_cached,
            Stored::Git { was_cached, .. } => *was_cached,
        }
    }

    /// What is said of the upstream behind its name, once it is shared.
    pub fn cached_tag(&self) -> (tag: &str)
        ensures
            tag@ == if self.cached() {
                " (cached)"@
            } else {
                ""@
            },
    {
        if self.was_cached() {
            " (cached)"
        } else {
            ""
        }
    }

    /// The sharing of the upstream at a path.
    pub open spec fn share_at(self, to: String) -> Share {
        match self {
            Stored::Plain { path, .. } => Share::Link { from: path, to },
            Stored::Git { path, .. } => Share::CopyDir { from: path, to },
        }
    }

    /// Makes the upstream available at a path.
    fn share_to(&self, to: String) -> (share: Share)
        ensures
            share == self.share_at(to),
    {
        match self {
            Stored::Plain { path, .. } => Share::Link { from: path.clone(), to },
            Stored::Git { path, .. } => Share::CopyDir { from: path.clone(), to },
        }
    }

    /// Makes the upstream available in a directory, under its name.
    pub fn share(&self, dest_dir: &str) -> (share: Share)
        ensures
            share == self.share_at(share.target()),
            share.target()@ == path::joined(dest_dir@, self.name()@),
    {
        let name = match self {
            Stored::Plain { name, .. } => name,
            Stored::Git { name, .. } => name,
        };
        self.share_to(path::join(dest_dir, name.as_str()))
    }
}

/// The sharing of an upstream: an archive is linked, or copied where it cannot be linked; a
/// working copy is copied.
#[derive(Debug)]
pub enum Share {
    /// The archive is being linked.
    Link { from: String, to: String },
    /// It is being copied.
    Copy { from: String, to: String },
    /// The working copy is being copied.
    CopyDir { from: String, to: String },
}

impl Share {
    /// Where the upstream is made available.
    pub open spec fn target(self) -> String {
        match self {
            Share::Link { to, .. } => to,
            Share::Copy { to, .. } => to,
            Share::CopyDir { to, .. } => to,
        }
    }
}

impl Program for Share {
    type Output = Result<(), Error>;

    open spec fn wants(&self) -> Wanted {
        match *self {
            Share::Link { from, to } => Action::HardLink { from: from@, to: to@ },
            Share::Copy { from, to } => Action::Copy { from: from@, to: to@ },
            Share::CopyDir { from, to } => Action::CopyDir { from: from@, to: to@ },
        }
    }

    open spec fn after(self, reply: Reply) -> Step<Self, Self::Output> {
        match (self, reply) {
            (_, Reply::Io(Ok(_))) => Step::Done(Ok(())),
            (Share::Link { from, to }, Reply::Io(Err(_))) => Step::Perform(
                Share::Copy { from, to },
            ),
            (_, Reply::Io(Err(error))) => Step::Done(Err(Error::Io(error))),
            _ => Step::Perform(self),
        }
    }

    fn action(&self) -> (action: Request) {
        match self {
            Share::Link { from, to } => Action::HardLink { from: from.clone(), to: to.clone() },
            Share::Copy { from, to } => Action::Copy { from: from.clone(), to: to.clone() },
            Share::CopyDir { from, to } => Action::CopyDir { from: from.clone(), to: to.clone() },
        }
    }

    fn resume(self, reply: Reply) -> (step: Step<Self, Self::Output>) {
        match (self, reply) {
            (_, Reply::Io(Ok(_))) => Step::Done(Ok(())),
            (Share::Link { from, to }, Reply::Io(Err(_))) => Step::Perform(
                Share::Copy { from, to },
            ),
            (_, Reply::Io(Err(error))) => Step::Done(Err(Error::Io(error))),
            (share, _) => Step::Perform(share),
        }
    }
}

/// The stages of storing an archive.
#[derive(Debug)]
pub enum PlainStage {
    /// Its directory is being made.
    EnsureDir,
    /// Is it there?
    Probe,
    /// It is being fetched, to a partial file.
    Fetch,
    /// The partial file is being removed, since the digest is another.
    Discard(plain::Hash),
    /// The partial file is being renamed to where the archive is kept.
    Commit,
}

/// The storing of an archive.
#[derive(Debug)]
pub struct PlainStore {
    pub name: String,
    pub dir: String,
    pub path: String,
    pub partial: String,
    pub url: String,
    pub hash: plain::Hash,
    pub stage: PlainStage,
}

impl PlainStore {
    /// Whether this is the beginning of storing an archive.
    pub open spec fn is_start_of(self, plain: Plain, upstreams: Seq<char>) -> bool {
        &&& self.name@ == plain.shared_name()
        &&& self.path@ == plain.place_in(upstreams)
        &&& path::parent_dir(self.path@) == Some(self.dir@)
        &&& self.partial@ == plain.place_in(upstreams) + ".part"@
        &&& self.url@ == plain.url@.text
        &&& self.hash == plain.hash
        &&& self.stage is EnsureDir
    }

    /// The same storing, at another stage.
    pub open spec fn at(self, stage: PlainStage) -> PlainStore {
        PlainStore { stage, ..self }
    }

    /// The archive in the cache.
    pub open spec fn stored(self, was_cached: bool) -> Stored {
        Stored::Plain { name: self.name, path: self.path, was_cached }
    }
}

impl Program for PlainStore {
    type Output = Result<Stored, Error>;

    open spec fn wants(&self) -> Wanted {
        match self.stage {
            PlainStage::EnsureDir => Action::EnsureDir(self.dir@),
            PlainStage::Probe => Action::Exists(self.path@),
            PlainStage::Fetch => Action::Fetch { url: self.url@, dest: self.partial@ },
            PlainStage::Discard(_) => Action::RemoveFile(self.partial@),
            PlainStage::Commit => Action::Rename { from: self.partial@, to: self.path@ },
        }
    }

    open spec fn after(self, reply: Reply) -> Step<Self, Self::Output> {
        match (self.stage, reply) {
            (PlainStage::EnsureDir, Reply::Io(Ok(_))) => Step::Perform(self.at(PlainStage::Probe)),
            (PlainStage::Probe, Reply::Found(true)) => Step::Done(Ok(self.stored(true))),
            (PlainStage::Probe, Reply::Found(false)) => Step::Perform(self.at(PlainStage::Fetch)),
            (PlainStage::Fetch, Reply::Fetched(Ok(got))) => if got@ == self.hash@ {
                Step::Perform(self.at(PlainStage::Commit))
            } else {
                Step::Perform(self.at(PlainStage::Discard(got)))
            },
            (PlainStage::Fetch, Reply::Fetched(Err(error))) => Step::Done(
                Err(crate::build::upstream::fetch_failed(error)),
            ),
            (PlainStage::Discard(got), Reply::Io(Ok(_))) => Step::Done(
                Err(Error::HashMismatch { name: self.name, expected: self.hash.text(), got }),
            ),
            (PlainStage::Commit, Reply::Io(Ok(_))) => Step::Done(Ok(self.stored(false))),
            (PlainStage::Probe, _) => Step::Perform(self),
            (PlainStage::Fetch, _) => Step::Perform(self),
            (_, Reply::Io(Err(error))) => Step::Done(Err(Error::Io(error))),
            _ => Step::Perform(self),
        }
    }

    fn action(&self) -> (action: Request) {
        match self.stage {
            PlainStage::EnsureDir => Action::EnsureDir(self.dir.clone()),
            PlainStage::Probe => Action::Exists(self.path.clone()),
            PlainStage::Fetch => Action::Fetch {
                url: self.url.clone(),
                dest: self.partial.clone(),
            },
            PlainStage::Discard(_) => Action::RemoveFile(self.partial.clone()),
            PlainStage::Commit => Action::Rename {
                from: self.partial.clone(),
                to: self.path.clone(),
            },
        }
    }

    fn resume(self, reply: Reply) -> (step: Step<Self, Self::Output>) {
        let PlainStore { name, dir, path, partial, url, hash, stage } = self;
        let stage = match (stage, reply) {
            (PlainStage::EnsureDir, Reply::Io(Ok(_))) => PlainStage::Probe,
            (PlainStage::Probe, Reply::Found(true)) => {
                return Step::Done(Ok(Stored::Plain { name, path, was_cached: true }));
            },
            (PlainStage::Probe, Reply::Found(false)) => PlainStage::Fetch,
            (PlainStage::Fetch, Reply::Fetched(Ok(got))) => if got.same_as(&hash) {
                PlainStage::Commit
            } else {
                PlainStage::Discard(got)
            },
            (PlainStage::Fetch, Reply::Fetched(Err(error))) => {
                return Step::Done(Err(Error::of_fetch(error)));
            },
            (PlainStage::Discard(got), Reply::Io(Ok(_))) => {
                return Step::Done(
                    Err(Error::HashMismatch { name, expected: hash.to_text(), got }),
                );
            },
            (PlainStage::Commit, Reply::Io(Ok(_))) => {
                return Step::Done(Ok(Stored::Plain { name, path, was_cached: false }));
            },
            (PlainStage::Probe, _) => PlainStage::Probe,
            (PlainStage::Fetch, _) => PlainStage::Fetch,
            (_, Reply::Io(Err(error))) => {
                return Step::Done(Err(Error::Io(error)));
            },
            (stage, _) => stage,
        };
        Step::Perform(PlainStore { name, dir, path, partial, url, hash, stage })
    }
}

/// The stages of storing a git repository.
#[derive(Debug)]
pub enum GitStage {
    /// A directory is being made, that above the clone or that above the working copy. There
    /// may be another to make.
    EnsureDirs { dir: String, then_dir: Option<String> },
    /// Is the working copy there?
    Probe,
    /// It is being brought up to date with its remote.
    Refresh,
    /// Does it have the reference?
    Check,
    /// What stands where the clone goes is being removed.
    DropClone,
    /// What stands where the working copy goes is being removed.
    DropFinal,
    /// The repository is being cloned.
    Clone,
    /// The working copy is being cloned from the mirror.
    CloneMirror,
    /// The working copy is being put at the reference.
    Reset { cached: bool },
    /// Its submodules are being updated.
    Submodules { cached: bool },
    /// The commit of the reference is being looked up.
    Resolve { cached: bool },
}

impl GitStage {
    /// The directories that are still to be made.
    pub open spec fn dirs(self) -> Seq<Seq<char>> {
        match self {
            GitStage::EnsureDirs { dir, then_dir } => match then_dir {
                Some(next) => seq![dir@, next@],
                None => seq![dir@],
            },
            _ => Seq::empty(),
        }
    }

    /// Whether nothing has been done yet but for the making of directories.
    pub open spec fn is_early(self) -> bool {
        self is EnsureDirs || self is Probe
    }

    /// The first stage, where so many of two directories are there to be made.
    pub(crate) fn first(first: Option<String>, second: Option<String>) -> (stage: GitStage)
        ensures
            stage.is_early(),
            stage.dirs() == present(crate::uri::chars_of(first)) + present(
                crate::uri::chars_of(second),
            ),
    {
        let stage = match (first, second) {
            (Some(dir), then_dir) => GitStage::EnsureDirs { dir, then_dir },
            (None, Some(dir)) => GitStage::EnsureDirs { dir, then_dir: None },
            (None, None) => GitStage::Probe,
        };
        assert(stage.dirs() =~= present(crate::uri::chars_of(first)) + present(
            crate::uri::chars_of(second),
        ));
        stage
    }
}

/// A text that may be absent, as a sequence of one or none.
pub open spec fn present(text: Option<Seq<char>>) -> Seq<Seq<char>> {
    match text {
        Some(text) => seq![text],
        None => Seq::empty(),
    }
}

/// The storing of a git repository.
#[derive(Debug)]
pub struct GitStore {
    pub name: String,
    pub clone_path: String,
    pub final_path: String,
    pub uri: Url,
    pub ref_id: String,
    pub staging: bool,
    pub original_index: usize,
    pub stage: GitStage,
}

impl GitStore {
    /// Whether this is the beginning of storing a git repository.
    pub open spec fn is_start_of(self, git: Git, upstreams: Seq<char>) -> bool {
        &&& self.name@ == git.uri@.file_name
        &&& self.clone_path@ == git.clone_place(upstreams)
        &&& self.final_path@ == git.final_place(upstreams)
        &&& self.uri == git.uri
        &&& self.ref_id == git.ref_id
        &&& self.staging == git.staging
        &&& self.original_index == git.original_index
        &&& self.stage.is_early()
        &&& self.stage.dirs() == present(path::parent_dir(self.clone_path@)) + present(
            path::parent_dir(self.final_path@),
        )
    }

    /// The same storing, at another stage.
    pub open spec fn at(self, stage: GitStage) -> GitStore {
        GitStore { stage, ..self }
    }

    /// The working copy in the cache.
    pub open spec fn stored(self, was_cached: bool, resolved_hash: String) -> Stored {
        Stored::Git {
            name: self.name,
            path: self.final_path,
            was_cached,
            uri: self.uri,
            original_ref: self.ref_id,
            resolved_hash,
            original_index: self.original_index,
        }
    }

    /// Goes on to a stage if the git program did what it was run for.
    pub open spec fn if_ran(self, ran: Result<bool, IoError>, stage: GitStage) -> Step<
        Self,
        Result<Stored, Error>,
    > {
        match crate::build::upstream::run_result(self.uri, ran) {
            Ok(_) => Step::Perform(self.at(stage)),
            Err(error) => Step::Done(Err(error)),
        }
    }

    /// A run of the git program in the working copy.
    pub open spec fn in_working_copy(self, command: GitCommand<Seq<char>>) -> Wanted {
        Action::Git { command, cwd: Some(self.final_path@) }
    }

    /// Goes on to a stage if the git program did what it was run for.
    fn after_run(self, ran: Result<bool, IoError>, stage: GitStage) -> (step: Step<
        Self,
        Result<Stored, Error>,
    >)
        ensures
            step == self.if_ran(ran, stage),
    {
        match Git::run(&self.uri, ran) {
            Ok(_) => Step::Perform(self.go(stage)),
            Err(error) => Step::Done(Err(error)),
        }
    }

    /// Goes on to a stage.
    fn go(self, stage: GitStage) -> (next: GitStore)
        ensures
            next == self.at(stage),
    {
        GitStore {
            name: self.name,
            clone_path: self.clone_path,
            final_path: self.final_path,
            uri: self.uri,
            ref_id: self.ref_id,
            staging: self.staging,
            original_index: self.original_index,
            stage,
        }
    }
}

impl Program for GitStore {
    type Output = Result<Stored, Error>;

    open spec fn wants(&self) -> Wanted {
        match self.stage {
            GitStage::EnsureDirs { dir, .. } => Action::EnsureDir(dir@),
            GitStage::Probe => Action::Exists(self.final_path@),
            GitStage::Refresh => self.in_working_copy(GitCommand::Fetch),
            GitStage::Check => self.in_working_copy(GitCommand::VerifyObject(self.ref_id@)),
            GitStage::DropClone => Action::RemoveDirAll(self.clone_path@),
            GitStage::DropFinal => Action::RemoveDirAll(self.final_path@),
            GitStage::Clone => Action::Git {
                command: GitCommand::Clone {
                    mirror: self.staging,
                    source: self.uri@.text,
                    target: self.clone_path@,
                },
                cwd: None,
            },
            GitStage::CloneMirror => Action::Git {
                command: GitCommand::Clone {
                    mirror: false,
                    source: self.clone_path@,
                    target: self.final_path@,
                },
                cwd: None,
            },
            GitStage::Reset { .. } => self.in_working_copy(GitCommand::ResetHard(self.ref_id@)),
            GitStage::Submodules { .. } => self.in_working_copy(GitCommand::UpdateSubmodules),
            GitStage::Resolve { .. } => Action::ResolveRef {
                path: self.final_path@,
                ref_id: self.ref_id@,
                uri: self.uri@.text,
            },
        }
    }

    open spec fn after(self, reply: Reply) -> Step<Self, Self::Output> {
        match (self.stage, reply) {
            (GitStage::EnsureDirs { then_dir, .. }, Reply::Io(Ok(_))) => Step::Perform(
                self.at(
                    match then_dir {
                        Some(dir) => GitStage::EnsureDirs { dir, then_dir: None },
                        None => GitStage::Probe,
                    },
                ),
            ),
            (GitStage::EnsureDirs { .. }, Reply::Io(Err(error))) => Step::Done(
                Err(Error::Io(error)),
            ),
            (GitStage::Probe, Reply::Found(exists)) => Step::Perform(
                self.at(
                    if exists {
                        GitStage::Refresh
                    } else {
                        GitStage::DropClone
                    },
                ),
            ),
            (GitStage::Refresh, Reply::Ran(ran)) => self.if_ran(ran, GitStage::Check),
            (GitStage::Check, Reply::Ran(ran)) => Step::Perform(
                self.at(
                    if ran == Ok::<bool, IoError>(true) {
                        GitStage::Reset { cached: true }
                    } else {
                        GitStage::DropClone
                    },
                ),
            ),
            (GitStage::DropClone, Reply::Io(_)) => Step::Perform(
                self.at(
                    if self.staging {
                        GitStage::DropFinal
                    } else {
                        GitStage::Clone
                    },
                ),
            ),
            (GitStage::DropFinal, Reply::Io(_)) => Step::Perform(self.at(GitStage::Clone)),
            (GitStage::Clone, Reply::Ran(ran)) => self.if_ran(
                ran,
                if self.staging {
                    GitStage::CloneMirror
                } else {
                    GitStage::Reset { cached: false }
                },
            ),
            (GitStage::CloneMirror, Reply::Ran(ran)) => self.if_ran(
                ran,
                GitStage::Reset { cached: false },
            ),
            (GitStage::Reset { cached }, Reply::Ran(ran)) => self.if_ran(
                ran,
                GitStage::Submodules { cached },
            ),
            (GitStage::Submodules { cached }, Reply::Ran(ran)) => self.if_ran(
                ran,
                GitStage::Resolve { cached },
            ),
            (GitStage::Resolve { cached }, Reply::Resolved(Ok(hash))) => Step::Done(
                Ok(self.stored(cached, hash)),
            ),
            (GitStage::Resolve { .. }, Reply::Resolved(Err(error))) => Step::Done(
                Err(Error::Git(error)),
            ),
            _ => Step::Perform(self),
        }
    }

    fn action(&self) -> (action: Request) {
        match &self.stage {
            GitStage::EnsureDirs { dir, .. } => Action::EnsureDir(dir.clone()),
            GitStage::Probe => Action::Exists(self.final_path.clone()),
            GitStage::Refresh => Action::Git {
                command: GitCommand::Fetch,
                cwd: Some(self.final_path.clone()),
            },
            GitStage::Check => Action::Git {
                command: GitCommand::VerifyObject(self.ref_id.clone()),
                cwd: Some(self.final_path.clone()),
            },
            GitStage::DropClone => Action::RemoveDirAll(self.clone_path.clone()),
            GitStage::DropFinal => Action::RemoveDirAll(self.final_path.clone()),
            GitStage::Clone => Action::Git {
                command: GitCommand::Clone {
                    mirror: self.staging,
                    source: self.uri.as_str().to_owned(),
                    target: self.clone_path.clone(),
                },
                cwd: None,
            },
            GitStage::CloneMirror => Action::Git {
                command: GitCommand::Clone {
                    mirror: false,
                    source: self.clone_path.clone(),
                    target: self.final_path.clone(),
                },
                cwd: None,
            },
            GitStage::Reset { .. } => Action::Git {
                command: GitCommand::ResetHard(self.ref_id.clone()),
                cwd: Some(self.final_path.clone()),
            },
            GitStage::Submodules { .. } => Action::Git {
                command: GitCommand::UpdateSubmodules,
                cwd: Some(self.final_path.clone()),
            },
            GitStage::Resolve { .. } => Action::ResolveRef {
                path: self.final_path.clone(),
                ref_id: self.ref_id.clone(),
                uri: self.uri.as_str().to_owned(),
            },
        }
    }

    fn resume(self, reply: Reply) -> (step: Step<Self, Self::Output>) {
        let GitStore {
            name,
            clone_path,
            final_path,
            uri,
            ref_id,
            staging,
            original_index,
            stage,
        } = self;
        let store = GitStore {
            name,
            clone_path,
            final_path,
            uri,
            ref_id,
            staging,
            original_index,
            stage: GitStage::Probe,
        };
        match (stage, reply) {
            (GitStage::EnsureDirs { then_dir, .. }, Reply::Io(Ok(_))) => Step::Perform(
                store.go(
                    match then_dir {
                        Some(dir) => GitStage::EnsureDirs { dir, then_dir: None },
                        None => GitStage::Probe,
                    },
                ),
            ),
            (GitStage::EnsureDirs { .. }, Reply::Io(Err(error))) => Step::Done(
                Err(Error::Io(error)),
            ),
            (GitStage::Probe, Reply::Found(exists)) => Step::Perform(
                store.go(
                    if exists {
                        GitStage::Refresh
                    } else {
                        GitStage::DropClone
                    },
                ),
            ),
            (GitStage::Refresh, Reply::Ran(ran)) => store.after_run(ran, GitStage::Check),
            (GitStage::Check, Reply::Ran(ran)) => {
                let has_ref = match ran {
                    Ok(success) => success,
                    Err(_) => false,
                };
                Step::Perform(
                    store.go(
                        if has_ref {
                            GitStage::Reset { cached: true }
                        } else {
                            GitStage::DropClone
                        },
                    ),
                )
            },
            (GitStage::DropClone, Reply::Io(_)) => Step::Perform(
                store.go(
                    if staging {
                        GitStage::DropFinal
                    } else {
                        GitStage::Clone
                    },
                ),
            ),
            (GitStage::DropFinal, Reply::Io(_)) => Step::Perform(store.go(GitStage::Clone)),
            (GitStage::Clone, Reply::Ran(ran)) => store.after_run(
                ran,
                if staging {
                    GitStage::CloneMirror
                } else {
                    GitStage::Reset { cached: false }
                },
            ),
            (GitStage::CloneMirror, Reply::Ran(ran)) => store.after_run(
                ran,
                GitStage::Reset { cached: false },
            ),
            (GitStage::Reset { cached }, Reply::Ran(ran)) => store.after_run(
                ran,
                GitStage::Submodules { cached },
            ),
            (GitStage::Submodules { cached }, Reply::Ran(ran)) => store.after_run(
                ran,
                GitStage::Resolve { cached },
            ),
            (GitStage::Resolve { cached }, Reply::Resolved(Ok(resolved_hash))) => Step::Done(
                Ok(
                    Stored::Git {
                        name: store.name,
                        path: store.final_path,
                        was_cached: cached,
                        uri: store.uri,
                        original_ref: store.ref_id,
                        resolved_hash,
                        original_index: store.original_index,
                    },
                ),
            ),
            (GitStage::Resolve { .. }, Reply::Resolved(Err(error))) => Step::Done(
                Err(Error::Git(error)),
            ),
            (stage, _) => Step::Perform(store.go(stage)),
        }
    }
}

/// The storing of an upstream.
#[derive(Debug)]
pub enum Storing {
    Plain(PlainStore),
    Git(GitStore),
}

impl Storing {
    /// Whether this is the beginning of storing an upstream.
    pub open spec fn is_start_of(self, upstream: Upstream, upstreams: Seq<char>) -> bool {
        match upstream {
            Upstream::Plain(plain) => self matches Storing::Plain(store) && store.is_start_of(
                plain,
                upstreams,
            ),
            Upstream::Git(git) => self matches Storing::Git(store) && store.is_start_of(
                git,
                upstreams,
            ),
        }
    }
}

impl Program for Storing {
    type Output = Result<Stored, Error>;

    open spec fn wants(&self) -> Wanted {
        match *self {
            Storing::Plain(store) => store.wants(),
            Storing::Git(store) => store.wants(),
        }
    }

    open spec fn after(self, reply: Reply) -> Step<Self, Self::Output> {
        match self {
            Storing::Plain(store) => match store.after(reply) {
                Step::Perform(store) => Step::Perform(Storing::Plain(store)),
                Step::Done(result) => Step::Done(result),
            },
            Storing::Git(store) => match store.after(reply) {
                Step::Perform(store) => Step::Perform(Storing::Git(store)),
                Step::Done(result) => Step::Done(result),
            },
        }
    }

    fn action(&self) -> (action: Request) {
        match self {
            Storing::Plain(store) => store.action(),
            Storing::Git(store) => store.action(),
        }
    }

    fn resume(self, reply: Reply) -> (step: Step<Self, Self::Output>) {
        match self {
            Storing::Plain(store) => match store.resume(reply) {
                Step::Perform(store) => Step::Perform(Storing::Plain(store)),
                Step::Done(result) => Step::Done(result),
            },
            Storing::Git(store) => match store.resume(reply) {
                Step::Perform(store) => Step::Perform(Storing::Git(store)),
                Step::Done(result) => Step::Done(result),
            },
        }
    }
}

/// The stages of installing an upstream.
#[derive(Debug)]
pub enum InstallStage {
    /// It is being stored.
    Store(Storing),
    /// It is being shared.
    Share(Share, Stored),
}

/// The installing of an upstream: it is stored in the cache, and then shared at a path.
#[derive(Debug)]
pub struct Installation {
    pub target: String,
    pub stage: InstallStage,
}

impl Installation {
    /// Whether this is the beginning of installing an upstream in a directory.
    pub open spec fn is_start_of(
        self,
        upstream: Upstream,
        upstreams: Seq<char>,
        dest_dir: Seq<char>,
    ) -> bool {
        &&& self.target@ == path::joined(dest_dir, upstream.shared_name())
        &&& self.stage matches InstallStage::Store(storing) && storing.is_start_of(
            upstream,
            upstreams,
        )
    }
}

impl Program for Installation {
    type Output = Result<Stored, Error>;

    open spec fn wants(&self) -> Wanted {
        match self.stage {
            InstallStage::Store(storing) => storing.wants(),
            InstallStage::Share(share, _) => share.wants(),
        }
    }

    open spec fn after(self, reply: Reply) -> Step<Self, Self::Output> {
        match self.stage {
            InstallStage::Store(storing) => match storing.after(reply) {
                Step::Perform(storing) => Step::Perform(
                    Installation { stage: InstallStage::Store(storing), ..self },
                ),
                Step::Done(Ok(stored)) => Step::Perform(
                    Installation {
                        stage: InstallStage::Share(stored.share_at(self.target), stored),
                        ..self
                    },
                ),
                Step::Done(Err(error)) => Step::Done(Err(error)),
            },
            InstallStage::Share(share, stored) => match share.after(reply) {
                Step::Perform(share) => Step::Perform(
                    Installation { stage: InstallStage::Share(share, stored), ..self },
                ),
                Step::Done(Ok(_)) => Step::Done(Ok(stored)),
                Step::Done(Err(error)) => Step::Done(Err(error)),
            },
        }
    }

    fn action(&self) -> (action: Request) {
        match &self.stage {
            InstallStage::Store(storing) => storing.action(),
            InstallStage::Share(share, _) => share.action(),
        }
    }

    fn resume(self, reply: Reply) -> (step: Step<Self, Self::Output>) {
        let Installation { target, stage } = self;
        match stage {
            InstallStage::Store(storing) => match storing.resume(reply) {
                Step::Perform(storing) => Step::Perform(
                    Installation { target, stage: InstallStage::Store(storing) },
                ),
                Step::Done(Ok(stored)) => {
                    let share = stored.share_to(target.clone());
                    Step::Perform(
                        Installation { target, stage: InstallStage::Share(share, stored) },
                    )
                },
                Step::Done(Err(error)) => Step::Done(Err(error)),
            },
            InstallStage::Share(share, stored) => match share.resume(reply) {
                Step::Perform(share) => Step::Perform(
                    Installation { target, stage: InstallStage::Share(share, stored) },
                ),
                Step::Done(Ok(_)) => Step::Done(Ok(stored)),
                Step::Done(Err(error)) => Step::Done(Err(error)),
            },
        }
    }
}

} // verus!
