//! The upstreams of a recipe.

use crate::build::store::{
    GitStage, GitStore, InstallStage, Installation, PlainStage, PlainStore, Storing,
};
use crate::build::syncing::Sync;
use crate::cache;
use crate::effect::{
    FetchError, IoError, Program, Reply, Request, RequestError, Step, Wanted,
};
use crate::path;
use crate::recipe;
use crate::recipe::{Kind, Props, Recipe, SourceUri};
use crate::removal;
use crate::removal::Entry;
use crate::text;
use crate::upstream::git::GitError;
use crate::upstream::plain;
use crate::uri::Url;
use vstd::prelude::*;
use vstd::string::*;

pub use crate::upstream::plain::ParseHashError;

verus! {

/// The digest that an archive is expected to have.
pub type Hash = plain::Hash;

/// Why upstreams could not be made available.
#[derive(Debug)]
pub enum Error {
    /// The git program failed on the repository.
    GitFailed(Url),
    /// A digest is none.
    ParseHash(ParseHashError),
    /// A download is not the archive that was expected.
    HashMismatch { name: String, expected: String, got: Hash },
    /// A download failed.
    Request(RequestError),
    /// A file, a directory or a program could not be dealt with.
    Io(IoError),
    /// No commit could be found for a reference.
    Git(GitError),
}

impl Error {
    /// What the error says of itself.
    pub open spec fn says(self) -> Seq<char> {
        match self {
            Error::GitFailed(uri) => "failed to clone "@ + uri@.text,
            Error::ParseHash(_) => "parse hash"@,
            Error::HashMismatch { name, expected, got } => "hash mismatch for "@ + name@
                + ", expected "@ + text::quoted(expected@) + " got Hash("@ + text::quoted(got@)
                + ")"@,
            Error::Request(_) => "request"@,
            Error::Io(_) => "io"@,
            Error::Git(_) => "git"@,
        }
    }

    /// The error of a fetch that failed.
    pub fn of_fetch(error: FetchError) -> (result: Error)
        ensures
            result == fetch_failed(error),
    {
        match error {
            FetchError::ParseHash(error) => Error::ParseHash(error),
            FetchError::Request(error) => Error::Request(error),
            FetchError::Io(error) => Error::Io(error),
        }
    }

    /// The error in words.
    pub fn message(&self) -> (message: String)
        ensures
            message@ == self.says(),
    {
        match self {
            Error::GitFailed(uri) => "failed to clone ".to_owned().concat(uri.as_str()),
            Error::ParseHash(_) => "parse hash".to_owned(),
            Error::HashMismatch { name, expected, got } => {
                let mut message = "hash mismatch for ".to_owned();
                message.append(name.as_str());
                message.append(", expected ");
                message.append(text::quote(expected.as_str()).as_str());
                message.append(" got Hash(");
                message.append(text::quote(got.as_str()).as_str());
                message.append(")");
                message
            },
            Error::Request(_) => "request".to_owned(),
            Error::Io(_) => "io".to_owned(),
            Error::Git(_) => "git".to_owned(),
        }
    }
}

impl From<IoError> for Error {
    fn from(error: IoError) -> Error {
        Error::Io(error)
    }
}

impl vstd::std_specs::convert::FromSpecImpl<IoError> for Error {
    open spec fn obeys_from_spec() -> bool {
        true
    }

    open spec fn from_spec(error: IoError) -> Error {
        Error::Io(error)
    }
}

impl From<FetchError> for Error {
    fn from(error: FetchError) -> Error {
        Error::of_fetch(error)
    }
}

impl vstd::std_specs::convert::FromSpecImpl<FetchError> for Error {
    open spec fn obeys_from_spec() -> bool {
        true
    }

    open spec fn from_spec(error: FetchError) -> Error {
        fetch_failed(error)
    }
}

/// The error of a fetch that failed.
pub open spec fn fetch_failed(error: FetchError) -> Error {
    match error {
        FetchError::ParseHash(error) => Error::ParseHash(error),
        FetchError::Request(error) => Error::Request(error),
        FetchError::Io(error) => Error::Io(error),
    }
}

/// Where upstreams go.
#[derive(Debug)]
pub struct Paths {
    /// The directory that upstreams are cached in.
    pub upstreams: String,
    /// The directory that they are shared in with the build container.
    pub shared: String,
}

/// An archive to build from.
#[derive(Debug)]
pub struct Plain {
    pub url: Url,
    pub hash: Hash,
    pub rename: Option<String>,
}

impl Clone for Plain {
    fn clone(&self) -> (copy: Self)
        ensures
            copy == *self,
    {
        Plain {
            url: self.url.clone(),
            hash: self.hash.clone(),
            rename: crate::uri::copy_of(&self.rename),
        }
    }
}

impl Plain {
    /// The name that the archive is shared under.
    pub open spec fn shared_name(self) -> Seq<char> {
        match self.rename {
            Some(name) => name@,
            None => self.url@.file_name,
        }
    }

    /// Whether the URL and the digest are few enough bytes to be hashed together.
    pub open spec fn can_be_hashed(self) -> bool {
        cache::can_be_hashed(self.url@.text, self.hash@)
    }

    /// Where the archive is kept, below the directory that upstreams are cached in.
    pub open spec fn place_in(self, upstreams: Seq<char>) -> Seq<char> {
        cache::place(
            path::joined(upstreams, "fetched"@),
            cache::key(self.url@.text, self.hash@),
        )
    }

    /// Makes an upstream of a new archive: the digest that it was fetched with is the one to
    /// expect from now on.
    pub fn fetch_new_progress(url: Url, fetched: Result<Hash, FetchError>) -> (plain: Result<
        Plain,
        Error,
    >)
        ensures
            plain == match fetched {
                Ok(hash) => Ok(Plain { url, hash, rename: None }),
                Err(error) => Err(fetch_failed(error)),
            },
    {
        match fetched {
            Ok(hash) => Ok(Plain { url, hash, rename: None }),
            Err(error) => Err(Error::of_fetch(error)),
        }
    }

    /// The name that the archive is shared under: the one it was given, or else the one in
    /// its URL.
    pub fn name(&self) -> (name: &str)
        ensures
            name@ == self.shared_name(),
    {
        match &self.rename {
            Some(name) => name.as_str(),
            None => self.url.file_name(),
        }
    }

    /// The path of the archive in the cache. The URL and the digest are hashed together for
    /// it, so that it changes with either.
    pub fn path(&self, paths: &Paths) -> (path: String)
        requires
            self.can_be_hashed(),
        ensures
            path@ == self.place_in(paths.upstreams@),
            cache::key(self.url@.text, self.hash@).len() == 64,
    {
        let key = cache::key_of(self.url.as_str(), self.hash.as_str());
        let base = path::join(paths.upstreams.as_str(), "fetched");
        cache::place_of(base.as_str(), key.as_str())
    }

    /// Stores the archive: what is there already is taken as it is, anything else is fetched
    /// to a partial file, which gets the place of the archive only if it has the expected
    /// digest.
    pub fn store(&self, paths: &Paths) -> (store: PlainStore)
        requires
            self.can_be_hashed(),
        ensures
            store.is_start_of(*self, paths.upstreams@),
            cache::key(self.url@.text, self.hash@).len() == 64,
    {
        let path = self.path(paths);
        proof {
            let key = cache::key(self.url@.text, self.hash@);
            cache::lemma_hex_holds_no_separator(
                crate::digest::sha256(cache::message(self.url@.text, self.hash@)),
            );
            cache::lemma_parent_of_place(path::joined(paths.upstreams@, "fetched"@), key);
        }
        PlainStore {
            name: self.name().to_owned(),
            dir: path::parent(path.as_str()).unwrap(),
            partial: path.clone().concat(".part"),
            path,
            url: self.url.as_str().to_owned(),
            hash: self.hash.clone(),
            stage: PlainStage::EnsureDir,
        }
    }
}

/// A git repository to build from.
#[derive(Debug)]
pub struct Git {
    pub uri: Url,
    pub ref_id: String,
    pub staging: bool,
    pub original_index: usize,
}

impl Clone for Git {
    fn clone(&self) -> (copy: Self)
        ensures
            copy == *self,
    {
        Git {
            uri: self.uri.clone(),
            ref_id: self.ref_id.clone(),
            staging: self.staging,
            original_index: self.original_index,
        }
    }
}

impl Git {
    /// Where the working copy is kept, below the directory that upstreams are cached in.
    pub open spec fn final_place(self, upstreams: Seq<char>) -> Seq<char> {
        path::joined(path::joined(upstreams, "git"@), self.uri@.relative_path)
    }

    /// Where the mirror is kept.
    pub open spec fn staging_place(self, upstreams: Seq<char>) -> Seq<char> {
        path::joined(
            path::joined(path::joined(upstreams, "staging"@), "git"@),
            self.uri@.relative_path,
        )
    }

    /// Where the repository is cloned to: the mirror, or the working copy where there is no
    /// mirror.
    pub open spec fn clone_place(self, upstreams: Seq<char>) -> Seq<char> {
        if self.staging {
            self.staging_place(upstreams)
        } else {
            self.final_place(upstreams)
        }
    }

    /// The name that the repository is shared under.
    pub fn name(&self) -> (name: &str)
        ensures
            name@ == self.uri@.file_name,
    {
        self.uri.file_name()
    }

    /// The path of the working copy.
    pub fn final_path(&self, paths: &Paths) -> (path: String)
        ensures
            path@ == self.final_place(paths.upstreams@),
    {
        let base = path::join(paths.upstreams.as_str(), "git");
        path::join(base.as_str(), self.uri.relative_path())
    }

    /// The path of the mirror.
    pub fn staging_path(&self, paths: &Paths) -> (path: String)
        ensures
            path@ == self.staging_place(paths.upstreams@),
    {
        let base = path::join(paths.upstreams.as_str(), "staging");
        let base = path::join(base.as_str(), "git");
        path::join(base.as_str(), self.uri.relative_path())
    }

    /// Stores the repository: a working copy that has the reference is taken, any other is
    /// cloned anew. Either way it is put at the reference, submodules included.
    pub fn store(&self, paths: &Paths) -> (store: GitStore)
        ensures
            store.is_start_of(*self, paths.upstreams@),
    {
        let clone_path = if self.staging {
            self.staging_path(paths)
        } else {
            self.final_path(paths)
        };
        let final_path = self.final_path(paths);
        let stage = GitStage::first(
            path::parent(clone_path.as_str()),
            path::parent(final_path.as_str()),
        );
        GitStore {
            name: self.name().to_owned(),
            clone_path,
            final_path,
            uri: self.uri.clone(),
            ref_id: self.ref_id.clone(),
            staging: self.staging,
            original_index: self.original_index,
            stage,
        }
    }

    /// Takes the outcome of running the git program for this repository: a run that did not
    /// end in success counts against the repository.
    pub fn run(uri: &Url, ran: Result<bool, IoError>) -> (result: Result<(), Error>)
        ensures
            result == run_result(*uri, ran),
    {
        match ran {
            Ok(true) => Ok(()),
            Ok(false) => Err(Error::GitFailed(uri.clone())),
            Err(error) => Err(Error::Io(error)),
        }
    }
}

/// What a run of the git program comes to.
pub open spec fn run_result(uri: Url, ran: Result<bool, IoError>) -> Result<(), Error> {
    match ran {
        Ok(true) => Ok(()),
        Ok(false) => Err(Error::GitFailed(uri)),
        Err(error) => Err(Error::Io(error)),
    }
}

/// Something to build from.
#[derive(Debug)]
pub enum Upstream {
    Plain(Plain),
    Git(Git),
}

impl Clone for Upstream {
    fn clone(&self) -> (copy: Self)
        ensures
            copy == *self,
    {
        match self {
            Upstream::Plain(plain) => Upstream::Plain(plain.clone()),
            Upstream::Git(git) => Upstream::Git(git.clone()),
        }
    }
}

/// What a source that a recipe names comes to.
pub open spec fn of_recipe(upstream: recipe::Upstream, original_index: usize) -> Result<
    Upstream,
    Error,
> {
    match upstream.props {
        Props::Plain { hash, rename } => match Hash::parsed(hash) {
            Ok(hash) => Ok(Upstream::Plain(Plain { url: upstream.url, hash, rename })),
            Err(error) => Err(Error::ParseHash(error)),
        },
        Props::Git { git_ref, staging } => Ok(
            Upstream::Git(Git { uri: upstream.url, ref_id: git_ref, staging, original_index }),
        ),
    }
}

impl Upstream {
    /// Whether an archive's URL and digest are few enough bytes to be hashed together.
    pub open spec fn can_be_stored(self) -> bool {
        self matches Upstream::Plain(plain) ==> plain.can_be_hashed()
    }

    /// The name that the upstream is shared under.
    pub open spec fn shared_name(self) -> Seq<char> {
        match self {
            Upstream::Plain(plain) => plain.shared_name(),
            Upstream::Git(git) => git.uri@.file_name,
        }
    }

    /// What the upstream leaves in the cache.
    pub open spec fn cached_entries(self, upstreams: Seq<char>) -> Seq<Entry<Seq<char>>> {
        match self {
            Upstream::Plain(plain) => seq![Entry::File(plain.place_in(upstreams))],
            Upstream::Git(git) => seq![
                Entry::Tree(git.staging_place(upstreams)),
                Entry::Tree(git.final_place(upstreams)),
            ],
        }
    }

    /// Makes an upstream of a source that a recipe names. Only an archive whose digest is
    /// too short is refused.
    pub fn from_recipe(upstream: recipe::Upstream, original_index: usize) -> (result: Result<
        Upstream,
        Error,
    >)
        ensures
            result == of_recipe(upstream, original_index),
    {
        match upstream.props {
            Props::Plain { hash, rename } => match Hash::of_text(hash) {
                Ok(hash) => Ok(Upstream::Plain(Plain { url: upstream.url, hash, rename })),
                Err(error) => Err(Error::ParseHash(error)),
            },
            Props::Git { git_ref, staging } => Ok(
                Upstream::Git(Git { uri: upstream.url, ref_id: git_ref, staging, original_index }),
            ),
        }
    }

    /// Makes an upstream of a new archive that has been fetched.
    pub fn fetch_new(uri: SourceUri, fetched: Result<Hash, FetchError>) -> (upstream: Result<
        Upstream,
        Error,
    >)
        requires
            uri.kind == Kind::Archive,
        ensures
            upstream == match fetched {
                Ok(hash) => Ok(Upstream::Plain(Plain { url: uri.url, hash, rename: None })),
                Err(error) => Err(fetch_failed(error)),
            },
    {
        match Plain::fetch_new_progress(uri.url, fetched) {
            Ok(plain) => Ok(Upstream::Plain(plain)),
            Err(error) => Err(error),
        }
    }

    /// The name that the upstream is shared under.
    pub fn name(&self) -> (name: &str)
        ensures
            name@ == self.shared_name(),
    {
        match self {
            Upstream::Plain(plain) => plain.name(),
            Upstream::Git(git) => git.name(),
        }
    }

    /// Stores the upstream.
    pub fn store(&self, paths: &Paths) -> (storing: Storing)
        requires
            self.can_be_stored(),
        ensures
            storing.is_start_of(*self, paths.upstreams@),
    {
        match self {
            Upstream::Plain(plain) => Storing::Plain(plain.store(paths)),
            Upstream::Git(git) => Storing::Git(git.store(paths)),
        }
    }
}

/// The removal of upstreams from the cache, up to the first step that fails.
#[derive(Debug)]
pub struct Removal {
    pub steps: removal::Removal,
}

impl Removal {
    /// Whether this is the beginning of removing the entries.
    pub open spec fn is_start_of(self, entries: Seq<Entry<Seq<char>>>, root: Seq<char>) -> bool {
        self.steps.is_start_of(entries, root)
    }
}

impl Program for Removal {
    type Output = Result<(), Error>;

    open spec fn wants(&self) -> Wanted {
        self.steps.wants()
    }

    open spec fn after(self, reply: Reply) -> Step<Self, Self::Output> {
        match self.steps.after(reply) {
            Step::Perform(steps) => Step::Perform(Removal { steps }),
            Step::Done(Ok(_)) => Step::Done(Ok(())),
            Step::Done(Err(error)) => Step::Done(Err(Error::Io(error))),
        }
    }

    fn action(&self) -> (action: Request) {
        self.steps.action()
    }

    fn resume(self, reply: Reply) -> (step: Step<Self, Self::Output>) {
        match self.steps.resume(reply) {
            Step::Perform(steps) => Step::Perform(Removal { steps }),
            Step::Done(Ok(_)) => Step::Done(Ok(())),
            Step::Done(Err(error)) => Step::Done(Err(Error::Io(error))),
        }
    }
}

/// A removal asks for one step after another, in order. It succeeds exactly when all have
/// been taken; a failure ends it at once, with the error of the step that failed.
pub proof fn lemma_removal_conversation(
    removal: Removal,
    entries: Seq<Entry<Seq<char>>>,
    root: Seq<char>,
    replies: Seq<Reply>,
)
    requires
        removal.is_start_of(entries, root),
        crate::effect::answered(removal, replies),
    ensures
        ({
            let trace = crate::effect::trace(removal, replies);
            let all = removal::steps(entries, root);
            &&& trace.len() == replies.len() <= all.len()
            &&& trace == all.take(trace.len() as int)
            &&& match crate::effect::run(removal, replies) {
                Step::Perform(_) => trace.len() < all.len() && forall|i: int|
                    0 <= i < replies.len() ==> #[trigger] replies[i] is Io
                        && replies[i]->Io_0 is Ok,
                Step::Done(Ok(_)) => trace == all && forall|i: int|
                    0 <= i < replies.len() ==> #[trigger] replies[i] is Io
                        && replies[i]->Io_0 is Ok,
                Step::Done(Err(error)) => error matches Error::Io(cause) && replies.last()
                    == Reply::Io(Err(cause)),
            }
        }),
{
    lemma_removal_is_its_steps(removal, replies);
    removal::lemma_removal_conversation(removal.steps, replies);
    assert(entries.skip(0) =~= entries);
}

proof fn lemma_removal_is_its_steps(removal: Removal, replies: Seq<Reply>)
    ensures
        crate::effect::answered(removal, replies) == crate::effect::answered(
            removal.steps,
            replies,
        ),
        crate::effect::trace(removal, replies) == crate::effect::trace(removal.steps, replies),
        crate::effect::run(removal, replies) == match crate::effect::run(removal.steps, replies) {
            Step::Perform(steps) => Step::Perform(Removal { steps }),
            Step::Done(Ok(_)) => Step::Done(Ok(())),
            Step::Done(Err(error)) => Step::Done(Err(Error::Io(error))),
        },
    decreases replies.len(),
{
    if replies.len() > 0 {
        if let Step::Perform(next) = removal.after(replies[0]) {
            lemma_removal_is_its_steps(next, replies.drop_first());
        }
    }
}

impl Upstream {
    /// Stores the upstream, and then shares it in a directory under its name.
    pub fn install(&self, paths: &Paths) -> (installation: Installation)
        requires
            self.can_be_stored(),
        ensures
            installation.is_start_of(*self, paths.upstreams@, paths.shared@),
    {
        Installation {
            target: path::join(paths.shared.as_str(), self.name()),
            stage: InstallStage::Store(self.store(paths)),
        }
    }

    /// Appends what the upstream leaves in the cache to a list.
    fn list_entries(&self, paths: &Paths, entries: &mut Vec<Entry<String>>)
        requires
            self.can_be_stored(),
        ensures
            removal::entries_view(final(entries)@) == removal::entries_view(
                old(entries)@,
            ) + self.cached_entries(paths.upstreams@),
    {
        match self {
            Upstream::Plain(plain) => entries.push(Entry::File(plain.path(paths))),
            Upstream::Git(git) => {
                entries.push(Entry::Tree(git.staging_path(paths)));
                entries.push(Entry::Tree(git.final_path(paths)));
            },
        }
        assert(removal::entries_view(entries@) =~= removal::entries_view(
            old(entries)@,
        ) + self.cached_entries(paths.upstreams@));
    }

    /// Removes the upstream from the cache, along with the directories that this leaves
    /// empty.
    pub fn remove(&self, paths: &Paths) -> (removal: Removal)
        requires
            self.can_be_stored(),
        ensures
            removal.is_start_of(self.cached_entries(paths.upstreams@), paths.upstreams@),
    {
        let mut entries: Vec<Entry<String>> = Vec::new();
        self.list_entries(paths, &mut entries);
        assert(removal::entries_view(entries@) =~= self.cached_entries(paths.upstreams@));
        Removal { steps: removal::Removal::new(entries, paths.upstreams.clone()) }
    }
}

impl Plain {
    /// Removes the archive from the cache, along with the directories that this leaves
    /// empty.
    pub fn remove(&self, paths: &Paths) -> (removal: Removal)
        requires
            self.can_be_hashed(),
        ensures
            removal.is_start_of(
                seq![Entry::File(self.place_in(paths.upstreams@))],
                paths.upstreams@,
            ),
    {
        let entries = vec![Entry::File(self.path(paths))];
        assert(removal::entries_view(entries@) =~= seq![
            Entry::File(self.place_in(paths.upstreams@)),
        ]);
        Removal { steps: removal::Removal::new(entries, paths.upstreams.clone()) }
    }
}

impl Git {
    /// Removes the mirror and the working copy, along with the directories that this leaves
    /// empty.
    pub fn remove(&self, paths: &Paths) -> (removal: Removal)
        ensures
            removal.is_start_of(
                seq![
                    Entry::Tree(self.staging_place(paths.upstreams@)),
                    Entry::Tree(self.final_place(paths.upstreams@)),
                ],
                paths.upstreams@,
            ),
    {
        let entries = vec![
            Entry::Tree(self.staging_path(paths)),
            Entry::Tree(self.final_path(paths)),
        ];
        assert(removal::entries_view(entries@) =~= seq![
            Entry::Tree(self.staging_place(paths.upstreams@)),
            Entry::Tree(self.final_place(paths.upstreams@)),
        ]);
        Removal { steps: removal::Removal::new(entries, paths.upstreams.clone()) }
    }
}

/// Makes upstreams of all sources that a recipe names, in their order. The first that is
/// refused ends it.
pub fn parse(recipe: &Recipe) -> (result: Result<Vec<Upstream>, Error>)
    ensures
        match result {
            Ok(upstreams) => {
                &&& upstreams@.len() == recipe.upstreams@.len()
                &&& forall|i: int|
                    0 <= i < upstreams@.len() ==> of_recipe(recipe.upstreams@[i], i as usize) == Ok::<
                        Upstream,
                        Error,
                    >(#[trigger] upstreams@[i])
            },
            Err(error) => exists|i: int|
                {
                    &&& 0 <= i < recipe.upstreams@.len()
                    &&& #[trigger] of_recipe(recipe.upstreams@[i], i as usize) == Err::<
                        Upstream,
                        Error,
                    >(error)
                    &&& forall|j: int|
                        0 <= j < i ==> of_recipe(#[trigger] recipe.upstreams@[j], j as usize) is Ok
                },
        },
{
    let mut upstreams: Vec<Upstream> = Vec::new();
    for index in 0..recipe.upstreams.len()
        invariant
            upstreams@.len() == index,
            forall|i: int|
                0 <= i < index ==> of_recipe(recipe.upstreams@[i], i as usize) == Ok::<
                    Upstream,
                    Error,
                >(#[trigger] upstreams@[i]),
    {
        match Upstream::from_recipe(recipe.upstreams[index].clone(), index) {
            Ok(upstream) => upstreams.push(upstream),
            Err(error) => {
                assert forall|j: int| 0 <= j < index implies of_recipe(
                    #[trigger] recipe.upstreams@[j],
                    j as usize,
                ) is Ok by {
                    assert(of_recipe(recipe.upstreams@[j], j as usize) == Ok::<Upstream, Error>(
                        upstreams@[j],
                    ));
                }
                assert(of_recipe(recipe.upstreams@[index as int], index as usize) == Err::<
                    Upstream,
                    Error,
                >(error));
                return Err(error);
            },
        }
    }
    Ok(upstreams)
}

/// What the upstreams leave in the cache, one after another.
pub open spec fn all_entries(upstreams: Seq<Upstream>, dir: Seq<char>) -> Seq<Entry<Seq<char>>>
    decreases upstreams.len(),
{
    if upstreams.len() == 0 {
        Seq::empty()
    } else {
        all_entries(upstreams.drop_last(), dir) + upstreams.last().cached_entries(dir)
    }
}

/// Removes the upstreams from the cache, in their order. The first that cannot be removed
/// ends it.
pub fn remove(paths: &Paths, upstreams: &Vec<Upstream>) -> (step: Step<
    Removal,
    Result<(), Error>,
>)
    requires
        forall|i: int| 0 <= i < upstreams@.len() ==> #[trigger] upstreams@[i].can_be_stored(),
    ensures
        match step {
            Step::Perform(removal) => {
                &&& upstreams@.len() > 0
                &&& removal.is_start_of(
                    all_entries(upstreams@, paths.upstreams@),
                    paths.upstreams@,
                )
            },
            Step::Done(result) => upstreams@.len() == 0 && result == Ok::<(), Error>(()),
        },
{
    let mut entries: Vec<Entry<String>> = Vec::new();
    assert(removal::entries_view(entries@) =~= all_entries(
        upstreams@.take(0),
        paths.upstreams@,
    ));
    for i in 0..upstreams.len()
        invariant
            forall|i: int| 0 <= i < upstreams@.len() ==> #[trigger] upstreams@[i].can_be_stored(),
            removal::entries_view(entries@) == all_entries(
                upstreams@.take(i as int),
                paths.upstreams@,
            ),
            i > 0 ==> entries@.len() > 0,
    {
        assert(upstreams@[i as int].can_be_stored());
        upstreams[i].list_entries(paths, &mut entries);
        assert(upstreams@.take(i + 1).drop_last() =~= upstreams@.take(i as int));
        assert(removal::entries_view(entries@).len() > 0);
    }
    assert(upstreams@.take(upstreams@.len() as int) =~= upstreams@);
    match removal::Removal::start(entries, paths.upstreams.clone()) {
        Step::Perform(steps) => Step::Perform(Removal { steps }),
        Step::Done(_) => Step::Done(Ok(())),
    }
}

/// Makes the upstreams of a recipe available to its build, no more than `limit` at a time, and
/// then has the recipe say what commits the references in it stand for.
pub fn sync(
    recipe: &Recipe,
    paths: &Paths,
    upstreams: &Vec<Upstream>,
    limit: usize,
) -> (sync: Sync)
    requires
        limit > 0,
        forall|i: int| 0 <= i < upstreams@.len() ==> #[trigger] upstreams@[i].can_be_stored(),
    ensures
        sync@.dir == paths.shared@,
        sync@.installations.len() == upstreams@.len(),
        forall|i: int|
            0 <= i < upstreams@.len() ==> (#[trigger] sync@.installations[i]).is_start_of(
                upstreams@[i],
                paths.upstreams@,
                paths.shared@,
            ),
        sync@.limit == limit,
        sync@.source == recipe.source@,
        sync@.path == recipe.path@,
{
    let mut installations: Vec<Installation> = Vec::new();
    for i in 0..upstreams.len()
        invariant
            forall|i: int| 0 <= i < upstreams@.len() ==> #[trigger] upstreams@[i].can_be_stored(),
            installations@.len() == i,
            forall|j: int|
                0 <= j < i ==> (#[trigger] installations@[j]).is_start_of(
                    upstreams@[j],
                    paths.upstreams@,
                    paths.shared@,
                ),
    {
        assert(upstreams@[i as int].can_be_stored());
        installations.push(upstreams[i].install(paths));
    }
    Sync::new(
        paths.shared.clone(),
        installations,
        limit,
        recipe.source.clone(),
        recipe.path.clone(),
    )
}

} // verus!
