//! Upstreams that are a single archive.

use crate::cache;
use crate::effect::{
    Action, IoError, IoErrorKind, Program, Reply, Request, RequestError, Step, Wanted,
};
use crate::path;
use crate::removal;
use crate::removal::Entry;
use crate::text;
use crate::uri::Url;
use std::ops::Deref;
use std::str::FromStr;
use vstd::prelude::*;
use vstd::string::*;
use vstd::utf8::*;

verus! {

/// The digest that an archive is expected to have: a text of five bytes or more.
#[derive(Debug)]
pub struct Hash(String);

/// Why a text is no [`Hash`].
#[derive(Debug)]
pub enum ParseHashError {
    /// The text is shorter than five bytes.
    TooShort(String),
}

/// Whether a text is long enough for a [`Hash`]: five bytes in UTF-8.
pub open spec fn long_enough(text: Seq<char>) -> bool {
    encode_utf8(text).len() >= 5
}

impl View for Hash {
    type V = Seq<char>;

    closed spec fn view(&self) -> Seq<char> {
        self.0@
    }
}

impl Clone for Hash {
    fn clone(&self) -> (copy: Self)
        ensures
            copy == *self,
    {
        proof {
            use_type_invariant(self);
        }
        Hash(self.0.clone())
    }
}

impl PartialEq for Hash {
    fn eq(&self, other: &Self) -> (equal: bool) {
        self.0 == other.0
    }
}

impl vstd::std_specs::cmp::PartialEqSpecImpl for Hash {
    open spec fn obeys_eq_spec() -> bool {
        true
    }

    open spec fn eq_spec(&self, other: &Self) -> bool {
        self@ == other@
    }
}

impl Eq for Hash {
}

impl ParseHashError {
    /// What the error says of itself.
    pub open spec fn says(self) -> Seq<char> {
        match self {
            ParseHashError::TooShort(text) => "hash too short: "@ + text@,
        }
    }

    /// The error in words.
    pub fn message(&self) -> (message: String)
        ensures
            message@ == self.says(),
    {
        match self {
            ParseHashError::TooShort(text) => "hash too short: ".to_owned().concat(text.as_str()),
        }
    }
}

impl Hash {
    #[verifier::type_invariant]
    spec fn is_long_enough(self) -> bool {
        long_enough(self.0@)
    }

    /// Reads a digest. Only a text of fewer than five bytes is refused.
    pub fn from_str(s: &str) -> (hash: Result<Hash, ParseHashError>)
        ensures
            match hash {
                Ok(hash) => long_enough(s@) && hash@ == s@,
                Err(ParseHashError::TooShort(text)) => !long_enough(s@) && text@ == s@,
            },
    {
        if s.as_bytes().len() < 5 {
            return Err(ParseHashError::TooShort(s.to_owned()));
        }
        Ok(Hash(s.to_owned()))
    }

    /// The digest as text.
    pub fn as_str(&self) -> (text: &str)
        ensures
            text@ == self@,
            long_enough(text@),
    {
        proof {
            use_type_invariant(self);
        }
        self.0.as_str()
    }

    /// Whether two digests are the same text.
    pub fn same_as(&self, other: &Hash) -> (same: bool)
        ensures
            same == (self@ == other@),
    {
        self.0 == other.0
    }

    /// The digest as an owned text.
    pub closed spec fn text(self) -> String {
        self.0
    }

    /// The owned text of a digest is its text.
    pub proof fn lemma_text(self)
        ensures
            self.text()@ == self@,
    {
    }

    /// The digest as an owned text.
    pub fn to_text(&self) -> (text: String)
        ensures
            text == self.text(),
            text@ == self@,
    {
        self.0.clone()
    }
}

impl FromStr for Hash {
    type Err = ParseHashError;

    fn from_str(s: &str) -> (hash: Result<Hash, ParseHashError>)
        ensures
            match hash {
                Ok(hash) => long_enough(s@) && hash@ == s@,
                Err(ParseHashError::TooShort(text)) => !long_enough(s@) && text@ == s@,
            },
    {
        Hash::from_str(s)
    }
}

impl TryFrom<String> for Hash {
    type Error = ParseHashError;

    fn try_from(value: String) -> (hash: Result<Hash, ParseHashError>)
        ensures
            match hash {
                Ok(hash) => long_enough(value@) && hash.text() == value && hash@ == value@,
                Err(ParseHashError::TooShort(text)) => !long_enough(value@) && text == value,
            },
    {
        if value.as_str().as_bytes().len() < 5 {
            return Err(ParseHashError::TooShort(value));
        }
        Ok(Hash(value))
    }
}

impl vstd::std_specs::convert::TryFromSpecImpl<String> for Hash {
    open spec fn obeys_try_from_spec() -> bool {
        true
    }

    closed spec fn try_from_spec(value: String) -> Result<Hash, ParseHashError> {
        if long_enough(value@) {
            Ok(Hash(value))
        } else {
            Err(ParseHashError::TooShort(value))
        }
    }
}

impl Deref for Hash {
    type Target = str;

    fn deref(&self) -> (text: &str)
        ensures
            text@ == self@,
    {
        self.0.as_str()
    }
}

impl Hash {
    /// What the text of a digest comes to.
    pub closed spec fn parsed(text: String) -> Result<Hash, ParseHashError> {
        if long_enough(text@) {
            Ok(Hash(text))
        } else {
            Err(ParseHashError::TooShort(text))
        }
    }

    /// Reads a digest from a text of its own.
    pub fn of_text(text: String) -> (hash: Result<Hash, ParseHashError>)
        ensures
            hash == Hash::parsed(text),
    {
        Hash::try_from(text)
    }

    /// A text is refused exactly when it is shorter than five bytes, and is kept as it is
    /// otherwise.
    pub proof fn lemma_parsed(text: String)
        ensures
            match Hash::parsed(text) {
                Ok(hash) => long_enough(text@) && hash@ == text@,
                Err(ParseHashError::TooShort(refused)) => !long_enough(text@) && refused == text,
            },
    {
    }
}

/// Why an archive could not be stored, shared or removed.
#[derive(Debug)]
pub enum Error {
    /// The digest of the download is none.
    ParseHash(ParseHashError),
    /// The download is not the archive that was expected.
    HashMismatch { name: String, expected: String, got: Hash },
    /// The download failed.
    Request(RequestError),
    /// A file or a directory could not be dealt with.
    Io(IoError),
}

impl From<IoError> for Error {
    fn from(error: IoError) -> Error {
        Error::Io(error)
    }
}

impl vstd::std_specs::convert::FromSpecImpl<IoError> for Error {
    open spec fn obeys_from_spec() -> bool {
        true
    }

    open spec fn from_spec(error: IoError) -> Error {
        Error::Io(error)
    }
}

impl Error {
    /// What the error says of itself.
    pub open spec fn says(self) -> Seq<char> {
        match self {
            Error::ParseHash(_) => "parse hash"@,
            Error::HashMismatch { name, expected, got } => "hash mismatch for "@ + name@
                + ", expected "@ + text::quoted(expected@) + " got "@ + text::quoted(got@),
            Error::Request(_) => "request"@,
            Error::Io(_) => "io"@,
        }
    }

    /// The error in words.
    pub fn message(&self) -> (message: String)
        ensures
            message@ == self.says(),
    {
        match self {
            Error::ParseHash(_) => "parse hash".to_owned(),
            Error::HashMismatch { name, expected, got } => {
                let mut message = "hash mismatch for ".to_owned();
                message.append(name.as_str());
                message.append(", expected ");
                message.append(text::quote(expected.as_str()).as_str());
                message.append(" got ");
                message.append(text::quote(got.as_str()).as_str());
                message
            },
            Error::Request(_) => "request".to_owned(),
            Error::Io(_) => "io".to_owned(),
        }
    }
}

/// What a download comes to: the digest that it reports, or why there is none.
pub open spec fn fetched(downloaded: Result<String, RequestError>) -> Result<Hash, Error> {
    match downloaded {
        Ok(digest) => match Hash::parsed(digest) {
            Ok(hash) => Ok(hash),
            Err(error) => Err(Error::ParseHash(error)),
        },
        Err(error) => Err(Error::Request(error)),
    }
}

/// Takes the digest that a download reports.
pub fn fetch(downloaded: Result<String, RequestError>) -> (hash: Result<Hash, Error>)
    ensures
        hash == fetched(downloaded),
{
    match downloaded {
        Ok(digest) => match Hash::of_text(digest) {
            Ok(hash) => Ok(hash),
            Err(error) => Err(Error::ParseHash(error)),
        },
        Err(error) => Err(Error::Request(error)),
    }
}

/// An archive to download.
#[derive(Debug)]
pub struct Plain {
    /// Where the archive comes from.
    pub url: Url,
    /// The digest that it must have.
    pub hash: Hash,
    /// The name to share it under, where that is not the one in the URL.
    pub rename: Option<String>,
}

impl Clone for Plain {
    fn clone(&self) -> (copy: Self)
        ensures
            copy == *self,
    {
        Plain {
            url: self.url.clone(),
            hash: self.hash.clone(),
            rename: crate::uri::copy_of(&self.rename),
        }
    }
}

impl Plain {
    /// The name that the archive is shared under.
    pub open spec fn shared_name(self) -> Seq<char> {
        match self.rename {
            Some(name) => name@,
            None => self.url@.file_name,
        }
    }

    /// Whether the URL and the digest are few enough bytes to be hashed together.
    pub open spec fn can_be_hashed(self) -> bool {
        cache::can_be_hashed(self.url@.text, self.hash@)
    }

    /// Where the archive is kept, below the storage directory.
    pub open spec fn place(self) -> Seq<char> {
        cache::place(Seq::empty(), cache::key(self.url@.text, self.hash@))
    }

    /// Where the archive is kept.
    pub open spec fn place_in(self, storage_dir: Seq<char>) -> Seq<char> {
        path::joined(storage_dir, self.place())
    }

    /// Makes an upstream of a new archive: the digest that its download reported is the
    /// one to expect from now on.
    pub fn fetch_new_progress(url: Url, downloaded: Result<String, RequestError>) -> (plain: Result<
        Plain,
        Error,
    >)
        ensures
            plain == match fetched(downloaded) {
                Ok(hash) => Ok(Plain { url, hash, rename: None }),
                Err(error) => Err(error),
            },
    {
        match fetch(downloaded) {
            Ok(hash) => Ok(Plain { url, hash, rename: None }),
            Err(error) => Err(error),
        }
    }

    /// The name that the archive is shared under: the one it was given, or else the one in
    /// its URL.
    pub fn name(&self) -> (name: &str)
        ensures
            name@ == self.shared_name(),
    {
        match &self.rename {
            Some(name) => name.as_str(),
            None => self.url.file_name(),
        }
    }

    /// The path of the archive below the storage directory. The URL and the digest are
    /// hashed together for it.
    pub fn file_path(&self) -> (path: String)
        requires
            self.can_be_hashed(),
        ensures
            path@ == self.place(),
            cache::key(self.url@.text, self.hash@).len() == 64,
    {
        let key = cache::key_of(self.url.as_str(), self.hash.as_str());
        let none = String::new();
        cache::place_of(none.as_str(), key.as_str())
    }

    /// The path of the archive.
    pub fn stored_path(&self, storage_dir: &str) -> (path: String)
        requires
            self.can_be_hashed(),
        ensures
            path@ == self.place_in(storage_dir@),
            cache::key(self.url@.text, self.hash@).len() == 64,
    {
        path::join(storage_dir, self.file_path().as_str())
    }

    /// Stores the archive: what is there already is taken as it is, anything else is
    /// downloaded and kept only if it has the expected digest.
    pub fn store(&self, storage_dir: &str) -> (store: Store)
        requires
            self.can_be_hashed(),
        ensures
            store.is_start_of(*self, storage_dir@),
            cache::key(self.url@.text, self.hash@).len() == 64,
    {
        let path = self.stored_path(storage_dir);
        proof {
            let key = cache::key(self.url@.text, self.hash@);
            cache::lemma_hex_holds_no_separator(
                crate::digest::sha256(cache::message(self.url@.text, self.hash@)),
            );
            cache::lemma_place_is_relative(storage_dir@, key);
            cache::lemma_parent_of_place(storage_dir@, key);
        }
        Store {
            name: self.name().to_owned(),
            dir: path::parent(path.as_str()).unwrap(),
            path,
            url: self.url.as_str().to_owned(),
            hash: self.hash.clone(),
            stage: StoreStage::Probe,
        }
    }

    /// Removes the archive from the cache, along with the directories that this leaves
    /// empty. The storage directory itself stays.
    pub fn remove(&self, storage_dir: &str) -> (removal: Removal)
        requires
            self.can_be_hashed(),
        ensures
            removal.is_start_of(seq![Entry::File(self.place_in(storage_dir@))], storage_dir@),
    {
        let path = path::join(storage_dir, self.file_path().as_str());
        let entries = vec![Entry::File(path)];
        assert(removal::entries_view(entries@) =~= seq![
            Entry::File(self.place_in(storage_dir@)),
        ]);
        Removal { steps: removal::Removal::new(entries, storage_dir.to_owned()) }
    }
}

/// The removal of an archive, up to the first step that fails.
#[derive(Debug)]
pub struct Removal {
    pub steps: removal::Removal,
}

impl Removal {
    /// Whether this is the beginning of removing the entries.
    pub open spec fn is_start_of(self, entries: Seq<Entry<Seq<char>>>, root: Seq<char>) -> bool {
        self.steps.is_start_of(entries, root)
    }
}

impl Program for Removal {
    type Output = Result<(), Error>;

    open spec fn wants(&self) -> Wanted {
        self.steps.wants()
    }

    open spec fn after(self, reply: Reply) -> Step<Self, Self::Output> {
        match self.steps.after(reply) {
            Step::Perform(steps) => Step::Perform(Removal { steps }),
            Step::Done(Ok(_)) => Step::Done(Ok(())),
            Step::Done(Err(error)) => Step::Done(Err(Error::Io(error))),
        }
    }

    fn action(&self) -> (action: Request) {
        self.steps.action()
    }

    fn resume(self, reply: Reply) -> (step: Step<Self, Self::Output>) {
        match self.steps.resume(reply) {
            Step::Perform(steps) => Step::Perform(Removal { steps }),
            Step::Done(Ok(_)) => Step::Done(Ok(())),
            Step::Done(Err(error)) => Step::Done(Err(Error::Io(error))),
        }
    }
}

/// A removal asks for one step after another, in order. It succeeds exactly when all have
/// been taken; a failure ends it at once, with the error of the step that failed.
pub proof fn lemma_removal_conversation(
    removal: Removal,
    entries: Seq<Entry<Seq<char>>>,
    root: Seq<char>,
    replies: Seq<Reply>,
)
    requires
        removal.is_start_of(entries, root),
        crate::effect::answered(removal, replies),
    ensures
        ({
            let trace = crate::effect::trace(removal, replies);
            let all = removal::steps(entries, root);
            &&& trace.len() == replies.len() <= all.len()
            &&& trace == all.take(trace.len() as int)
            &&& match crate::effect::run(removal, replies) {
                Step::Perform(_) => trace.len() < all.len() && forall|i: int|
                    0 <= i < replies.len() ==> #[trigger] replies[i] is Io
                        && replies[i]->Io_0 is Ok,
                Step::Done(Ok(_)) => trace == all && forall|i: int|
                    0 <= i < replies.len() ==> #[trigger] replies[i] is Io
                        && replies[i]->Io_0 is Ok,
                Step::Done(Err(error)) => error matches Error::Io(cause) && replies.last()
                    == Reply::Io(Err(cause)),
            }
        }),
{
    lemma_removal_is_its_steps(removal, replies);
    removal::lemma_removal_conversation(removal.steps, replies);
    assert(entries.skip(0) =~= entries);
}

proof fn lemma_removal_is_its_steps(removal: Removal, replies: Seq<Reply>)
    ensures
        crate::effect::answered(removal, replies) == crate::effect::answered(
            removal.steps,
            replies,
        ),
        crate::effect::trace(removal, replies) == crate::effect::trace(removal.steps, replies),
        crate::effect::run(removal, replies) == match crate::effect::run(removal.steps, replies) {
            Step::Perform(steps) => Step::Perform(Removal { steps }),
            Step::Done(Ok(_)) => Step::Done(Ok(())),
            Step::Done(Err(error)) => Step::Done(Err(Error::Io(error))),
        },
    decreases replies.len(),
{
    if replies.len() > 0 {
        if let Step::Perform(next) = removal.after(replies[0]) {
            lemma_removal_is_its_steps(next, replies.drop_first());
        }
    }
}

/// An archive in the cache.
#[derive(Debug)]
pub struct StoredPlain {
    /// The name to share it under.
    pub name: String,
    /// The path of the file.
    pub path: String,
    /// Whether it was there already.
    pub was_cached: bool,
}

impl Clone for StoredPlain {
    fn clone(&self) -> (copy: Self)
        ensures
            copy == *self,
    {
        StoredPlain {
            name: self.name.clone(),
            path: self.path.clone(),
            was_cached: self.was_cached,
        }
    }
}

impl StoredPlain {
    /// Makes the archive available in a directory, under its name.
    pub fn share(&self, dest_dir: &str) -> (share: Share)
        ensures
            share.from == self.path,
            share.to@ == path::joined(dest_dir@, self.name@),
            share.stage is Link,
    {
        Share {
            from: self.path.clone(),
            to: path::join(dest_dir, self.name.as_str()),
            stage: ShareStage::Link,
        }
    }
}

/// The stages of sharing an archive.
#[derive(Debug)]
pub enum ShareStage {
    /// It is being linked.
    Link,
    /// It is being copied.
    Copy,
}

/// The sharing of an archive: a link, or a copy where the two paths lie on different
/// filesystems.
#[derive(Debug)]
pub struct Share {
    pub from: String,
    pub to: String,
    pub stage: ShareStage,
}

impl Program for Share {
    type Output = Result<(), Error>;

    open spec fn wants(&self) -> Wanted {
        match self.stage {
            ShareStage::Link => Action::HardLink { from: self.from@, to: self.to@ },
            ShareStage::Copy => Action::Copy { from: self.from@, to: self.to@ },
        }
    }

    open spec fn after(self, reply: Reply) -> Step<Self, Self::Output> {
        match (self.stage, reply) {
            (_, Reply::Io(Ok(_))) => Step::Done(Ok(())),
            (ShareStage::Link, Reply::Io(Err(error))) => if error.kind
                == IoErrorKind::CrossesDevices {
                Step::Perform(Share { stage: ShareStage::Copy, ..self })
            } else {
                Step::Done(Err(Error::Io(error)))
            },
            (ShareStage::Copy, Reply::Io(Err(error))) => Step::Done(Err(Error::Io(error))),
            _ => Step::Perform(self),
        }
    }

    fn action(&self) -> (action: Request) {
        match self.stage {
            ShareStage::Link => Action::HardLink { from: self.from.clone(), to: self.to.clone() },
            ShareStage::Copy => Action::Copy { from: self.from.clone(), to: self.to.clone() },
        }
    }

    fn resume(self, reply: Reply) -> (step: Step<Self, Self::Output>) {
        let Share { from, to, stage } = self;
        match (stage, reply) {
            (_, Reply::Io(Ok(_))) => Step::Done(Ok(())),
            (ShareStage::Link, Reply::Io(Err(error))) => if error.kind
                == IoErrorKind::CrossesDevices {
                Step::Perform(Share { from, to, stage: ShareStage::Copy })
            } else {
                Step::Done(Err(Error::Io(error)))
            },
            (ShareStage::Copy, Reply::Io(Err(error))) => Step::Done(Err(Error::Io(error))),
            (stage, _) => Step::Perform(Share { from, to, stage }),
        }
    }
}

/// The stages of storing an archive.
#[derive(Debug)]
pub enum StoreStage {
    /// Is the archive there?
    Probe,
    /// Its directory is being made.
    EnsureDir,
    /// It is being downloaded.
    Download,
    /// A download with another digest is being removed.
    Discard(Hash),
}

/// The storing of an archive.
#[derive(Debug)]
pub struct Store {
    pub name: String,
    pub dir: String,
    pub path: String,
    pub url: String,
    pub hash: Hash,
    pub stage: StoreStage,
}

impl Store {
    /// Whether this is the beginning of storing an archive in a directory.
    pub open spec fn is_start_of(self, plain: Plain, storage_dir: Seq<char>) -> bool {
        &&& self.name@ == plain.shared_name()
        &&& self.path@ == plain.place_in(storage_dir)
        &&& path::parent_dir(self.path@) == Some(self.dir@)
        &&& self.url@ == plain.url@.text
        &&& self.hash == plain.hash
        &&& self.stage is Probe
    }

    /// The same storing, at another stage.
    pub open spec fn at(self, stage: StoreStage) -> Store {
        Store { stage, ..self }
    }

    /// The archive in the cache.
    pub open spec fn stored(self, was_cached: bool) -> StoredPlain {
        StoredPlain { name: self.name, path: self.path, was_cached }
    }
}

impl Program for Store {
    type Output = Result<StoredPlain, Error>;

    open spec fn wants(&self) -> Wanted {
        match self.stage {
            StoreStage::Probe => Action::Exists(self.path@),
            StoreStage::EnsureDir => Action::EnsureDir(self.dir@),
            StoreStage::Download => Action::Download { url: self.url@, dest: self.path@ },
            StoreStage::Discard(_) => Action::RemoveFile(self.path@),
        }
    }

    open spec fn after(self, reply: Reply) -> Step<Self, Self::Output> {
        match (self.stage, reply) {
            (StoreStage::Probe, Reply::Found(true)) => Step::Done(Ok(self.stored(true))),
            (StoreStage::Probe, Reply::Found(false)) => Step::Perform(
                self.at(StoreStage::EnsureDir),
            ),
            (StoreStage::EnsureDir, Reply::Io(Ok(_))) => Step::Perform(
                self.at(StoreStage::Download),
            ),
            (StoreStage::EnsureDir, Reply::Io(Err(error))) => Step::Done(Err(Error::Io(error))),
            (StoreStage::Download, Reply::Downloaded(downloaded)) => match fetched(downloaded) {
                Ok(got) => if got@ == self.hash@ {
                    Step::Done(Ok(self.stored(false)))
                } else {
                    Step::Perform(self.at(StoreStage::Discard(got)))
                },
                Err(error) => Step::Done(Err(error)),
            },
            (StoreStage::Discard(got), Reply::Io(Ok(_))) => Step::Done(
                Err(Error::HashMismatch { name: self.name, expected: self.hash.text(), got }),
            ),
            (StoreStage::Discard(_), Reply::Io(Err(error))) => Step::Done(Err(Error::Io(error))),
            _ => Step::Perform(self),
        }
    }

    fn action(&self) -> (action: Request) {
        match self.stage {
            StoreStage::Probe => Action::Exists(self.path.clone()),
            StoreStage::EnsureDir => Action::EnsureDir(self.dir.clone()),
            StoreStage::Download => Action::Download {
                url: self.url.clone(),
                dest: self.path.clone(),
            },
            StoreStage::Discard(_) => Action::RemoveFile(self.path.clone()),
        }
    }

    fn resume(self, reply: Reply) -> (step: Step<Self, Self::Output>) {
        let Store { name, dir, path, url, hash, stage } = self;
        match (stage, reply) {
            (StoreStage::Probe, Reply::Found(true)) => Step::Done(
                Ok(StoredPlain { name, path, was_cached: true }),
            ),
            (StoreStage::Probe, Reply::Found(false)) => Step::Perform(
                Store { name, dir, path, url, hash, stage: StoreStage::EnsureDir },
            ),
            (StoreStage::EnsureDir, Reply::Io(Ok(_))) => Step::Perform(
                Store { name, dir, path, url, hash, stage: StoreStage::Download },
            ),
            (StoreStage::EnsureDir, Reply::Io(Err(error))) => Step::Done(Err(Error::Io(error))),
            (StoreStage::Download, Reply::Downloaded(downloaded)) => match fetch(downloaded) {
                Ok(got) => if got.same_as(&hash) {
                    Step::Done(Ok(StoredPlain { name, path, was_cached: false }))
                } else {
                    Step::Perform(
                        Store { name, dir, path, url, hash, stage: StoreStage::Discard(got) },
                    )
                },
                Err(error) => Step::Done(Err(error)),
            },
            (StoreStage::Discard(got), Reply::Io(Ok(_))) => Step::Done(
                Err(Error::HashMismatch { name, expected: hash.to_text(), got }),
            ),
            (StoreStage::Discard(_), Reply::Io(Err(error))) => Step::Done(Err(Error::Io(error))),
            (stage, _) => Step::Perform(Store { name, dir, path, url, hash, stage }),
        }
    }
}

/// How storing an archive ends, whatever the host replies.
///
/// An archive that was there already is handed over untouched: nothing but its presence is
/// asked for. One that was not there is handed over only after a download whose digest is
/// the expected one. A mismatch is reported only after the download has been removed.
pub proof fn lemma_store_conversation(store: Store, replies: Seq<Reply>)
    requires
        store.stage is Probe,
        crate::effect::answered(store, replies),
    ensures
        crate::effect::run(store, replies) matches Step::Done(result) ==> {
            let trace = crate::effect::trace(store, replies);
            let probe = seq![Wanted::Exists(store.path@)];
            let download = probe.push(Action::EnsureDir(store.dir@)).push(
                Action::Download { url: store.url@, dest: store.path@ },
            );
            match result {
                Ok(stored) => {
                    &&& stored == store.stored(stored.was_cached)
                    &&& stored.was_cached ==> trace == probe
                    &&& !stored.was_cached ==> {
                        &&& trace == download
                        &&& replies[2] matches Reply::Downloaded(Ok(digest))
                        &&& digest@ == store.hash@
                    }
                },
                Err(Error::HashMismatch { name, expected, got }) => {
                    &&& name == store.name
                    &&& expected == store.hash.text()
                    &&& expected@ == store.hash@
                    &&& got@ != store.hash@
                    &&& trace == download.push(Action::RemoveFile(store.path@))
                    &&& replies[2] matches Reply::Downloaded(Ok(digest))
                    &&& digest@ == got@
                },
                Err(_) => true,
            }
        },
{
    reveal_with_fuel(crate::effect::run, 6);
    reveal_with_fuel(crate::effect::trace, 6);
    reveal_with_fuel(crate::effect::answered, 6);
    store.hash.lemma_text();
    if replies.len() > 2 {
        if let Reply::Downloaded(Ok(digest)) = replies[2] {
            Hash::lemma_parsed(digest);
        }
    }
}

/// What storing an archive comes to, from what the host finds: whether the file exists, how
/// making its directory went, what the download reported, and how removing it went.
pub open spec fn store_result(
    store: Store,
    exists: bool,
    made_dir: Result<(), IoError>,
    downloaded: Result<String, RequestError>,
    removed: Result<(), IoError>,
) -> Result<StoredPlain, Error> {
    if exists {
        Ok(store.stored(true))
    } else if made_dir is Err {
        Err(Error::Io(made_dir->Err_0))
    } else if fetched(downloaded) is Err {
        Err(fetched(downloaded)->Err_0)
    } else if fetched(downloaded)->Ok_0@ == store.hash@ {
        Ok(store.stored(false))
    } else if removed is Err {
        Err(Error::Io(removed->Err_0))
    } else {
        Err(
            Error::HashMismatch {
                name: store.name,
                expected: store.hash.text(),
                got: fetched(downloaded)->Ok_0,
            },
        )
    }
}

/// Storing an archive comes to [`store_result`] of what the host finds.
pub proof fn lemma_store_result(
    store: Store,
    exists: bool,
    made_dir: Result<(), IoError>,
    downloaded: Result<String, RequestError>,
    removed: Result<(), IoError>,
)
    requires
        store.stage is Probe,
    ensures
        crate::effect::run(
            store,
            seq![
                Reply::Found(exists),
                Reply::Io(made_dir),
                Reply::Downloaded(downloaded),
                Reply::Io(removed),
            ],
        ) == Step::<Store, _>::Done(store_result(store, exists, made_dir, downloaded, removed)),
{
    reveal_with_fuel(crate::effect::run, 6);
}

/// An archive is copied only where linking it found two filesystems, and any other failure
/// to link it is reported as it is.
pub proof fn lemma_share_result(
    share: Share,
    linked: Result<(), IoError>,
    copied: Result<(), IoError>,
)
    requires
        share.stage is Link,
    ensures
        crate::effect::run(share, seq![Reply::Io(linked), Reply::Io(copied)]) == Step::<Share, _>::Done(
            match linked {
                Ok(_) => Ok(()),
                Err(error) => if error.kind == IoErrorKind::CrossesDevices {
                    match copied {
                        Ok(_) => Ok(()),
                        Err(error) => Err(Error::Io(error)),
                    }
                } else {
                    Err(Error::Io(error))
                },
            },
        ),
        crate::effect::trace(share, seq![Reply::Io(linked), Reply::Io(copied)]) == if linked
            matches Err(error) && error.kind == IoErrorKind::CrossesDevices {
            seq![
                Wanted::HardLink { from: share.from@, to: share.to@ },
                Action::Copy { from: share.from@, to: share.to@ },
            ]
        } else {
            seq![Wanted::HardLink { from: share.from@, to: share.to@ }]
        },
{
    reveal_with_fuel(crate::effect::run, 3);
    reveal_with_fuel(crate::effect::trace, 3);
}

/// An archive that has been stored is found by whoever stores it again: it is looked for
/// where it was put, and then handed over as cached, under the same name.
pub proof fn lemma_stored_archive_is_found_again(
    plain: Plain,
    storage_dir: Seq<char>,
    first: Store,
    replies: Seq<Reply>,
    stored: StoredPlain,
    second: Store,
)
    requires
        first.is_start_of(plain, storage_dir),
        crate::effect::answered(first, replies),
        crate::effect::run(first, replies) == Step::<Store, _>::Done(
            Ok::<StoredPlain, Error>(stored),
        ),
        second.is_start_of(plain, storage_dir),
    ensures
        second.wants() == Wanted::Exists(stored.path@),
        crate::effect::run(second, seq![Reply::Found(true)]) matches Step::Done(Ok(again)) && {
            &&& again.was_cached
            &&& again.path@ == stored.path@
            &&& again.name@ == stored.name@
        },
{
    lemma_store_conversation(first, replies);
    reveal_with_fuel(crate::effect::run, 2);
}

/// What has been stored is what a removal removes.
pub proof fn lemma_removal_reaches_what_is_stored(
    plain: Plain,
    storage_dir: Seq<char>,
    store: Store,
    replies: Seq<Reply>,
    stored: StoredPlain,
    removal: Removal,
)
    requires
        store.is_start_of(plain, storage_dir),
        crate::effect::answered(store, replies),
        crate::effect::run(store, replies) == Step::<Store, _>::Done(
            Ok::<StoredPlain, Error>(stored),
        ),
        removal.is_start_of(seq![Entry::File(plain.place_in(storage_dir))], storage_dir),
    ensures
        removal.wants() == Wanted::RemoveFile(stored.path@),
{
    lemma_store_conversation(store, replies);
}

/// An archive is kept elsewhere as soon as its URL or its digest changes such that other
/// bytes are hashed for its path, unless SHA-256 digests the old bytes and the new ones
/// alike.
pub proof fn lemma_stored_path_changes(plain: Plain, changed: Plain, storage_dir: Seq<char>)
    requires
        cache::message(plain.url@.text, plain.hash@) != cache::message(
            changed.url@.text,
            changed.hash@,
        ),
        crate::digest::sha256(cache::message(plain.url@.text, plain.hash@))
            == crate::digest::sha256(cache::message(changed.url@.text, changed.hash@))
            ==> cache::message(plain.url@.text, plain.hash@) == cache::message(
            changed.url@.text,
            changed.hash@,
        ),
        cache::key(plain.url@.text, plain.hash@).len() == 64,
        cache::key(changed.url@.text, changed.hash@).len() == 64,
    ensures
        plain.place_in(storage_dir) != changed.place_in(storage_dir),
{
    let digest = crate::digest::sha256(cache::message(plain.url@.text, plain.hash@));
    let changed_digest = crate::digest::sha256(cache::message(changed.url@.text, changed.hash@));
    cache::lemma_hex_holds_no_separator(digest);
    cache::lemma_hex_holds_no_separator(changed_digest);
    cache::lemma_place_is_relative(storage_dir, cache::key(plain.url@.text, plain.hash@));
    cache::lemma_place_is_relative(storage_dir, cache::key(changed.url@.text, changed.hash@));
    cache::lemma_place_changes_with_message(
        storage_dir,
        plain.url@.text,
        plain.hash@,
        changed.url@.text,
        changed.hash@,
    );
}

/// A text is a digest exactly when it is five bytes or more in UTF-8, and then it is that
/// text; any other is refused with the text that it is.
pub proof fn lemma_digest_of_text(text: String)
    ensures
        long_enough(text@) <==> encode_utf8(text@).len() >= 5,
        match Hash::parsed(text) {
            Ok(hash) => encode_utf8(text@).len() >= 5 && hash@ == text@ && hash.text() == text,
            Err(ParseHashError::TooShort(refused)) => encode_utf8(text@).len() < 5 && refused
                == text,
        },
{
}

/// What a download comes to: the digest that it reports if that is one, the refusal of what it
/// reports otherwise, and its error if it failed.
pub proof fn lemma_fetched(downloaded: Result<String, RequestError>)
    ensures
        match downloaded {
            Ok(text) => if encode_utf8(text@).len() >= 5 {
                fetched(downloaded) matches Ok(hash) && hash@ == text@
            } else {
                fetched(downloaded) matches Err(
                    Error::ParseHash(ParseHashError::TooShort(refused)),
                ) && refused == text
            },
            Err(error) => fetched(downloaded) matches Err(Error::Request(cause)) && cause == error,
        },
{
    if let Ok(text) = downloaded {
        Hash::lemma_parsed(text);
    }
}

/// Errors say what they are; a refused digest is shown, and so are the archive, the digest
/// that was expected and the one that came, where they do not match.
pub proof fn lemma_errors_say(error: Error, refusal: ParseHashError)
    ensures
        refusal matches ParseHashError::TooShort(text) && refusal.says() == "hash too short: "@
            + text@,
        match error {
            Error::ParseHash(_) => error.says() == "parse hash"@,
            Error::HashMismatch { name, expected, got } => error.says() == "hash mismatch for "@
                + name@ + ", expected "@ + text::quoted(expected@) + " got "@ + text::quoted(got@),
            Error::Request(_) => error.says() == "request"@,
            Error::Io(_) => error.says() == "io"@,
        },
{
}

/// An archive is shared under the name that it was given, and under that in its URL where it
/// was given none.
pub proof fn lemma_shared_name(plain: Plain)
    ensures
        plain.rename matches Some(name) ==> plain.shared_name() == name@,
        plain.rename is None ==> plain.shared_name() == plain.url@.file_name,
{
}

/// An archive is kept, below its storage directory, in a directory named after the last five
/// characters of its key, in one named after the first five, under its key: the digest of its
/// URL followed by its hash, in hexadecimal.
pub proof fn lemma_place_in(plain: Plain, storage_dir: Seq<char>)
    requires
        cache::key(plain.url@.text, plain.hash@).len() == 64,
    ensures
        ({
            let key = crate::digest::hex(
                crate::digest::sha256(encode_utf8(plain.url@.text) + encode_utf8(plain.hash@)),
            );
            let place = key.take(5).push('/') + key.skip(59).push('/') + key;
            &&& plain.place() == place
            &&& plain.place_in(storage_dir) == path::joined(storage_dir, place)
        }),
{
    let key = cache::key(plain.url@.text, plain.hash@);
    let none = Seq::<char>::empty();
    cache::lemma_message(plain.url@.text, plain.hash@);
    cache::lemma_hex_holds_no_separator(
        crate::digest::sha256(cache::message(plain.url@.text, plain.hash@)),
    );
    cache::lemma_place(none, key);
    cache::lemma_place(storage_dir, key);
    cache::lemma_place_is_relative(storage_dir, key);
    let place = key.take(5).push('/') + key.skip(59).push('/') + key;
    assert(key[0] != '/');
    assert(path::joined(none, place) =~= place);
}

/// What storing an archive does and comes to, from the archive and from what the host finds.
///
/// An archive that exists is handed over as cached, and nothing else is asked for. Otherwise
/// its directory is made and its URL is downloaded to its place. A download with the digest
/// that the archive must have is handed over; one with another is removed and reported, with
/// both digests. Whatever fails is reported as it is.
pub proof fn lemma_store_of_archive(
    plain: Plain,
    storage_dir: Seq<char>,
    store: Store,
    exists: bool,
    made_dir: Result<(), IoError>,
    downloaded: Result<String, RequestError>,
    removed: Result<(), IoError>,
)
    requires
        store.is_start_of(plain, storage_dir),
    ensures
        ({
            let path = plain.place_in(storage_dir);
            let replies = seq![
                Reply::Found(exists),
                Reply::Io(made_dir),
                Reply::Downloaded(downloaded),
                Reply::Io(removed),
            ];
            let trace = crate::effect::trace(store, replies);
            let all = seq![
                Wanted::Exists(path),
                Wanted::EnsureDir(path::parent_dir(path)->Some_0),
                Wanted::Download { url: plain.url@.text, dest: path },
                Wanted::RemoveFile(path),
            ];
            &&& path::parent_dir(path) is Some
            &&& crate::effect::run(store, replies) matches Step::Done(result)
            &&& if exists {
                &&& trace == all.take(1)
                &&& result matches Ok(stored) && stored.was_cached && stored.path@ == path
                    && stored.name@ == plain.shared_name()
            } else if made_dir is Err {
                &&& trace == all.take(2)
                &&& result == Err::<StoredPlain, Error>(Error::Io(made_dir->Err_0))
            } else if downloaded is Err {
                &&& trace == all.take(3)
                &&& result == Err::<StoredPlain, Error>(Error::Request(downloaded->Err_0))
            } else if encode_utf8(downloaded->Ok_0@).len() < 5 {
                &&& trace == all.take(3)
                &&& result == Err::<StoredPlain, Error>(
                    Error::ParseHash(ParseHashError::TooShort(downloaded->Ok_0)),
                )
            } else if downloaded->Ok_0@ == plain.hash@ {
                &&& trace == all.take(3)
                &&& result matches Ok(stored) && !stored.was_cached && stored.path@ == path
                    && stored.name@ == plain.shared_name()
            } else if removed is Err {
                &&& trace == all
                &&& result == Err::<StoredPlain, Error>(Error::Io(removed->Err_0))
            } else {
                &&& trace == all
                &&& result matches Err(Error::HashMismatch { name, expected, got }) && name@
                    == plain.shared_name() && expected@ == plain.hash@ && got@
                    == downloaded->Ok_0@
            }
        }),
{
    reveal_with_fuel(crate::effect::run, 5);
    reveal_with_fuel(crate::effect::trace, 5);
    plain.hash.lemma_text();
    lemma_fetched(downloaded);
}

/// Removing an archive removes the file at its place, and then the directories above it that
/// are empty, up to its storage directory; it succeeds exactly when both do.
pub proof fn lemma_remove_of_archive(
    plain: Plain,
    storage_dir: Seq<char>,
    removal: Removal,
    removed: Result<(), IoError>,
    pruned: Result<(), IoError>,
)
    requires
        removal.is_start_of(seq![Entry::File(plain.place_in(storage_dir))], storage_dir),
        path::parent_dir(plain.place_in(storage_dir)) is Some,
    ensures
        ({
            let path = plain.place_in(storage_dir);
            let start = path::parent_dir(path)->Some_0;
            let replies = seq![Reply::Io(removed), Reply::Io(pruned)];
            let trace = crate::effect::trace(removal, replies);
            &&& trace.len() > 0
            &&& trace[0] == Wanted::RemoveFile(path)
            &&& trace.len() == if removed is Ok {
                2int
            } else {
                1int
            }
            &&& removed is Ok ==> trace[1] == (Wanted::RemoveEmptyDirs {
                start,
                root: storage_dir,
            })
            &&& crate::effect::run(removal, replies) == Step::<Removal, _>::Done(
                match (removed, pruned) {
                    (Err(error), _) => Err::<(), Error>(Error::Io(error)),
                    (Ok(_), Err(error)) => Err(Error::Io(error)),
                    (Ok(_), Ok(_)) => Ok(()),
                },
            )
        }),
{
    reveal_with_fuel(crate::effect::run, 3);
    reveal_with_fuel(crate::effect::trace, 3);
    removal.steps.lemma_at(0, true);
}

/// Two digests are equal exactly when their texts are.
pub proof fn lemma_equal_digests(a: Hash, b: Hash)
    ensures
        vstd::std_specs::cmp::PartialEqSpec::eq_spec(&a, &b) <==> a@ == b@,
{
}

/// A reply to something else than a program waits for leaves the program where it is.
pub proof fn lemma_other_replies_change_nothing(
    store: Store,
    share: Share,
    removal: Removal,
    reply: Reply,
)
    ensures
        crate::effect::minds_its_replies(store, reply),
        crate::effect::minds_its_replies(share, reply),
        removal.steps.is_at_an_entry() ==> crate::effect::minds_its_replies(removal, reply),
{
}

} // verus!
