//! Removing what the cache holds.

use crate::effect::{Action, IoError, Program, Reply, Request, Step, Wanted};
use crate::path;
use vstd::prelude::*;

verus! {

/// Something to remove.
#[derive(Debug)]
pub enum Entry<S> {
    /// A file.
    File(S),
    /// A directory and all it holds.
    Tree(S),
}

impl View for Entry<String> {
    type V = Entry<Seq<char>>;

    open spec fn view(&self) -> Entry<Seq<char>> {
        match *self {
            Entry::File(path) => Entry::File(path@),
            Entry::Tree(path) => Entry::Tree(path@),
        }
    }
}

impl Entry<Seq<char>> {
    /// The action that removes the entry.
    pub open spec fn remove(self) -> Wanted {
        match self {
            Entry::File(path) => Action::RemoveFile(path),
            Entry::Tree(path) => Action::RemoveDirAll(path),
        }
    }

    /// The path of the entry.
    pub open spec fn path(self) -> Seq<char> {
        match self {
            Entry::File(path) => path,
            Entry::Tree(path) => path,
        }
    }

    /// The action that removes the directories that the entry leaves empty, if there is any
    /// above it.
    pub open spec fn prune(self, root: Seq<char>) -> Option<Wanted> {
        match path::parent_dir(self.path()) {
            Some(start) => Some(Action::RemoveEmptyDirs { start, root }),
            None => None,
        }
    }

    /// All that removing the entry asks for.
    pub open spec fn steps(self, root: Seq<char>) -> Seq<Wanted> {
        match self.prune(root) {
            Some(prune) => seq![self.remove(), prune],
            None => seq![self.remove()],
        }
    }
}

impl Entry<String> {
    /// The path of the entry.
    fn path(&self) -> (path: &String)
        ensures
            path@ == self@.path(),
    {
        match self {
            Entry::File(path) => path,
            Entry::Tree(path) => path,
        }
    }
}

/// The entries, as contracts see them.
pub open spec fn entries_view(entries: Seq<Entry<String>>) -> Seq<Entry<Seq<char>>> {
    entries.map_values(|entry: Entry<String>| entry@)
}

/// All that removing the entries asks for: each is removed, and then the directories above
/// it that are empty, up to `root`, if there are any.
pub open spec fn steps(entries: Seq<Entry<Seq<char>>>, root: Seq<char>) -> Seq<Wanted>
    decreases entries.len(),
{
    if entries.len() == 0 {
        Seq::empty()
    } else {
        entries[0].steps(root) + steps(entries.drop_first(), root)
    }
}

/// The removal of one entry after another, up to the first that fails.
#[derive(Debug)]
pub struct Removal {
    entries: Vec<Entry<String>>,
    root: String,
    index: usize,
    pruning: bool,
}

impl Removal {
    #[verifier::type_invariant]
    spec fn is_valid(self) -> bool {
        self.is_at_an_entry()
    }

    /// Whether there is an entry to remove, or directories above it where those are being
    /// removed.
    pub open spec fn is_at_an_entry(self) -> bool {
        &&& 0 <= self.index() < self.entries().len() <= usize::MAX
        &&& self.pruning() ==> self.entries()[self.index()].prune(self.root()) is Some
    }

    /// The entries to remove.
    pub closed spec fn entries(self) -> Seq<Entry<Seq<char>>> {
        entries_view(self.entries@)
    }

    /// The directory that is never removed.
    pub closed spec fn root(self) -> Seq<char> {
        self.root@
    }

    /// How many entries are gone.
    pub closed spec fn index(self) -> int {
        self.index as int
    }

    /// Whether the directories above the entry are being removed.
    pub closed spec fn pruning(self) -> bool {
        self.pruning
    }

    /// Whether this is the beginning of removing the entries.
    pub open spec fn is_start_of(self, entries: Seq<Entry<Seq<char>>>, root: Seq<char>) -> bool {
        &&& self.entries() == entries
        &&& self.root() == root
        &&& self.index() == 0
        &&& !self.pruning()
        &&& 0 < entries.len() <= usize::MAX
    }

    /// The same removal, at another entry or at its other half.
    pub closed spec fn at(self, index: int, pruning: bool) -> Removal {
        Removal { index: index as usize, pruning, ..self }
    }

    /// Going on leaves the entries and the root as they are.
    pub proof fn lemma_at(self, index: int, pruning: bool)
        requires
            0 <= index <= usize::MAX,
        ensures
            self.at(index, pruning).entries() == self.entries(),
            self.at(index, pruning).root() == self.root(),
            self.at(index, pruning).index() == index,
            self.at(index, pruning).pruning() == pruning,
    {
    }

    /// Begins to remove the entries. Where there are none, nothing is left to do.
    pub fn start(entries: Vec<Entry<String>>, root: String) -> (step: Step<
        Removal,
        Result<(), IoError>,
    >)
        ensures
            match step {
                Step::Perform(removal) => {
                    &&& entries@.len() > 0
                    &&& removal.is_start_of(entries_view(entries@), root@)
                },
                Step::Done(result) => entries@.len() == 0 && result == Ok::<(), IoError>(()),
            },
    {
        if entries.len() == 0 {
            Step::Done(Ok(()))
        } else {
            Step::Perform(Removal::new(entries, root))
        }
    }

    /// Begins to remove the entries, of which there is one at least.
    pub fn new(entries: Vec<Entry<String>>, root: String) -> (removal: Removal)
        requires
            entries@.len() > 0,
        ensures
            removal.is_start_of(entries_view(entries@), root@),
    {
        assert(entries@.len() == entries.len());
        Removal { entries, root, index: 0, pruning: false }
    }
}

impl Program for Removal {
    type Output = Result<(), IoError>;

    open spec fn wants(&self) -> Wanted {
        if self.pruning() {
            self.entries()[self.index()].prune(self.root())->Some_0
        } else {
            self.entries()[self.index()].remove()
        }
    }

    open spec fn after(self, reply: Reply) -> Step<Self, Self::Output> {
        match reply {
            Reply::Io(Ok(_)) => if !self.pruning() && self.entries()[self.index()].prune(
                self.root(),
            ) is Some {
                Step::Perform(self.at(self.index(), true))
            } else if self.index() + 1 < self.entries().len() {
                Step::Perform(self.at(self.index() + 1, false))
            } else {
                Step::Done(Ok(()))
            },
            Reply::Io(Err(error)) => Step::Done(Err(error)),
            _ => Step::Perform(self),
        }
    }

    fn action(&self) -> (action: Request) {
        proof {
            use_type_invariant(self);
        }
        let entry = &self.entries[self.index];
        assert(self.entries()[self.index as int] == entry@);
        if self.pruning {
            return Action::RemoveEmptyDirs {
                start: path::parent(entry.path().as_str()).unwrap(),
                root: self.root.clone(),
            };
        }
        match entry {
            Entry::File(path) => Action::RemoveFile(path.clone()),
            Entry::Tree(path) => Action::RemoveDirAll(path.clone()),
        }
    }

    fn resume(self, reply: Reply) -> (step: Step<Self, Self::Output>) {
        proof {
            use_type_invariant(&self);
        }
        let Removal { entries, root, index, pruning } = self;
        assert(self.entries()[index as int] == entries@[index as int]@);
        match reply {
            Reply::Io(Ok(_)) => if !pruning && path::parent(
                entries[index].path().as_str(),
            ).is_some() {
                Step::Perform(Removal { entries, root, index, pruning: true })
            } else if index < entries.len() - 1 {
                Step::Perform(Removal { entries, root, index: index + 1, pruning: false })
            } else {
                Step::Done(Ok(()))
            },
            Reply::Io(Err(error)) => Step::Done(Err(error)),
            _ => Step::Perform(Removal { entries, root, index, pruning }),
        }
    }
}

/// What is left to ask for in a removal.
pub open spec fn steps_left(removal: Removal) -> Seq<Wanted> {
    let all = steps(removal.entries().skip(removal.index()), removal.root());
    if removal.pruning() {
        all.drop_first()
    } else {
        all
    }
}

/// A removal asks for one step after another, in order. It succeeds exactly when all have
/// been taken; a failure ends it at once, with the error of the step that failed.
pub proof fn lemma_removal_conversation(removal: Removal, replies: Seq<Reply>)
    requires
        removal.is_at_an_entry(),
        crate::effect::answered(removal, replies),
    ensures
        ({
            let trace = crate::effect::trace(removal, replies);
            let left = steps_left(removal);
            &&& trace.len() == replies.len() <= left.len()
            &&& trace == left.take(trace.len() as int)
            &&& match crate::effect::run(removal, replies) {
                Step::Perform(_) => trace.len() < left.len() && forall|i: int|
                    0 <= i < replies.len() ==> #[trigger] replies[i] is Io
                        && replies[i]->Io_0 is Ok,
                Step::Done(Ok(_)) => trace == left && forall|i: int|
                    0 <= i < replies.len() ==> #[trigger] replies[i] is Io
                        && replies[i]->Io_0 is Ok,
                Step::Done(Err(error)) => replies.last() == Reply::Io(Err(error)),
            }
        }),
    decreases replies.len(),
{
    let entries = removal.entries();
    let rest = entries.skip(removal.index());
    assert(rest[0] == entries[removal.index()]);
    assert(rest.drop_first() =~= entries.skip(removal.index() + 1));
    assert(entries.skip(entries.len() as int).len() == 0);
    let left = steps_left(removal);
    assert(left[0] == removal.wants());
    if replies.len() > 0 {
        match removal.after(replies[0]) {
            Step::Perform(next) => {
                removal.lemma_at(removal.index(), true);
                removal.lemma_at(removal.index() + 1, false);
                assert(steps_left(next) =~= left.drop_first());
                lemma_removal_conversation(next, replies.drop_first());
                assert(crate::effect::trace(removal, replies) =~= left.take(
                    replies.len() as int,
                ));
                assert(seq![left[0]] + left.drop_first() =~= left);
                assert(replies.len() > 1 ==> replies.drop_first().last() == replies.last());
                assert forall|i: int|
                    !(crate::effect::run(removal, replies) matches Step::Done(Err(_))) && 0 <= i
                        < replies.len() implies #[trigger] replies[i] is Io
                    && replies[i]->Io_0 is Ok by {
                    if i > 0 {
                        assert(replies.drop_first()[i - 1] == replies[i]);
                    }
                }
            },
            Step::Done(result) => {
                if result is Ok {
                    assert(rest.drop_first().len() == 0);
                    assert(steps(rest.drop_first(), removal.root()).len() == 0);
                    assert(left.len() == 1);
                }
                assert(crate::effect::trace(removal, replies) =~= left.take(1));
            },
        }
    } else {
        assert(left.take(0) =~= crate::effect::trace(removal, replies));
    }
}

/// Contracts see entries as they are: as many, each of its sort and at its path.
pub proof fn lemma_entries_are_seen_as_they_are(entries: Seq<Entry<String>>)
    ensures
        entries_view(entries).len() == entries.len(),
        forall|i: int|
            0 <= i < entries.len() ==> #[trigger] entries_view(entries)[i] == match entries[i] {
                Entry::File(path) => Entry::File(path@),
                Entry::Tree(path) => Entry::Tree(path@),
            },
{
}

/// A file is removed as a file, and anything else as a tree. Then, if there is a directory
/// above it, that is removed where it is empty, and those above it, but never the root.
pub proof fn lemma_entry_steps(path: Seq<char>, root: Seq<char>)
    ensures
        match path::parent_dir(path) {
            Some(start) => {
                let prune = Wanted::RemoveEmptyDirs { start, root };
                &&& Entry::File(path).steps(root) == seq![Wanted::RemoveFile(path), prune]
                &&& Entry::Tree(path).steps(root) == seq![Wanted::RemoveDirAll(path), prune]
            },
            None => {
                &&& Entry::File(path).steps(root) == seq![Wanted::RemoveFile(path)]
                &&& Entry::Tree(path).steps(root) == seq![Wanted::RemoveDirAll(path)]
            },
        },
{
}

/// Removing entries asks for what removing each of them does, one entry after another, with
/// none left out.
pub proof fn lemma_steps_of_each_entry(entries: Seq<Entry<Seq<char>>>, root: Seq<char>)
    ensures
        steps(entries, root) == entries.map_values(
            |entry: Entry<Seq<char>>| entry.steps(root),
        ).flatten(),
    decreases entries.len(),
{
    let each = entries.map_values(|entry: Entry<Seq<char>>| entry.steps(root));
    if entries.len() > 0 {
        lemma_steps_of_each_entry(entries.drop_first(), root);
        assert(each.drop_first() =~= entries.drop_first().map_values(
            |entry: Entry<Seq<char>>| entry.steps(root),
        ));
    }
}

} // verus!
