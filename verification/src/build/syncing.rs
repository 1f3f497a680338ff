//! Making all upstreams of a recipe available to its build.
//!
//! The shared directory is made first ([`Sync`]). Then the upstreams are installed in it, a
//! few at a time ([`Syncing`]). Only once every one of them has been installed is there a
//! [`Finished`], and only that can have the recipe rewritten ([`Publishing`]).

use crate::build::store::{Installation, Stored};
use crate::build::upstream::Error;
use crate::effect::{Action, IoError, Program, Reply, Request, Step, Wanted};
use crate::upstream::git::GitError;
use vstd::multiset::Multiset;
use vstd::prelude::*;

verus! {

/// The beginning of making upstreams available, as contracts see it.
pub struct SyncView {
    /// The directory to make first.
    pub dir: Seq<char>,
    /// What is to be installed.
    pub installations: Seq<Installation>,
    /// How many installations are under way at a time, at most.
    pub limit: nat,
    /// The text of the recipe.
    pub source: Seq<char>,
    /// The file that holds it.
    pub path: Seq<char>,
}

impl SyncView {
    /// Where all installations stand at their beginning, once the directory has been made.
    pub open spec fn begun(self) -> SyncingView {
        SyncingView {
            running: self.installations.map_values(|next: Installation| Some(next)),
            stored: Seq::empty(),
            limit: self.limit,
            source: self.source,
            path: self.path,
        }
    }
}

/// The beginning of making upstreams available.
#[derive(Debug)]
pub struct Sync {
    dir: String,
    installations: Vec<Installation>,
    limit: usize,
    source: String,
    path: String,
}

impl View for Sync {
    type V = SyncView;

    closed spec fn view(&self) -> SyncView {
        SyncView {
            dir: self.dir@,
            installations: self.installations@,
            limit: self.limit as nat,
            source: self.source@,
            path: self.path@,
        }
    }
}

impl Sync {
    #[verifier::type_invariant]
    spec fn can_begin(self) -> bool {
        self.limit > 0
    }

    /// Begins to make upstreams available in a directory.
    pub(crate) fn new(
        dir: String,
        installations: Vec<Installation>,
        limit: usize,
        source: String,
        path: String,
    ) -> (sync: Sync)
        requires
            limit > 0,
        ensures
            sync@ == (SyncView {
                dir: dir@,
                installations: installations@,
                limit: limit as nat,
                source: source@,
                path: path@,
            }),
    {
        Sync { dir, installations, limit, source, path }
    }

    /// The directory to make first.
    pub fn dir(&self) -> (dir: &str)
        ensures
            dir@ == self@.dir,
    {
        self.dir.as_str()
    }

    /// Takes the outcome of making the directory. Where there is nothing to install, all is
    /// done then.
    pub fn begin(self, made: Result<(), IoError>) -> (step: Step<
        Syncing,
        Result<Finished, Error>,
    >)
        ensures
            match made {
                Ok(_) => if self@.installations.len() == 0 {
                    step matches Step::Done(Ok(finished)) && finished@ == (FinishedView {
                        stored: Seq::empty(),
                        source: self@.source,
                        path: self@.path,
                    })
                } else {
                    step matches Step::Perform(syncing) && syncing@ == self@.begun()
                },
                Err(error) => step == Step::<Syncing, _>::Done(
                    Err::<Finished, Error>(Error::Io(error)),
                ),
            },
    {
        proof {
            use_type_invariant(&self);
        }
        let Sync { dir: _, installations, limit, source, path } = self;
        if let Err(error) = made {
            return Step::Done(Err(Error::Io(error)));
        }
        if installations.len() == 0 {
            return Step::Done(Ok(Finished { stored: Vec::new(), source, path }));
        }
        let ghost all = installations@;
        let ghost begun = all.map_values(|next: Installation| Some(next));
        let mut running: Vec<Option<Installation>> = Vec::new();
        let len: usize = installations.len();
        let mut installations = installations;
        while installations.len() > 0
            invariant
                installations@.len() <= len == all.len() == begun.len(),
                begun == all.map_values(|next: Installation| Some(next)),
                installations@ == all.skip(len - installations@.len()),
                running@ == begun.take(len - installations@.len()),
            decreases installations@.len(),
        {
            let ghost done = len - installations@.len();
            let next = installations.remove(0);
            running.push(Some(next));
            assert(all.skip(done).remove(0) =~= all.skip(done + 1));
            assert(begun.take(done + 1) =~= begun.take(done).push(begun[done]));
        }
        assert(begun.take(len as int) =~= begun);
        proof {
            lemma_all_left(begun);
        }
        Step::Perform(Syncing { running, stored: Vec::new(), limit, source, path })
    }
}

/// How many installations are not over.
pub open spec fn left(running: Seq<Option<Installation>>) -> nat
    decreases running.len(),
{
    if running.len() == 0 {
        0
    } else {
        left(running.drop_last()) + if running.last() is Some {
            1nat
        } else {
            0nat
        }
    }
}

/// Where none is over, all are left.
pub proof fn lemma_all_left(running: Seq<Option<Installation>>)
    requires
        forall|i: int| 0 <= i < running.len() ==> #[trigger] running[i] is Some,
    ensures
        left(running) == running.len(),
    decreases running.len(),
{
    if running.len() > 0 {
        lemma_all_left(running.drop_last());
    }
}

proof fn lemma_left_after_update(
    running: Seq<Option<Installation>>,
    index: int,
    slot: Option<Installation>,
)
    requires
        0 <= index < running.len(),
        running[index] is Some,
    ensures
        left(running) > 0,
        left(running.update(index, slot)) == if slot is Some {
            left(running) as int
        } else {
            left(running) - 1
        },
    decreases running.len(),
{
    let updated = running.update(index, slot);
    if index == running.len() - 1 {
        assert(updated.drop_last() =~= running.drop_last());
    } else {
        assert(updated.drop_last() =~= running.drop_last().update(index, slot));
        lemma_left_after_update(running.drop_last(), index, slot);
    }
}

proof fn lemma_some_left(running: Seq<Option<Installation>>) -> (index: int)
    requires
        left(running) > 0,
    ensures
        0 <= index < running.len(),
        running[index] is Some,
    decreases running.len(),
{
    if running.last() is Some {
        running.len() - 1
    } else {
        lemma_some_left(running.drop_last())
    }
}

proof fn lemma_none_left(running: Seq<Option<Installation>>, index: int)
    requires
        left(running) == 0,
        0 <= index < running.len(),
    ensures
        running[index] is None,
    decreases running.len(),
{
    if index < running.len() - 1 {
        lemma_none_left(running.drop_last(), index);
    }
}

/// The installing of upstreams, as contracts see it.
pub struct SyncingView {
    /// Where each installation stands, unless it is over.
    pub running: Seq<Option<Installation>>,
    /// What has been installed, in the order in which the installations ended.
    pub stored: Seq<Stored>,
    /// How many installations are under way at a time, at most.
    pub limit: nat,
    /// The text of the recipe.
    pub source: Seq<char>,
    /// The file that holds it.
    pub path: Seq<char>,
}

/// Upstreams that have all been installed, as contracts see them.
pub struct FinishedView {
    /// What has been installed, in the order in which the installations ended.
    pub stored: Seq<Stored>,
    /// The text of the recipe.
    pub source: Seq<char>,
    /// The file that holds it.
    pub path: Seq<char>,
}

/// Where a reply takes the installing of upstreams.
pub enum SyncNext {
    /// It goes on.
    Goes(SyncingView),
    /// It ends, with all upstreams installed or with the error of one.
    Ends(Result<FinishedView, Error>),
}

impl SyncingView {
    /// What is not running has been stored, and something is running. What is not to begin yet
    /// is as it was at the beginning.
    pub open spec fn is_under_way(self) -> bool {
        &&& self.limit > 0
        &&& left(self.running) > 0
        &&& left(self.running) + self.stored.len() == self.running.len()
        &&& forall|i: int|
            self.stored.len() + self.limit <= i < self.running.len()
                ==> #[trigger] self.running[i] is Some
    }

    /// How many installations, from the first on, may have begun: with each that is over,
    /// another may begin.
    pub open spec fn begun(self) -> nat {
        if self.stored.len() + self.limit <= self.running.len() {
            self.stored.len() + self.limit
        } else {
            self.running.len()
        }
    }

    /// Whether the installation at an index is under way.
    pub open spec fn waits(self, index: int) -> bool {
        0 <= index < self.begun() && self.running[index] is Some
    }

    /// How many installations are under way.
    pub open spec fn under_way(self) -> nat {
        left(self.running.take(self.begun() as int))
    }

    /// Where a reply to the installation at an index takes the whole. The first installation
    /// that fails ends it; otherwise it ends once none is left.
    pub open spec fn after(self, index: int, reply: Reply) -> SyncNext {
        if self.waits(index) {
            match self.running[index]->Some_0.after(reply) {
                Step::Perform(next) => SyncNext::Goes(
                    SyncingView { running: self.running.update(index, Some(next)), ..self },
                ),
                Step::Done(Ok(stored)) => {
                    let running = self.running.update(index, None);
                    let stored = self.stored.push(stored);
                    if left(running) == 0 {
                        SyncNext::Ends(
                            Ok(FinishedView { stored, source: self.source, path: self.path }),
                        )
                    } else {
                        SyncNext::Goes(SyncingView { running, stored, ..self })
                    }
                },
                Step::Done(Err(error)) => SyncNext::Ends(Err(error)),
            }
        } else {
            SyncNext::Goes(self)
        }
    }
}

/// The installing of upstreams, of which one at least is not over.
#[derive(Debug)]
pub struct Syncing {
    running: Vec<Option<Installation>>,
    stored: Vec<Stored>,
    limit: usize,
    source: String,
    path: String,
}

impl View for Syncing {
    type V = SyncingView;

    closed spec fn view(&self) -> SyncingView {
        SyncingView {
            running: self.running@,
            stored: self.stored@,
            limit: self.limit as nat,
            source: self.source@,
            path: self.path@,
        }
    }
}

impl Syncing {
    #[verifier::type_invariant]
    spec fn is_under_way(self) -> bool {
        self@.is_under_way()
    }

    /// How many upstreams there are to install, those that have been included.
    pub fn len(&self) -> (len: usize)
        ensures
            len == self@.running.len(),
    {
        self.running.len()
    }

    /// Whether the installation at an index is under way, or may begin.
    fn has_begun(&self, index: usize) -> (begun: bool)
        ensures
            begun == (index < self@.begun()),
    {
        index < self.running.len() && (index < self.stored.len() || index - self.stored.len()
            < self.limit)
    }

    /// The installation at an index, where it is under way.
    pub fn installation(&self, index: usize) -> (installation: Option<&Installation>)
        ensures
            match installation {
                Some(installation) => {
                    &&& self@.waits(index as int)
                    &&& self@.running[index as int] == Some(*installation)
                },
                None => !self@.waits(index as int),
            },
    {
        if self.has_begun(index) {
            self.running[index].as_ref()
        } else {
            None
        }
    }

    /// What has been installed.
    pub fn stored(&self) -> (stored: &Vec<Stored>)
        ensures
            stored@ == self@.stored,
    {
        &self.stored
    }

    /// Takes the reply to the action that the installation at an index waits for.
    pub fn resume(self, index: usize, reply: Reply) -> (step: Step<
        Syncing,
        Result<Finished, Error>,
    >)
        ensures
            self@.after(index as int, reply) == match step {
                Step::Perform(next) => SyncNext::Goes(next@),
                Step::Done(Ok(finished)) => SyncNext::Ends(Ok(finished@)),
                Step::Done(Err(error)) => SyncNext::Ends(Err(error)),
            },
    {
        proof {
            use_type_invariant(&self);
        }
        if !self.has_begun(index) {
            return Step::Perform(self);
        }
        let Syncing { running, stored, limit, source, path } = self;
        let mut running = running;
        let mut stored = stored;
        let ghost before = running@;
        let slot = running.remove(index);
        let Some(installation) = slot else {
            running.insert(index, None);
            assert(running@ =~= before);
            return Step::Perform(Syncing { running, stored, limit, source, path });
        };
        match installation.resume(reply) {
            Step::Perform(next) => {
                running.insert(index, Some(next));
                assert(running@ =~= before.update(index as int, Some(next)));
                proof {
                    lemma_left_after_update(before, index as int, Some(next));
                }
                Step::Perform(Syncing { running, stored, limit, source, path })
            },
            Step::Done(Ok(found)) => {
                running.insert(index, None);
                assert(running@ =~= before.update(index as int, None));
                proof {
                    lemma_left_after_update(before, index as int, None);
                }
                stored.push(found);
                if stored.len() == running.len() {
                    Step::Done(Ok(Finished { stored, source, path }))
                } else {
                    Step::Perform(Syncing { running, stored, limit, source, path })
                }
            },
            Step::Done(Err(error)) => Step::Done(Err(error)),
        }
    }
}

/// Upstreams that have all been installed.
#[derive(Debug)]
pub struct Finished {
    stored: Vec<Stored>,
    source: String,
    path: String,
}

impl View for Finished {
    type V = FinishedView;

    closed spec fn view(&self) -> FinishedView {
        FinishedView { stored: self.stored@, source: self.source@, path: self.path@ }
    }
}

/// What the references of a recipe are to be rewritten from.
#[derive(Debug)]
pub struct Rewrite<'a> {
    /// The text of the recipe.
    pub source: &'a str,
    /// What has been installed for it.
    pub stored: &'a Vec<Stored>,
}

impl Finished {
    /// Asks for the text of the recipe to be rewritten, from what has been installed.
    pub fn rewrite(&self) -> (rewrite: Rewrite<'_>)
        ensures
            rewrite.source@ == self@.source,
            rewrite.stored@ == self@.stored,
    {
        Rewrite { source: self.source.as_str(), stored: &self.stored }
    }

    /// Takes the text of the recipe in which the git references of what was installed are
    /// rewritten to commits, if any was. That text is written; where there is none, the
    /// recipe stays as it is. It comes to whether the recipe was rewritten.
    pub fn publish(self, rewritten: Result<Option<String>, GitError>) -> (step: Step<
        Publishing,
        Result<bool, Error>,
    >)
        ensures
            match rewritten {
                Ok(Some(contents)) => {
                    &&& step matches Step::Perform(publishing)
                    &&& publishing.path() == self@.path
                    &&& publishing.contents() == contents@
                },
                Ok(None) => step == Step::<Publishing, _>::Done(Ok::<bool, Error>(false)),
                Err(error) => step == Step::<Publishing, _>::Done(
                    Err::<bool, Error>(Error::Git(error)),
                ),
            },
    {
        match rewritten {
            Ok(Some(contents)) => Step::Perform(Publishing { path: self.path, contents }),
            Ok(None) => Step::Done(Ok(false)),
            Err(error) => Step::Done(Err(Error::Git(error))),
        }
    }
}

/// The rewriting of a recipe.
#[derive(Debug)]
pub struct Publishing {
    path: String,
    contents: String,
}

impl Publishing {
    /// The file that holds the recipe.
    pub closed spec fn path(self) -> Seq<char> {
        self.path@
    }

    /// What is written to it.
    pub closed spec fn contents(self) -> Seq<char> {
        self.contents@
    }
}

impl Program for Publishing {
    type Output = Result<bool, Error>;

    open spec fn wants(&self) -> Wanted {
        Action::WriteFile { path: self.path(), contents: self.contents() }
    }

    open spec fn after(self, reply: Reply) -> Step<Self, Self::Output> {
        match reply {
            Reply::Io(Ok(_)) => Step::Done(Ok(true)),
            Reply::Io(Err(error)) => Step::Done(Err(Error::Io(error))),
            _ => Step::Perform(self),
        }
    }

    fn action(&self) -> (action: Request) {
        Action::WriteFile { path: self.path.clone(), contents: self.contents.clone() }
    }

    fn resume(self, reply: Reply) -> (step: Step<Self, Self::Output>) {
        match reply {
            Reply::Io(Ok(_)) => Step::Done(Ok(true)),
            Reply::Io(Err(error)) => Step::Done(Err(Error::Io(error))),
            _ => Step::Perform(self),
        }
    }
}

/// Where replies take the installing of upstreams, each given to the installation at its
/// index.
pub open spec fn run(syncing: SyncingView, replies: Seq<(int, Reply)>) -> SyncNext
    decreases replies.len(),
{
    if replies.len() == 0 {
        SyncNext::Goes(syncing)
    } else {
        match syncing.after(replies[0].0, replies[0].1) {
            SyncNext::Goes(next) => run(next, replies.drop_first()),
            end => end,
        }
    }
}

/// Whether each reply was given to an installation that was under way then, or that was over.
pub open spec fn in_turn(syncing: SyncingView, replies: Seq<(int, Reply)>) -> bool
    decreases replies.len(),
{
    replies.len() > 0 ==> {
        &&& 0 <= replies[0].0 < syncing.begun()
        &&& syncing.after(replies[0].0, replies[0].1) matches SyncNext::Goes(next) ==> in_turn(
            next,
            replies.drop_first(),
        )
    }
}

/// The replies that were given to the installation at an index.
pub open spec fn replies_to(index: int, replies: Seq<(int, Reply)>) -> Seq<Reply>
    decreases replies.len(),
{
    if replies.len() == 0 {
        Seq::empty()
    } else if replies[0].0 == index {
        seq![replies[0].1] + replies_to(index, replies.drop_first())
    } else {
        replies_to(index, replies.drop_first())
    }
}

/// What the replies make of each installation that is not over.
pub open spec fn outcomes(
    running: Seq<Option<Installation>>,
    replies: Seq<(int, Reply)>,
) -> Seq<Option<Step<Installation, Result<Stored, Error>>>> {
    Seq::new(
        running.len(),
        |i: int|
            match running[i] {
                Some(installation) => Some(
                    crate::effect::run(installation, replies_to(i, replies)),
                ),
                None => None,
            },
    )
}

/// What installations have stored, those that came to anything.
pub open spec fn stored_by(
    outcomes: Seq<Option<Step<Installation, Result<Stored, Error>>>>,
) -> Multiset<Stored>
    decreases outcomes.len(),
{
    if outcomes.len() == 0 {
        Multiset::empty()
    } else {
        let rest = stored_by(outcomes.drop_last());
        match outcomes.last() {
            Some(Step::Done(Ok(stored))) => rest.insert(stored),
            _ => rest,
        }
    }
}

proof fn lemma_stored_by_one_more(
    outcomes: Seq<Option<Step<Installation, Result<Stored, Error>>>>,
    index: int,
    stored: Stored,
)
    requires
        0 <= index < outcomes.len(),
        outcomes[index] == Some(Step::<Installation, _>::Done(Ok::<Stored, Error>(stored))),
    ensures
        stored_by(outcomes) == stored_by(outcomes.update(index, None)).insert(stored),
    decreases outcomes.len(),
{
    let updated = outcomes.update(index, None);
    if index == outcomes.len() - 1 {
        assert(updated.drop_last() =~= outcomes.drop_last());
    } else {
        assert(updated.drop_last() =~= outcomes.drop_last().update(index, None));
        lemma_stored_by_one_more(outcomes.drop_last(), index, stored);
        let rest = stored_by(updated.drop_last());
        if let Some(Step::Done(Ok(last))) = outcomes.last() {
            assert(rest.insert(stored).insert(last) =~= rest.insert(last).insert(stored));
        }
    }
}

proof fn lemma_stored_by_none(outcomes: Seq<Option<Step<Installation, Result<Stored, Error>>>>)
    requires
        forall|i: int| 0 <= i < outcomes.len() ==> #[trigger] outcomes[i] is None,
    ensures
        stored_by(outcomes) == Multiset::<Stored>::empty(),
    decreases outcomes.len(),
{
    if outcomes.len() > 0 {
        lemma_stored_by_none(outcomes.drop_last());
    }
}

proof fn lemma_syncing(syncing: SyncingView, replies: Seq<(int, Reply)>)
    requires
        left(syncing.running) > 0,
        in_turn(syncing, replies),
    ensures
        ({
            let outcomes = outcomes(syncing.running, replies);
            match run(syncing, replies) {
                SyncNext::Goes(_) => {
                    &&& (exists|i: int|
                        0 <= i < outcomes.len() && #[trigger] outcomes[i] matches Some(
                            Step::Perform(_),
                        ))
                    &&& forall|i: int|
                        0 <= i < outcomes.len() ==> !(#[trigger] outcomes[i] matches Some(
                            Step::Done(Err(_)),
                        ))
                },
                SyncNext::Ends(Err(error)) => exists|i: int|
                    0 <= i < outcomes.len() && #[trigger] outcomes[i] == Some(
                        Step::<Installation, _>::Done(Err::<Stored, Error>(error)),
                    ),
                SyncNext::Ends(Ok(finished)) => {
                    &&& finished.source == syncing.source
                    &&& finished.path == syncing.path
                    &&& finished.stored.to_multiset() == syncing.stored.to_multiset().add(
                        stored_by(outcomes),
                    )
                    &&& forall|i: int|
                        0 <= i < outcomes.len() ==> #[trigger] outcomes[i] is None
                            || outcomes[i] matches Some(Step::Done(Ok(_)))
                },
            }
        }),
    decreases replies.len(),
{
    let all = outcomes(syncing.running, replies);
    if replies.len() == 0 {
        let i = lemma_some_left(syncing.running);
        assert(all[i] matches Some(Step::Perform(_)));
        return;
    }
    let (index, reply) = replies[0];
    let rest = replies.drop_first();
    if !syncing.waits(index) {
        assert(all =~= outcomes(syncing.running, rest));
        lemma_syncing(syncing, rest);
        return;
    }
    let installation = syncing.running[index]->Some_0;
    let given = replies_to(index, replies);
    assert(given[0] == reply);
    assert(given.drop_first() =~= replies_to(index, rest));
    match installation.after(reply) {
        Step::Perform(next) => {
            let running = syncing.running.update(index, Some(next));
            lemma_left_after_update(syncing.running, index, Some(next));
            assert(all =~= outcomes(running, rest));
            lemma_syncing(SyncingView { running, ..syncing }, rest);
        },
        Step::Done(Ok(stored)) => {
            let running = syncing.running.update(index, None);
            lemma_left_after_update(syncing.running, index, None);
            let others = outcomes(running, rest);
            assert(all.update(index, None) =~= others);
            assert(all[index] == Some(
                Step::<Installation, _>::Done(Ok::<Stored, Error>(stored)),
            ));
            lemma_stored_by_one_more(all, index, stored);
            syncing.stored.to_multiset_ensures();
            let before = syncing.stored.to_multiset();
            if left(running) == 0 {
                assert forall|i: int|
                    0 <= i < others.len() implies #[trigger] others[i] is None by {
                    lemma_none_left(running, i);
                }
                lemma_stored_by_none(others);
                assert(before.insert(stored) =~= before.add(
                    Multiset::empty().insert(stored),
                ));
                assert forall|i: int| 0 <= i < all.len() implies #[trigger] all[i] is None
                    || all[i] matches Some(Step::Done(Ok(_))) by {
                    assert(others[i] is None);
                }
            } else {
                let next = SyncingView { running, stored: syncing.stored.push(stored), ..syncing };
                lemma_syncing(next, rest);
                assert(before.insert(stored).add(stored_by(others)) =~= before.add(
                    stored_by(others).insert(stored),
                ));
                assert forall|i: int| 0 <= i < all.len() && i != index implies #[trigger] all[i]
                    == others[i] by {}
                if let SyncNext::Goes(_) = run(next, rest) {
                    let i = choose|i: int|
                        0 <= i < others.len() && #[trigger] others[i] matches Some(
                            Step::Perform(_),
                        );
                    assert(all[i] == others[i]);
                }
                if let SyncNext::Ends(Err(error)) = run(next, rest) {
                    let i = choose|i: int|
                        0 <= i < others.len() && #[trigger] others[i] == Some(
                            Step::<Installation, _>::Done(Err::<Stored, Error>(error)),
                        );
                    assert(all[i] == others[i]);
                }
            }
        },
        Step::Done(Err(error)) => {
            assert(all[index] == Some(
                Step::<Installation, _>::Done(Err::<Stored, Error>(error)),
            ));
        },
    }
}

/// What an installation comes to, by the replies that it was given.
pub open spec fn outcome(
    sync: SyncView,
    replies: Seq<(int, Reply)>,
    index: int,
) -> Step<Installation, Result<Stored, Error>> {
    crate::effect::run(sync.installations[index], replies_to(index, replies))
}

/// What all installations have stored, in the order of the upstreams, where all succeeded.
pub open spec fn all_stored(sync: SyncView, replies: Seq<(int, Reply)>) -> Seq<Stored> {
    Seq::new(
        sync.installations.len(),
        |i: int| outcome(sync, replies, i)->Done_0->Ok_0,
    )
}

/// Upstreams are made available, all or none.
///
/// It ends well exactly when every single installation does; then what has been installed is
/// what the installations stored, each once, and the recipe is still the one that it began
/// with. It ends in an error exactly when an installation fails, and with the error of one that
/// did. It is not over as long as an installation is not, and none failed.
pub proof fn lemma_sync(sync: SyncView, replies: Seq<(int, Reply)>)
    requires
        sync.installations.len() > 0,
        in_turn(sync.begun(), replies),
    ensures
        match run(sync.begun(), replies) {
            SyncNext::Goes(_) => exists|i: int|
                0 <= i < sync.installations.len() && #[trigger] outcome(
                    sync,
                    replies,
                    i,
                ) is Perform,
            SyncNext::Ends(Err(error)) => exists|i: int|
                0 <= i < sync.installations.len() && #[trigger] outcome(sync, replies, i) == Step::<
                    Installation,
                    _,
                >::Done(Err::<Stored, Error>(error)),
            SyncNext::Ends(Ok(finished)) => {
                &&& finished.source == sync.source
                &&& finished.path == sync.path
                &&& finished.stored.len() == sync.installations.len()
                &&& finished.stored.to_multiset() == all_stored(sync, replies).to_multiset()
                &&& forall|i: int|
                    0 <= i < sync.installations.len() ==> #[trigger] outcome(sync, replies, i)
                        matches Step::Done(Ok(_))
            },
        },
        (run(sync.begun(), replies) matches SyncNext::Ends(Err(_))) <==> (exists|i: int|
            0 <= i < sync.installations.len() && #[trigger] outcome(sync, replies, i)
                matches Step::Done(Err(_))),
        (run(sync.begun(), replies) matches SyncNext::Ends(Ok(_))) <==> (forall|i: int|
            0 <= i < sync.installations.len() ==> #[trigger] outcome(sync, replies, i)
                matches Step::Done(Ok(_))),
{
    let begun = sync.begun();
    lemma_all_left(begun.running);
    lemma_syncing(begun, replies);
    let all = outcomes(begun.running, replies);
    assert forall|i: int| 0 <= i < all.len() implies #[trigger] all[i] == Some(
        outcome(sync, replies, i),
    ) by {}
    match run(begun, replies) {
        SyncNext::Goes(_) => {
            let i = choose|i: int|
                0 <= i < all.len() && #[trigger] all[i] matches Some(Step::Perform(_));
            assert(outcome(sync, replies, i) is Perform);
            assert forall|i: int| 0 <= i < sync.installations.len() implies !(#[trigger] outcome(
                sync,
                replies,
                i,
            ) matches Step::Done(Err(_))) by {
                assert(all[i] == Some(outcome(sync, replies, i)));
            }
        },
        SyncNext::Ends(Err(error)) => {
            let i = choose|i: int|
                0 <= i < all.len() && #[trigger] all[i] == Some(
                    Step::<Installation, _>::Done(Err::<Stored, Error>(error)),
                );
            assert(all[i] == Some(outcome(sync, replies, i)));
            assert(outcome(sync, replies, i) == Step::<Installation, _>::Done(
                Err::<Stored, Error>(error),
            ));
        },
        SyncNext::Ends(Ok(finished)) => {
            assert forall|i: int| 0 <= i < sync.installations.len() implies #[trigger] outcome(
                sync,
                replies,
                i,
            ) matches Step::Done(Ok(_)) by {
                assert(all[i] == Some(outcome(sync, replies, i)));
            }
            lemma_stored_by_all(all, all_stored(sync, replies));
            let none = Seq::<Stored>::empty();
            none.to_multiset_ensures();
            finished.stored.to_multiset_ensures();
            all_stored(sync, replies).to_multiset_ensures();
            assert(none.to_multiset() =~= Multiset::empty());
            assert(Multiset::empty().add(stored_by(all)) =~= stored_by(all));
        },
    }
}

proof fn lemma_stored_by_all(
    outcomes: Seq<Option<Step<Installation, Result<Stored, Error>>>>,
    stored: Seq<Stored>,
)
    requires
        outcomes.len() == stored.len(),
        forall|i: int|
            0 <= i < outcomes.len() ==> #[trigger] outcomes[i] == Some(
                Step::<Installation, _>::Done(Ok::<Stored, Error>(stored[i])),
            ),
    ensures
        stored_by(outcomes) == stored.to_multiset(),
    decreases outcomes.len(),
{
    stored.to_multiset_ensures();
    if outcomes.len() > 0 {
        lemma_stored_by_all(outcomes.drop_last(), stored.drop_last());
        stored.drop_last().to_multiset_ensures();
        assert(stored.drop_last().push(stored.last()) =~= stored);
    } else {
        assert(stored.to_multiset() =~= Multiset::empty());
    }
}

/// What is left of two parts is what is left of each.
pub proof fn lemma_left_in_parts(a: Seq<Option<Installation>>, b: Seq<Option<Installation>>)
    ensures
        left(a + b) == left(a) + left(b),
    decreases b.len(),
{
    if b.len() == 0 {
        assert(a + b =~= a);
    } else {
        assert((a + b).drop_last() =~= a + b.drop_last());
        lemma_left_in_parts(a, b.drop_last());
    }
}

/// As long as it goes on, it stays under way, with as many installations and the same limit.
pub proof fn lemma_stays_under_way(syncing: SyncingView, replies: Seq<(int, Reply)>)
    requires
        syncing.is_under_way(),
    ensures
        run(syncing, replies) matches SyncNext::Goes(next) ==> {
            &&& next.is_under_way()
            &&& next.limit == syncing.limit
            &&& next.running.len() == syncing.running.len()
        },
    decreases replies.len(),
{
    if replies.len() > 0 {
        let (index, reply) = replies[0];
        if let SyncNext::Goes(next) = syncing.after(index, reply) {
            if syncing.waits(index) {
                lemma_left_after_update(syncing.running, index, next.running[index]);
            }
            lemma_stays_under_way(next, replies.drop_first());
        }
    }
}

/// Upstreams are installed a few at a time: as long as it goes on, one installation at least
/// is under way, and never more than the limit.
pub proof fn lemma_few_at_a_time(sync: SyncView, replies: Seq<(int, Reply)>)
    requires
        sync.installations.len() > 0,
        sync.limit > 0,
    ensures
        run(sync.begun(), replies) matches SyncNext::Goes(syncing) ==> 0 < syncing.under_way()
            <= sync.limit,
{
    lemma_all_left(sync.begun().running);
    lemma_stays_under_way(sync.begun(), replies);
    if let SyncNext::Goes(syncing) = run(sync.begun(), replies) {
        let begun = syncing.running.take(syncing.begun() as int);
        let waiting = syncing.running.skip(syncing.begun() as int);
        assert(begun + waiting =~= syncing.running);
        lemma_left_in_parts(begun, waiting);
        lemma_all_left(waiting);
    }
}

/// As long as upstreams are being installed, no installation asks for a file to be
/// rewritten: a recipe stays as it is where one fails.
pub proof fn lemma_installing_rewrites_nothing(installation: Installation)
    ensures
        installation.wants() !is WriteFile,
{
}

} // verus!
