//! What holds of storing and sharing upstreams, whatever the host replies.

use crate::build::download;
use crate::build::download::{DownloadReply, DownloadView};
use crate::build::store::{
    GitStage, GitStore, InstallStage, Installation, PlainStore, Share, Stored, Storing,
};
use crate::build::syncing;
use crate::build::syncing::{FinishedView, SyncNext, SyncView};
use crate::build::upstream::{Error, Git, Plain, Upstream};
use crate::cache;
use crate::command::GitCommand;
use crate::digest;
use crate::effect::{Action, FetchError, IoError, Program, Reply, Step, Wanted};
use crate::path;
use crate::recipe;
use crate::removal::Entry;
use crate::upstream::git::GitError;
use crate::upstream::plain;
use vstd::prelude::*;

verus! {

/// What storing an archive comes to, from what the host finds: how making the directory
/// went, whether the file exists, what was fetched, and how removing and renaming the
/// partial file went.
pub open spec fn plain_result(
    store: PlainStore,
    made_dir: Result<(), IoError>,
    exists: bool,
    fetched: Result<plain::Hash, FetchError>,
    removed: Result<(), IoError>,
    renamed: Result<(), IoError>,
) -> Result<Stored, Error> {
    if made_dir is Err {
        Err(Error::Io(made_dir->Err_0))
    } else if exists {
        Ok(store.stored(true))
    } else if fetched is Err {
        Err(crate::build::upstream::fetch_failed(fetched->Err_0))
    } else if fetched->Ok_0@ != store.hash@ {
        if removed is Err {
            Err(Error::Io(removed->Err_0))
        } else {
            Err(
                Error::HashMismatch {
                    name: store.name,
                    expected: store.hash.text(),
                    got: fetched->Ok_0,
                },
            )
        }
    } else if renamed is Err {
        Err(Error::Io(renamed->Err_0))
    } else {
        Ok(store.stored(false))
    }
}

/// Storing an archive comes to [`plain_result`] of what the host finds.
pub proof fn lemma_plain_result(
    store: PlainStore,
    made_dir: Result<(), IoError>,
    exists: bool,
    fetched: Result<plain::Hash, FetchError>,
    removed: Result<(), IoError>,
    renamed: Result<(), IoError>,
)
    requires
        store.stage is EnsureDir,
    ensures
        ({
            let last = if fetched matches Ok(hash) && hash@ != store.hash@ {
                removed
            } else {
                renamed
            };
            crate::effect::run(
                store,
                seq![
                    Reply::Io(made_dir),
                    Reply::Found(exists),
                    Reply::Fetched(fetched),
                    Reply::Io(last),
                ],
            ) == Step::<PlainStore, _>::Done(
                plain_result(store, made_dir, exists, fetched, removed, renamed),
            )
        }),
{
    reveal_with_fuel(crate::effect::run, 5);
}

/// How storing an archive ends.
///
/// An archive that was there already is not fetched again. One that was not there is fetched
/// to a partial file. It is handed over only after a fetch with the expected digest, once the
/// file that was fetched has been renamed. A mismatch is reported only after the file that
/// was fetched has been removed.
pub proof fn lemma_plain_conversation(store: PlainStore, replies: Seq<Reply>)
    requires
        store.stage is EnsureDir,
        crate::effect::answered(store, replies),
    ensures
        crate::effect::run(store, replies) matches Step::Done(result) ==> {
            let trace = crate::effect::trace(store, replies);
            let probed = seq![Wanted::EnsureDir(store.dir@), Wanted::Exists(store.path@)];
            let fetched = probed.push(Action::Fetch { url: store.url@, dest: store.partial@ });
            match result {
                Ok(stored) => {
                    &&& stored == store.stored(stored.cached())
                    &&& stored.cached() ==> trace == probed
                    &&& !stored.cached() ==> {
                        &&& trace == fetched.push(
                            Action::Rename { from: store.partial@, to: store.path@ },
                        )
                        &&& replies[2] matches Reply::Fetched(Ok(hash))
                        &&& hash@ == store.hash@
                    }
                },
                Err(Error::HashMismatch { name, expected, got }) => {
                    &&& name == store.name
                    &&& expected == store.hash.text()
                    &&& expected@ == store.hash@
                    &&& got@ != store.hash@
                    &&& trace == fetched.push(Action::RemoveFile(store.partial@))
                    &&& replies[2] == Reply::Fetched(Ok(got))
                },
                Err(_) => true,
            }
        },
{
    reveal_with_fuel(crate::effect::run, 6);
    reveal_with_fuel(crate::effect::trace, 6);
    reveal_with_fuel(crate::effect::answered, 6);
    store.hash.lemma_text();
}

/// Whatever the host replies, nothing is ever written to the place of an archive but by the
/// renaming of the partial file, and that is asked for only after a fetch to the partial file
/// with the expected digest.
pub proof fn lemma_plain_writes_only_by_renaming(
    store: PlainStore,
    replies: Seq<Reply>,
    i: int,
)
    requires
        store.stage is EnsureDir,
        crate::effect::answered(store, replies),
        0 <= i < crate::effect::trace(store, replies).len(),
    ensures
        match crate::effect::trace(store, replies)[i] {
            Action::EnsureDir(path) => path == store.dir@,
            Action::Exists(path) => path == store.path@,
            Action::Fetch { url, dest } => url == store.url@ && dest == store.partial@,
            Action::RemoveFile(path) => path == store.partial@,
            Action::Rename { from, to } => {
                &&& from == store.partial@
                &&& to == store.path@
                &&& i == 3
                &&& crate::effect::trace(store, replies)[2] == (Wanted::Fetch {
                    url: store.url@,
                    dest: store.partial@,
                })
                &&& replies[2] matches Reply::Fetched(Ok(hash))
                &&& hash@ == store.hash@
            },
            _ => false,
        },
{
    reveal_with_fuel(crate::effect::run, 6);
    reveal_with_fuel(crate::effect::trace, 6);
    reveal_with_fuel(crate::effect::answered, 6);
}

/// The archive that is handed over is the one that was downloaded: where the host fetches by
/// [`Plain::fetch`], an archive that was not there before has been written with the bytes
/// that the expected digest is of.
pub proof fn lemma_fetched_archive_has_its_digest(
    store: PlainStore,
    replies: Seq<Reply>,
    stored: Stored,
    fetched: Result<plain::Hash, FetchError>,
    download_replies: Seq<DownloadReply>,
)
    requires
        store.stage is EnsureDir,
        crate::effect::answered(store, replies),
        crate::effect::run(store, replies) == Step::<PlainStore, _>::Done(
            Ok::<Stored, Error>(stored),
        ),
        !stored.cached(),
        replies[2] == Reply::Fetched(fetched),
        download::comes_to(
            download::run(DownloadView::new(store.url@, store.partial@), download_replies),
            fetched,
        ),
    ensures
        digest::hex(
            digest::sha256(
                download::written(
                    DownloadView::new(store.url@, store.partial@),
                    download_replies,
                ),
            ),
        ) == store.hash@,
{
    lemma_plain_conversation(store, replies);
    download::lemma_download_digests_what_it_writes(
        DownloadView::new(store.url@, store.partial@),
        download_replies,
    );
}

/// The contents of files, by their paths.
pub type Files = Map<Seq<char>, Seq<u8>>;

/// Whether a reply to an action, and the files after it, are those of a host that acts on
/// files as it is asked to. An action that fails leaves the files as they are; only a fetch
/// that fails may leave anything in the file that it was to write.
pub open spec fn acts_on_files(before: Files, action: Wanted, reply: Reply, after: Files) -> bool {
    match (action, reply) {
        (Action::Exists(path), Reply::Found(found)) => {
            &&& found == before.contains_key(path)
            &&& after == before
        },
        (Action::EnsureDir(_), Reply::Io(_)) => after == before,
        (Action::Fetch { dest, .. }, Reply::Fetched(Ok(hash))) => {
            &&& after == before.insert(dest, after[dest])
            &&& hash@ == digest::hex(digest::sha256(after[dest]))
        },
        (Action::Fetch { dest, .. }, Reply::Fetched(Err(_))) => after.remove(dest)
            == before.remove(dest),
        (Action::RemoveFile(path), Reply::Io(Ok(_))) => {
            &&& before.contains_key(path)
            &&& after == before.remove(path)
        },
        (Action::Rename { from, to }, Reply::Io(Ok(_))) => {
            &&& before.contains_key(from)
            &&& after == before.remove(from).insert(to, before[from])
        },
        (Action::RemoveFile(_) | Action::Rename { .. }, Reply::Io(Err(_))) => after == before,
        _ => false,
    }
}

/// What storing an archive does to the files of a host that acts on them as it is asked to.
///
/// Where the archive was there already, nothing changes. Where it is handed over uncached, its
/// place holds bytes that the expected digest is of. Where storing fails, in whatever way, the
/// place is as it was; after a mismatch the partial file is gone too.
pub proof fn lemma_plain_files(
    plain: Plain,
    upstreams: Seq<char>,
    store: PlainStore,
    replies: Seq<Reply>,
    files: Seq<Files>,
    result: Result<Stored, Error>,
)
    requires
        store.is_start_of(plain, upstreams),
        crate::effect::answered(store, replies),
        crate::effect::run(store, replies) == Step::<PlainStore, _>::Done(result),
        files.len() == replies.len() + 1,
        forall|i: int|
            0 <= i < replies.len() ==> acts_on_files(
                #[trigger] files[i],
                crate::effect::trace(store, replies)[i],
                replies[i],
                files[i + 1],
            ),
    ensures
        ({
            let path = plain.place_in(upstreams);
            let before = files[0];
            let after = files.last();
            match result {
                Ok(stored) => {
                    &&& after.contains_key(path)
                    &&& stored.cached() == before.contains_key(path)
                    &&& stored.cached() ==> after == before
                    &&& !stored.cached() ==> digest::hex(digest::sha256(after[path]))
                        == plain.hash@
                },
                Err(error) => {
                    &&& after.contains_key(path) == before.contains_key(path)
                    &&& before.contains_key(path) ==> after[path] == before[path]
                    &&& error is HashMismatch ==> !after.contains_key(store.partial@)
                },
            }
        }),
{
    reveal_with_fuel(crate::effect::run, 6);
    reveal_with_fuel(crate::effect::trace, 6);
    reveal_with_fuel(crate::effect::answered, 6);
    reveal_strlit(".part");
    let path = store.path@;
    let partial = store.partial@;
    let trace = crate::effect::trace(store, replies);
    assert(partial.len() == path.len() + 5);
    assert(1 <= replies.len() <= 4);
    assert(acts_on_files(files[0], trace[0], replies[0], files[1]));
    assert(files[1] == files[0]);
    if replies.len() >= 2 {
        assert(acts_on_files(files[1], trace[1], replies[1], files[2]));
        assert(files[2] == files[0]);
    }
    if replies.len() >= 3 {
        assert(acts_on_files(files[2], trace[2], replies[2], files[3]));
        assert(!files[0].contains_key(path));
        assert(!files[3].contains_key(path)) by {
            assert(files[3].remove(partial).contains_key(path) == files[3].contains_key(path));
            assert(files[2].remove(partial).contains_key(path) == files[2].contains_key(path));
        }
    }
    if replies.len() == 4 {
        assert(acts_on_files(files[3], trace[3], replies[3], files[4]));
    }
}

/// Storing a fresh archive succeeds wherever the host can make its directory, can fetch it,
/// and can rename and remove files that exist: with the expected digest it is handed over
/// uncached, and with any other the mismatch is reported.
pub proof fn lemma_fresh_archive_is_stored(
    plain: Plain,
    upstreams: Seq<char>,
    store: PlainStore,
    replies: Seq<Reply>,
    files: Seq<Files>,
    got: plain::Hash,
)
    requires
        store.is_start_of(plain, upstreams),
        crate::effect::answered(store, replies),
        replies.len() == 4,
        files.len() == 5,
        forall|i: int|
            0 <= i < 4 ==> acts_on_files(
                #[trigger] files[i],
                crate::effect::trace(store, replies)[i],
                replies[i],
                files[i + 1],
            ),
        !files[0].contains_key(plain.place_in(upstreams)),
        replies[2] == Reply::Fetched(Ok(got)),
        replies[3]->Io_0 is Err ==> match crate::effect::trace(store, replies)[3] {
            Action::RemoveFile(path) => !files[3].contains_key(path),
            Action::Rename { from, .. } => !files[3].contains_key(from),
            _ => true,
        },
    ensures
        crate::effect::run(store, replies) == Step::<PlainStore, _>::Done(
            if got@ == plain.hash@ {
                Ok::<Stored, Error>(store.stored(false))
            } else {
                Err(
                    Error::HashMismatch { name: store.name, expected: plain.hash.text(), got },
                )
            },
        ),
{
    reveal_with_fuel(crate::effect::run, 6);
    reveal_with_fuel(crate::effect::trace, 6);
    reveal_with_fuel(crate::effect::answered, 6);
    let trace = crate::effect::trace(store, replies);
    assert(acts_on_files(files[0], trace[0], replies[0], files[1]));
    assert(acts_on_files(files[1], trace[1], replies[1], files[2]));
    assert(acts_on_files(files[2], trace[2], replies[2], files[3]));
    assert(acts_on_files(files[3], trace[3], replies[3], files[4]));
    assert(files[3].contains_key(store.partial@));
}

/// An archive is kept elsewhere as soon as its URL or its digest changes such that other
/// bytes are hashed for its place, unless SHA-256 digests the old bytes and the new ones
/// alike.
pub proof fn lemma_place_changes(plain: Plain, changed: Plain, upstreams: Seq<char>)
    requires
        cache::message(plain.url@.text, plain.hash@) != cache::message(
            changed.url@.text,
            changed.hash@,
        ),
        digest::sha256(cache::message(plain.url@.text, plain.hash@)) == digest::sha256(
            cache::message(changed.url@.text, changed.hash@),
        ) ==> cache::message(plain.url@.text, plain.hash@) == cache::message(
            changed.url@.text,
            changed.hash@,
        ),
        cache::key(plain.url@.text, plain.hash@).len() == 64,
        cache::key(changed.url@.text, changed.hash@).len() == 64,
    ensures
        plain.place_in(upstreams) != changed.place_in(upstreams),
{
    cache::lemma_place_changes_with_message(
        path::joined(upstreams, "fetched"@),
        plain.url@.text,
        plain.hash@,
        changed.url@.text,
        changed.hash@,
    );
}

/// The steps that find out whether there is a working copy, once the directories above it and
/// above the clone have been made.
pub open spec fn look(store: GitStore) -> Seq<Wanted> {
    store.stage.dirs().map_values(|dir: Seq<char>| Wanted::EnsureDir(dir)).push(
        Action::Exists(store.final_path@),
    )
}

/// A run of the git program in a directory.
pub open spec fn in_dir(command: GitCommand<Seq<char>>, dir: Seq<char>) -> Wanted {
    Wanted::Git { command, cwd: Some(dir) }
}

/// The steps that find out whether the working copy has the reference.
pub open spec fn check(store: GitStore) -> Seq<Wanted> {
    seq![
        in_dir(GitCommand::Fetch, store.final_path@),
        in_dir(GitCommand::VerifyObject(store.ref_id@), store.final_path@),
    ]
}

/// The steps that make a new working copy.
pub open spec fn clone_anew(store: GitStore) -> Seq<Wanted> {
    let clone = Wanted::Git {
        command: GitCommand::Clone {
            mirror: store.staging,
            source: store.uri@.text,
            target: store.clone_path@,
        },
        cwd: None,
    };
    if store.staging {
        seq![
            Action::RemoveDirAll(store.clone_path@),
            Action::RemoveDirAll(store.final_path@),
            clone,
            Action::Git {
                command: GitCommand::Clone {
                    mirror: false,
                    source: store.clone_path@,
                    target: store.final_path@,
                },
                cwd: None,
            },
        ]
    } else {
        seq![Action::RemoveDirAll(store.clone_path@), clone]
    }
}

/// The steps that put the working copy at the reference.
pub open spec fn settle(store: GitStore) -> Seq<Wanted> {
    seq![
        in_dir(GitCommand::ResetHard(store.ref_id@), store.final_path@),
        in_dir(GitCommand::UpdateSubmodules, store.final_path@),
        Action::ResolveRef {
            path: store.final_path@,
            ref_id: store.ref_id@,
            uri: store.uri@.text,
        },
    ]
}

proof fn lemma_settles(store: GitStore, replies: Seq<Reply>)
    requires
        store.stage is Reset,
        crate::effect::answered(store, replies),
    ensures
        crate::effect::run(store, replies) matches Step::Done(Ok(stored)) ==> {
            &&& replies.len() == 3
            &&& crate::effect::trace(store, replies) == settle(store)
            &&& replies[2] matches Reply::Resolved(Ok(hash))
            &&& stored == store.stored(store.stage->Reset_cached, hash)
        },
{
    reveal_with_fuel(crate::effect::run, 5);
    reveal_with_fuel(crate::effect::trace, 5);
    reveal_with_fuel(crate::effect::answered, 5);
}

proof fn lemma_clones(store: GitStore, replies: Seq<Reply>)
    requires
        store.stage is DropClone,
        crate::effect::answered(store, replies),
    ensures
        crate::effect::run(store, replies) matches Step::Done(Ok(stored)) ==> {
            &&& replies.len() >= 3
            &&& crate::effect::trace(store, replies) == clone_anew(store) + settle(store)
            &&& replies.last() matches Reply::Resolved(Ok(hash))
            &&& stored == store.stored(false, hash)
        },
{
    reveal_with_fuel(crate::effect::run, 5);
    reveal_with_fuel(crate::effect::trace, 5);
    reveal_with_fuel(crate::effect::answered, 5);
    let n: int = if store.staging {
        4
    } else {
        2
    };
    if replies.len() >= n {
        let rest = if store.staging {
            replies.drop_first().drop_first().drop_first().drop_first()
        } else {
            replies.drop_first().drop_first()
        };
        let settling = store.at(GitStage::Reset { cached: false });
        assert(settle(settling) == settle(store));
        if crate::effect::answered(settling, rest) {
            lemma_settles(settling, rest);
            assert(rest.len() > 0 ==> rest.last() == replies.last());
        }
    }
}

proof fn lemma_checks(store: GitStore, replies: Seq<Reply>)
    requires
        store.stage is Refresh,
        crate::effect::answered(store, replies),
    ensures
        crate::effect::run(store, replies) matches Step::Done(Ok(stored)) ==> {
            let trace = crate::effect::trace(store, replies);
            &&& replies.len() > 2
            &&& replies.last() matches Reply::Resolved(Ok(hash))
            &&& stored == store.stored(stored.cached(), hash)
            &&& trace == if stored.cached() {
                check(store) + settle(store)
            } else {
                check(store) + clone_anew(store) + settle(store)
            }
        },
{
    reveal_with_fuel(crate::effect::run, 3);
    reveal_with_fuel(crate::effect::trace, 3);
    reveal_with_fuel(crate::effect::answered, 3);
    if replies.len() > 2 {
        let rest = replies.drop_first().drop_first();
        assert(rest.last() == replies.last());
        let cloning = store.at(GitStage::DropClone);
        let settling = store.at(GitStage::Reset { cached: true });
        assert(settle(settling) == settle(store));
        assert(settle(cloning) == settle(store));
        assert(clone_anew(cloning) == clone_anew(store));
        assert(check(store) + clone_anew(store) + settle(store) =~= check(store) + (clone_anew(
            store,
        ) + settle(store)));
        let trace = crate::effect::trace(store, replies);
        if crate::effect::run(store, replies) is Done {
            if replies[1] == Reply::Ran(Ok(true)) {
                lemma_settles(settling, rest);
                if crate::effect::run(store, replies)->Done_0 is Ok {
                    assert(trace =~= check(store) + settle(store));
                }
            } else if replies[0] == Reply::Ran(Ok(true)) {
                lemma_clones(cloning, rest);
                if crate::effect::run(store, replies)->Done_0 is Ok {
                    assert(trace =~= check(store) + clone_anew(store) + settle(store));
                }
            }
        }
    }
}

/// How storing a git repository ends.
///
/// A working copy is handed over only after it was put at the reference, its submodules
/// were updated, and the commit of the reference was found; that commit is the one reported.
/// Where the working copy counts as cached, nothing was removed and nothing was cloned.
/// Otherwise it was cloned anew, by way of the mirror if there is one.
pub proof fn lemma_git_conversation(store: GitStore, replies: Seq<Reply>)
    requires
        store.stage.is_early(),
        crate::effect::answered(store, replies),
    ensures
        crate::effect::run(store, replies) matches Step::Done(Ok(stored)) ==> {
            let trace = crate::effect::trace(store, replies);
            &&& replies.last() matches Reply::Resolved(Ok(hash))
            &&& stored == store.stored(stored.cached(), hash)
            &&& if stored.cached() {
                trace == look(store) + check(store) + settle(store)
            } else {
                ||| trace == look(store) + clone_anew(store) + settle(store)
                ||| trace == look(store) + check(store) + clone_anew(store) + settle(store)
            }
        },
    decreases replies.len(),
{
    if replies.len() == 0 {
        return;
    }
    let rest = replies.drop_first();
    let trace = crate::effect::trace(store, replies);
    assert(rest.len() > 0 ==> rest.last() == replies.last());
    if let Step::Perform(next) = store.after(replies[0]) {
        assert(check(next) == check(store));
        assert(settle(next) == settle(store));
        assert(clone_anew(next) == clone_anew(store));
        if store.stage is EnsureDirs {
            lemma_git_conversation(next, rest);
            assert(look(store) =~= seq![store.wants()] + look(next));
            if let Step::Done(Ok(stored)) = crate::effect::run(store, replies) {
                let later = crate::effect::trace(next, rest);
                assert(trace == seq![store.wants()] + later);
                if stored.cached() {
                    assert(trace =~= look(store) + check(store) + settle(store));
                } else if later == look(next) + clone_anew(store) + settle(store) {
                    assert(trace =~= look(store) + clone_anew(store) + settle(store));
                } else {
                    assert(trace =~= look(store) + check(store) + clone_anew(store) + settle(
                        store,
                    ));
                }
            }
        } else {
            assert(look(store) =~= seq![store.wants()]);
            if next.stage is Refresh {
                lemma_checks(next, rest);
            } else {
                lemma_clones(next, rest);
            }
            if let Step::Done(Ok(stored)) = crate::effect::run(store, replies) {
                if stored.cached() {
                    assert(trace =~= look(store) + check(store) + settle(store));
                } else if next.stage is Refresh {
                    assert(trace =~= look(store) + check(store) + clone_anew(store) + settle(
                        store,
                    ));
                } else {
                    assert(trace =~= look(store) + clone_anew(store) + settle(store));
                }
            }
        }
    }
}

/// What the host finds when it stores a git repository.
pub struct GitFindings {
    /// How making the first directory went, if there is one to make.
    pub first_dir: Result<(), IoError>,
    /// How making the second directory went, if there are two.
    pub second_dir: Result<(), IoError>,
    /// Whether there is a working copy.
    pub exists: bool,
    /// How fetching in the working copy went.
    pub refreshed: Result<bool, IoError>,
    /// How looking for the reference went.
    pub checked: Result<bool, IoError>,
    /// How removing what stands where the clone goes went.
    pub dropped_clone: Result<(), IoError>,
    /// How removing what stands where the working copy goes went.
    pub dropped_final: Result<(), IoError>,
    /// How cloning went.
    pub cloned: Result<bool, IoError>,
    /// How cloning from the mirror went.
    pub mirrored: Result<bool, IoError>,
    /// How putting the working copy at the reference went.
    pub reset: Result<bool, IoError>,
    /// How updating the submodules went.
    pub submodules: Result<bool, IoError>,
    /// How looking the commit of the reference up went.
    pub resolved: Result<String, GitError>,
}

/// One outcome after another: the first error is the one that counts.
pub open spec fn and_then(first: Result<(), Error>, then_result: Result<Stored, Error>) -> Result<
    Stored,
    Error,
> {
    match first {
        Ok(_) => then_result,
        Err(error) => Err(error),
    }
}

impl GitFindings {
    /// The replies that find out whether there is a working copy.
    pub open spec fn look_replies(self, dirs: nat) -> Seq<Reply> {
        if dirs == 0 {
            seq![Reply::Found(self.exists)]
        } else if dirs == 1 {
            seq![Reply::Io(self.first_dir), Reply::Found(self.exists)]
        } else {
            seq![
                Reply::Io(self.first_dir),
                Reply::Io(self.second_dir),
                Reply::Found(self.exists),
            ]
        }
    }

    /// What making the directories comes to.
    pub open spec fn made_dirs(self, dirs: nat) -> Result<(), Error> {
        if dirs >= 1 && self.first_dir is Err {
            Err(Error::Io(self.first_dir->Err_0))
        } else if dirs >= 2 && self.second_dir is Err {
            Err(Error::Io(self.second_dir->Err_0))
        } else {
            Ok(())
        }
    }

    /// The replies that find out whether it has the reference.
    pub open spec fn check_replies(self) -> Seq<Reply> {
        if self.exists {
            seq![Reply::Ran(self.refreshed), Reply::Ran(self.checked)]
        } else {
            Seq::empty()
        }
    }

    /// Whether there is a working copy with the reference.
    pub open spec fn has_ref(self) -> bool {
        self.exists && self.checked == Ok::<bool, IoError>(true)
    }

    /// The replies that make a new working copy, where there is none with the reference.
    pub open spec fn clone_replies(self, staging: bool) -> Seq<Reply> {
        if self.has_ref() {
            Seq::empty()
        } else if staging {
            seq![
                Reply::Io(self.dropped_clone),
                Reply::Io(self.dropped_final),
                Reply::Ran(self.cloned),
                Reply::Ran(self.mirrored),
            ]
        } else {
            seq![Reply::Io(self.dropped_clone), Reply::Ran(self.cloned)]
        }
    }

    /// The replies that put the working copy at the reference.
    pub open spec fn settle_replies(self) -> Seq<Reply> {
        seq![Reply::Ran(self.reset), Reply::Ran(self.submodules), Reply::Resolved(self.resolved)]
    }

    /// The findings in the order in which they are asked for.
    pub open spec fn replies(self, store: GitStore) -> Seq<Reply> {
        self.look_replies(store.stage.dirs().len()) + (self.check_replies() + (self.clone_replies(
            store.staging,
        ) + self.settle_replies()))
    }

    /// What putting the working copy at the reference comes to.
    pub open spec fn settled(self, store: GitStore) -> Result<Stored, Error> {
        and_then(
            crate::build::upstream::run_result(store.uri, self.reset),
            and_then(
                crate::build::upstream::run_result(store.uri, self.submodules),
                match self.resolved {
                    Ok(hash) => Ok(store.stored(self.has_ref(), hash)),
                    Err(error) => Err(Error::Git(error)),
                },
            ),
        )
    }

    /// What storing the repository comes to. Only failures to remove what stands in the way
    /// of a clone, and failures to look for the reference, are passed over.
    pub open spec fn result(self, store: GitStore) -> Result<Stored, Error> {
        if let Err(error) = self.made_dirs(store.stage.dirs().len()) {
            Err(error)
        } else if self.has_ref() {
            and_then(
                crate::build::upstream::run_result(store.uri, self.refreshed),
                self.settled(store),
            )
        } else {
            let cloned = and_then(
                crate::build::upstream::run_result(store.uri, self.cloned),
                if store.staging {
                    and_then(
                        crate::build::upstream::run_result(store.uri, self.mirrored),
                        self.settled(store),
                    )
                } else {
                    self.settled(store)
                },
            );
            if self.exists {
                and_then(crate::build::upstream::run_result(store.uri, self.refreshed), cloned)
            } else {
                cloned
            }
        }
    }
}

/// Storing a git repository comes to the result of what the host finds.
pub proof fn lemma_git_result(store: GitStore, findings: GitFindings)
    requires
        store.stage.is_early(),
    ensures
        crate::effect::run(store, findings.replies(store)) == Step::<GitStore, _>::Done(
            findings.result(store),
        ),
{
    let dirs = store.stage.dirs().len();
    let settling = findings.settle_replies();
    let cloning = findings.clone_replies(store.staging) + settling;
    let checking = findings.check_replies() + cloning;
    crate::effect::lemma_run_append(store, findings.look_replies(dirs), checking);
    assert(crate::effect::run(store, findings.look_replies(dirs)) == match findings.made_dirs(
        dirs,
    ) {
        Ok(_) => Step::Perform(
            store.at(
                if findings.exists {
                    GitStage::Refresh
                } else {
                    GitStage::DropClone
                },
            ),
        ),
        Err(error) => Step::<GitStore, _>::Done(Err::<Stored, Error>(error)),
    }) by {
        reveal_with_fuel(crate::effect::run, 4);
    }
    if findings.exists {
        lemma_check_result(store.at(GitStage::Refresh), findings, cloning);
    } else {
        assert(checking =~= cloning);
    }
    if !findings.has_ref() {
        lemma_clone_result(store.at(GitStage::DropClone), findings, settling);
    } else {
        assert(cloning =~= settling);
    }
    lemma_settle_result(store.at(GitStage::Reset { cached: findings.has_ref() }), findings);
}

proof fn lemma_check_result(store: GitStore, findings: GitFindings, rest: Seq<Reply>)
    requires
        store.stage is Refresh,
        findings.exists,
    ensures
        crate::effect::run(store, findings.check_replies() + rest)
            == match crate::build::upstream::run_result(store.uri, findings.refreshed) {
            Ok(_) => crate::effect::run(
                store.at(
                    if findings.has_ref() {
                        GitStage::Reset { cached: true }
                    } else {
                        GitStage::DropClone
                    },
                ),
                rest,
            ),
            Err(error) => Step::Done(Err(error)),
        },
{
    reveal_with_fuel(crate::effect::run, 3);
    crate::effect::lemma_run_append(store, findings.check_replies(), rest);
}

proof fn lemma_clone_result(store: GitStore, findings: GitFindings, rest: Seq<Reply>)
    requires
        store.stage is DropClone,
        !findings.has_ref(),
    ensures
        crate::effect::run(store, findings.clone_replies(store.staging) + rest)
            == match crate::build::upstream::run_result(store.uri, findings.cloned) {
            Ok(_) => match crate::build::upstream::run_result(
                store.uri,
                if store.staging {
                    findings.mirrored
                } else {
                    Ok(true)
                },
            ) {
                Ok(_) => crate::effect::run(store.at(GitStage::Reset { cached: false }), rest),
                Err(error) => Step::Done(Err(error)),
            },
            Err(error) => Step::Done(Err(error)),
        },
{
    reveal_with_fuel(crate::effect::run, 5);
    crate::effect::lemma_run_append(store, findings.clone_replies(store.staging), rest);
}

proof fn lemma_settle_result(store: GitStore, findings: GitFindings)
    requires
        store.stage == (GitStage::Reset { cached: findings.has_ref() }),
    ensures
        crate::effect::run(store, findings.settle_replies()) == Step::<GitStore, _>::Done(
            findings.settled(store),
        ),
{
    reveal_with_fuel(crate::effect::run, 4);
}

/// The mirror and the working copy of a repository are kept apart, wherever the repository
/// stands at a relative place.
pub proof fn lemma_mirror_is_kept_apart(git: Git, upstreams: Seq<char>)
    requires
        git.uri@.relative_path.len() > 0 ==> git.uri@.relative_path[0] != '/',
    ensures
        git.staging_place(upstreams) != git.final_place(upstreams),
{
    reveal_strlit("git");
    reveal_strlit("staging");
}

/// What sharing an upstream comes to: an archive that cannot be linked is copied, whatever
/// the reason; a working copy is copied at once.
pub proof fn lemma_share_result(
    stored: Stored,
    to: String,
    linked: Result<(), IoError>,
    copied: Result<(), IoError>,
)
    ensures
        ({
            let share = stored.share_at(to);
            let replies = if stored is Plain {
                seq![Reply::Io(linked), Reply::Io(copied)]
            } else {
                seq![Reply::Io(copied)]
            };
            let from = stored.path()@;
            let result = match copied {
                Ok(_) => Ok(()),
                Err(error) => Err(Error::Io(error)),
            };
            &&& crate::effect::run(share, replies) == Step::<Share, Result<(), Error>>::Done(
                if stored is Plain && linked is Ok {
                    Ok(())
                } else {
                    result
                },
            )
            &&& crate::effect::trace(share, replies) == if stored is Git {
                seq![Wanted::CopyDir { from, to: to@ }]
            } else if linked is Ok {
                seq![Wanted::HardLink { from, to: to@ }]
            } else {
                seq![Wanted::HardLink { from, to: to@ }, Wanted::Copy { from, to: to@ }]
            }
        }),
{
    reveal_with_fuel(crate::effect::run, 3);
    reveal_with_fuel(crate::effect::trace, 3);
}

/// Whether an upstream has been stored in the cache and then shared, by the replies to its
/// installation.
pub open spec fn is_stored_and_shared(
    installation: Installation,
    replies: Seq<Reply>,
    stored: Stored,
) -> bool {
    exists|n: int|
        {
            &&& 0 < n < replies.len()
            &&& #[trigger] crate::effect::run(installation.stage->Store_0, replies.take(n))
                == Step::<Storing, _>::Done(Ok::<Stored, Error>(stored))
            &&& crate::effect::run(stored.share_at(installation.target), replies.skip(n))
                == Step::<Share, _>::Done(Ok::<(), Error>(()))
        }
}

/// An upstream is shared only after it was stored, and what is handed over is what was
/// stored and shared.
pub proof fn lemma_installation(installation: Installation, replies: Seq<Reply>, stored: Stored)
    requires
        installation.stage is Store,
        crate::effect::run(installation, replies) == Step::<Installation, _>::Done(
            Ok::<Stored, Error>(stored),
        ),
    ensures
        is_stored_and_shared(installation, replies, stored),
    decreases replies.len(),
{
    assert(replies.len() > 0);
    let storing = installation.stage->Store_0;
    let rest = replies.drop_first();
    match storing.after(replies[0]) {
        Step::Perform(next) => {
            let next_installation = Installation {
                stage: InstallStage::Store(next),
                ..installation
            };
            lemma_installation(next_installation, rest, stored);
            let m = choose|m: int|
                {
                    &&& 0 < m < rest.len()
                    &&& #[trigger] crate::effect::run(next, rest.take(m)) == Step::<
                        Storing,
                        _,
                    >::Done(Ok::<Stored, Error>(stored))
                    &&& crate::effect::run(stored.share_at(installation.target), rest.skip(m))
                        == Step::<Share, _>::Done(Ok::<(), Error>(()))
                };
            assert(replies.take(m + 1).drop_first() =~= rest.take(m));
            assert(replies.take(m + 1)[0] == replies[0]);
            assert(replies.skip(m + 1) =~= rest.skip(m));
            assert(crate::effect::run(storing, replies.take(m + 1)) == Step::<
                Storing,
                _,
            >::Done(Ok::<Stored, Error>(stored)));
        },
        Step::Done(Ok(found)) => {
            lemma_sharing(installation.target, found.share_at(installation.target), found, rest);
            assert(rest.len() > 0);
            assert(replies.take(1)[0] == replies[0]);
            assert(replies.skip(1) =~= rest);
            assert(crate::effect::run(storing, replies.take(1)) == Step::<
                Storing,
                _,
            >::Done(Ok::<Stored, Error>(stored)));
        },
        Step::Done(Err(_)) => {},
    }
}

proof fn lemma_sharing(target: String, share: Share, found: Stored, replies: Seq<Reply>)
    ensures
        crate::effect::run(
            Installation { target, stage: InstallStage::Share(share, found) },
            replies,
        ) matches Step::Done(Ok(stored)) ==> {
            &&& stored == found
            &&& replies.len() > 0
            &&& crate::effect::run(share, replies) == Step::<Share, _>::Done(Ok::<(), Error>(()))
        },
    decreases replies.len(),
{
    if replies.len() > 0 {
        if let Step::Perform(next) = share.after(replies[0]) {
            lemma_sharing(target, next, found, replies.drop_first());
        }
    }
}

/// An upstream is shared where it was asked for, under the name that it was stored with,
/// which is its own.
pub proof fn lemma_installed_under_its_name(
    upstream: Upstream,
    upstreams: Seq<char>,
    dest_dir: Seq<char>,
    installation: Installation,
    replies: Seq<Reply>,
    stored: Stored,
)
    requires
        installation.is_start_of(upstream, upstreams, dest_dir),
        crate::effect::run(installation, replies) == Step::<Installation, _>::Done(
            Ok::<Stored, Error>(stored),
        ),
    ensures
        stored.name()@ == upstream.shared_name(),
        stored.share_at(installation.target).target()@ == path::joined(
            dest_dir,
            stored.name()@,
        ),
{
    lemma_installation(installation, replies, stored);
    let storing = installation.stage->Store_0;
    let n = choose|n: int|
        #[trigger] crate::effect::run(storing, replies.take(n)) == Step::<Storing, _>::Done(
            Ok::<Stored, Error>(stored),
        );
    match storing {
        Storing::Plain(store) => {
            lemma_storing_plain(store, replies.take(n));
            lemma_plain_keeps_name(store, replies.take(n));
        },
        Storing::Git(store) => {
            lemma_storing_git(store, replies.take(n));
            lemma_git_keeps_name(store, replies.take(n));
        },
    }
}

proof fn lemma_plain_keeps_name(store: PlainStore, replies: Seq<Reply>)
    ensures
        crate::effect::run(store, replies) matches Step::Done(Ok(stored)) ==> stored.name()
            == store.name,
    decreases replies.len(),
{
    if replies.len() > 0 {
        if let Step::Perform(next) = store.after(replies[0]) {
            lemma_plain_keeps_name(next, replies.drop_first());
        }
    }
}

proof fn lemma_git_keeps_name(store: GitStore, replies: Seq<Reply>)
    ensures
        crate::effect::run(store, replies) matches Step::Done(Ok(stored)) ==> stored.name()
            == store.name,
    decreases replies.len(),
{
    if replies.len() > 0 {
        if let Step::Perform(next) = store.after(replies[0]) {
            lemma_git_keeps_name(next, replies.drop_first());
        }
    }
}

/// Where upstreams have been made available, each one has been stored and then shared in the
/// directory, under its name; and what the recipe is rewritten from holds what was stored of
/// each, once, and nothing else.
pub proof fn lemma_sync_makes_all_available(
    upstreams: Seq<Upstream>,
    cache_dir: Seq<char>,
    sync: SyncView,
    replies: Seq<(int, Reply)>,
    finished: FinishedView,
)
    requires
        sync.installations.len() == upstreams.len() > 0,
        forall|i: int|
            0 <= i < upstreams.len() ==> (#[trigger] sync.installations[i]).is_start_of(
                upstreams[i],
                cache_dir,
                sync.dir,
            ),
        syncing::in_turn(sync.begun(), replies),
        syncing::run(sync.begun(), replies) == SyncNext::Ends(Ok(finished)),
    ensures
        finished.stored.to_multiset() == syncing::all_stored(sync, replies).to_multiset(),
        finished.stored.len() == upstreams.len(),
        finished.source == sync.source,
        finished.path == sync.path,
        forall|i: int|
            0 <= i < upstreams.len() ==> {
                let stored = #[trigger] syncing::all_stored(sync, replies)[i];
                &&& is_stored_and_shared(
                    sync.installations[i],
                    syncing::replies_to(i, replies),
                    stored,
                )
                &&& stored.name()@ == upstreams[i].shared_name()
                &&& stored.share_at(sync.installations[i].target).target()@ == path::joined(
                    sync.dir,
                    upstreams[i].shared_name(),
                )
            },
{
    syncing::lemma_sync(sync, replies);
    assert forall|i: int| 0 <= i < upstreams.len() implies {
        let stored = #[trigger] syncing::all_stored(sync, replies)[i];
        &&& is_stored_and_shared(
            sync.installations[i],
            syncing::replies_to(i, replies),
            stored,
        )
        &&& stored.name()@ == upstreams[i].shared_name()
        &&& stored.share_at(sync.installations[i].target).target()@ == path::joined(
            sync.dir,
            upstreams[i].shared_name(),
        )
    } by {
        let installation = sync.installations[i];
        let given = syncing::replies_to(i, replies);
        let stored = syncing::all_stored(sync, replies)[i];
        assert(syncing::outcome(sync, replies, i) == Step::<Installation, _>::Done(
            Ok::<Stored, Error>(stored),
        ));
        lemma_installation(installation, given, stored);
        lemma_installed_under_its_name(
            upstreams[i],
            cache_dir,
            sync.dir,
            installation,
            given,
            stored,
        );
    }
}

/// A repository that has been stored says which entry of the recipe it came from, which
/// reference that entry named, and from where it was cloned.
pub proof fn lemma_stored_git_names_its_recipe_entry(
    entry: recipe::Upstream,
    index: usize,
    git: Git,
    upstreams: Seq<char>,
    store: GitStore,
    replies: Seq<Reply>,
    stored: Stored,
)
    requires
        crate::build::upstream::of_recipe(entry, index) == Ok::<Upstream, Error>(
            Upstream::Git(git),
        ),
        store.is_start_of(git, upstreams),
        crate::effect::answered(store, replies),
        crate::effect::run(store, replies) == Step::<GitStore, _>::Done(
            Ok::<Stored, Error>(stored),
        ),
    ensures
        stored matches Stored::Git { original_index, original_ref, uri, path, .. } && {
            &&& original_index == index
            &&& entry.props matches recipe::Props::Git { git_ref, .. } && original_ref == git_ref
            &&& uri == entry.url
            &&& path@ == git.final_place(upstreams)
        },
{
    lemma_git_conversation(store, replies);
}

/// An archive that has been stored is found by whoever stores it again: it is looked for
/// where it was put, and then handed over as cached, under the same name.
pub proof fn lemma_stored_archive_is_found_again(
    plain: Plain,
    upstreams: Seq<char>,
    first: PlainStore,
    replies: Seq<Reply>,
    stored: Stored,
    second: PlainStore,
)
    requires
        first.is_start_of(plain, upstreams),
        crate::effect::answered(first, replies),
        crate::effect::run(first, replies) == Step::<PlainStore, _>::Done(
            Ok::<Stored, Error>(stored),
        ),
        second.is_start_of(plain, upstreams),
    ensures
        ({
            let found = seq![Reply::Io(Ok(())), Reply::Found(true)];
            &&& crate::effect::trace(second, found) == seq![
                Wanted::EnsureDir(second.dir@),
                Wanted::Exists(stored.path()@),
            ]
            &&& crate::effect::run(second, found) matches Step::Done(Ok(again))
            &&& again is Plain
            &&& again.cached()
            &&& again.path()@ == stored.path()@
            &&& again.name()@ == stored.name()@
        }),
{
    lemma_plain_conversation(first, replies);
    reveal_with_fuel(crate::effect::run, 3);
    reveal_with_fuel(crate::effect::trace, 3);
}

/// A working copy that has been stored is found by whoever stores it again: where it can be
/// fetched into and still has the reference, nothing is cloned, and it is handed over as
/// cached from the same place.
pub proof fn lemma_stored_working_copy_is_found_again(
    git: Git,
    upstreams: Seq<char>,
    first: GitStore,
    replies: Seq<Reply>,
    stored: Stored,
    second: GitStore,
    hash: String,
)
    requires
        first.is_start_of(git, upstreams),
        crate::effect::answered(first, replies),
        crate::effect::run(first, replies) == Step::<GitStore, _>::Done(
            Ok::<Stored, Error>(stored),
        ),
        second.is_start_of(git, upstreams),
    ensures
        ({
            let made = Seq::new(
                second.stage.dirs().len(),
                |i: int| Reply::Io(Ok::<(), IoError>(())),
            );
            let found = made + seq![
                Reply::Found(true),
                Reply::Ran(Ok(true)),
                Reply::Ran(Ok(true)),
                Reply::Ran(Ok(true)),
                Reply::Ran(Ok(true)),
                Reply::Resolved(Ok(hash)),
            ];
            &&& crate::effect::trace(second, found)[made.len() as int] == Wanted::Exists(
                stored.path()@,
            )
            &&& crate::effect::run(second, found) == Step::<GitStore, _>::Done(
                Ok::<Stored, Error>(second.stored(true, hash)),
            )
            &&& second.stored(true, hash).path()@ == stored.path()@
            &&& second.stored(true, hash).name()@ == stored.name()@
        }),
{
    lemma_git_conversation(first, replies);
    let made = Seq::new(second.stage.dirs().len(), |i: int| Reply::Io(Ok::<(), IoError>(())));
    let found = seq![
        Reply::Found(true),
        Reply::Ran(Ok(true)),
        Reply::Ran(Ok(true)),
        Reply::Ran(Ok(true)),
        Reply::Ran(Ok(true)),
        Reply::Resolved(Ok(hash)),
    ];
    lemma_makes_dirs(second, made, found);
    let looking = second.at(GitStage::Probe);
    assert(crate::effect::run(looking, found) == Step::<GitStore, _>::Done(
        Ok::<Stored, Error>(second.stored(true, hash)),
    )) by {
        reveal_with_fuel(crate::effect::run, 7);
    }
}

/// Once the directories have been made, it goes on to look for the working copy.
proof fn lemma_makes_dirs(store: GitStore, made: Seq<Reply>, found: Seq<Reply>)
    requires
        store.stage.is_early(),
        made == Seq::new(store.stage.dirs().len(), |i: int| Reply::Io(Ok::<(), IoError>(()))),
        found.len() > 0,
    ensures
        crate::effect::run(store, made + found) == crate::effect::run(
            store.at(GitStage::Probe),
            found,
        ),
        crate::effect::trace(store, made + found).len() > made.len(),
        crate::effect::trace(store, made + found)[made.len() as int] == Wanted::Exists(
            store.final_path@,
        ),
    decreases made.len(),
{
    let all = made + found;
    if store.stage is Probe {
        assert(all =~= found);
        assert(store.at(GitStage::Probe) == store);
    } else {
        assert(all[0] == made[0]);
        assert(all.drop_first() =~= made.drop_first() + found);
        let next = store.after(all[0])->Perform_0;
        assert(made.drop_first() =~= Seq::new(
            next.stage.dirs().len(),
            |i: int| Reply::Io(Ok::<(), IoError>(())),
        ));
        lemma_makes_dirs(next, made.drop_first(), found);
    }
}

/// What has been stored of an upstream, and what it was cloned through, is among what a
/// removal of the upstream removes.
pub proof fn lemma_removal_reaches_what_is_stored(
    upstream: Upstream,
    upstreams: Seq<char>,
    storing: Storing,
    replies: Seq<Reply>,
    stored: Stored,
)
    requires
        storing.is_start_of(upstream, upstreams),
        crate::effect::answered(storing, replies),
        crate::effect::run(storing, replies) == Step::<Storing, _>::Done(
            Ok::<Stored, Error>(stored),
        ),
    ensures
        stored is Plain ==> upstream.cached_entries(upstreams).contains(
            Entry::File(stored.path()@),
        ),
        stored is Git ==> upstream.cached_entries(upstreams).contains(
            Entry::Tree(stored.path()@),
        ),
        upstream matches Upstream::Git(git) ==> upstream.cached_entries(upstreams).contains(
            Entry::Tree(git.clone_place(upstreams)),
        ),
{
    match storing {
        Storing::Plain(store) => {
            lemma_storing_plain(store, replies);
            lemma_plain_conversation(store, replies);
            assert(upstream.cached_entries(upstreams)[0] == Entry::File(stored.path()@));
        },
        Storing::Git(store) => {
            lemma_storing_git(store, replies);
            lemma_git_conversation(store, replies);
            let git = upstream->Git_0;
            assert(upstream.cached_entries(upstreams)[0] == Entry::Tree(
                git.staging_place(upstreams),
            ));
            assert(upstream.cached_entries(upstreams)[1] == Entry::Tree(stored.path()@));
        },
    }
}

proof fn lemma_storing_plain(store: PlainStore, replies: Seq<Reply>)
    ensures
        crate::effect::answered(Storing::Plain(store), replies) == crate::effect::answered(
            store,
            replies,
        ),
        crate::effect::run(Storing::Plain(store), replies) == match crate::effect::run(
            store,
            replies,
        ) {
            Step::Perform(store) => Step::Perform(Storing::Plain(store)),
            Step::Done(result) => Step::Done(result),
        },
    decreases replies.len(),
{
    if replies.len() > 0 {
        if let Step::Perform(next) = store.after(replies[0]) {
            lemma_storing_plain(next, replies.drop_first());
        }
    }
}

proof fn lemma_storing_git(store: GitStore, replies: Seq<Reply>)
    ensures
        crate::effect::answered(Storing::Git(store), replies) == crate::effect::answered(
            store,
            replies,
        ),
        crate::effect::run(Storing::Git(store), replies) == match crate::effect::run(
            store,
            replies,
        ) {
            Step::Perform(store) => Step::Perform(Storing::Git(store)),
            Step::Done(result) => Step::Done(result),
        },
    decreases replies.len(),
{
    if replies.len() > 0 {
        if let Step::Perform(next) = store.after(replies[0]) {
            lemma_storing_git(next, replies.drop_first());
        }
    }
}

} // verus!
