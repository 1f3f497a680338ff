//! What the upstreams of a recipe are promised, from what the recipe says of them to what the
//! host is asked for.

use crate::build::guarantees;
use crate::build::guarantees::GitFindings;
use crate::build::store::{
    GitStore, InstallStage, Installation, PlainStore, Share, Stored, Storing,
};
use crate::build::syncing;
use crate::build::syncing::{Publishing, SyncNext, SyncView, SyncingView};
use crate::build::upstream::{Error, Git, Plain, Removal, Upstream};
use crate::cache;
use crate::command::GitCommand;
use crate::digest;
use crate::effect::{FetchError, IoError, Program, Reply, Step, Wanted};
use crate::path;
use crate::recipe;
use crate::recipe::Props;
use crate::removal;
use crate::removal::Entry;
use crate::text;
use crate::upstream::plain;
use crate::uri::Url;
use vstd::prelude::*;
use vstd::utf8::*;

verus! {

/// An entry of a recipe that parses keeps its parts: an archive its URL, its digest and its
/// name, a repository its URL, its reference, and whether it is cloned by way of a mirror; and
/// a repository knows its place in the recipe. Only an archive whose digest is shorter than
/// five bytes does not parse, and the error holds that digest.
pub proof fn lemma_recipe_entry_keeps_its_parts(entry: recipe::Upstream, index: usize)
    ensures
        match (entry.props, crate::build::upstream::of_recipe(entry, index)) {
            (Props::Plain { hash, rename }, Ok(Upstream::Plain(plain))) => {
                &&& encode_utf8(hash@).len() >= 5
                &&& plain.url == entry.url
                &&& plain.hash@ == hash@
                &&& plain.hash.text() == hash
                &&& plain.rename == rename
                &&& plain.shared_name() == match rename {
                    Some(name) => name@,
                    None => entry.url@.file_name,
                }
            },
            (Props::Plain { hash, .. }, Err(Error::ParseHash(refusal))) => {
                &&& encode_utf8(hash@).len() < 5
                &&& refusal matches plain::ParseHashError::TooShort(refused) && refused == hash
            },
            (Props::Git { git_ref, staging }, Ok(Upstream::Git(git))) => {
                &&& git.uri == entry.url
                &&& git.ref_id == git_ref
                &&& git.staging == staging
                &&& git.original_index == index
            },
            _ => false,
        },
{
    if let Props::Plain { hash, .. } = entry.props {
        plain::lemma_digest_of_text(hash);
    }
}

/// Upstreams are shared under the name that they were given, and under that in their URL where
/// they were given none; repositories are never given any.
pub proof fn lemma_shared_name(upstream: Upstream)
    ensures
        upstream.shared_name() == match upstream {
            Upstream::Plain(plain) => match plain.rename {
                Some(name) => name@,
                None => plain.url@.file_name,
            },
            Upstream::Git(git) => git.uri@.file_name,
        },
        upstream matches Upstream::Plain(plain) ==> plain.shared_name() == upstream.shared_name(),
{
}

/// Where a repository is kept: its working copy below `git`, its mirror below `staging/git`, at
/// its place in the tree. It is cloned to the mirror, or to the working copy if it has none.
pub proof fn lemma_places_of_repository(git: Git, upstreams: Seq<char>)
    ensures
        ({
            let place = path::joined(path::joined(upstreams, "git"@), git.uri@.relative_path);
            let mirror = path::joined(
                path::joined(path::joined(upstreams, "staging"@), "git"@),
                git.uri@.relative_path,
            );
            &&& git.final_place(upstreams) == place
            &&& git.staging_place(upstreams) == mirror
            &&& git.staging ==> git.clone_place(upstreams) == mirror
            &&& !git.staging ==> git.clone_place(upstreams) == place
        }),
{
}

/// Where an archive is kept: below `fetched`, in a directory named after the last five
/// characters of its key, in one named after the first five, under its key, which is the digest
/// of its URL followed by its hash, in hexadecimal.
pub proof fn lemma_place_of_archive(plain: Plain, upstreams: Seq<char>)
    requires
        cache::key(plain.url@.text, plain.hash@).len() == 64,
    ensures
        ({
            let key = digest::hex(
                digest::sha256(encode_utf8(plain.url@.text) + encode_utf8(plain.hash@)),
            );
            plain.place_in(upstreams) == path::joined(
                path::joined(upstreams, "fetched"@),
                key.take(5).push('/') + key.skip(59).push('/') + key,
            )
        }),
{
    let key = cache::key(plain.url@.text, plain.hash@);
    cache::lemma_message(plain.url@.text, plain.hash@);
    cache::lemma_hex_holds_no_separator(
        digest::sha256(cache::message(plain.url@.text, plain.hash@)),
    );
    cache::lemma_place(path::joined(upstreams, "fetched"@), key);
}

/// Errors say what they are; the repository that failed is named, and so are the archive, the
/// digest that was expected and the one that came, where they do not match.
pub proof fn lemma_errors_say(error: Error)
    ensures
        match error {
            Error::GitFailed(uri) => error.says() == "failed to clone "@ + uri@.text,
            Error::ParseHash(_) => error.says() == "parse hash"@,
            Error::HashMismatch { name, expected, got } => error.says() == "hash mismatch for "@
                + name@ + ", expected "@ + text::quoted(expected@) + " got Hash("@ + text::quoted(
                got@,
            ) + ")"@,
            Error::Request(_) => error.says() == "request"@,
            Error::Io(_) => error.says() == "io"@,
            Error::Git(_) => error.says() == "git"@,
        },
{
}

/// A failed fetch is reported with its cause, and a run of the git program counts as done
/// exactly when it ended in success.
pub proof fn lemma_causes_are_kept(fetch_error: FetchError, uri: Url, ran: Result<bool, IoError>)
    ensures
        match (fetch_error, crate::build::upstream::fetch_failed(fetch_error)) {
            (FetchError::ParseHash(cause), Error::ParseHash(error)) => error == cause,
            (FetchError::Request(cause), Error::Request(error)) => error == cause,
            (FetchError::Io(cause), Error::Io(error)) => error == cause,
            _ => false,
        },
        match (ran, crate::build::upstream::run_result(uri, ran)) {
            (Ok(true), Ok(_)) => true,
            (Ok(false), Err(Error::GitFailed(named))) => named == uri,
            (Err(cause), Err(Error::Io(error))) => error == cause,
            _ => false,
        },
{
}

/// What storing an archive does and comes to, from the archive and from what the host finds.
///
/// Its directory is made first. An archive that exists then is handed over as cached, and
/// nothing else is asked for. Otherwise its URL is fetched to a file beside its place. One with
/// the digest that the archive must have is renamed to that place and handed over; one with
/// another is removed and reported, with both digests. Whatever fails is reported as it is.
pub proof fn lemma_store_of_archive(
    plain: Plain,
    upstreams: Seq<char>,
    store: PlainStore,
    made_dir: Result<(), IoError>,
    exists: bool,
    fetched: Result<plain::Hash, FetchError>,
    last: Result<(), IoError>,
)
    requires
        store.is_start_of(plain, upstreams),
    ensures
        ({
            let path = plain.place_in(upstreams);
            let partial = path + ".part"@;
            let replies = seq![
                Reply::Io(made_dir),
                Reply::Found(exists),
                Reply::Fetched(fetched),
                Reply::Io(last),
            ];
            let trace = crate::effect::trace(store, replies);
            let all = seq![
                Wanted::EnsureDir(path::parent_dir(path)->Some_0),
                Wanted::Exists(path),
                Wanted::Fetch { url: plain.url@.text, dest: partial },
            ];
            &&& path::parent_dir(path) is Some
            &&& crate::effect::run(store, replies) matches Step::Done(result)
            &&& if made_dir is Err {
                &&& trace == all.take(1)
                &&& result == Err::<Stored, Error>(Error::Io(made_dir->Err_0))
            } else if exists {
                &&& trace == all.take(2)
                &&& result matches Ok(Stored::Plain { name, path: at, was_cached }) && was_cached
                    && at@ == path && name@ == plain.shared_name()
            } else if fetched is Err {
                &&& trace == all
                &&& match (fetched->Err_0, result) {
                    (FetchError::ParseHash(cause), Err(Error::ParseHash(error))) => error == cause,
                    (FetchError::Request(cause), Err(Error::Request(error))) => error == cause,
                    (FetchError::Io(cause), Err(Error::Io(error))) => error == cause,
                    _ => false,
                }
            } else if fetched->Ok_0@ == plain.hash@ {
                &&& trace == all.push(Wanted::Rename { from: partial, to: path })
                &&& match last {
                    Ok(_) => result matches Ok(Stored::Plain { name, path: at, was_cached })
                        && !was_cached && at@ == path && name@ == plain.shared_name(),
                    Err(error) => result == Err::<Stored, Error>(Error::Io(error)),
                }
            } else {
                &&& trace == all.push(Wanted::RemoveFile(partial))
                &&& match last {
                    Ok(_) => result matches Err(Error::HashMismatch { name, expected, got })
                        && name@ == plain.shared_name() && expected@ == plain.hash@ && got
                        == fetched->Ok_0,
                    Err(error) => result == Err::<Stored, Error>(Error::Io(error)),
                }
            }
        }),
{
    reveal_with_fuel(crate::effect::run, 5);
    reveal_with_fuel(crate::effect::trace, 5);
    plain.hash.lemma_text();
}

/// The directories above two paths, those that there are.
pub open spec fn parents(first: Seq<char>, second: Seq<char>) -> Seq<Seq<char>> {
    match (path::parent_dir(first), path::parent_dir(second)) {
        (Some(a), Some(b)) => seq![a, b],
        (Some(a), None) => seq![a],
        (None, Some(b)) => seq![b],
        (None, None) => Seq::empty(),
    }
}

/// The error that a run of the git program ends in, if any.
pub open spec fn run_error(uri: Url, ran: Result<bool, IoError>) -> Option<Error> {
    match ran {
        Ok(true) => None,
        Ok(false) => Some(Error::GitFailed(uri)),
        Err(error) => Some(Error::Io(error)),
    }
}

/// What is handed over of a repository that has been stored, part by part: its name, its
/// working copy, where it came from and at which reference, the commit that the host found for
/// the reference, cached or not, and its place in the recipe.
pub open spec fn is_handed_over(
    stored: Stored,
    git: Git,
    upstreams: Seq<char>,
    cached: bool,
    commit: String,
) -> bool {
    stored matches Stored::Git {
        name,
        path,
        was_cached,
        uri,
        original_ref,
        resolved_hash,
        original_index,
    } && name@ == git.uri@.file_name && path@ == path::joined(
        path::joined(upstreams, "git"@),
        git.uri@.relative_path,
    ) && was_cached == cached && uri == git.uri && original_ref == git.ref_id && resolved_hash
        == commit && original_index == git.original_index
}

/// What storing a repository does where it succeeds: it makes the directories above the clone
/// and the working copy, looks for the working copy, and where there is one fetches into it and
/// looks for the reference. Without a working copy that has the reference it removes what is in
/// the way and clones, to the mirror first if there is one, and from there. Cached or not, the
/// working copy is then put at the reference, its submodules are updated, and the commit of the
/// reference is looked up, which is the one that is handed over.
pub proof fn lemma_steps_of_storing_repository(
    git: Git,
    upstreams: Seq<char>,
    store: GitStore,
    replies: Seq<Reply>,
    stored: Stored,
)
    requires
        store.is_start_of(git, upstreams),
        crate::effect::answered(store, replies),
        crate::effect::run(store, replies) == Step::<GitStore, _>::Done(
            Ok::<Stored, Error>(stored),
        ),
    ensures
        ({
            let place = path::joined(path::joined(upstreams, "git"@), git.uri@.relative_path);
            let mirror = path::joined(
                path::joined(path::joined(upstreams, "staging"@), "git"@),
                git.uri@.relative_path,
            );
            let clone_place = if git.staging {
                mirror
            } else {
                place
            };
            let trace = crate::effect::trace(store, replies);
            let look = parents(clone_place, place).map_values(
                |dir: Seq<char>| Wanted::EnsureDir(dir),
            ).push(Wanted::Exists(place));
            let check = seq![
                Wanted::Git { command: GitCommand::Fetch, cwd: Some(place) },
                Wanted::Git { command: GitCommand::VerifyObject(git.ref_id@), cwd: Some(place) },
            ];
            let clone = if git.staging {
                seq![
                    Wanted::RemoveDirAll(mirror),
                    Wanted::RemoveDirAll(place),
                    Wanted::Git {
                        command: GitCommand::Clone {
                            mirror: true,
                            source: git.uri@.text,
                            target: mirror,
                        },
                        cwd: None,
                    },
                    Wanted::Git {
                        command: GitCommand::Clone {
                            mirror: false,
                            source: mirror,
                            target: place,
                        },
                        cwd: None,
                    },
                ]
            } else {
                seq![
                    Wanted::RemoveDirAll(place),
                    Wanted::Git {
                        command: GitCommand::Clone {
                            mirror: false,
                            source: git.uri@.text,
                            target: place,
                        },
                        cwd: None,
                    },
                ]
            };
            let settle = seq![
                Wanted::Git { command: GitCommand::ResetHard(git.ref_id@), cwd: Some(place) },
                Wanted::Git { command: GitCommand::UpdateSubmodules, cwd: Some(place) },
                Wanted::ResolveRef { path: place, ref_id: git.ref_id@, uri: git.uri@.text },
            ];
            &&& replies.last() matches Reply::Resolved(Ok(commit)) && is_handed_over(
                stored,
                git,
                upstreams,
                stored.cached(),
                commit,
            )
            &&& if stored.cached() {
                trace == look + check + settle
            } else {
                ||| trace == look + clone + settle
                ||| trace == look + check + clone + settle
            }
        }),
{
    guarantees::lemma_git_conversation(store, replies);
    lemma_dirs(git, upstreams, store);
    let place = git.final_place(upstreams);
    assert(guarantees::look(store) =~= parents(git.clone_place(upstreams), place).map_values(
        |dir: Seq<char>| Wanted::EnsureDir(dir),
    ).push(Wanted::Exists(place)));
}

proof fn lemma_dirs(git: Git, upstreams: Seq<char>, store: GitStore)
    requires
        store.is_start_of(git, upstreams),
    ensures
        store.stage.dirs() == parents(git.clone_place(upstreams), git.final_place(upstreams)),
{
    assert(store.stage.dirs() =~= parents(
        git.clone_place(upstreams),
        git.final_place(upstreams),
    ));
}

/// What storing a repository comes to, from the repository and from what the host finds.
///
/// It is handed over as cached exactly when there was a working copy with the reference. The
/// first of these to fail is what is reported, as it is: the making of a directory, the fetching
/// into the working copy, the cloning, the cloning from the mirror, the putting at the
/// reference, the updating of submodules, the looking up of the commit. A failure to look for
/// the reference counts as its absence, and failures to remove what is in the way of a clone
/// are passed over.
pub proof fn lemma_result_of_storing_repository(
    git: Git,
    upstreams: Seq<char>,
    store: GitStore,
    findings: GitFindings,
)
    requires
        store.is_start_of(git, upstreams),
    ensures
        ({
            let place = path::joined(path::joined(upstreams, "git"@), git.uri@.relative_path);
            let mirror = path::joined(
                path::joined(path::joined(upstreams, "staging"@), "git"@),
                git.uri@.relative_path,
            );
            let dirs = parents(
                if git.staging {
                    mirror
                } else {
                    place
                },
                place,
            ).len();
            let has_ref = findings.exists && findings.checked == Ok::<bool, IoError>(true);
            let made = if dirs == 2 {
                seq![Reply::Io(findings.first_dir), Reply::Io(findings.second_dir)]
            } else if dirs == 1 {
                seq![Reply::Io(findings.first_dir)]
            } else {
                Seq::empty()
            };
            let checked = if findings.exists {
                seq![Reply::Ran(findings.refreshed), Reply::Ran(findings.checked)]
            } else {
                Seq::empty()
            };
            let cloned = if has_ref {
                Seq::empty()
            } else if git.staging {
                seq![
                    Reply::Io(findings.dropped_clone),
                    Reply::Io(findings.dropped_final),
                    Reply::Ran(findings.cloned),
                    Reply::Ran(findings.mirrored),
                ]
            } else {
                seq![Reply::Io(findings.dropped_clone), Reply::Ran(findings.cloned)]
            };
            let replies = made.push(Reply::Found(findings.exists)) + checked + cloned + seq![
                Reply::Ran(findings.reset),
                Reply::Ran(findings.submodules),
                Reply::Resolved(findings.resolved),
            ];
            &&& crate::effect::run(store, replies) matches Step::Done(result)
            &&& if dirs >= 1 && findings.first_dir is Err {
                result == Err::<Stored, Error>(Error::Io(findings.first_dir->Err_0))
            } else if dirs >= 2 && findings.second_dir is Err {
                result == Err::<Stored, Error>(Error::Io(findings.second_dir->Err_0))
            } else if findings.exists && run_error(git.uri, findings.refreshed) is Some {
                result == Err::<Stored, Error>(run_error(git.uri, findings.refreshed)->Some_0)
            } else if !has_ref && run_error(git.uri, findings.cloned) is Some {
                result == Err::<Stored, Error>(run_error(git.uri, findings.cloned)->Some_0)
            } else if !has_ref && git.staging && run_error(git.uri, findings.mirrored) is Some {
                result == Err::<Stored, Error>(run_error(git.uri, findings.mirrored)->Some_0)
            } else if run_error(git.uri, findings.reset) is Some {
                result == Err::<Stored, Error>(run_error(git.uri, findings.reset)->Some_0)
            } else if run_error(git.uri, findings.submodules) is Some {
                result == Err::<Stored, Error>(run_error(git.uri, findings.submodules)->Some_0)
            } else {
                match findings.resolved {
                    Ok(commit) => result matches Ok(stored) && is_handed_over(
                        stored,
                        git,
                        upstreams,
                        has_ref,
                        commit,
                    ),
                    Err(error) => result == Err::<Stored, Error>(Error::Git(error)),
                }
            }
        }),
{
    guarantees::lemma_git_result(store, findings);
    lemma_dirs(git, upstreams, store);
    let dirs = store.stage.dirs().len();
    let made = if dirs == 2 {
        seq![Reply::Io(findings.first_dir), Reply::Io(findings.second_dir)]
    } else if dirs == 1 {
        seq![Reply::Io(findings.first_dir)]
    } else {
        Seq::empty()
    };
    assert(made.push(Reply::Found(findings.exists)) =~= findings.look_replies(dirs));
    assert(findings.look_replies(dirs) + findings.check_replies() + findings.clone_replies(
        git.staging,
    ) + findings.settle_replies() =~= findings.replies(store));
}

/// Storing an upstream is storing the archive or the repository that it is: the same actions
/// are asked for, and the same comes of it.
pub proof fn lemma_storing_is_that_of_its_upstream(storing: Storing, replies: Seq<Reply>)
    ensures
        match storing {
            Storing::Plain(store) => {
                &&& crate::effect::trace(storing, replies) == crate::effect::trace(store, replies)
                &&& crate::effect::answered(storing, replies) == crate::effect::answered(
                    store,
                    replies,
                )
                &&& match (
                    crate::effect::run(storing, replies),
                    crate::effect::run(store, replies),
                ) {
                    (Step::Done(a), Step::Done(b)) => a == b,
                    (Step::Perform(Storing::Plain(a)), Step::Perform(b)) => a == b,
                    _ => false,
                }
            },
            Storing::Git(store) => {
                &&& crate::effect::trace(storing, replies) == crate::effect::trace(store, replies)
                &&& crate::effect::answered(storing, replies) == crate::effect::answered(
                    store,
                    replies,
                )
                &&& match (
                    crate::effect::run(storing, replies),
                    crate::effect::run(store, replies),
                ) {
                    (Step::Done(a), Step::Done(b)) => a == b,
                    (Step::Perform(Storing::Git(a)), Step::Perform(b)) => a == b,
                    _ => false,
                }
            },
        },
    decreases replies.len(),
{
    if replies.len() > 0 {
        if let Step::Perform(next) = storing.after(replies[0]) {
            lemma_storing_is_that_of_its_upstream(next, replies.drop_first());
        }
    }
}

/// An upstream that is stored is the one that was asked for.
pub proof fn lemma_storing_starts_with_its_upstream(
    storing: Storing,
    upstream: Upstream,
    upstreams: Seq<char>,
)
    requires
        storing.is_start_of(upstream, upstreams),
    ensures
        match upstream {
            Upstream::Plain(plain) => storing matches Storing::Plain(store) && store.is_start_of(
                plain,
                upstreams,
            ),
            Upstream::Git(git) => storing matches Storing::Git(store) && store.is_start_of(
                git,
                upstreams,
            ),
        },
{
}

/// What has been stored is told apart by its parts.
pub proof fn lemma_stored(stored: Stored)
    ensures
        match stored {
            Stored::Plain { name, path, was_cached } => {
                &&& stored.name() == name
                &&& stored.path() == path
                &&& stored.cached() == was_cached
            },
            Stored::Git { name, path, was_cached, .. } => {
                &&& stored.name() == name
                &&& stored.path() == path
                &&& stored.cached() == was_cached
            },
        },
{
}

/// What sharing does and comes to, from what was stored. An archive is linked from the cache,
/// and copied from there where that fails, in whatever way; a working copy is copied whole.
/// Only a failed copy is a failure.
pub proof fn lemma_share_of_stored(
    stored: Stored,
    to: String,
    linked: Result<(), IoError>,
    copied: Result<(), IoError>,
)
    ensures
        ({
            let share = stored.share_at(to);
            &&& share.target() == to
            &&& match stored {
                Stored::Plain { path: from, .. } => {
                    let replies = seq![Reply::Io(linked), Reply::Io(copied)];
                    let trace = crate::effect::trace(share, replies);
                    &&& trace.len() == if linked is Ok {
                        1int
                    } else {
                        2int
                    }
                    &&& trace[0] == (Wanted::HardLink { from: from@, to: to@ })
                    &&& linked is Err ==> trace[1] == (Wanted::Copy { from: from@, to: to@ })
                    &&& crate::effect::run(share, replies) matches Step::Done(result)
                    &&& result == match (linked, copied) {
                        (Err(_), Err(error)) => Err::<(), Error>(Error::Io(error)),
                        _ => Ok(()),
                    }
                },
                Stored::Git { path: from, .. } => {
                    let replies = seq![Reply::Io(copied)];
                    &&& crate::effect::trace(share, replies) == seq![
                        Wanted::CopyDir { from: from@, to: to@ },
                    ]
                    &&& crate::effect::run(share, replies) matches Step::Done(result)
                    &&& result == match copied {
                        Ok(_) => Ok::<(), Error>(()),
                        Err(error) => Err(Error::Io(error)),
                    }
                },
            }
        }),
{
    reveal_with_fuel(crate::effect::run, 3);
    reveal_with_fuel(crate::effect::trace, 3);
}

/// An installation stores its upstream first. As long as that goes on, and where it fails, it
/// asks for just what the storing does, and comes to the same.
pub proof fn lemma_installation_stores(installation: Installation, replies: Seq<Reply>)
    requires
        installation.stage is Store,
        !(crate::effect::run(installation.stage->Store_0, replies) matches Step::Done(Ok(_))),
    ensures
        crate::effect::trace(installation, replies) == crate::effect::trace(
            installation.stage->Store_0,
            replies,
        ),
        match crate::effect::run(installation.stage->Store_0, replies) {
            Step::Perform(storing) => crate::effect::run(installation, replies) matches Step::Perform(
                next,
            ) && next.target == installation.target && next.stage == InstallStage::Store(storing),
            Step::Done(Err(error)) => crate::effect::run(installation, replies) == Step::<
                Installation,
                _,
            >::Done(Err::<Stored, Error>(error)),
            Step::Done(Ok(_)) => true,
        },
    decreases replies.len(),
{
    if replies.len() > 0 {
        let storing = installation.stage->Store_0;
        if let Step::Perform(next) = storing.after(replies[0]) {
            lemma_installation_stores(
                Installation { stage: InstallStage::Store(next), ..installation },
                replies.drop_first(),
            );
        }
    }
}

/// Once its upstream is stored, an installation shares what was stored: all that it has asked
/// for is what the storing did, followed by what the sharing does. It comes to what was stored
/// if the sharing succeeds, and to its error if it fails.
pub proof fn lemma_installation_shares(
    installation: Installation,
    first: Seq<Reply>,
    then_replies: Seq<Reply>,
    stored: Stored,
)
    requires
        installation.stage is Store,
        first.len() > 0,
        crate::effect::run(installation.stage->Store_0, first.drop_last()) is Perform,
        crate::effect::run(installation.stage->Store_0, first) == Step::<Storing, _>::Done(
            Ok::<Stored, Error>(stored),
        ),
    ensures
        ({
            let share = stored.share_at(installation.target);
            let all = first + then_replies;
            &&& crate::effect::trace(installation, all) == crate::effect::trace(
                installation.stage->Store_0,
                first,
            ) + crate::effect::trace(share, then_replies)
            &&& match crate::effect::run(share, then_replies) {
                Step::Perform(next) => crate::effect::run(installation, all) matches Step::Perform(
                    later,
                ) && later.stage == InstallStage::Share(next, stored),
                Step::Done(Ok(_)) => crate::effect::run(installation, all) == Step::<
                    Installation,
                    _,
                >::Done(Ok::<Stored, Error>(stored)),
                Step::Done(Err(error)) => crate::effect::run(installation, all) == Step::<
                    Installation,
                    _,
                >::Done(Err::<Stored, Error>(error)),
            }
        }),
    decreases first.len(),
{
    let all = first + then_replies;
    let storing = installation.stage->Store_0;
    assert(all[0] == first[0]);
    assert(all.drop_first() =~= first.drop_first() + then_replies);
    match storing.after(first[0]) {
        Step::Perform(next) => {
            let next_installation = Installation {
                stage: InstallStage::Store(next),
                ..installation
            };
            let rest = first.drop_first();
            assert(crate::effect::run(next, Seq::<Reply>::empty()) is Perform);
            assert(rest.len() == 0 ==> rest =~= Seq::<Reply>::empty());
            assert(rest.len() > 0);
            assert(first.drop_last()[0] == first[0]);
            assert(first.drop_last().drop_first() =~= rest.drop_last());
            lemma_installation_shares(next_installation, rest, then_replies, stored);
            let share = stored.share_at(installation.target);
            assert(crate::effect::trace(installation, all) =~= crate::effect::trace(storing, first)
                + crate::effect::trace(share, then_replies));
        },
        Step::Done(result) => {
            if first.len() > 1 {
                assert(first.drop_last()[0] == first[0]);
                assert(crate::effect::run(storing, first.drop_last()) is Done);
            }
            assert(first.drop_first() + then_replies =~= then_replies);
            let share = stored.share_at(installation.target);
            lemma_sharing_is_that_of_stored(installation.target, share, stored, then_replies);
            assert(crate::effect::trace(installation, all) =~= crate::effect::trace(storing, first)
                + crate::effect::trace(share, then_replies));
        },
    }
}

proof fn lemma_sharing_is_that_of_stored(
    target: String,
    share: Share,
    stored: Stored,
    replies: Seq<Reply>,
)
    ensures
        ({
            let sharing = Installation { target, stage: InstallStage::Share(share, stored) };
            &&& crate::effect::trace(sharing, replies) == crate::effect::trace(share, replies)
            &&& match crate::effect::run(share, replies) {
                Step::Perform(next) => crate::effect::run(sharing, replies) matches Step::Perform(
                    later,
                ) && later.stage == InstallStage::Share(next, stored),
                Step::Done(Ok(_)) => crate::effect::run(sharing, replies) == Step::<
                    Installation,
                    _,
                >::Done(Ok::<Stored, Error>(stored)),
                Step::Done(Err(error)) => crate::effect::run(sharing, replies) == Step::<
                    Installation,
                    _,
                >::Done(Err::<Stored, Error>(error)),
            }
        }),
    decreases replies.len(),
{
    if replies.len() > 0 {
        if let Step::Perform(next) = share.after(replies[0]) {
            lemma_sharing_is_that_of_stored(target, next, stored, replies.drop_first());
        }
    }
}

/// An installation shares its upstream in the directory, under the name of the upstream, and
/// stores the upstream that it is of.
pub proof fn lemma_installation_is_of_its_upstream(
    installation: Installation,
    upstream: Upstream,
    upstreams: Seq<char>,
    dest_dir: Seq<char>,
)
    requires
        installation.is_start_of(upstream, upstreams, dest_dir),
    ensures
        installation.target@ == path::joined(
            dest_dir,
            match upstream {
                Upstream::Plain(plain) => match plain.rename {
                    Some(name) => name@,
                    None => plain.url@.file_name,
                },
                Upstream::Git(git) => git.uri@.file_name,
            },
        ),
        match upstream {
            Upstream::Plain(plain) => installation.stage matches InstallStage::Store(
                Storing::Plain(store),
            ) && store.is_start_of(plain, upstreams),
            Upstream::Git(git) => installation.stage matches InstallStage::Store(
                Storing::Git(store),
            ) && store.is_start_of(git, upstreams),
        },
{
}

/// An upstream leaves in the cache the file of an archive, or both trees of a repository, the
/// mirror and then the working copy, whether it is cloned by way of the mirror or not.
pub proof fn lemma_cached_entries(upstream: Upstream, dir: Seq<char>)
    ensures
        match upstream {
            Upstream::Plain(plain) => upstream.cached_entries(dir) == seq![
                Entry::File(plain.place_in(dir)),
            ],
            Upstream::Git(git) => upstream.cached_entries(dir) == seq![
                Entry::Tree(
                    path::joined(
                        path::joined(path::joined(dir, "staging"@), "git"@),
                        git.uri@.relative_path,
                    ),
                ),
                Entry::Tree(path::joined(path::joined(dir, "git"@), git.uri@.relative_path)),
            ],
        },
{
}

/// Removing upstreams removes all that each of them leaves in the cache, one upstream after
/// another, in their order, with none left out and none added.
pub proof fn lemma_all_entries(upstreams: Seq<Upstream>, dir: Seq<char>)
    ensures
        crate::build::upstream::all_entries(upstreams, dir) == upstreams.map_values(
            |upstream: Upstream| upstream.cached_entries(dir),
        ).flatten(),
    decreases upstreams.len(),
{
    let each = upstreams.map_values(|upstream: Upstream| upstream.cached_entries(dir));
    each.lemma_flatten_and_flatten_alt_are_equivalent();
    if upstreams.len() > 0 {
        let before = upstreams.drop_last();
        let each_before = before.map_values(|upstream: Upstream| upstream.cached_entries(dir));
        lemma_all_entries(before, dir);
        each_before.lemma_flatten_and_flatten_alt_are_equivalent();
        assert(each.drop_last() =~= each_before);
    }
}

/// Every single entry of every upstream is among those that removing the upstreams removes.
pub proof fn lemma_every_entry_is_removed(
    upstreams: Seq<Upstream>,
    dir: Seq<char>,
    i: int,
    j: int,
)
    requires
        0 <= i < upstreams.len(),
        0 <= j < upstreams[i].cached_entries(dir).len(),
    ensures
        crate::build::upstream::all_entries(upstreams, dir).contains(
            upstreams[i].cached_entries(dir)[j],
        ),
    decreases upstreams.len(),
{
    let all = crate::build::upstream::all_entries(upstreams, dir);
    let before = crate::build::upstream::all_entries(upstreams.drop_last(), dir);
    let entry = upstreams[i].cached_entries(dir)[j];
    if i == upstreams.len() - 1 {
        assert(all[before.len() + j] == entry);
    } else {
        lemma_every_entry_is_removed(upstreams.drop_last(), dir, i, j);
        let k = choose|k: int| 0 <= k < before.len() && before[k] == entry;
        assert(all[k] == entry);
    }
}

/// A removal of upstreams that succeeds has asked for the removal of all that each of them
/// leaves in the cache, and of the directories that this leaves empty, one after another.
pub proof fn lemma_removal_of_upstreams(
    upstreams: Seq<Upstream>,
    dir: Seq<char>,
    removal: Removal,
    replies: Seq<Reply>,
)
    requires
        removal.is_start_of(crate::build::upstream::all_entries(upstreams, dir), dir),
        crate::effect::answered(removal, replies),
    ensures
        ({
            let steps = upstreams.map_values(
                |upstream: Upstream| upstream.cached_entries(dir),
            ).flatten().map_values(|entry: Entry<Seq<char>>| entry.steps(dir)).flatten();
            let trace = crate::effect::trace(removal, replies);
            &&& trace == steps.take(trace.len() as int)
            &&& crate::effect::run(removal, replies) matches Step::Done(Ok(_)) ==> trace == steps
            &&& crate::effect::run(removal, replies) matches Step::Done(Err(error)) ==> error
                matches Error::Io(cause) && replies.last() == Reply::Io(Err(cause))
            &&& crate::effect::run(removal, replies) is Perform ==> trace.len() < steps.len()
        }),
{
    let entries = crate::build::upstream::all_entries(upstreams, dir);
    lemma_all_entries(upstreams, dir);
    removal::lemma_steps_of_each_entry(entries, dir);
    crate::build::upstream::lemma_removal_conversation(removal, entries, dir, replies);
}

/// The installing of upstreams begins with every installation at its beginning, in their
/// order, with nothing stored, and with the recipe and the limit as they were given.
pub proof fn lemma_sync_begins_with_all(sync: SyncView)
    ensures
        sync.begun().running.len() == sync.installations.len(),
        forall|i: int|
            0 <= i < sync.installations.len() ==> #[trigger] sync.begun().running[i] == Some(
                sync.installations[i],
            ),
        sync.begun().stored == Seq::<Stored>::empty(),
        sync.begun().limit == sync.limit,
        sync.begun().source == sync.source,
        sync.begun().path == sync.path,
{
}

/// How many of the first installations are under way.
pub open spec fn waiting(syncing: SyncingView, first: nat) -> nat
    decreases first,
{
    if first == 0 {
        0
    } else {
        waiting(syncing, (first - 1) as nat) + if syncing.waits(first - 1) {
            1nat
        } else {
            0nat
        }
    }
}

/// As many installations are under way as the limit allows, or all that are left where those
/// are fewer: as long as it goes on, none waits in vain.
pub proof fn lemma_as_many_as_allowed(sync: SyncView, replies: Seq<(int, Reply)>)
    requires
        sync.installations.len() > 0,
        sync.limit > 0,
    ensures
        syncing::run(sync.begun(), replies) matches SyncNext::Goes(syncing) ==> {
            let all = sync.installations.len();
            let left = all - syncing.stored.len();
            &&& syncing.running.len() == all
            &&& waiting(syncing, all) == if left <= sync.limit {
                left
            } else {
                sync.limit as int
            }
        },
{
    syncing::lemma_all_left(sync.begun().running);
    syncing::lemma_stays_under_way(sync.begun(), replies);
    if let SyncNext::Goes(syncing) = syncing::run(sync.begun(), replies) {
        let begun = syncing.running.take(syncing.begun() as int);
        let later = syncing.running.skip(syncing.begun() as int);
        assert(begun + later =~= syncing.running);
        syncing::lemma_left_in_parts(begun, later);
        syncing::lemma_all_left(later);
        lemma_waiting(syncing, syncing.running.len());
    }
}

proof fn lemma_waiting(syncing: SyncingView, first: nat)
    requires
        first <= syncing.running.len(),
        syncing.begun() <= syncing.running.len(),
    ensures
        waiting(syncing, first) == syncing::left(
            syncing.running.take(
                if first <= syncing.begun() {
                    first as int
                } else {
                    syncing.begun() as int
                },
            ),
        ),
    decreases first,
{
    if first > 0 {
        lemma_waiting(syncing, (first - 1) as nat);
        if first <= syncing.begun() {
            assert(syncing.running.take(first as int).drop_last() =~= syncing.running.take(
                first - 1,
            ));
        }
    } else {
        assert(syncing.running.take(0).len() == 0);
    }
}

/// What a reply does while upstreams are installed: it takes the installation that it is for
/// to where that goes, leaves all others where they are, and keeps what has been stored; what
/// an installation stores is kept behind that.
pub proof fn lemma_reply_is_for_one(syncing: SyncingView, index: int, reply: Reply, i: int)
    requires
        syncing.waits(index),
        syncing.running.len() >= syncing.begun(),
        0 <= i < syncing.running.len(),
    ensures
        syncing.after(index, reply) matches SyncNext::Goes(next) ==> {
            &&& next.running.len() == syncing.running.len()
            &&& i != index ==> next.running[i] == syncing.running[i]
            &&& match syncing.running[index]->Some_0.after(reply) {
                Step::Perform(later) => next.running[index] == Some(later) && next.stored
                    == syncing.stored,
                Step::Done(Ok(stored)) => next.running[index] is None && next.stored
                    == syncing.stored.push(stored),
                Step::Done(Err(_)) => false,
            }
        },
        syncing.after(index, reply) matches SyncNext::Ends(Ok(finished)) ==> {
            &&& syncing.running[index]->Some_0.after(reply) matches Step::Done(Ok(stored))
            &&& finished.stored == syncing.stored.push(stored)
        },
        syncing.after(index, reply) matches SyncNext::Ends(Err(error)) ==> {
            let failed = syncing.running[index]->Some_0.after(reply);
            failed == Step::<Installation, _>::Done(Err::<Stored, Error>(error))
        },
{
}

/// A recipe is rewritten by writing its new text to its file, and that alone; it counts as
/// rewritten exactly when that succeeds.
pub proof fn lemma_publishing(publishing: Publishing, written: Result<(), IoError>)
    ensures
        publishing.wants() matches Wanted::WriteFile { path, contents } && path
            == publishing.path() && contents == publishing.contents(),
        publishing.after(Reply::Io(written)) matches Step::Done(result) && match written {
            Ok(_) => result == Ok::<bool, Error>(true),
            Err(error) => result == Err::<bool, Error>(Error::Io(error)),
        },
{
}

/// Every repository can be stored; and so can every archive whose URL and digest are fewer
/// than two to the sixty-first bytes together.
pub proof fn lemma_what_can_be_stored(upstream: Upstream)
    ensures
        match upstream {
            Upstream::Plain(plain) => upstream.can_be_stored() <==> encode_utf8(
                plain.url@.text,
            ).len() + encode_utf8(plain.hash@).len() < 0x2000_0000_0000_0000,
            Upstream::Git(_) => upstream.can_be_stored(),
        },
{
    if let Upstream::Plain(plain) = upstream {
        cache::lemma_message(plain.url@.text, plain.hash@);
    }
}

/// Installations begin in the order of the upstreams: none is under way before one that comes
/// earlier is under way or over.
pub proof fn lemma_installed_in_order(syncing: SyncingView, earlier: int, later: int)
    requires
        0 <= earlier < later,
        syncing.waits(later),
        syncing.running[earlier] is Some,
    ensures
        syncing.waits(earlier),
{
}

/// A reply to something else than a program waits for leaves the program where it is.
pub proof fn lemma_other_replies_change_nothing(
    plain_store: PlainStore,
    git_store: GitStore,
    storing: Storing,
    share: Share,
    installation: Installation,
    removal: Removal,
    publishing: Publishing,
    reply: Reply,
)
    ensures
        crate::effect::minds_its_replies(plain_store, reply),
        crate::effect::minds_its_replies(git_store, reply),
        crate::effect::minds_its_replies(storing, reply),
        crate::effect::minds_its_replies(share, reply),
        crate::effect::minds_its_replies(installation, reply),
        removal.steps.is_at_an_entry() ==> crate::effect::minds_its_replies(removal, reply),
        crate::effect::minds_its_replies(publishing, reply),
{
}

} // verus!
