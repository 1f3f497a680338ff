//! Command lines of the git program.

use vstd::prelude::*;

verus! {

/// A command for the git program.
#[derive(Debug)]
pub enum GitCommand<S> {
    /// Fetch what the remote has.
    Fetch,
    /// Succeed if the object exists.
    VerifyObject(S),
    /// Put the working copy at a reference, whatever it held.
    ResetHard(S),
    /// Bring all submodules to the commits that the working copy records.
    UpdateSubmodules,
    /// Clone a repository.
    Clone { mirror: bool, source: S, target: S },
}

impl View for GitCommand<String> {
    type V = GitCommand<Seq<char>>;

    open spec fn view(&self) -> GitCommand<Seq<char>> {
        match *self {
            GitCommand::Fetch => GitCommand::Fetch,
            GitCommand::VerifyObject(object) => GitCommand::VerifyObject(object@),
            GitCommand::ResetHard(ref_id) => GitCommand::ResetHard(ref_id@),
            GitCommand::UpdateSubmodules => GitCommand::UpdateSubmodules,
            GitCommand::Clone { mirror, source, target } => GitCommand::Clone {
                mirror,
                source: source@,
                target: target@,
            },
        }
    }
}

impl GitCommand<Seq<char>> {
    /// The arguments that the git program is given.
    pub open spec fn arguments(self) -> Seq<Seq<char>> {
        match self {
            GitCommand::Fetch => seq!["fetch"@],
            GitCommand::VerifyObject(object) => seq!["cat-file"@, "-e"@, object],
            GitCommand::ResetHard(ref_id) => seq!["reset"@, "--hard"@, ref_id],
            GitCommand::UpdateSubmodules => seq![
                "submodule"@,
                "update"@,
                "--init"@,
                "--recursive"@,
                "--depth"@,
                "1"@,
                "--jobs"@,
                "4"@,
            ],
            GitCommand::Clone { mirror, source, target } => if mirror {
                seq!["clone"@, "--mirror"@, "--"@, source, target]
            } else {
                seq!["clone"@, "--"@, source, target]
            },
        }
    }
}

impl GitCommand<String> {
    /// The arguments to give to the git program.
    pub fn args(&self) -> (args: Vec<String>)
        ensures
            crate::effect::texts(args@) == self@.arguments(),
    {
        let args = match self {
            GitCommand::Fetch => vec!["fetch".to_owned()],
            GitCommand::VerifyObject(object) => {
                vec!["cat-file".to_owned(), "-e".to_owned(), object.clone()]
            },
            GitCommand::ResetHard(ref_id) => {
                vec!["reset".to_owned(), "--hard".to_owned(), ref_id.clone()]
            },
            GitCommand::UpdateSubmodules => {
                vec![
                    "submodule".to_owned(),
                    "update".to_owned(),
                    "--init".to_owned(),
                    "--recursive".to_owned(),
                    "--depth".to_owned(),
                    "1".to_owned(),
                    "--jobs".to_owned(),
                    "4".to_owned(),
                ]
            },
            GitCommand::Clone { mirror, source, target } => if *mirror {
                vec![
                    "clone".to_owned(),
                    "--mirror".to_owned(),
                    "--".to_owned(),
                    source.clone(),
                    target.clone(),
                ]
            } else {
                vec!["clone".to_owned(), "--".to_owned(), source.clone(), target.clone()]
            },
        };
        assert(crate::effect::texts(args@) =~= self@.arguments());
        args
    }
}

/// Where a repository is cloned, its source and its target stand behind the separator that
/// ends the options: neither is ever taken for one.
pub proof fn lemma_clone_operands_follow_separator(
    mirror: bool,
    source: Seq<char>,
    target: Seq<char>,
)
    ensures
        ({
            let args = GitCommand::Clone { mirror, source, target }.arguments();
            &&& args.len() >= 4
            &&& args[args.len() - 3] == "--"@
            &&& args[args.len() - 2] == source
            &&& args[args.len() - 1] == target
        }),
{
}

/// Contracts see a command as it is.
pub proof fn lemma_command_is_seen_as_it_is(command: GitCommand<String>)
    ensures
        match command {
            GitCommand::Fetch => command@ == GitCommand::<Seq<char>>::Fetch,
            GitCommand::VerifyObject(object) => command@ == GitCommand::VerifyObject(object@),
            GitCommand::ResetHard(ref_id) => command@ == GitCommand::ResetHard(ref_id@),
            GitCommand::UpdateSubmodules => command@ == GitCommand::<Seq<char>>::UpdateSubmodules,
            GitCommand::Clone { mirror, source, target } => command@ == (GitCommand::Clone {
                mirror,
                source: source@,
                target: target@,
            }),
        },
{
}

/// What the git program is given: the words of the command, and each text that the command
/// holds as an argument of its own, whole and last. A clone is a mirror exactly when that is
/// asked for.
pub proof fn lemma_arguments(text: Seq<char>, mirror: bool, source: Seq<char>, target: Seq<char>)
    ensures
        GitCommand::<Seq<char>>::Fetch.arguments() == seq!["fetch"@],
        GitCommand::VerifyObject(text).arguments() == seq!["cat-file"@, "-e"@] + seq![text],
        GitCommand::ResetHard(text).arguments() == seq!["reset"@, "--hard"@] + seq![text],
        GitCommand::<Seq<char>>::UpdateSubmodules.arguments() == seq![
            "submodule"@,
            "update"@,
            "--init"@,
            "--recursive"@,
        ] + seq!["--depth"@, "1"@, "--jobs"@, "4"@],
        (GitCommand::Clone { mirror, source, target }).arguments() == if mirror {
            seq!["clone"@, "--mirror"@]
        } else {
            seq!["clone"@]
        } + seq!["--"@, source, target],
{
    let clone = GitCommand::Clone { mirror, source, target };
    assert(clone.arguments() =~= if mirror {
        seq!["clone"@, "--mirror"@]
    } else {
        seq!["clone"@]
    } + seq!["--"@, source, target]);
}

} // verus!
