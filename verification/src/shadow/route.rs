//! Which repository each git command runs on.
//!
//! Commands that only read may look at the user's repository. Whatever writes
//! runs on the shadow repository, and stages into a throwaway index.
use crate::calls::Call;
use crate::git::{Git, GitModel};
use crate::paths::joined;
use crate::shadow::{pins, Shadow, ShadowModel};
use crate::strings::dec;
use vstd::prelude::*;
use vstd::string::*;

verus! {

/// Whether a command is asked of the user's repository. None of these writes.
pub open spec fn asks_the_user(call: Call) -> bool {
    match call {
        Call::IsInside => true,
        Call::IsBare => true,
        Call::TopLevel => true,
        Call::GitDir => true,
        Call::CommonDir => true,
        Call::Unmerged => true,
        Call::Known => true,
        Call::Staged => true,
        Call::Untracked => true,
        Call::Ignored => true,
        Call::CheckedOut => true,
        _ => false,
    }
}

/// Whether a command reads or writes an index.
pub open spec fn uses_an_index(call: Call) -> bool {
    match call {
        Call::Stage => true,
        Call::StageListed => true,
        Call::WriteTree => true,
        Call::ReadTree { .. } => true,
        Call::CheckoutListed => true,
        _ => false,
    }
}

impl ShadowModel {
    /// The throwaway index of one operation of one process.
    pub open spec fn scratch(self, tag: Seq<char>, pid: u64) -> Seq<char> {
        joined(self.tmp_dir, self.worktree.id + "-"@ + tag + "-"@ + dec(pid as nat) + ".idx"@)
    }

    /// How git is called for one command: by the operation `tag` of the process
    /// `pid`, with `at` as the date of what it commits.
    pub open spec fn runs(
        self,
        call: Call,
        state_dir: Seq<char>,
        tag: Seq<char>,
        pid: u64,
        at: u64,
    ) -> GitModel {
        if asks_the_user(call) || call is Init {
            GitModel {
                git_dir: None,
                work_tree: None,
                index_file: None,
                cwd: if call is Init {
                    state_dir
                } else {
                    self.worktree.root
                },
                envs: Seq::empty(),
            }
        } else if uses_an_index(call) {
            GitModel { index_file: Some(self.scratch(tag, pid)), ..self.git() }
        } else if call is CommitTree {
            GitModel {
                envs: pins().push(("GIT_AUTHOR_DATE"@, dec(at as nat) + " +0000"@)).push(
                    ("GIT_COMMITTER_DATE"@, dec(at as nat) + " +0000"@),
                ),
                ..self.git()
            }
        } else if call is ExpireReflogs || call is Prune || call is DiffPatch {
            GitModel {
                git_dir: Some(self.git_dir),
                work_tree: None,
                index_file: None,
                cwd: self.git_dir,
                envs: Seq::empty(),
            }
        } else {
            self.git()
        }
    }
}

impl Shadow {
    /// How git is called for one command: by the operation `tag` of the process
    /// `pid`, with `at` as the date of what it commits.
    pub fn runs(&self, call: &Call, state_dir: &str, tag: &str, pid: u64, at: u64) -> (r: Git)
        ensures
            r@ == self@.runs(*call, state_dir@, tag@, pid, at),
    {
        match call {
            Call::IsInside
            | Call::IsBare
            | Call::TopLevel
            | Call::GitDir
            | Call::CommonDir
            | Call::Unmerged
            | Call::Known
            | Call::Staged
            | Call::Untracked
            | Call::Ignored
            | Call::CheckedOut => self.worktree.git(),
            Call::Init { .. } => Git::discover(state_dir),
            Call::Stage
            | Call::StageListed
            | Call::WriteTree
            | Call::ReadTree { .. }
            | Call::CheckoutListed => self.git().with_index(self.scratch_index(tag, pid).as_str()),
            Call::CommitTree { .. } => self.dated(at),
            Call::ExpireReflogs | Call::Prune | Call::DiffPatch { .. } => {
                Git::bare(self.git_dir.as_str())
            },
            _ => self.git(),
        }
    }
}

/// Every command either asks the user's repository a question, makes the shadow
/// repository, or is pinned to the shadow repository; and none that uses an
/// index uses any but the operation's own, which is under the state directory.
/// So nothing is ever written into the user's repository.
pub proof fn law_the_users_repository_is_never_written(
    shadow: ShadowModel,
    call: Call,
    state_dir: Seq<char>,
    tag: Seq<char>,
    pid: u64,
    at: u64,
)
    ensures
        ({
            let git = shadow.runs(call, state_dir, tag, pid, at);
            &&& git.git_dir == Some(shadow.git_dir) || asks_the_user(call) || call is Init
            &&& uses_an_index(call) ==> git.index_file == Some(shadow.scratch(tag, pid))
            &&& git.git_dir == Some(shadow.git_dir) ==> git.scope().take(2) == seq![
                "--git-dir"@,
                shadow.git_dir,
            ]
        }),
{
    let git = shadow.runs(call, state_dir, tag, pid, at);
    if git.git_dir == Some(shadow.git_dir) {
        assert(git.scope().take(2) =~= seq!["--git-dir"@, shadow.git_dir]);
    }
}

/// A question asked of the user's repository is `rev-parse` or `ls-files`, which
/// write nothing.
pub proof fn law_a_question_writes_nothing(call: Call)
    requires
        asks_the_user(call),
    ensures
        call.words()[0] == "rev-parse"@ || call.words()[0] == "ls-files"@,
{
}

} // verus!
