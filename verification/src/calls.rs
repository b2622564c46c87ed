//! Every git command the program runs, and nothing but those.
//!
//! All of them are plumbing: none of them runs a repository hook.
use crate::strings::{dec_of, opt_text, owned, owned_all, strs, texts};
use vstd::prelude::*;
use vstd::string::*;

verus! {

/// One git command. Options that never vary are part of the command.
#[derive(Debug)]
#[allow(inconsistent_fields)]
pub enum Call {
    /// Whether the directory is inside a worktree.
    IsInside,
    /// Whether the repository is bare.
    IsBare,
    /// The top level of the worktree.
    TopLevel,
    /// The worktree's own git dir.
    GitDir,
    /// The git dir that the worktrees of a repository share.
    CommonDir,
    /// The entries of the index that are in conflict.
    Unmerged,
    /// The files that are tracked.
    Known,
    /// The entries of the index, with their modes.
    Staged,
    /// What is neither tracked nor ignored.
    Untracked,
    /// What is ignored.
    Ignored,
    /// The commit that is checked out, if there is one.
    CheckedOut,
    /// A new bare repository.
    Init { git_dir: String },
    /// Stage the working tree as it is, without what is ignored.
    Stage,
    /// Stage the paths given on standard input, ignored or not.
    StageListed,
    /// Write the index as a tree.
    WriteTree,
    /// Write a commit.
    CommitTree { tree: String, parent: Option<String>, message: String },
    /// Point a ref at `to`, if it still is at `from`.
    MoveRef { name: String, to: String, from: Option<String> },
    /// Take a ref away, if it still is at `from`.
    DropRef { name: String, from: String },
    /// What a name stands for, if for anything.
    Resolve { name: String },
    /// The tree of a commit.
    TreeOf { commit: String },
    /// The files of a tree.
    ListTree { tree: String },
    /// The files and the directories of a tree.
    ListTreeDeep { tree: String },
    /// Which of the objects given on standard input there are.
    CheckObjects,
    /// How the paths of two trees differ.
    DiffNames { from: String, to: String },
    /// How many lines differ between two trees.
    DiffStat { from: String, to: String },
    /// How one path differs between two trees, line by line.
    DiffPatch { from: String, to: String, path: String },
    /// Read a tree into the index.
    ReadTree { tree: String },
    /// Write the paths given on standard input out of the index.
    CheckoutListed,
    /// The newest commits of a ref.
    Log { name: String, limit: usize },
    /// Forget where refs have been.
    ExpireReflogs,
    /// Drop what no ref reaches.
    Prune,
}

impl Call {
    /// The command line, without `git` itself.
    pub open spec fn words(self) -> Seq<Seq<char>> {
        match self {
            Call::IsInside => seq!["rev-parse"@, "--is-inside-work-tree"@],
            Call::IsBare => seq!["rev-parse"@, "--is-bare-repository"@],
            Call::TopLevel => seq!["rev-parse"@, "--path-format=absolute"@, "--show-toplevel"@],
            Call::GitDir => seq!["rev-parse"@, "--path-format=absolute"@, "--git-dir"@],
            Call::CommonDir => seq!["rev-parse"@, "--path-format=absolute"@, "--git-common-dir"@],
            Call::Unmerged => seq!["ls-files"@, "-u"@, "-z"@],
            Call::Known => seq!["ls-files"@, "-z"@],
            Call::Staged => seq!["ls-files"@, "--stage"@],
            Call::Untracked => seq!["ls-files"@, "-o"@, "--exclude-standard"@, "-z"@],
            Call::Ignored => seq!["ls-files"@, "-o"@, "-i"@, "--exclude-standard"@, "-z"@],
            Call::CheckedOut => seq!["rev-parse"@, "--verify"@, "--quiet"@, "HEAD"@],
            Call::Init { git_dir } => seq!["init"@, "--bare"@, "--quiet"@, git_dir@],
            Call::Stage => seq!["add"@, "-A"@, "--"@, "."@],
            Call::StageListed => seq![
                "add"@,
                "-A"@,
                "-f"@,
                "--pathspec-from-file=-"@,
                "--pathspec-file-nul"@,
            ],
            Call::WriteTree => seq!["write-tree"@],
            Call::CommitTree { tree, parent, message } => match opt_text(parent) {
                Some(p) => seq!["commit-tree"@, tree@, "-p"@, p, "-m"@, message@],
                None => seq!["commit-tree"@, tree@, "-m"@, message@],
            },
            Call::MoveRef { name, to, from } => seq![
                "update-ref"@,
                name@,
                to@,
                match opt_text(from) {
                    Some(f) => f,
                    None => ""@,
                },
            ],
            Call::DropRef { name, from } => seq!["update-ref"@, "-d"@, name@, from@],
            Call::Resolve { name } => seq!["rev-parse"@, "--verify"@, "--quiet"@, name@],
            Call::TreeOf { commit } => seq!["rev-parse"@, commit@ + "^{tree}"@],
            Call::ListTree { tree } => seq!["ls-tree"@, "-r"@, "-z"@, tree@],
            Call::ListTreeDeep { tree } => seq!["ls-tree"@, "-r"@, "-z"@, "-t"@, tree@],
            Call::CheckObjects => seq!["cat-file"@, "--batch-check"@],
            Call::DiffNames { from, to } => seq![
                "diff-tree"@,
                "-r"@,
                "-z"@,
                "--no-renames"@,
                "--name-status"@,
                from@,
                to@,
            ],
            Call::DiffStat { from, to } => seq![
                "diff-tree"@,
                "-r"@,
                "--numstat"@,
                "--no-renames"@,
                from@,
                to@,
            ],
            Call::DiffPatch { from, to, path } => seq![
                "diff-tree"@,
                "-r"@,
                "-p"@,
                "--no-renames"@,
                "--no-color"@,
                "--unified=3"@,
                from@,
                to@,
                "--"@,
                path@,
            ],
            Call::ReadTree { tree } => seq!["read-tree"@, tree@],
            Call::CheckoutListed => seq!["checkout-index"@, "-f"@, "-u"@, "--stdin"@, "-z"@],
            Call::Log { name, limit } => seq![
                "log"@,
                "--format=%H%x1f%at%x1f%s"@,
                "-n"@ + crate::strings::dec(limit as nat),
                name@,
            ],
            Call::ExpireReflogs => seq!["reflog"@, "expire"@, "--expire=now"@, "--all"@],
            Call::Prune => seq!["gc"@, "--prune=now"@, "--quiet"@],
        }
    }

    /// The command line, without `git` itself.
    pub fn args(&self) -> (r: Vec<String>)
        ensures
            texts(r@) == self.words(),
    {
        let limit: String;
        let suffixed: String;
        let v: Vec<&str> = match self {
            Call::IsInside => vec!["rev-parse", "--is-inside-work-tree"],
            Call::IsBare => vec!["rev-parse", "--is-bare-repository"],
            Call::TopLevel => vec!["rev-parse", "--path-format=absolute", "--show-toplevel"],
            Call::GitDir => vec!["rev-parse", "--path-format=absolute", "--git-dir"],
            Call::CommonDir => vec!["rev-parse", "--path-format=absolute", "--git-common-dir"],
            Call::Unmerged => vec!["ls-files", "-u", "-z"],
            Call::Known => vec!["ls-files", "-z"],
            Call::Staged => vec!["ls-files", "--stage"],
            Call::Untracked => vec!["ls-files", "-o", "--exclude-standard", "-z"],
            Call::Ignored => vec!["ls-files", "-o", "-i", "--exclude-standard", "-z"],
            Call::CheckedOut => vec!["rev-parse", "--verify", "--quiet", "HEAD"],
            Call::Init { git_dir } => vec!["init", "--bare", "--quiet", git_dir.as_str()],
            Call::Stage => vec!["add", "-A", "--", "."],
            Call::StageListed => vec![
                "add",
                "-A",
                "-f",
                "--pathspec-from-file=-",
                "--pathspec-file-nul",
            ],
            Call::WriteTree => vec!["write-tree"],
            Call::CommitTree { tree, parent, message } => match parent {
                Some(p) => vec![
                    "commit-tree",
                    tree.as_str(),
                    "-p",
                    p.as_str(),
                    "-m",
                    message.as_str(),
                ],
                None => vec!["commit-tree", tree.as_str(), "-m", message.as_str()],
            },
            Call::MoveRef { name, to, from } => match from {
                Some(f) => vec!["update-ref", name.as_str(), to.as_str(), f.as_str()],
                None => vec!["update-ref", name.as_str(), to.as_str(), ""],
            },
            Call::DropRef { name, from } => vec!["update-ref", "-d", name.as_str(), from.as_str()],
            Call::Resolve { name } => vec!["rev-parse", "--verify", "--quiet", name.as_str()],
            Call::TreeOf { commit } => {
                let mut s: String = commit.clone();
                s.append("^{tree}");
                suffixed = s;
                vec!["rev-parse", suffixed.as_str()]
            },
            Call::ListTree { tree } => vec!["ls-tree", "-r", "-z", tree.as_str()],
            Call::ListTreeDeep { tree } => vec!["ls-tree", "-r", "-z", "-t", tree.as_str()],
            Call::CheckObjects => vec!["cat-file", "--batch-check"],
            Call::DiffNames { from, to } => vec![
                "diff-tree",
                "-r",
                "-z",
                "--no-renames",
                "--name-status",
                from.as_str(),
                to.as_str(),
            ],
            Call::DiffStat { from, to } => vec![
                "diff-tree",
                "-r",
                "--numstat",
                "--no-renames",
                from.as_str(),
                to.as_str(),
            ],
            Call::DiffPatch { from, to, path } => vec![
                "diff-tree",
                "-r",
                "-p",
                "--no-renames",
                "--no-color",
                "--unified=3",
                from.as_str(),
                to.as_str(),
                "--",
                path.as_str(),
            ],
            Call::ReadTree { tree } => vec!["read-tree", tree.as_str()],
            Call::CheckoutListed => vec!["checkout-index", "-f", "-u", "--stdin", "-z"],
            Call::Log { name, limit: n } => {
                let mut s: String = owned("-n");
                s.append(dec_of(*n as u64).as_str());
                limit = s;
                vec!["log", "--format=%H%x1f%at%x1f%s", limit.as_str(), name.as_str()]
            },
            Call::ExpireReflogs => vec!["reflog", "expire", "--expire=now", "--all"],
            Call::Prune => vec!["gc", "--prune=now", "--quiet"],
        };
        proof {
            assert(strs(v@) =~= self.words());
        }
        owned_all(v)
    }
}

/// The git commands that run no repository hook.
pub open spec fn is_plumbing(command: Seq<char>) -> bool {
    ||| command == "add"@
    ||| command == "cat-file"@
    ||| command == "checkout-index"@
    ||| command == "commit-tree"@
    ||| command == "diff-tree"@
    ||| command == "gc"@
    ||| command == "init"@
    ||| command == "log"@
    ||| command == "ls-files"@
    ||| command == "ls-tree"@
    ||| command == "read-tree"@
    ||| command == "reflog"@
    ||| command == "rev-parse"@
    ||| command == "update-ref"@
    ||| command == "write-tree"@
}

/// Whatever the program asks of git, it never asks for a command that runs a
/// repository hook.
pub proof fn law_every_call_is_plumbing(call: Call)
    ensures
        call.words().len() > 0,
        is_plumbing(call.words()[0]),
{
}

} // verus!
