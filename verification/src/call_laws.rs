//! What the git commands have to say to mean what they are asked for.
use crate::calls::Call;
use crate::strings::{dec, opt_text};
use vstd::prelude::*;

verus! {

/// Whether a word stands in a command line.
pub open spec fn given(call: Call, word: Seq<char>) -> bool {
    exists|i: int| 0 <= i < call.words().len() && #[trigger] call.words()[i] == word
}

/// A word that stands at an index stands in the command line.
proof fn lemma_given(call: Call, i: int)
    requires
        0 <= i < call.words().len(),
    ensures
        given(call, call.words()[i]),
{
}

/// A comparison goes from the first tree to the second: git is told the tree
/// that is compared from, and right behind it the tree that is compared to. So
/// what is only in the second is reported as added, and what is only in the
/// first as deleted.
pub proof fn law_a_comparison_goes_from_the_first_tree_to_the_second(call: Call)
    ensures
        match call {
            Call::DiffNames { from, to } => call.words()[call.words().len() - 2] == from@
                && call.words()[call.words().len() - 1] == to@,
            Call::DiffStat { from, to } => call.words()[call.words().len() - 2] == from@
                && call.words()[call.words().len() - 1] == to@,
            Call::DiffPatch { from, to, path } => call.words()[call.words().len() - 4] == from@
                && call.words()[call.words().len() - 3] == to@ && call.words()[call.words().len()
                - 2] == "--"@ && call.words()[call.words().len() - 1] == path@,
            _ => true,
        },
{
}

/// A comparison goes into directories and follows no renames, and each asks for
/// its own kind of answer: statuses and paths between NUL characters, numbers of
/// lines, or the lines themselves.
pub proof fn law_a_comparison_asks_for_its_answer(call: Call)
    requires
        call is DiffNames || call is DiffStat || call is DiffPatch,
    ensures
        call.words()[0] == "diff-tree"@,
        given(call, "-r"@),
        given(call, "--no-renames"@),
        call is DiffNames ==> given(call, "--name-status"@) && given(call, "-z"@),
        call is DiffStat ==> given(call, "--numstat"@),
        call is DiffPatch ==> given(call, "-p"@) && given(call, "--no-color"@),
{
    lemma_given(call, 1);
    lemma_given(call, 2);
    lemma_given(call, 3);
    lemma_given(call, 4);
}

/// A commit is of its tree, and behind its parent where it has one: `-p` stands
/// right before the parent, `-m` right before the message, and a commit without
/// a parent has no `-p`.
pub proof fn law_a_commit_is_of_its_tree_and_behind_its_parent(
    tree: String,
    parent: Option<String>,
    message: String,
)
    ensures
        ({
            let w = (Call::CommitTree { tree, parent, message }).words();
            &&& w[0] == "commit-tree"@
            &&& w[1] == tree@
            &&& w[w.len() - 2] == "-m"@
            &&& w[w.len() - 1] == message@
            &&& match opt_text(parent) {
                Some(p) => w.len() == 6 && w[2] == "-p"@ && w[3] == p,
                None => w.len() == 4,
            }
        }),
{
}

/// A ref is moved only from where it is believed to be: git is told the name,
/// where to, and where from, the empty string standing for a ref that is not
/// there yet. Taking one away says where from as well.
pub proof fn law_a_ref_moves_only_from_where_it_was(
    name: String,
    to: String,
    from: Option<String>,
    was: String,
)
    ensures
        ({
            let w = (Call::MoveRef { name, to, from }).words();
            &&& w.len() == 4
            &&& w[0] == "update-ref"@
            &&& w[1] == name@
            &&& w[2] == to@
            &&& from matches Some(f) ==> w[3] == f@
            &&& from is None ==> w[3].len() == 0
        }),
        ({
            let w = (Call::DropRef { name, from: was }).words();
            &&& w.len() == 4
            &&& w[0] == "update-ref"@
            &&& w[1] == "-d"@
            &&& w[2] == name@
            &&& w[3] == was@
        }),
{
    reveal_strlit("");
}

/// Staging the working tree takes all of it, the removals included, and leaves
/// ignore rules in force; staging the listed paths overrides them, and reads the
/// paths from standard input between NUL characters.
pub proof fn law_staging_takes_the_whole_tree()
    ensures
        Call::Stage.words()[0] == "add"@,
        given(Call::Stage, "-A"@),
        Call::Stage.words().last() == "."@,
        !given(Call::Stage, "-f"@),
        !given(Call::Stage, "--force"@),
        Call::StageListed.words()[0] == "add"@,
        given(Call::StageListed, "-A"@),
        given(Call::StageListed, "-f"@),
        given(Call::StageListed, "--pathspec-from-file=-"@),
        given(Call::StageListed, "--pathspec-file-nul"@),
        Call::WriteTree.words() == seq!["write-tree"@],
{
    reveal_strlit("add");
    reveal_strlit("-A");
    reveal_strlit("--");
    reveal_strlit(".");
    reveal_strlit("-f");
    reveal_strlit("--force");
    assert("-A"@[1] != "-f"@[1]);
    assert("--"@[1] != "-f"@[1]);
    lemma_given(Call::Stage, 1);
    lemma_given(Call::StageListed, 1);
    lemma_given(Call::StageListed, 2);
    lemma_given(Call::StageListed, 3);
    lemma_given(Call::StageListed, 4);
    assert forall|i: int| 0 <= i < Call::Stage.words().len() implies #[trigger] Call::Stage.words()[i]
        != "-f"@ && Call::Stage.words()[i] != "--force"@ by {
        if i == 0 {
            assert("add"@.len() == 3 && "-f"@.len() == 2 && "--force"@.len() == 7);
        } else if i == 1 {
            assert("-A"@.len() == 2 && "--force"@.len() == 7);
        } else if i == 2 {
            assert("--"@.len() == 2 && "--force"@.len() == 7);
        } else {
            assert("."@.len() == 1 && "-f"@.len() == 2 && "--force"@.len() == 7);
        }
    }
}

/// A restore reads the target into an index and writes the listed paths out of
/// it, over what is there.
pub proof fn law_writing_goes_through_the_index(tree: String)
    ensures
        (Call::ReadTree { tree }).words() == seq!["read-tree"@, tree@],
        Call::CheckoutListed.words()[0] == "checkout-index"@,
        given(Call::CheckoutListed, "-f"@),
        given(Call::CheckoutListed, "--stdin"@),
        given(Call::CheckoutListed, "-z"@),
        !given(Call::CheckoutListed, "-a"@),
        !given(Call::CheckoutListed, "--all"@),
{
    lemma_given(Call::CheckoutListed, 1);
    lemma_given(Call::CheckoutListed, 3);
    lemma_given(Call::CheckoutListed, 4);
    reveal_strlit("checkout-index");
    reveal_strlit("-f");
    reveal_strlit("-u");
    reveal_strlit("--stdin");
    reveal_strlit("-z");
    reveal_strlit("-a");
    reveal_strlit("--all");
    assert("-f"@[1] != "-a"@[1] && "-u"@[1] != "-a"@[1] && "-z"@[1] != "-a"@[1]);
    assert forall|i: int| 0 <= i < Call::CheckoutListed.words().len() implies
        #[trigger] Call::CheckoutListed.words()[i] != "-a"@ && Call::CheckoutListed.words()[i]
        != "--all"@ by {
        assert("-a"@.len() == 2 && "--all"@.len() == 5);
        if i == 0 {
            assert("checkout-index"@.len() == 14);
        } else if i == 1 {
            assert("-f"@.len() == 2);
        } else if i == 2 {
            assert("-u"@.len() == 2);
        } else if i == 3 {
            assert("--stdin"@.len() == 7);
        } else {
            assert("-z"@.len() == 2);
        }
    }
}

/// What is looked up is what is asked about, and the last word of the command.
pub proof fn law_a_question_is_about_what_it_names(
    name: String,
    commit: String,
    tree: String,
    limit: usize,
)
    ensures
        (Call::Resolve { name }).words().last() == name@,
        given(Call::Resolve { name }, "--verify"@),
        (Call::TreeOf { commit }).words() == seq!["rev-parse"@, commit@ + "^{tree}"@],
        (Call::ListTree { tree }).words().last() == tree@,
        (Call::ListTree { tree }).words()[0] == "ls-tree"@,
        given(Call::ListTree { tree }, "-r"@),
        given(Call::ListTree { tree }, "-z"@),
        (Call::ListTreeDeep { tree }).words().last() == tree@,
        (Call::ListTreeDeep { tree }).words()[0] == "ls-tree"@,
        given(Call::ListTreeDeep { tree }, "-r"@),
        given(Call::ListTreeDeep { tree }, "-t"@),
        given(Call::ListTreeDeep { tree }, "-z"@),
        (Call::Log { name, limit }).words().last() == name@,
        given(Call::Log { name, limit }, "-n"@ + dec(limit as nat)),
        given(Call::Log { name, limit }, "--format=%H%x1f%at%x1f%s"@),
        Call::CheckObjects.words() == seq!["cat-file"@, "--batch-check"@],
        Call::CheckedOut.words().last() == "HEAD"@,
{
    lemma_given(Call::Resolve { name }, 1);
    lemma_given(Call::ListTree { tree }, 1);
    lemma_given(Call::ListTree { tree }, 2);
    lemma_given(Call::ListTreeDeep { tree }, 1);
    lemma_given(Call::ListTreeDeep { tree }, 2);
    lemma_given(Call::ListTreeDeep { tree }, 3);
    lemma_given(Call::Log { name, limit }, 1);
    lemma_given(Call::Log { name, limit }, 2);
}

/// What is asked about the user's files: conflicts with `-u`, what is not
/// tracked with `-o` and without what is ignored, and what is ignored with `-i`
/// besides; all of them between NUL characters, so that no name can be mistaken
/// for two.
pub proof fn law_the_users_files_are_asked_about_by_kind()
    ensures
        given(Call::Unmerged, "-u"@),
        given(Call::Unmerged, "-z"@),
        Call::Known.words() == seq!["ls-files"@, "-z"@],
        given(Call::Staged, "--stage"@),
        given(Call::Untracked, "-o"@),
        given(Call::Untracked, "--exclude-standard"@),
        given(Call::Untracked, "-z"@),
        !given(Call::Untracked, "-i"@),
        given(Call::Ignored, "-o"@),
        given(Call::Ignored, "-i"@),
        given(Call::Ignored, "--exclude-standard"@),
        given(Call::Ignored, "-z"@),
{
    lemma_given(Call::Unmerged, 1);
    lemma_given(Call::Unmerged, 2);
    lemma_given(Call::Staged, 1);
    lemma_given(Call::Untracked, 1);
    lemma_given(Call::Untracked, 2);
    lemma_given(Call::Untracked, 3);
    lemma_given(Call::Ignored, 1);
    lemma_given(Call::Ignored, 2);
    lemma_given(Call::Ignored, 3);
    lemma_given(Call::Ignored, 4);
    reveal_strlit("ls-files");
    reveal_strlit("-o");
    reveal_strlit("--exclude-standard");
    reveal_strlit("-z");
    reveal_strlit("-i");
    assert("-o"@[1] != "-i"@[1] && "-z"@[1] != "-i"@[1]);
    assert forall|i: int| 0 <= i < Call::Untracked.words().len() implies
        #[trigger] Call::Untracked.words()[i] != "-i"@ by {}
}

/// Where a worktree is: each question asks for one place, and for absolute
/// paths.
pub proof fn law_a_worktree_is_found_by_four_questions()
    ensures
        Call::IsInside.words().last() == "--is-inside-work-tree"@,
        Call::IsBare.words().last() == "--is-bare-repository"@,
        Call::TopLevel.words().last() == "--show-toplevel"@,
        Call::GitDir.words().last() == "--git-dir"@,
        Call::CommonDir.words().last() == "--git-common-dir"@,
        given(Call::TopLevel, "--path-format=absolute"@),
        given(Call::GitDir, "--path-format=absolute"@),
        given(Call::CommonDir, "--path-format=absolute"@),
{
    lemma_given(Call::TopLevel, 1);
    lemma_given(Call::GitDir, 1);
    lemma_given(Call::CommonDir, 1);
}

/// Collecting forgets every reflog first, without which nothing would be
/// unreachable, and prunes at once; a repository that is made is bare.
pub proof fn law_collecting_frees_the_space(git_dir: String)
    ensures
        Call::ExpireReflogs.words()[0] == "reflog"@,
        Call::ExpireReflogs.words()[1] == "expire"@,
        given(Call::ExpireReflogs, "--expire=now"@),
        given(Call::ExpireReflogs, "--all"@),
        Call::Prune.words()[0] == "gc"@,
        given(Call::Prune, "--prune=now"@),
        given(Call::Init { git_dir }, "--bare"@),
        (Call::Init { git_dir }).words().last() == git_dir@,
{
    lemma_given(Call::ExpireReflogs, 2);
    lemma_given(Call::ExpireReflogs, 3);
    lemma_given(Call::Prune, 1);
    lemma_given(Call::Init { git_dir }, 1);
}

} // verus!
