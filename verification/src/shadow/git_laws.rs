//! What holds of every git command that is run, and of how its answer is read.
use crate::calls::Call;
use crate::git::{answer, answer_z, hostile_env, GitModel, Output};
use crate::shadow::read::{
    blob_oid, blob_path, first_oid, gitlink_path, lemma_digits_only, lemma_whole, log_entry,
    missing_object, names_for, nul_ended, oid_of, without_missing,
};
use crate::shadow::{borrowed, commits_link, parent_of, pins, ref_of, LinkModel, ShadowModel};
use crate::store::slug_of;
use crate::strings::{
    dec, join, law_decimal_round_trip, lemma_cut_at, lemma_split_around, lemma_split_nonempty,
    lemma_says, says, split, trim, words,
};
use vstd::prelude::*;

verus! {

/// Whether a variable is set to a value.
pub open spec fn sets(env: Seq<(Seq<char>, Seq<char>)>, key: Seq<char>, value: Seq<char>) -> bool {
    exists|i: int| 0 <= i < env.len() && #[trigger] env[i] == (key, value)
}

/// None of the variables that would point git somewhere else reaches a child.
pub proof fn law_no_ambient_state_reaches_git()
    ensures
        hostile_env().contains("GIT_DIR"@),
        hostile_env().contains("GIT_WORK_TREE"@),
        hostile_env().contains("GIT_INDEX_FILE"@),
        hostile_env().contains("GIT_OBJECT_DIRECTORY"@),
        hostile_env().contains("GIT_ALTERNATE_OBJECT_DIRECTORIES"@),
        hostile_env().contains("GIT_COMMON_DIR"@),
        hostile_env().contains("GIT_NAMESPACE"@),
        hostile_env().contains("GIT_CEILING_DIRECTORIES"@),
{
    assert(hostile_env()[0] == "GIT_DIR"@);
    assert(hostile_env()[1] == "GIT_WORK_TREE"@);
    assert(hostile_env()[2] == "GIT_INDEX_FILE"@);
    assert(hostile_env()[3] == "GIT_OBJECT_DIRECTORY"@);
    assert(hostile_env()[4] == "GIT_ALTERNATE_OBJECT_DIRECTORIES"@);
    assert(hostile_env()[5] == "GIT_COMMON_DIR"@);
    assert(hostile_env()[6] == "GIT_NAMESPACE"@);
    assert(hostile_env()[7] == "GIT_CEILING_DIRECTORIES"@);
}

/// Whoever configured the machine, commits have the program's own name, and line
/// endings are stored and written as they are: three settings, each key with its
/// value, and git is told that there are three.
pub proof fn law_line_endings_are_left_alone()
    ensures
        sets(pins(), "GIT_AUTHOR_NAME"@, "sheep"@),
        sets(pins(), "GIT_AUTHOR_EMAIL"@, "sheep@localhost"@),
        sets(pins(), "GIT_COMMITTER_NAME"@, "sheep"@),
        sets(pins(), "GIT_COMMITTER_EMAIL"@, "sheep@localhost"@),
        sets(pins(), "GIT_CONFIG_COUNT"@, "3"@),
        sets(pins(), "GIT_CONFIG_KEY_0"@, "core.autocrlf"@),
        sets(pins(), "GIT_CONFIG_VALUE_0"@, "false"@),
        sets(pins(), "GIT_CONFIG_KEY_1"@, "core.eol"@),
        sets(pins(), "GIT_CONFIG_VALUE_1"@, "lf"@),
        sets(pins(), "GIT_CONFIG_KEY_2"@, "core.safecrlf"@),
        sets(pins(), "GIT_CONFIG_VALUE_2"@, "false"@),
{
    let p = pins();
    assert(p[0] == ("GIT_AUTHOR_NAME"@, "sheep"@));
    assert(p[1] == ("GIT_AUTHOR_EMAIL"@, "sheep@localhost"@));
    assert(p[2] == ("GIT_COMMITTER_NAME"@, "sheep"@));
    assert(p[3] == ("GIT_COMMITTER_EMAIL"@, "sheep@localhost"@));
    assert(p[4] == ("GIT_CONFIG_COUNT"@, "3"@));
    assert(p[5] == ("GIT_CONFIG_KEY_0"@, "core.autocrlf"@));
    assert(p[6] == ("GIT_CONFIG_VALUE_0"@, "false"@));
    assert(p[7] == ("GIT_CONFIG_KEY_1"@, "core.eol"@));
    assert(p[8] == ("GIT_CONFIG_VALUE_1"@, "lf"@));
    assert(p[9] == ("GIT_CONFIG_KEY_2"@, "core.safecrlf"@));
    assert(p[10] == ("GIT_CONFIG_VALUE_2"@, "false"@));
}

/// Every command runs where it belongs. What is asked about the user's files is
/// asked in the worktree, without any other repository. Everything else runs on
/// the shadow repository; what stages, reads and writes files does so with the
/// worktree's files and an index of its own; and a commit is dated, as author and
/// as committer, with the time it stands for.
pub proof fn law_each_command_runs_where_it_belongs(
    shadow: ShadowModel,
    call: Call,
    state_dir: Seq<char>,
    tag: Seq<char>,
    pid: u64,
    at: u64,
)
    ensures
        ({
            let git = shadow.runs(call, state_dir, tag, pid, at);
            match call {
                Call::IsInside
                | Call::IsBare
                | Call::TopLevel
                | Call::GitDir
                | Call::CommonDir
                | Call::Unmerged
                | Call::Known
                | Call::Staged
                | Call::Untracked
                | Call::Ignored
                | Call::CheckedOut => git.git_dir is None && git.work_tree is None && git.cwd
                    == shadow.worktree.root && git.index_file is None,
                Call::Init { .. } => git.git_dir is None && git.cwd == state_dir,
                Call::Stage
                | Call::StageListed
                | Call::WriteTree
                | Call::ReadTree { .. }
                | Call::CheckoutListed => git.git_dir == Some(shadow.git_dir) && git.work_tree
                    == Some(shadow.worktree.root) && git.cwd == shadow.worktree.root
                    && git.index_file is Some && sets(git.envs, "GIT_CONFIG_KEY_0"@, "core.autocrlf"@)
                    && sets(git.envs, "GIT_CONFIG_VALUE_0"@, "false"@),
                Call::CommitTree { .. } => git.git_dir == Some(shadow.git_dir) && sets(
                    git.envs,
                    "GIT_AUTHOR_DATE"@,
                    dec(at as nat) + " +0000"@,
                ) && sets(git.envs, "GIT_COMMITTER_DATE"@, dec(at as nat) + " +0000"@) && sets(
                    git.envs,
                    "GIT_AUTHOR_NAME"@,
                    "sheep"@,
                ),
                Call::ExpireReflogs | Call::Prune { .. } | Call::DiffPatch { .. } => git.git_dir
                    == Some(shadow.git_dir) && git.index_file is None && git.work_tree is None
                    && git.cwd == shadow.git_dir && git.envs.len() == 0,
                _ => git.git_dir == Some(shadow.git_dir) && git.index_file is None && git.work_tree
                    == Some(shadow.worktree.root) && git.cwd == shadow.worktree.root,
            }
        }),
{
    law_line_endings_are_left_alone();
    let git = shadow.runs(call, state_dir, tag, pid, at);
    if call is CommitTree {
        let n = pins().len() as int;
        assert(git.envs[n] == ("GIT_AUTHOR_DATE"@, dec(at as nat) + " +0000"@));
        assert(git.envs[n + 1] == ("GIT_COMMITTER_DATE"@, dec(at as nat) + " +0000"@));
        assert(git.envs[0] == ("GIT_AUTHOR_NAME"@, "sheep"@));
    }
}

/// Two operations never share an index: it is named after the worktree, the
/// operation and the process.
pub proof fn law_an_index_is_named_after_its_operation(
    shadow: ShadowModel,
    tag: Seq<char>,
    pid: u64,
)
    requires
        shadow.worktree.id.len() > 0,
        shadow.worktree.id[0] != '/',
    ensures
        shadow.tmp_dir.is_prefix_of(shadow.scratch(tag, pid)),
        says(shadow.scratch(tag, pid), shadow.worktree.id + "-"@ + tag + "-"@ + dec(pid as nat)),
{
    let path = shadow.scratch(tag, pid);
    let name = shadow.worktree.id + "-"@ + tag + "-"@ + dec(pid as nat);
    let file = name + ".idx"@;
    reveal_strlit("-");
    reveal_strlit("/");
    assert(file[0] == shadow.worktree.id[0]);
    assert(path.take(shadow.tmp_dir.len() as int) =~= shadow.tmp_dir);
    let before = path.take(path.len() - file.len());
    assert(path =~= before + name + ".idx"@);
    lemma_says(path, before, name, ".idx"@);
}

/// What pins a repository comes first, and what is set for a child is set for
/// every command.
pub proof fn law_the_repository_is_named_before_the_command(git: GitModel)
    ensures
        git.git_dir matches Some(dir) ==> git.scope().len() >= 2 && git.scope()[0] == "--git-dir"@
            && git.scope()[1] == dir,
        git.work_tree matches Some(tree) ==> git.scope().len() >= 2 && git.scope()[git.scope().len()
            - 2] == "--work-tree"@ && git.scope()[git.scope().len() - 1] == tree,
        git.git_dir is None && git.work_tree is None ==> git.scope().len() == 0,
        git.index_file matches Some(index) ==> sets(git.env(), "GIT_INDEX_FILE"@, index),
        forall|i: int| 0 <= i < git.envs.len() ==> git.env().contains(#[trigger] git.envs[i]),
{
    if let Some(index) = git.index_file {
        assert(git.env()[0] == ("GIT_INDEX_FILE"@, index));
    }
    assert forall|i: int| 0 <= i < git.envs.len() implies git.env().contains(
        #[trigger] git.envs[i],
    ) by {
        let at = if git.index_file is Some {
            i + 1
        } else {
            i
        };
        assert(git.env()[at] == git.envs[i]);
    }
}

/// A command's answer is what it printed, and only if it succeeded; what failed
/// says which command, and what git said about it.
pub proof fn law_an_answer_is_what_was_printed(args: Seq<Seq<char>>, out: Output)
    ensures
        answer(args, Ok(out)) is Ok <==> out.success,
        answer_z(args, Ok(out)) is Ok <==> out.success,
        answer(args, Ok(out)) matches Ok(text) ==> text.is_prefix_of(out.stdout@) && (text.len() > 0
            ==> text.last() != '\n') && forall|i: int|
            text.len() <= i < out.stdout@.len() ==> #[trigger] out.stdout@[i] == '\n',
        answer(args, Ok(out)) matches Err(e) ==> says(e, join(args, " "@)) && says(
            e,
            trim(out.stderr@),
        ),
        answer_z(args, Ok(out)) matches Ok(pieces) ==> forall|i: int|
            0 <= i < pieces.len() ==> (#[trigger] pieces[i]).len() > 0 && split(
                out.stdout@,
                '\0',
            ).contains(pieces[i]),
{
    lemma_chomped(out.stdout@);
    if !out.success {
        let e = answer(args, Ok(out))->Err_0;
        lemma_says(
            e,
            "git "@,
            join(args, " "@),
            " failed ("@ + out.status@ + "): "@ + trim(out.stderr@),
        );
        lemma_says(
            e,
            "git "@ + join(args, " "@) + " failed ("@ + out.status@ + "): "@,
            trim(out.stderr@),
            Seq::empty(),
        );
    } else {
        let all = split(out.stdout@, '\0');
        let keep = |s: Seq<char>| s.len() > 0;
        let pieces = all.filter(keep);
        assert forall|i: int| 0 <= i < pieces.len() implies (#[trigger] pieces[i]).len() > 0
            && all.contains(pieces[i]) by {
            all.lemma_filter_pred(keep, i);
            assert(pieces.contains(pieces[i]));
            all.lemma_filter_contains_rev(keep, pieces[i]);
        }
    }
}

proof fn lemma_chomped(s: Seq<char>)
    ensures
        crate::git::without_newlines(s).is_prefix_of(s),
        crate::git::without_newlines(s).len() > 0 ==> crate::git::without_newlines(s).last() != '\n',
        forall|i: int|
            crate::git::without_newlines(s).len() <= i < s.len() ==> #[trigger] s[i] == '\n',
    decreases s.len(),
{
    if s.len() > 0 && s.last() == '\n' {
        let rest = s.drop_last();
        lemma_chomped(rest);
        assert forall|i: int|
            crate::git::without_newlines(s).len() <= i < s.len() implies #[trigger] s[i]
            == '\n' by {
            if i < rest.len() {
                assert(rest[i] == s[i]);
            }
        }
    } else {
        assert(s.take(s.len() as int) =~= s);
    }
}

// -------------------------------------------------------------------- reading

/// A timeline's ref is under the program's own names, and two timelines with
/// different slugs have different refs.
pub proof fn law_a_timeline_has_its_own_ref(a: Seq<char>, b: Seq<char>)
    ensures
        "refs/sheep/"@.is_prefix_of(ref_of(a)),
        ref_of(a) == ref_of(b) <==> slug_of(a) == slug_of(b),
{
    let n = "refs/sheep/"@.len() as int;
    assert(ref_of(a).take(n) =~= "refs/sheep/"@);
    assert(ref_of(a).skip(n) =~= slug_of(a));
    assert(ref_of(b).skip(n) =~= slug_of(b));
}

/// A name is tried as it stands, then as a timeline, then as so many turns back
/// on the timeline at hand; each time only a commit will do.
pub proof fn law_a_name_is_tried_three_ways(line: Seq<char>, name: Seq<char>)
    ensures
        names_for(line, name).len() == 3,
        names_for(line, name)[0] == name + "^{commit}"@,
        names_for(line, name)[1] == "refs/sheep/"@ + slug_of(name) + "^{commit}"@,
        names_for(line, name)[2] == "refs/sheep/"@ + slug_of(line) + "~"@ + name + "^{commit}"@,
{
}

/// The first answer that names an object is the one that counts: a command that
/// failed names none, and neither does one that printed nothing.
pub proof fn law_the_first_answer_counts(answers: Seq<Output>, k: int)
    ensures
        0 <= k < answers.len() && answers[k].success && trim(answers[k].stdout@).len() > 0 && (
        forall|j: int|
            0 <= j < k ==> !((#[trigger] answers[j]).success && trim(answers[j].stdout@).len() > 0))
            ==> first_oid(answers) == Some(trim(answers[k].stdout@)),
        (forall|j: int|
            0 <= j < answers.len() ==> !((#[trigger] answers[j]).success && trim(
                answers[j].stdout@,
            ).len() > 0)) ==> first_oid(answers) is None,
    decreases answers.len(),
{
    if answers.len() > 0 {
        let rest = answers.drop_first();
        law_the_first_answer_counts(rest, k - 1);
        assert forall|j: int| 0 <= j < rest.len() implies rest[j] == answers[j + 1] by {}
        assert(oid_of(answers[0]) is Some <==> answers[0].success && trim(
            answers[0].stdout@,
        ).len() > 0);
    }
}

/// What git says is missing is named without git's word for it, and nothing else
/// is missing.
pub proof fn law_a_missing_object_is_named(object: Seq<char>)
    ensures
        !" missing"@.is_suffix_of(object) ==> missing_object(object + " missing"@) == Some(object),
        !" missing"@.is_suffix_of(object) ==> missing_object(object) is None,
{
    reveal_strlit(" missing");
    let line = object + " missing"@;
    assert(line.subrange(line.len() - 8, line.len() as int) =~= " missing"@);
    assert(line.take(line.len() - 8) =~= object);
    assert(without_missing(line) == without_missing(line.take(line.len() - 8)));
}

proof fn lemma_cut(head: Seq<char>, at: char, tail: Seq<char>)
    requires
        !head.contains(at),
    ensures
        crate::strings::cut(head.push(at) + tail, at) == Some((head, tail)),
        split(head.push(at) + tail, at)[0] == head,
{
    let s = head.push(at) + tail;
    let k = head.len() as int;
    assert forall|j: int| 0 <= j < k implies s[j] != at by {
        if s[j] == at {
            assert(head[j] == at);
            assert(head.contains(at));
        }
    }
    lemma_cut_at(s, at, k);
    assert(s.take(k) =~= head);
    assert(s.skip(k + 1) =~= tail);
    lemma_split_around(head, at, tail);
    lemma_whole(head, at);
    lemma_split_nonempty(tail, at);
}

/// An entry of a listing is its mode, its type and its object, then a tab and its
/// path: only a `blob` is a file, it is found under its own object and path, and
/// only what has the mode of a pointer is one to another repository.
pub proof fn law_an_entry_is_read_by_its_fields(
    head: Seq<char>,
    kind: Seq<char>,
    mode: Seq<char>,
    object: Seq<char>,
    path: Seq<char>,
)
    requires
        !head.contains('\t'),
        words(head) == seq![mode, kind, object],
    ensures
        ({
            let entry = head.push('\t') + path;
            &&& kind == "blob"@ ==> blob_oid(entry) == Some(object) && blob_path(entry) == Some(path)
            &&& kind != "blob"@ ==> blob_oid(entry) is None && blob_path(entry) is None
            &&& gitlink_path(entry) == if "160000"@.is_prefix_of(entry) {
                Some(path)
            } else {
                None
            }
        }),
{
    lemma_cut(head, '\t', path);
}

/// A line of history is a commit, the second it was made in, and its subject,
/// with a unit separator between each two.
pub proof fn law_a_history_line_is_read_by_its_fields(
    commit: Seq<char>,
    at: u64,
    subject: Seq<char>,
)
    requires
        !commit.contains('\u{1f}'),
        !subject.contains('\u{1f}'),
    ensures
        log_entry(
            commit.push('\u{1f}') + (dec(at as nat).push('\u{1f}') + subject),
        ) == Some((commit, at, subject)),
{
    let us = '\u{1f}';
    let time = dec(at as nat);
    let tail = time.push(us) + subject;
    lemma_digits_only(at as nat, us);
    lemma_split_around(commit, us, tail);
    lemma_split_around(time, us, subject);
    lemma_whole(commit, us);
    lemma_whole(time, us);
    lemma_whole(subject, us);
    law_decimal_round_trip(at as nat, u64::MAX as nat);
    let parts = split(commit.push(us) + tail, us);
    assert(parts =~= seq![commit, time, subject]);
}

/// A list of paths handed to git reads back as those paths: each ends with a NUL
/// character, and none is lost, split or put in another place.
pub proof fn law_a_list_of_paths_reads_back(paths: Seq<Seq<char>>)
    requires
        forall|i: int| 0 <= i < paths.len() ==> !(#[trigger] paths[i]).contains('\0'),
    ensures
        split(nul_ended(paths), '\0') == paths.push(Seq::empty()),
    decreases paths.len(),
{
    reveal_strlit("\0");
    let nul = '\0';
    if paths.len() == 0 {
        assert(split(Seq::<char>::empty(), nul) =~= seq![Seq::<char>::empty()]);
        assert(paths.push(Seq::empty()) =~= seq![Seq::<char>::empty()]);
    } else {
        let rest = paths.drop_last();
        let last = paths.last();
        assert(last == paths[paths.len() - 1]);
        assert forall|i: int| 0 <= i < rest.len() implies !(#[trigger] rest[i]).contains(nul) by {
            assert(rest[i] == paths[i]);
        }
        law_a_list_of_paths_reads_back(rest);
        let whole = nul_ended(paths);
        let before = nul_ended(rest) + last;
        assert(whole =~= before.push(nul) + Seq::<char>::empty());
        lemma_split_around(before, nul, Seq::empty());
        assert(split(Seq::<char>::empty(), nul) =~= seq![Seq::<char>::empty()]);
        lemma_whole(last, nul);
        if rest.len() == 0 {
            assert(before =~= last);
            assert(split(before, nul) =~= paths);
        } else {
            let head = nul_ended(rest.drop_last()) + rest.last();
            assert(nul_ended(rest) =~= head.push(nul));
            assert(before =~= head.push(nul) + last);
            lemma_split_around(head, nul, last);
            lemma_split_around(head, nul, Seq::empty());
            assert(nul_ended(rest) =~= head.push(nul) + Seq::<char>::empty());
            assert(split(nul_ended(rest), nul) == split(head, nul) + seq![Seq::<char>::empty()]);
            assert(split(head, nul) =~= rest) by {
                let both = split(nul_ended(rest), nul);
                assert(both.drop_last() =~= split(head, nul));
                assert(both.drop_last() =~= rest);
            }
            assert(split(before, nul) =~= paths);
        }
        assert(split(whole, nul) =~= paths.push(Seq::empty()));
    }
}

/// What is borrowed from comes first from the user's own objects, and without a
/// list of theirs from nothing else.
pub proof fn law_the_users_objects_are_borrowed_first(objects: Seq<char>, upstream: Option<Seq<char>>)
    ensures
        borrowed(objects, upstream)[0] == objects,
        borrowed(objects, None).len() == 1,
{
}

/// A rebuilt link is the same tree with the same message and time, behind the
/// commit that was written before it.
pub proof fn law_a_rebuilt_link_is_the_same_tree(
    call: Call,
    at: u64,
    link: LinkModel,
    written: Seq<Seq<char>>,
)
    requires
        commits_link(call, at, link, parent_of(written)),
    ensures
        at == link.at,
        call.words()[0] == "commit-tree"@,
        call.words()[1] == link.tree,
        call.words().last() == link.message,
        written.len() > 0 ==> call.words()[2] == "-p"@ && call.words()[3] == written.last(),
        written.len() == 0 ==> call.words().len() == 4,
{
}

} // verus!
