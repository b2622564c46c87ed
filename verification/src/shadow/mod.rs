//! The shadow repository: where turns are recorded.
//!
//! The user's `.git` is never written. Each worktree has a bare repository of
//! its own under the state directory, which borrows the user's objects through
//! `objects/info/alternates`, so that what has not changed is not copied.
//! Snapshots are built in a throwaway index, and uninstalling is removing one
//! directory.
use crate::calls::Call;
use crate::git::{Git, GitModel};
use crate::paths::{join, joined};
use crate::repo::{Worktree, WorktreeModel};
use crate::store::{slug, slug_of};
use crate::strings::{
    clone_opt, dec, join as glue, join_with, lemma_texts_empty, lemma_texts_push, lines, lines_of,
    opt_text, owned, push_dec, texts, trim, trim_str,
};
use vstd::prelude::*;
use vstd::string::*;

pub mod apply;
pub mod apply_laws;
pub mod git_laws;
pub mod landing;
pub mod plan;
pub mod read;
pub mod route;

verus! {

/// The shadow repository of one worktree.
#[derive(Debug)]
pub struct Shadow {
    pub git_dir: String,
    pub worktree: Worktree,
    pub tmp_dir: String,
}

#[verifier::ext_equal]
pub struct ShadowModel {
    pub git_dir: Seq<char>,
    pub worktree: WorktreeModel,
    pub tmp_dir: Seq<char>,
}

impl View for Shadow {
    type V = ShadowModel;

    open spec fn view(&self) -> ShadowModel {
        ShadowModel { git_dir: self.git_dir@, worktree: self.worktree@, tmp_dir: self.tmp_dir@ }
    }
}

/// One recorded point in time.
#[derive(Debug)]
pub struct Snapshot {
    pub commit: String,
    pub tree: String,
    pub parent: Option<String>,
    pub at: u64,
}

#[verifier::ext_equal]
pub struct SnapshotModel {
    pub commit: Seq<char>,
    pub tree: Seq<char>,
    pub parent: Option<Seq<char>>,
    pub at: u64,
}

impl View for Snapshot {
    type V = SnapshotModel;

    open spec fn view(&self) -> SnapshotModel {
        SnapshotModel {
            commit: self.commit@,
            tree: self.tree@,
            parent: opt_text(self.parent),
            at: self.at,
        }
    }
}

/// The ref a timeline is recorded onto. It goes through the same slug as the
/// turn log, so that the two never disagree about which timeline is whose.
pub open spec fn ref_of(line: Seq<char>) -> Seq<char> {
    "refs/sheep/"@ + slug_of(line)
}

/// The variables every command on the shadow repository runs with: an identity
/// of its own, and no rewriting of line endings, whatever the machine's own
/// configuration says.
pub open spec fn pins() -> Seq<(Seq<char>, Seq<char>)> {
    seq![
        ("GIT_AUTHOR_NAME"@, "sheep"@),
        ("GIT_AUTHOR_EMAIL"@, "sheep@localhost"@),
        ("GIT_COMMITTER_NAME"@, "sheep"@),
        ("GIT_COMMITTER_EMAIL"@, "sheep@localhost"@),
        ("GIT_CONFIG_COUNT"@, "3"@),
        ("GIT_CONFIG_KEY_0"@, "core.autocrlf"@),
        ("GIT_CONFIG_VALUE_0"@, "false"@),
        ("GIT_CONFIG_KEY_1"@, "core.eol"@),
        ("GIT_CONFIG_VALUE_1"@, "lf"@),
        ("GIT_CONFIG_KEY_2"@, "core.safecrlf"@),
        ("GIT_CONFIG_VALUE_2"@, "false"@),
    ]
}

/// The directories the shadow repository borrows objects from: the user's, and
/// every one the user's own repository borrows from in turn.
pub open spec fn borrowed(objects: Seq<char>, upstream: Option<Seq<char>>) -> Seq<Seq<char>> {
    seq![objects] + (match upstream {
        Some(text) => lines(text).filter(|l: Seq<char>| trim(l).len() > 0).map_values(
            |l: Seq<char>| joined(objects, trim(l)),
        ),
        None => Seq::empty(),
    })
}

impl ShadowModel {
    /// How git is called on the shadow repository.
    pub open spec fn git(self) -> GitModel {
        GitModel {
            git_dir: Some(self.git_dir),
            work_tree: Some(self.worktree.root),
            index_file: None,
            cwd: self.worktree.root,
            envs: pins(),
        }
    }
}

impl Shadow {
    /// The shadow repository of `wt` under a state directory.
    pub fn ensure(wt: Worktree, state_dir: &str) -> (r: Self)
        ensures
            r@ == (ShadowModel {
                git_dir: joined(joined(state_dir@, "shadow"@), wt@.id + ".git"@),
                worktree: wt@,
                tmp_dir: joined(state_dir@, "tmp"@),
            }),
    {
        let mut name: String = wt.id.clone();
        name.append(".git");
        let dir: String = join(state_dir, "shadow");
        Shadow {
            git_dir: join(dir.as_str(), name.as_str()),
            worktree: wt,
            tmp_dir: join(state_dir, "tmp"),
        }
    }

    /// The file whose presence says that the repository has been made.
    pub fn head_file(&self) -> (r: String)
        ensures
            r@ == joined(self@.git_dir, "HEAD"@),
    {
        join(self.git_dir.as_str(), "HEAD")
    }

    /// The command that makes the repository.
    pub fn init(&self) -> (r: Call)
        ensures
            r.words() == seq!["init"@, "--bare"@, "--quiet"@, self@.git_dir],
    {
        Call::Init { git_dir: self.git_dir.clone() }
    }

    /// Where the borrowed directories are listed.
    pub fn alternates_file(&self) -> (r: String)
        ensures
            r@ == joined(joined(joined(self@.git_dir, "objects"@), "info"@), "alternates"@),
    {
        let info: String = join(join(self.git_dir.as_str(), "objects").as_str(), "info");
        join(info.as_str(), "alternates")
    }

    /// Where the user's own repository lists the directories it borrows from.
    pub fn upstream_file(&self) -> (r: String)
        ensures
            r@ == joined(
                joined(joined(self@.worktree.common_dir, "objects"@), "info"@),
                "alternates"@,
            ),
    {
        let info: String = join(self.worktree.objects_dir().as_str(), "info");
        join(info.as_str(), "alternates")
    }

    /// The list of borrowed directories, when the user's own list is `upstream`.
    pub fn alternates(&self, upstream: &Option<String>) -> (r: String)
        ensures
            r@ == glue(
                borrowed(joined(self@.worktree.common_dir, "objects"@), opt_text(*upstream)),
                "\n"@,
            ) + "\n"@,
    {
        broadcast use lemma_texts_push;

        let objects: String = self.worktree.objects_dir();
        let mut out: Vec<String> = Vec::new();
        proof {
            lemma_texts_empty(out@);
        }
        out.push(objects.clone());
        proof {
            assert(texts(out@) =~= seq![objects@]);
        }
        if let Some(text) = upstream {
            let all: Vec<String> = lines_of(text.as_str());
            let ghost keep = |l: Seq<char>| trim(l).len() > 0;
            let ghost put = |l: Seq<char>| joined(objects@, trim(l));
            let mut i: usize = 0;
            proof {
                reveal(Seq::filter);
                assert(texts(all@).take(0) =~= Seq::<Seq<char>>::empty());
                assert(seq![objects@] + texts(all@).take(0).filter(keep).map_values(put)
                    =~= seq![objects@]);
            }
            while i < all.len()
                invariant
                    i <= all@.len(),
                    keep == (|l: Seq<char>| trim(l).len() > 0),
                    put == (|l: Seq<char>| joined(objects@, trim(l))),
                    texts(out@) == seq![objects@] + texts(all@).take(i as int).filter(
                        keep,
                    ).map_values(put),
                decreases all@.len() - i,
            {
                broadcast use lemma_texts_push;

                let line: String = trim_str(all[i].as_str());
                proof {
                    reveal(Seq::filter);
                    let now = texts(all@).take(i + 1);
                    assert(now.drop_last() =~= texts(all@).take(i as int));
                    assert(now.last() == all@[i as int]@);
                }
                if !line.as_str().is_empty() {
                    let ghost was = texts(all@).take(i as int).filter(keep);
                    out.push(join(objects.as_str(), line.as_str()));
                    proof {
                        assert(was.push(all@[i as int]@).map_values(put) =~= was.map_values(
                            put,
                        ).push(joined(objects@, line@)));
                    }
                }
                i += 1;
                proof {
                    assert(texts(out@) =~= seq![objects@] + texts(all@).take(i as int).filter(
                        keep,
                    ).map_values(put));
                }
            }
            proof {
                assert(texts(all@).take(all@.len() as int) =~= texts(all@));
            }
        }
        proof {
            assert(texts(out@) =~= borrowed(objects@, opt_text(*upstream)));
        }
        let mut body: String = join_with(&out, "\n");
        body.append("\n");
        body
    }

    /// The user's own list of excluded paths.
    pub fn exclude_source(&self) -> (r: String)
        ensures
            r@ == joined(joined(self@.worktree.common_dir, "info"@), "exclude"@),
    {
        join(join(self.worktree.common_dir.as_str(), "info").as_str(), "exclude")
    }

    /// Where that list is mirrored: `git add` reads it from the git dir, which
    /// here is the shadow's.
    pub fn exclude_file(&self) -> (r: String)
        ensures
            r@ == joined(joined(self@.git_dir, "info"@), "exclude"@),
    {
        join(join(self.git_dir.as_str(), "info").as_str(), "exclude")
    }

    /// Where a note says which checkout the repository belongs to.
    pub fn marker_file(&self) -> (r: String)
        ensures
            r@ == joined(self@.git_dir, "sheep-worktree.txt"@),
    {
        join(self.git_dir.as_str(), "sheep-worktree.txt")
    }

    /// The note itself.
    pub fn marker(&self) -> (r: String)
        ensures
            r@ == self@.worktree.root + "\n"@,
    {
        let mut body: String = self.worktree.root.clone();
        body.append("\n");
        body
    }

    /// How git is called on the shadow repository.
    pub fn git(&self) -> (r: Git)
        ensures
            r@ == self@.git(),
    {
        let git: Git = Git::scoped(self.git_dir.as_str(), self.worktree.root.as_str());
        let git: Git = git.with_env("GIT_AUTHOR_NAME", "sheep");
        let git: Git = git.with_env("GIT_AUTHOR_EMAIL", "sheep@localhost");
        let git: Git = git.with_env("GIT_COMMITTER_NAME", "sheep");
        let git: Git = git.with_env("GIT_COMMITTER_EMAIL", "sheep@localhost");
        let git: Git = git.with_env("GIT_CONFIG_COUNT", "3");
        let git: Git = git.with_env("GIT_CONFIG_KEY_0", "core.autocrlf");
        let git: Git = git.with_env("GIT_CONFIG_VALUE_0", "false");
        let git: Git = git.with_env("GIT_CONFIG_KEY_1", "core.eol");
        let git: Git = git.with_env("GIT_CONFIG_VALUE_1", "lf");
        let git: Git = git.with_env("GIT_CONFIG_KEY_2", "core.safecrlf");
        let git: Git = git.with_env("GIT_CONFIG_VALUE_2", "false");
        proof {
            assert(git@.envs =~= pins());
        }
        git
    }

    /// How a commit is written: with the date it stands for, so that a rebuilt
    /// history keeps the times the turns happened.
    pub fn dated(&self, at: u64) -> (r: Git)
        ensures
            r@ == (GitModel {
                envs: pins().push(("GIT_AUTHOR_DATE"@, dec(at as nat) + " +0000"@)).push(
                    ("GIT_COMMITTER_DATE"@, dec(at as nat) + " +0000"@),
                ),
                ..self@.git()
            }),
    {
        let mut date: String = crate::strings::dec_of(at);
        date.append(" +0000");
        let git: Git = self.git();
        let git: Git = git.with_env("GIT_AUTHOR_DATE", date.as_str());
        git.with_env("GIT_COMMITTER_DATE", date.as_str())
    }

    /// The throwaway index of one operation of one process.
    pub fn scratch_index(&self, tag: &str, pid: u64) -> (r: String)
        ensures
            r@ == joined(
                self@.tmp_dir,
                self@.worktree.id + "-"@ + tag@ + "-"@ + dec(pid as nat) + ".idx"@,
            ),
    {
        let mut name: String = self.worktree.id.clone();
        name.append("-");
        name.append(tag);
        name.append("-");
        push_dec(&mut name, pid);
        name.append(".idx");
        join(self.tmp_dir.as_str(), name.as_str())
    }

    /// What drops everything no ref reaches, in order. Only ever run on the
    /// shadow repository itself.
    pub fn collect(&self) -> (r: (Git, Vec<Call>))
        ensures
            r.0@ == (GitModel {
                git_dir: Some(self@.git_dir),
                work_tree: None,
                index_file: None,
                cwd: self@.git_dir,
                envs: Seq::empty(),
            }),
            r.1@ == seq![Call::ExpireReflogs, Call::Prune],
    {
        let mut calls: Vec<Call> = Vec::new();
        calls.push(Call::ExpireReflogs);
        calls.push(Call::Prune);
        proof {
            assert(calls@ =~= seq![Call::ExpireReflogs, Call::Prune]);
        }
        (Git::bare(self.git_dir.as_str()), calls)
    }

    /// The ref a timeline is recorded onto.
    pub fn ref_name(line: &str) -> (r: String)
        ensures
            r@ == ref_of(line@),
    {
        let mut name: String = owned("refs/sheep/");
        name.append(slug(line).as_str());
        name
    }
}

// ----------------------------------------------------------- writing history

/// Why a ref could not be moved.
pub open spec fn moved_away(line: Seq<char>, cause: Seq<char>) -> Seq<char> {
    "timeline `"@ + line + "` moved while Sheep was writing to it: "@ + cause
}

fn ref_moved(line: &str, cause: &str) -> (r: String)
    ensures
        r@ == moved_away(line@, cause@),
{
    let mut e: String = owned("timeline `");
    e.append(line);
    e.append("` moved while Sheep was writing to it: ");
    e.append(cause);
    e
}

impl Shadow {
    /// The command that records `tree` behind `parent`.
    pub fn commit_tree(tree: &str, parent: &Option<String>, message: &str) -> (r: Call)
        ensures
            r matches Call::CommitTree { tree: t, parent: p, message: m } && t@ == tree@ && opt_text(
                p,
            ) == opt_text(*parent) && m@ == message@,
    {
        Call::CommitTree {
            tree: owned(tree),
            parent: clone_opt(parent),
            message: owned(message),
        }
    }

    /// The command that makes `commit` the head of a timeline whose head was
    /// `expected`. It fails when the head is no longer that.
    pub fn swap_ref(line: &str, commit: &str, expected: &Option<String>) -> (r: Call)
        ensures
            r matches Call::MoveRef { name, to, from } && name@ == ref_of(line@) && to@ == commit@
                && opt_text(from) == opt_text(*expected),
    {
        Call::MoveRef { name: Self::ref_name(line), to: owned(commit), from: clone_opt(expected) }
    }

    /// The snapshot that `commit` is, once the timeline's head was moved to it.
    pub fn commit(
        line: &str,
        tree: &str,
        parent: Option<String>,
        at: u64,
        commit: String,
        moved: Result<(), String>,
    ) -> (r: Result<Snapshot, String>)
        ensures
            match r {
                Ok(s) => moved is Ok && s@ == (SnapshotModel {
                    commit: commit@,
                    tree: tree@,
                    parent: opt_text(parent),
                    at,
                }),
                Err(e) => moved matches Err(cause) && e@ == moved_away(line@, cause@),
            },
    {
        match moved {
            Ok(_) => Ok(Snapshot { commit, tree: owned(tree), parent, at }),
            Err(cause) => Err(ref_moved(line, cause.as_str())),
        }
    }
}

/// One link of a chain that is rebuilt.
#[derive(Debug)]
pub struct Link {
    pub tree: String,
    pub message: String,
    pub at: u64,
}

#[verifier::ext_equal]
pub struct LinkModel {
    pub tree: Seq<char>,
    pub message: Seq<char>,
    pub at: u64,
}

impl View for Link {
    type V = LinkModel;

    open spec fn view(&self) -> LinkModel {
        LinkModel { tree: self.tree@, message: self.message@, at: self.at }
    }
}

pub open spec fn links(v: Seq<Link>) -> Seq<LinkModel> {
    v.map_values(|l: Link| l@)
}

/// A timeline being rebuilt as a fresh chain of commits. The trees are used as
/// they are, so every kept turn restores to the same bytes as before.
#[derive(Debug)]
pub struct Rechain {
    pub line: String,
    pub turns: Vec<Link>,
    /// The commits written so far.
    pub written: Vec<String>,
    /// Where the ref was when the timeline was read.
    pub expected: Option<String>,
}

/// What has to be done next to rebuild a timeline.
#[derive(Debug)]
pub enum RechainStep {
    /// Write this commit, dated `at`, and hand its id to `wrote`.
    Commit { call: Call, at: u64 },
    /// Every commit is written: move the ref.
    Move(Call),
    /// Nothing was kept and there is no ref: nothing is left to do.
    Nothing,
}

/// The commit before the next one.
pub open spec fn parent_of(written: Seq<Seq<char>>) -> Option<Seq<char>> {
    if written.len() == 0 {
        None
    } else {
        Some(written.last())
    }
}

/// Whether a command, run at a date, writes a link behind `parent`.
pub open spec fn commits_link(call: Call, at: u64, link: LinkModel, parent: Option<Seq<char>>) -> bool {
    match call {
        Call::CommitTree { tree, parent: p, message } => at == link.at && tree@ == link.tree
            && message@ == link.message && opt_text(p) == parent,
        _ => false,
    }
}

impl Rechain {
    pub open spec fn wf(&self) -> bool {
        self.written@.len() <= self.turns@.len()
    }

    /// Start rebuilding a timeline whose head is `expected`.
    pub fn new(line: &str, turns: Vec<Link>, expected: Option<String>) -> (r: Self)
        ensures
            r.wf(),
            r.line@ == line@,
            r.turns@ == turns@,
            texts(r.written@) == Seq::<Seq<char>>::empty(),
            r.expected == expected,
    {
        let r = Rechain { line: owned(line), turns, written: Vec::new(), expected };
        proof {
            lemma_texts_empty(r.written@);
        }
        r
    }

    /// The next command: the oldest turn that is not written yet becomes a
    /// commit behind the one written last, the first of all a root; then the
    /// ref moves from where it was to the newest commit.
    pub fn step(&self) -> (r: RechainStep)
        requires
            self.wf(),
        ensures
            match r {
                RechainStep::Commit { call, at } => self.written@.len() < self.turns@.len()
                    && commits_link(
                    call,
                    at,
                    self.turns@[self.written@.len() as int]@,
                    parent_of(texts(self.written@)),
                ),
                RechainStep::Move(call) => self.written@.len() == self.turns@.len() && (match call {
                    Call::MoveRef { name, to, from } => name@ == ref_of(self.line@) && Some(to@)
                        == parent_of(texts(self.written@)) && opt_text(from) == opt_text(
                        self.expected,
                    ),
                    Call::DropRef { name, from } => self.turns@.len() == 0 && name@ == ref_of(
                        self.line@,
                    ) && Some(from@) == opt_text(self.expected),
                    _ => false,
                }),
                RechainStep::Nothing => self.turns@.len() == 0 && self.expected is None,
            },
    {
        let done: usize = self.written.len();
        proof {
            assert(texts(self.written@).len() == self.written@.len());
            if done > 0 {
                assert(texts(self.written@).last() == self.written@[done - 1]@);
            }
        }
        let parent: Option<String> = if done == 0 {
            None
        } else {
            Some(self.written[done - 1].clone())
        };
        if done < self.turns.len() {
            let call: Call = Shadow::commit_tree(
                self.turns[done].tree.as_str(),
                &parent,
                self.turns[done].message.as_str(),
            );
            return RechainStep::Commit { call, at: self.turns[done].at };
        }
        match parent {
            Some(head) => RechainStep::Move(
                Shadow::swap_ref(self.line.as_str(), head.as_str(), &self.expected),
            ),
            None => match &self.expected {
                Some(from) => RechainStep::Move(
                    Call::DropRef { name: Shadow::ref_name(self.line.as_str()), from: from.clone() },
                ),
                None => RechainStep::Nothing,
            },
        }
    }

    /// Take note of a commit that was written.
    pub fn wrote(&mut self, commit: String)
        requires
            old(self).written@.len() < old(self).turns@.len(),
        ensures
            final(self).wf(),
            final(self).line == old(self).line,
            final(self).turns == old(self).turns,
            final(self).expected == old(self).expected,
            texts(final(self).written@) == texts(old(self).written@).push(commit@),
    {
        broadcast use lemma_texts_push;

        self.written.push(commit);
    }

    /// The commits of the rebuilt timeline, oldest first, once its ref was
    /// moved.
    pub fn finish(self, moved: Result<(), String>) -> (r: Result<Vec<String>, String>)
        ensures
            match r {
                Ok(v) => moved is Ok && v == self.written,
                Err(e) => moved matches Err(cause) && e@ == moved_away(self.line@, cause@),
            },
    {
        match moved {
            Ok(_) => Ok(self.written),
            Err(cause) => Err(ref_moved(self.line.as_str(), cause.as_str())),
        }
    }
}

} // verus!
