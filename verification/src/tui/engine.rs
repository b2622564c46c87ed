//! What the interface asks of the worker, and what comes back.
use crate::git::Output;
use crate::ops::planning::Planned;
use crate::ops::{short, Failure};
use crate::repo::{Health, Worktree};
use crate::shadow::plan::{RestoreModel, RestorePlan};
use crate::store::{slug, slug_of, turns_view, Turn, TurnModel};
use crate::strings::{
    clone_opt, dec, join, join_with, lemma_texts_empty, lemma_texts_push, lines, lines_of, opt_text,
    owned, push_dec, same, starts_with, texts, trim, trim_str, within,
};
use vstd::prelude::*;
use vstd::string::*;

verus! {

#[derive(Debug, Clone, Copy, PartialEq, Eq, Structural)]
pub enum Action {
    Write,
    Remove,
}

/// A restore plan flattened into something a list can index into.
#[derive(Debug)]
pub struct PlanView {
    pub seq: u64,
    pub commit: String,
    pub target_tree: String,
    /// The tree the plan was computed against. If the working tree has moved on
    /// since, this no longer matches and the plan on screen is stale.
    pub current_tree: String,
    pub files: Vec<(Action, String)>,
    pub written: usize,
    pub removed: usize,
}

#[verifier::ext_equal]
pub struct PlanModel {
    pub seq: u64,
    pub commit: Seq<char>,
    pub target_tree: Seq<char>,
    pub current_tree: Seq<char>,
    pub files: Seq<(Action, Seq<char>)>,
    pub written: usize,
    pub removed: usize,
}

pub open spec fn files_view(v: Seq<(Action, String)>) -> Seq<(Action, Seq<char>)> {
    v.map_values(|f: (Action, String)| (f.0, f.1@))
}

impl View for PlanView {
    type V = PlanModel;

    open spec fn view(&self) -> PlanModel {
        PlanModel {
            seq: self.seq,
            commit: self.commit@,
            target_tree: self.target_tree@,
            current_tree: self.current_tree@,
            files: files_view(self.files@),
            written: self.written,
            removed: self.removed,
        }
    }
}

impl Clone for PlanView {
    fn clone(&self) -> (r: Self)
        ensures
            r@ == self@,
    {
        let mut files: Vec<(Action, String)> = Vec::new();
        let mut i: usize = 0;
        while i < self.files.len()
            invariant
                i <= self.files@.len(),
                files@ == self.files@.take(i as int),
            decreases self.files@.len() - i,
        {
            proof {
                assert(self.files@.take(i + 1) =~= self.files@.take(i as int).push(
                    self.files@[i as int],
                ));
            }
            files.push((self.files[i].0, self.files[i].1.clone()));
            i += 1;
        }
        proof {
            assert(self.files@.take(i as int) =~= self.files@);
        }
        PlanView {
            seq: self.seq,
            commit: self.commit.clone(),
            target_tree: self.target_tree.clone(),
            current_tree: self.current_tree.clone(),
            files,
            written: self.written,
            removed: self.removed,
        }
    }
}

impl PlanView {
    pub fn is_noop(&self) -> (r: bool)
        ensures
            r == (self@.files.len() == 0),
    {
        self.files.is_empty()
    }

    pub fn touched(&self) -> (r: usize)
        ensures
            r == self@.files.len(),
    {
        self.files.len()
    }

    pub fn path(&self, index: usize) -> (r: Option<&str>)
        ensures
            crate::strings::opt_str(r) == if index < self@.files.len() {
                Some(self@.files[index as int].1)
            } else {
                None
            },
    {
        if index < self.files.len() {
            Some(self.files[index].1.as_str())
        } else {
            None
        }
    }
}

/// What happened to the agent write-back after a restore.
#[derive(Debug, Clone, PartialEq, Eq)]
pub enum Notice {
    /// The agent in this pane was told what was taken back.
    Sent(String),
    /// Deliberately not sent.
    Off,
    /// Nothing to send to: no pane recorded, or not running under herdr.
    Skipped(String),
    /// herdr was there and refused.
    Failed(String),
}

pub enum NoticeModel {
    Sent(Seq<char>),
    Off,
    Skipped(Seq<char>),
    Failed(Seq<char>),
}

impl View for Notice {
    type V = NoticeModel;

    open spec fn view(&self) -> NoticeModel {
        match *self {
            Notice::Sent(s) => NoticeModel::Sent(s@),
            Notice::Off => NoticeModel::Off,
            Notice::Skipped(s) => NoticeModel::Skipped(s@),
            Notice::Failed(s) => NoticeModel::Failed(s@),
        }
    }
}

#[derive(Debug, Clone)]
pub struct Outcome {
    pub seq: u64,
    pub commit: String,
    pub written: usize,
    pub removed: usize,
    /// The turn holding the state that was replaced. Restoring it undoes this.
    pub checkpoint: Option<u64>,
    pub notice: Notice,
}

pub struct OutcomeModel {
    pub seq: u64,
    pub commit: Seq<char>,
    pub written: usize,
    pub removed: usize,
    pub checkpoint: Option<u64>,
    pub notice: NoticeModel,
}

impl View for Outcome {
    type V = OutcomeModel;

    open spec fn view(&self) -> OutcomeModel {
        OutcomeModel {
            seq: self.seq,
            commit: self.commit@,
            written: self.written,
            removed: self.removed,
            checkpoint: self.checkpoint,
            notice: self.notice@,
        }
    }
}

#[derive(Debug)]
pub enum Job {
    /// Turn log plus the safety report. Used at start-up and on `r`.
    Reload,
    /// Turn log only.
    Poll,
    Plan { req: u64, seq: u64 },
    Patch { req: u64, path: String, current_tree: String, target_tree: String },
    Restore { req: u64, seq: u64, expect_tree: String, pane: Option<String>, notify: bool },
}

pub enum JobModel {
    Reload,
    Poll,
    Plan { req: u64, seq: u64 },
    Patch { req: u64, path: Seq<char>, current_tree: Seq<char>, target_tree: Seq<char> },
    Restore {
        req: u64,
        seq: u64,
        expect_tree: Seq<char>,
        pane: Option<Seq<char>>,
        notify: bool,
    },
}

impl View for Job {
    type V = JobModel;

    open spec fn view(&self) -> JobModel {
        match *self {
            Job::Reload => JobModel::Reload,
            Job::Poll => JobModel::Poll,
            Job::Plan { req, seq } => JobModel::Plan { req, seq },
            Job::Patch { req, path, current_tree, target_tree } => JobModel::Patch {
                req,
                path: path@,
                current_tree: current_tree@,
                target_tree: target_tree@,
            },
            Job::Restore { req, seq, expect_tree, pane, notify } => JobModel::Restore {
                req,
                seq,
                expect_tree: expect_tree@,
                pane: opt_text(pane),
                notify,
            },
        }
    }
}

impl Clone for Job {
    fn clone(&self) -> (r: Self)
        ensures
            r == *self,
    {
        match self {
            Job::Reload => Job::Reload,
            Job::Poll => Job::Poll,
            Job::Plan { req, seq } => Job::Plan { req: *req, seq: *seq },
            Job::Patch { req, path, current_tree, target_tree } => Job::Patch {
                req: *req,
                path: path.clone(),
                current_tree: current_tree.clone(),
                target_tree: target_tree.clone(),
            },
            Job::Restore { req, seq, expect_tree, pane, notify } => Job::Restore {
                req: *req,
                seq: *seq,
                expect_tree: expect_tree.clone(),
                pane: clone_opt(pane),
                notify: *notify,
            },
        }
    }
}

pub open spec fn jobs_view(v: Seq<Job>) -> Seq<JobModel> {
    v.map_values(|j: Job| j@)
}

#[derive(Debug, Clone)]
pub enum Reply {
    Loaded {
        turns: Vec<Turn>,
        blockers: Vec<String>,
        warnings: Vec<String>,
        /// The other timelines recorded for this worktree.
        others: Vec<String>,
    },
    Turns(Vec<Turn>),
    Broken(String),
    Planned { req: u64, plan: PlanView },
    PlanFailed { req: u64, seq: u64, message: String },
    Patched { req: u64, path: String, body: String },
    PatchFailed { req: u64, path: String, message: String },
    /// The working tree moved between showing the plan and confirming it. The
    /// user gets the new plan instead of a restore they did not look at.
    Stale { req: u64, plan: PlanView },
    Restored { req: u64, outcome: Outcome },
    /// `tree_moved` says that files were touched and could not be put back.
    RestoreFailed { req: u64, message: String, tree_moved: bool },
}

pub enum ReplyModel {
    Loaded {
        turns: Seq<TurnModel>,
        blockers: Seq<Seq<char>>,
        warnings: Seq<Seq<char>>,
        others: Seq<Seq<char>>,
    },
    Turns(Seq<TurnModel>),
    Broken(Seq<char>),
    Planned { req: u64, plan: PlanModel },
    PlanFailed { req: u64, seq: u64, message: Seq<char> },
    Patched { req: u64, path: Seq<char>, body: Seq<char> },
    PatchFailed { req: u64, path: Seq<char>, message: Seq<char> },
    Stale { req: u64, plan: PlanModel },
    Restored { req: u64, outcome: OutcomeModel },
    RestoreFailed { req: u64, message: Seq<char>, tree_moved: bool },
}

impl View for Reply {
    type V = ReplyModel;

    open spec fn view(&self) -> ReplyModel {
        match *self {
            Reply::Loaded { turns, blockers, warnings, others } => ReplyModel::Loaded {
                turns: turns_view(turns@),
                blockers: texts(blockers@),
                warnings: texts(warnings@),
                others: texts(others@),
            },
            Reply::Turns(turns) => ReplyModel::Turns(turns_view(turns@)),
            Reply::Broken(s) => ReplyModel::Broken(s@),
            Reply::Planned { req, plan } => ReplyModel::Planned { req, plan: plan@ },
            Reply::PlanFailed { req, seq, message } => ReplyModel::PlanFailed {
                req,
                seq,
                message: message@,
            },
            Reply::Patched { req, path, body } => ReplyModel::Patched {
                req,
                path: path@,
                body: body@,
            },
            Reply::PatchFailed { req, path, message } => ReplyModel::PatchFailed {
                req,
                path: path@,
                message: message@,
            },
            Reply::Stale { req, plan } => ReplyModel::Stale { req, plan: plan@ },
            Reply::Restored { req, outcome } => ReplyModel::Restored { req, outcome: outcome@ },
            Reply::RestoreFailed { req, message, tree_moved } => ReplyModel::RestoreFailed {
                req,
                message: message@,
                tree_moved,
            },
        }
    }
}

// ---------------------------------------------------------------- the worker

/// A plan flattened: what is written first, then what is removed.
pub open spec fn flattened(seq: u64, commit: Seq<char>, plan: RestoreModel) -> PlanModel {
    PlanModel {
        seq,
        commit,
        target_tree: plan.target_tree,
        current_tree: plan.current_tree,
        files: plan.write.map_values(|p: Seq<char>| (Action::Write, p)) + plan.remove.map_values(
            |p: Seq<char>| (Action::Remove, p),
        ),
        written: plan.write.len() as usize,
        removed: plan.remove.len() as usize,
    }
}

/// A plan flattened into something a list can index into.
pub fn view(seq: u64, commit: &str, plan: &RestorePlan) -> (r: PlanView)
    ensures
        r@ == flattened(seq, commit@, plan@),
{
    let ghost writes = plan@.write.map_values(|p: Seq<char>| (Action::Write, p));
    let ghost removes = plan@.remove.map_values(|p: Seq<char>| (Action::Remove, p));
    let mut files: Vec<(Action, String)> = Vec::new();
    let mut i: usize = 0;
    proof {
        assert(files_view(files@) =~= writes.take(0));
    }
    while i < plan.write.len()
        invariant
            i <= plan.write@.len(),
            writes == plan@.write.map_values(|p: Seq<char>| (Action::Write, p)),
            files_view(files@) == writes.take(i as int),
        decreases plan.write@.len() - i,
    {
        let ghost was = files@;
        files.push((Action::Write, plan.write[i].clone()));
        proof {
            assert(files_view(files@) =~= files_view(was).push(writes[i as int]));
            assert(writes.take(i + 1) =~= writes.take(i as int).push(writes[i as int]));
        }
        i += 1;
    }
    let mut k: usize = 0;
    proof {
        assert(writes.take(i as int) =~= writes);
        assert(files_view(files@) =~= writes + removes.take(0));
    }
    while k < plan.remove.len()
        invariant
            k <= plan.remove@.len(),
            removes == plan@.remove.map_values(|p: Seq<char>| (Action::Remove, p)),
            files_view(files@) == writes + removes.take(k as int),
        decreases plan.remove@.len() - k,
    {
        let ghost was = files@;
        files.push((Action::Remove, plan.remove[k].clone()));
        proof {
            assert(files_view(files@) =~= files_view(was).push(removes[k as int]));
            assert(removes.take(k + 1) =~= removes.take(k as int).push(removes[k as int]));
            assert(files_view(files@) =~= writes + removes.take(k + 1));
        }
        k += 1;
    }
    proof {
        assert(removes.take(k as int) =~= removes);
        assert(texts(plan.write@).len() == plan.write@.len());
        assert(texts(plan.remove@).len() == plan.remove@.len());
    }
    PlanView {
        seq,
        commit: owned(commit),
        target_tree: plan.target_tree.clone(),
        current_tree: plan.current_tree.clone(),
        files,
        written: plan.write.len(),
        removed: plan.remove.len(),
    }
}

/// The same turns, newest first: the dock reads from the top down.
pub fn newest_first(turns: Vec<Turn>) -> (r: Vec<Turn>)
    ensures
        turns_view(r@) == turns_view(turns@).reverse(),
{
    let mut rest: Vec<Turn> = turns;
    let mut out: Vec<Turn> = Vec::new();
    let ghost all = turns@;
    while rest.len() > 0
        invariant
            rest@.len() <= all.len(),
            rest@ == all.take(rest@.len() as int),
            out@.len() == all.len() - rest@.len(),
            forall|k: int| 0 <= k < out@.len() ==> #[trigger] out@[k] == all[all.len() - 1 - k],
        decreases rest@.len(),
    {
        let ghost n = rest@.len();
        if let Some(turn) = rest.pop() {
            proof {
                assert(turn == all[n - 1]);
                assert(rest@ =~= all.take(n - 1));
            }
            out.push(turn);
        }
    }
    proof {
        assert(turns_view(out@) =~= turns_view(all).reverse());
    }
    out
}

/// Every timeline but one.
pub open spec fn others_of(lines: Seq<Seq<char>>, own: Seq<char>) -> Seq<Seq<char>> {
    lines.filter(|l: Seq<char>| l != own)
}

/// What the dock shows after a reload. `lines` are the timelines recorded for
/// the worktree, by the names of their files; the one on screen is not another.
pub fn loaded(health: &Health, turns: Vec<Turn>, lines: &Vec<String>, line: &str) -> (r: Reply)
    ensures
        r@ == (ReplyModel::Loaded {
            turns: turns_view(turns@).reverse(),
            blockers: health@.blockers.map_values(|b: crate::repo::BlockerModel| b.text()),
            warnings: health@.warnings.map_values(|w: crate::repo::WarningModel| w.text()),
            others: others_of(texts(lines@), slug_of(line@)),
        }),
{
    let blockers: Vec<String> = health.blocker_texts();
    let warnings: Vec<String> = health.warning_texts();
    let others: Vec<String> = others_than(lines, slug(line).as_str());
    Reply::Loaded { turns: newest_first(turns), blockers, warnings, others }
}

fn others_than(lines: &Vec<String>, own: &str) -> (r: Vec<String>)
    ensures
        texts(r@) == others_of(texts(lines@), own@),
{
    broadcast use lemma_texts_push;

    let ghost keep = |l: Seq<char>| l != own@;
    let mut out: Vec<String> = Vec::new();
    let mut i: usize = 0;
    proof {
        reveal(Seq::filter);
        lemma_texts_empty(out@);
        assert(texts(lines@).take(0) =~= Seq::<Seq<char>>::empty());
    }
    while i < lines.len()
        invariant
            i <= lines@.len(),
            keep == (|l: Seq<char>| l != own@),
            texts(out@) == texts(lines@).take(i as int).filter(keep),
        decreases lines@.len() - i,
    {
        broadcast use lemma_texts_push;

        proof {
            reveal(Seq::filter);
            let now = texts(lines@).take(i + 1);
            assert(now.drop_last() =~= texts(lines@).take(i as int));
            assert(now.last() == lines@[i as int]@);
        }
        if !same(lines[i].as_str(), own) {
            out.push(lines[i].clone());
        }
        i += 1;
    }
    proof {
        assert(texts(lines@).take(lines@.len() as int) =~= texts(lines@));
    }
    out
}

/// What changes when a timeline does: how many turns it has, and the commit of
/// its newest.
pub fn signature(turns: &Vec<Turn>) -> (r: (usize, String))
    ensures
        r.0 == turns@.len(),
        r.1@ == if turns@.len() > 0 {
            turns@[0]@.commit
        } else {
            Seq::empty()
        },
{
    if turns.len() > 0 {
        (turns.len(), turns[0].commit.clone())
    } else {
        let none: String = String::new();
        proof {
            assert(none@ =~= Seq::<char>::empty());
        }
        (0, none)
    }
}

/// Everything a job needs to know about which worktree it acts on.
#[derive(Debug)]
pub struct Ctx {
    pub wt: Worktree,
    pub state: String,
    pub line: String,
    pub max_files: usize,
}

/// What the worker last told the interface of the timeline. The worker reads
/// the log on a timer and speaks up only when there is something new.
#[derive(Debug)]
pub struct Seen {
    pub last: Option<(usize, String)>,
}

pub open spec fn signed(turns: Seq<TurnModel>) -> (nat, Seq<char>) {
    (
        turns.len(),
        if turns.len() > 0 {
            turns[0].commit
        } else {
            Seq::empty()
        },
    )
}

impl View for Seen {
    type V = Option<(nat, Seq<char>)>;

    open spec fn view(&self) -> Option<(nat, Seq<char>)> {
        match self.last {
            Some(s) => Some((s.0 as nat, s.1@)),
            None => None,
        }
    }
}

impl Seen {
    pub fn new() -> (r: Self)
        ensures
            r@ is None,
    {
        Seen { last: None }
    }

    /// A reload told the interface everything there is.
    pub fn answered(&mut self, reply: &Reply)
        ensures
            final(self)@ == match reply@ {
                ReplyModel::Loaded { turns, .. } => Some(signed(turns)),
                _ => old(self)@,
            },
    {
        if let Reply::Loaded { turns, .. } = reply {
            proof {
                assert(turns@.len() > 0 ==> turns_view(turns@)[0] == turns@[0]@);
            }
            self.last = Some(signature(turns));
        }
    }

    /// Whether a reading of the log is news, which it then no longer is.
    pub fn news(&mut self, turns: &Vec<Turn>) -> (r: bool)
        ensures
            r == (old(self)@ != Some(signed(turns_view(turns@)))),
            final(self)@ == Some(signed(turns_view(turns@))),
    {
        let now: (usize, String) = signature(turns);
        let known: bool = match &self.last {
            Some(last) => last.0 == now.0 && same(last.1.as_str(), now.1.as_str()),
            None => false,
        };
        proof {
            assert(turns@.len() > 0 ==> turns_view(turns@)[0] == turns@[0]@);
            assert((now.0 as nat, now.1@) == signed(turns_view(turns@)));
        }
        self.last = Some(now);
        !known
    }
}

// -------------------------------------------------------------------- patches

/// How many lines of a patch the preview holds.
pub const PATCH_LINE_LIMIT: usize = 600;

/// A line of a patch that says nothing the file list did not say.
pub open spec fn is_preamble(line: Seq<char>) -> bool {
    ||| "diff --git"@.is_prefix_of(line)
    ||| "index "@.is_prefix_of(line)
    ||| "--- "@.is_prefix_of(line)
    ||| "+++ "@.is_prefix_of(line)
    ||| "old mode"@.is_prefix_of(line)
    ||| "new mode"@.is_prefix_of(line)
}

/// The lines of a patch that are shown.
pub open spec fn shown_lines(body: Seq<char>) -> Seq<Seq<char>> {
    let kept = lines(body).filter(|l: Seq<char>| !is_preamble(l));
    if kept.len() > PATCH_LINE_LIMIT {
        kept.take(PATCH_LINE_LIMIT as int).push("…"@).push("(preview stops at 600 lines)"@)
    } else {
        kept
    }
}

fn preamble(line: &str) -> (r: bool)
    ensures
        r == is_preamble(line@),
{
    starts_with(line, "diff --git") || starts_with(line, "index ") || starts_with(line, "--- ")
        || starts_with(line, "+++ ") || starts_with(line, "old mode") || starts_with(
        line,
        "new mode",
    )
}

/// What the preview shows of a patch.
pub fn patch_text(body: &str) -> (r: String)
    ensures
        r@ == join(shown_lines(body@), "\n"@),
{
    broadcast use lemma_texts_push;

    let all: Vec<String> = lines_of(body);
    let ghost keep = |l: Seq<char>| !is_preamble(l);
    let mut out: Vec<String> = Vec::new();
    let mut more: bool = false;
    let mut i: usize = 0;
    proof {
        reveal(Seq::filter);
        lemma_texts_empty(out@);
        assert(texts(all@).take(0) =~= Seq::<Seq<char>>::empty());
        assert(texts(all@).take(0).filter(keep) =~= Seq::<Seq<char>>::empty());
    }
    while i < all.len()
        invariant
            i <= all@.len(),
            keep == (|l: Seq<char>| !is_preamble(l)),
            out@.len() <= PATCH_LINE_LIMIT,
            ({
                let kept = texts(all@).take(i as int).filter(keep);
                if more {
                    kept.len() > PATCH_LINE_LIMIT && texts(out@) == kept.take(
                        PATCH_LINE_LIMIT as int,
                    )
                } else {
                    texts(out@) == kept
                }
            }),
        decreases all@.len() - i,
    {
        broadcast use lemma_texts_push;

        let ghost before = texts(all@).take(i as int).filter(keep);
        proof {
            reveal(Seq::filter);
            let now = texts(all@).take(i + 1);
            assert(now.drop_last() =~= texts(all@).take(i as int));
            assert(now.last() == all@[i as int]@);
            assert(texts(out@).len() == out@.len());
        }
        if !preamble(all[i].as_str()) {
            if out.len() < PATCH_LINE_LIMIT {
                out.push(all[i].clone());
            } else {
                more = true;
                proof {
                    assert(before.push(all@[i as int]@).take(PATCH_LINE_LIMIT as int)
                        =~= before.take(PATCH_LINE_LIMIT as int));
                    assert(texts(out@) =~= before.take(PATCH_LINE_LIMIT as int));
                }
            }
        }
        i += 1;
    }
    proof {
        assert(texts(all@).take(all@.len() as int) =~= texts(all@));
        assert(texts(out@).len() == out@.len());
    }
    if more {
        out.push(owned("…"));
        out.push(owned("(preview stops at 600 lines)"));
    }
    join_with(&out, "\n")
}

/// What the preview shows, from what the comparison of two trees left behind.
pub fn patched(req: u64, path: String, out: Result<Output, String>) -> (r: Reply)
    ensures
        r@ == match out {
            Err(e) => ReplyModel::PatchFailed { req, path: path@, message: e@ },
            Ok(o) => if o.success {
                ReplyModel::Patched {
                    req,
                    path: path@,
                    body: join(shown_lines(o.stdout@), "\n"@),
                }
            } else {
                ReplyModel::PatchFailed {
                    req,
                    path: path@,
                    message: "git diff-tree failed: "@ + trim(o.stderr@),
                }
            },
        },
        r@ is Patched <==> (out matches Ok(o) && o.success),
{
    match out {
        Err(e) => Reply::PatchFailed { req, path, message: e },
        Ok(o) => {
            if o.success {
                Reply::Patched { req, path, body: patch_text(o.stdout.as_str()) }
            } else {
                let mut message: String = owned("git diff-tree failed: ");
                message.append(trim_str(o.stderr.as_str()).as_str());
                Reply::PatchFailed { req, path, message }
            }
        },
    }
}

// -------------------------------------------------------------------- restores

/// What the interface is told of a plan that could or could not be made.
pub fn planned(req: u64, seq: u64, outcome: Result<Planned, String>) -> (r: Reply)
    ensures
        r@ == match outcome {
            Ok(p) => ReplyModel::Planned { req, plan: flattened(seq, p.commit@, p.plan@) },
            Err(message) => ReplyModel::PlanFailed { req, seq, message: message@ },
        },
{
    match outcome {
        Ok(p) => Reply::Planned { req, plan: view(seq, p.commit.as_str(), &p.plan) },
        Err(message) => Reply::PlanFailed { req, seq, message },
    }
}

/// What the interface is told of a restore that did not land. A moved tree is
/// answered with the plan as it stands now; `busy` is what to say where the
/// lock was busy. Only a restore that had begun and could not be undone leaves
/// the tree between two states.
pub fn restore_failure(req: u64, seq: u64, commit: &str, failure: &Failure, busy: &str) -> (r: Reply)
    ensures
        r@ == match *failure {
            Failure::Stale(stale) => ReplyModel::Stale {
                req,
                plan: flattened(seq, commit@, stale.plan@),
            },
            Failure::Restore(failed) => ReplyModel::RestoreFailed {
                req,
                message: failed.message(),
                tree_moved: !failed.recovered,
            },
            Failure::Busy(_) => ReplyModel::RestoreFailed { req, message: busy@, tree_moved: false },
            Failure::Other(e) => ReplyModel::RestoreFailed { req, message: e@, tree_moved: false },
        },
        r@ is Stale <==> failure is Stale,
        r@ matches ReplyModel::RestoreFailed { tree_moved, .. } ==> (tree_moved <==> (
        failure matches Failure::Restore(failed) && !failed.recovered)),
{
    match failure {
        Failure::Stale(stale) => Reply::Stale { req, plan: view(seq, commit, &stale.plan) },
        Failure::Restore(failed) => Reply::RestoreFailed {
            req,
            message: failed.text(),
            tree_moved: !failed.recovered,
        },
        Failure::Busy(_) => Reply::RestoreFailed { req, message: owned(busy), tree_moved: false },
        Failure::Other(e) => Reply::RestoreFailed { req, message: e.clone(), tree_moved: false },
    }
}

/// Who is told what was taken back.
#[derive(Debug)]
pub enum Telling {
    /// Nobody, and why.
    Nobody(Notice),
    /// The agent in this pane.
    Agent(String),
}

/// Who is told what was taken back: the agent in the pane, if it is to be told
/// and there is one.
pub fn telling(notify: bool, pane: Option<String>) -> (r: Telling)
    ensures
        match r {
            Telling::Agent(p) => notify && pane == Some(p),
            Telling::Nobody(n) => if notify {
                pane is None && n@ == NoticeModel::Skipped(
                    "no agent pane recorded on this timeline"@,
                )
            } else {
                n@ == NoticeModel::Off
            },
        },
        r is Agent <==> notify && pane is Some,
{
    if !notify {
        return Telling::Nobody(Notice::Off);
    }
    match pane {
        Some(p) => Telling::Agent(p),
        None => Telling::Nobody(
            Notice::Skipped(owned("no agent pane recorded on this timeline")),
        ),
    }
}

/// What came of telling the agent in a pane: nothing outside a session, and the
/// server's error where it refused.
pub fn told(pane: String, answer: Result<bool, String>) -> (r: Notice)
    ensures
        r@ == match answer {
            Ok(true) => NoticeModel::Sent(pane@),
            Ok(false) => NoticeModel::Skipped("not running inside herdr"@),
            Err(e) => NoticeModel::Failed(e@),
        },
        r@ is Sent <==> answer == Ok::<bool, String>(true),
        r@ is Failed <==> answer is Err,
{
    match answer {
        Ok(sent) => {
            if sent {
                Notice::Sent(pane)
            } else {
                Notice::Skipped(owned("not running inside herdr"))
            }
        },
        Err(e) => Notice::Failed(e),
    }
}

/// What a restore that landed amounts to.
pub fn outcome(seq: u64, commit: String, plan: &RestorePlan, checkpoint: &Option<Turn>, notice: Notice) -> (r:
    Outcome)
    ensures
        r@ == (OutcomeModel {
            seq,
            commit: commit@,
            written: plan@.write.len() as usize,
            removed: plan@.remove.len() as usize,
            checkpoint: match *checkpoint {
                Some(t) => Some(t.seq),
                None => None,
            },
            notice: notice@,
        }),
        r.written == plan.write@.len(),
        r.removed == plan.remove@.len(),
        r.checkpoint is Some <==> checkpoint is Some,
{
    proof {
        assert(texts(plan.write@).len() == plan.write@.len());
        assert(texts(plan.remove@).len() == plan.remove@.len());
    }
    Outcome {
        seq,
        commit,
        written: plan.write.len(),
        removed: plan.remove.len(),
        checkpoint: match checkpoint {
            Some(t) => Some(t.seq),
            None => None,
        },
        notice,
    }
}

/// What the agent is told after its worktree moved underneath it: the turn, the
/// size of the change, and the way back. Nothing of the files themselves.
pub open spec fn rewind_text(
    seq: u64,
    commit: Seq<char>,
    written: nat,
    removed: nat,
    checkpoint: Option<u64>,
) -> Seq<char> {
    "[sheep] Your working tree was rewound to turn #"@ + dec(seq as nat) + " ("@ + within(commit, 12)
        + "). "@ + dec(written + removed) + " path(s) changed on disk: "@ + dec(written)
        + " rewritten, "@ + dec(removed) + " deleted. Anything you wrote after turn #"@ + dec(
        seq as nat,
    )
        + " is no longer on disk — re-read any file before you edit it, and do not re-apply the reverted changes unless you are asked to."@
        + (match checkpoint {
        Some(cp) => " The state from just before the rewind was kept as turn #"@ + dec(cp as nat)
            + "; `sheep restore #"@ + dec(cp as nat) + " --yes` puts it back."@,
        None => ""@,
    })
}

/// What the agent is told after its worktree moved underneath it.
pub fn rewind_message(
    seq: u64,
    commit: &str,
    written: usize,
    removed: usize,
    checkpoint: Option<u64>,
) -> (r: String)
    requires
        written + removed <= usize::MAX,
    ensures
        r@ == rewind_text(seq, commit@, written as nat, removed as nat, checkpoint),
{
    let mut t: String = owned("[sheep] Your working tree was rewound to turn #");
    push_dec(&mut t, seq);
    t.append(" (");
    t.append(short(commit).as_str());
    t.append("). ");
    push_dec(&mut t, (written + removed) as u64);
    t.append(" path(s) changed on disk: ");
    push_dec(&mut t, written as u64);
    t.append(" rewritten, ");
    push_dec(&mut t, removed as u64);
    t.append(" deleted. Anything you wrote after turn #");
    push_dec(&mut t, seq);
    t.append(
        " is no longer on disk — re-read any file before you edit it, and do not re-apply the reverted changes unless you are asked to.",
    );
    let tail: String = match checkpoint {
        Some(cp) => {
            let mut s: String = owned(" The state from just before the rewind was kept as turn #");
            push_dec(&mut s, cp);
            s.append("; `sheep restore #");
            push_dec(&mut s, cp);
            s.append(" --yes` puts it back.");
            s
        },
        None => owned(""),
    };
    t.append(tail.as_str());
    t
}

// ------------------------------------------------------------------------ laws

/// A flattened plan shows every path of the plan, what is written before what
/// is removed, and counts them as they are.
pub proof fn law_the_plan_on_screen_is_the_whole_plan(
    seq: u64,
    commit: Seq<char>,
    plan: RestoreModel,
    i: int,
)
    requires
        plan.write.len() + plan.remove.len() <= usize::MAX,
    ensures
        flattened(seq, commit, plan).files.len() == plan.write.len() + plan.remove.len(),
        flattened(seq, commit, plan).written == plan.write.len(),
        flattened(seq, commit, plan).removed == plan.remove.len(),
        flattened(seq, commit, plan).seq == seq,
        flattened(seq, commit, plan).commit == commit,
        flattened(seq, commit, plan).target_tree == plan.target_tree,
        flattened(seq, commit, plan).current_tree == plan.current_tree,
        0 <= i < plan.write.len() ==> flattened(seq, commit, plan).files[i] == (
            Action::Write,
            plan.write[i],
        ),
        0 <= i < plan.remove.len() ==> flattened(seq, commit, plan).files[plan.write.len() + i] == (
            Action::Remove,
            plan.remove[i],
        ),
{
}

/// The preview never holds more lines than its limit and the two that say so.
pub proof fn law_the_preview_is_short(body: Seq<char>)
    ensures
        shown_lines(body).len() <= PATCH_LINE_LIMIT + 2,
{
}

} // verus!
