//! What the interface knows and what a keystroke does to it.
//!
//! Keys arrive as [`Key`], slow work leaves as [`Job`] and comes back as
//! [`Reply`]. The rule the state machine exists to enforce: **a restore is only
//! reachable from a plan that is on screen.** Confirming does nothing unless a
//! plan is ready, and if the working tree moved while it was being read, the
//! worker answers with the new plan instead of restoring.
use crate::store::{turns_view, Turn, TurnModel};
use crate::strings::{clone_opt, dec, lemma_texts_push, opt_text, owned, push_dec, same, texts};
use crate::tui::engine::{
    jobs_view, Job, JobModel, Notice, NoticeModel, Outcome, OutcomeModel, PlanModel, PlanView,
    Reply, ReplyModel,
};
use vstd::prelude::*;
use vstd::string::*;

verus! {

/// Keys, named by what the interface does with them.
#[derive(Debug, Clone, Copy, PartialEq, Eq, Structural)]
pub enum Key {
    Up,
    Down,
    Left,
    Right,
    PageUp,
    PageDown,
    Home,
    End,
    Enter,
    Esc,
    Char(char),
}

#[derive(Debug, Clone, Copy, PartialEq, Eq, Structural)]
pub enum Mode {
    /// The timeline, docked beside the agent.
    Dock,
    /// The plan for one turn, and the one key that applies it.
    Rewind,
    Help,
}

#[derive(Debug)]
pub enum PlanState {
    Idle,
    Loading(u64),
    Ready(PlanView),
    Failed { seq: u64, message: String },
}

pub enum PlanStateModel {
    Idle,
    Loading(u64),
    Ready(PlanModel),
    Failed { seq: u64, message: Seq<char> },
}

impl View for PlanState {
    type V = PlanStateModel;

    open spec fn view(&self) -> PlanStateModel {
        match *self {
            PlanState::Idle => PlanStateModel::Idle,
            PlanState::Loading(seq) => PlanStateModel::Loading(seq),
            PlanState::Ready(plan) => PlanStateModel::Ready(plan@),
            PlanState::Failed { seq, message } => PlanStateModel::Failed { seq, message: message@ },
        }
    }
}

#[derive(Debug)]
pub enum PatchState {
    Idle,
    Loading(String),
    Ready { path: String, body: String },
    Failed { path: String, message: String },
}

pub enum PatchStateModel {
    Idle,
    Loading(Seq<char>),
    Ready { path: Seq<char>, body: Seq<char> },
    Failed { path: Seq<char>, message: Seq<char> },
}

impl View for PatchState {
    type V = PatchStateModel;

    open spec fn view(&self) -> PatchStateModel {
        match *self {
            PatchState::Idle => PatchStateModel::Idle,
            PatchState::Loading(path) => PatchStateModel::Loading(path@),
            PatchState::Ready { path, body } => PatchStateModel::Ready { path: path@, body: body@ },
            PatchState::Failed { path, message } => PatchStateModel::Failed {
                path: path@,
                message: message@,
            },
        }
    }
}

#[derive(Debug, Clone, Copy, PartialEq, Eq, Structural)]
pub enum Level {
    Info,
    Good,
    Bad,
}

#[derive(Debug)]
pub struct Status {
    pub level: Level,
    pub lines: Vec<String>,
}

#[verifier::ext_equal]
pub struct StatusModel {
    pub level: Level,
    pub lines: Seq<Seq<char>>,
}

impl View for Status {
    type V = StatusModel;

    open spec fn view(&self) -> StatusModel {
        StatusModel { level: self.level, lines: texts(self.lines@) }
    }
}

pub open spec fn one_line(level: Level, line: Seq<char>) -> StatusModel {
    StatusModel { level, lines: seq![line] }
}

impl Status {
    pub fn new(level: Level, lines: Vec<String>) -> (r: Self)
        ensures
            r@ == (StatusModel { level, lines: texts(lines@) }),
    {
        Status { level, lines }
    }

    fn one(level: Level, line: &str) -> (r: Self)
        ensures
            r@ == one_line(level, line@),
    {
        let mut lines: Vec<String> = Vec::new();
        lines.push(owned(line));
        proof {
            assert(texts(lines@) =~= seq![line@]);
        }
        Status { level, lines }
    }

    fn two(level: Level, first: &str, second: &str) -> (r: Self)
        ensures
            r@ == (StatusModel { level, lines: seq![first@, second@] }),
    {
        let mut lines: Vec<String> = Vec::new();
        lines.push(owned(first));
        lines.push(owned(second));
        proof {
            assert(texts(lines@) =~= seq![first@, second@]);
        }
        Status { level, lines }
    }

    fn info(line: &str) -> (r: Self)
        ensures
            r@ == one_line(Level::Info, line@),
    {
        Status::one(Level::Info, line)
    }

    fn bad(line: &str) -> (r: Self)
        ensures
            r@ == one_line(Level::Bad, line@),
    {
        Status::one(Level::Bad, line)
    }
}

/// A reason the interface cannot do its job at all. Shown instead of an empty
/// box.
#[derive(Debug)]
pub struct Fatal {
    pub headline: String,
    pub detail: String,
    pub remedy: Vec<String>,
}

#[verifier::ext_equal]
pub struct FatalModel {
    pub headline: Seq<char>,
    pub detail: Seq<char>,
    pub remedy: Seq<Seq<char>>,
}

impl View for Fatal {
    type V = FatalModel;

    open spec fn view(&self) -> FatalModel {
        FatalModel {
            headline: self.headline@,
            detail: self.detail@,
            remedy: texts(self.remedy@),
        }
    }
}

pub struct App {
    pub line: String,
    pub repo: String,
    pub root: String,
    pub turns: Vec<Turn>,
    pub sel: usize,
    pub sel_seq: Option<u64>,
    pub mode: Mode,
    pub return_to: Mode,
    pub plan: PlanState,
    pub plan_sel: usize,
    pub patch: PatchState,
    pub show_patch: bool,
    /// First visible line of the patch preview.
    pub patch_scroll: u16,
    /// Patches already read for the plan on screen, by path.
    pub patch_cache: Vec<(String, String)>,
    pub blockers: Vec<String>,
    pub warnings: Vec<String>,
    /// The other timelines recorded for this worktree.
    pub others: Vec<String>,
    pub fatal: Option<Fatal>,
    pub status: Option<Status>,
    /// Set while the working tree may be between two states, with the reason.
    pub uncertain: Option<String>,
    pub restoring: bool,
    pub loading: bool,
    /// Tell the agent what was taken back.
    pub notify: bool,
    pub inside_herdr: bool,
    /// Wall clock in Unix seconds.
    pub now: u64,
    pub spinner: usize,
    pub quit: bool,
    pub req: u64,
    pub plan_req: u64,
    pub patch_req: u64,
    pub restore_req: u64,
    pub outbox: Vec<Job>,
}

#[verifier::ext_equal]
pub struct AppModel {
    pub line: Seq<char>,
    pub repo: Seq<char>,
    pub root: Seq<char>,
    pub turns: Seq<TurnModel>,
    pub sel: usize,
    pub sel_seq: Option<u64>,
    pub mode: Mode,
    pub return_to: Mode,
    pub plan: PlanStateModel,
    pub plan_sel: usize,
    pub patch: PatchStateModel,
    pub show_patch: bool,
    pub patch_scroll: u16,
    pub cache: Map<Seq<char>, Seq<char>>,
    pub blockers: Seq<Seq<char>>,
    pub warnings: Seq<Seq<char>>,
    pub others: Seq<Seq<char>>,
    pub fatal: Option<FatalModel>,
    pub status: Option<StatusModel>,
    pub uncertain: Option<Seq<char>>,
    pub restoring: bool,
    pub loading: bool,
    pub notify: bool,
    pub inside_herdr: bool,
    pub now: u64,
    pub spinner: usize,
    pub quit: bool,
    pub req: u64,
    pub plan_req: u64,
    pub patch_req: u64,
    pub restore_req: u64,
    pub outbox: Seq<JobModel>,
}

/// What a list of remembered patches says of each path: the latest entry.
pub open spec fn cache_view(v: Seq<(String, String)>) -> Map<Seq<char>, Seq<char>>
    decreases v.len(),
{
    if v.len() == 0 {
        Map::empty()
    } else {
        cache_view(v.drop_last()).insert(v.last().0@, v.last().1@)
    }
}

pub open spec fn opt_fatal(f: Option<Fatal>) -> Option<FatalModel> {
    match f {
        Some(f) => Some(f@),
        None => None,
    }
}

pub open spec fn opt_status(s: Option<Status>) -> Option<StatusModel> {
    match s {
        Some(s) => Some(s@),
        None => None,
    }
}

impl View for App {
    type V = AppModel;

    open spec fn view(&self) -> AppModel {
        AppModel {
            line: self.line@,
            repo: self.repo@,
            root: self.root@,
            turns: turns_view(self.turns@),
            sel: self.sel,
            sel_seq: self.sel_seq,
            mode: self.mode,
            return_to: self.return_to,
            plan: self.plan@,
            plan_sel: self.plan_sel,
            patch: self.patch@,
            show_patch: self.show_patch,
            patch_scroll: self.patch_scroll,
            cache: cache_view(self.patch_cache@),
            blockers: texts(self.blockers@),
            warnings: texts(self.warnings@),
            others: texts(self.others@),
            fatal: opt_fatal(self.fatal),
            status: opt_status(self.status),
            uncertain: opt_text(self.uncertain),
            restoring: self.restoring,
            loading: self.loading,
            notify: self.notify,
            inside_herdr: self.inside_herdr,
            now: self.now,
            spinner: self.spinner,
            quit: self.quit,
            req: self.req,
            plan_req: self.plan_req,
            patch_req: self.patch_req,
            restore_req: self.restore_req,
            outbox: jobs_view(self.outbox@),
        }
    }
}

// ------------------------------------------------------------------- moving

/// `at` moved by `delta`, kept between zero and `last`.
pub open spec fn stepped(at: int, delta: int, last: int) -> int {
    if at + delta < 0 {
        0
    } else if at + delta > last {
        last
    } else {
        at + delta
    }
}

fn step(at: usize, delta: i32, last: usize) -> (r: usize)
    ensures
        r == stepped(at as int, delta as int, last as int),
{
    if delta >= 0 {
        let d: usize = delta as usize;
        if at >= last || last - at <= d {
            last
        } else {
            at + d
        }
    } else {
        let d: usize = (-(delta as i64)) as usize;
        if at < d {
            0
        } else if at - d > last {
            last
        } else {
            at - d
        }
    }
}

/// The pane of the first turn that has one.
pub open spec fn first_pane(turns: Seq<TurnModel>) -> Option<Seq<char>>
    decreases turns.len(),
{
    if turns.len() == 0 {
        None
    } else if turns[0].pane_id is Some {
        turns[0].pane_id
    } else {
        first_pane(turns.drop_first())
    }
}

/// Where the first turn with this number stands, or the number of turns.
pub open spec fn position(turns: Seq<TurnModel>, seq: u64) -> int
    decreases turns.len(),
{
    if turns.len() == 0 || turns[0].seq == seq {
        0
    } else {
        1 + position(turns.drop_first(), seq)
    }
}

/// The row of the turn with this number, or the top when it is gone.
pub open spec fn row_of(turns: Seq<TurnModel>, seq: u64) -> int {
    if position(turns, seq) < turns.len() {
        position(turns, seq)
    } else {
        0
    }
}

/// `position` finds the first turn with the number.
pub proof fn lemma_position(turns: Seq<TurnModel>, seq: u64)
    ensures
        0 <= position(turns, seq) <= turns.len(),
        position(turns, seq) < turns.len() ==> turns[position(turns, seq)].seq == seq,
        forall|i: int| 0 <= i < position(turns, seq) ==> (#[trigger] turns[i]).seq != seq,
    decreases turns.len(),
{
    if turns.len() > 0 && turns[0].seq != seq {
        let rest = turns.drop_first();
        lemma_position(rest, seq);
        assert forall|i: int| 0 <= i < position(turns, seq) implies (#[trigger] turns[i]).seq
            != seq by {
            if i > 0 {
                assert(turns[i] == rest[i - 1]);
            }
        }
        if position(turns, seq) < turns.len() {
            assert(turns[position(turns, seq)] == rest[position(rest, seq)]);
        }
    }
}

impl AppModel {
    pub open spec fn selected(self) -> Option<TurnModel> {
        if self.sel < self.turns.len() {
            Some(self.turns[self.sel as int])
        } else {
            None
        }
    }

    /// The pane whose agent is told: the selected turn's, or that of the newest
    /// turn that recorded one.
    pub open spec fn agent_pane(self) -> Option<Seq<char>> {
        match self.selected() {
            Some(t) if t.pane_id is Some => t.pane_id,
            _ => first_pane(self.turns),
        }
    }

    pub open spec fn said(self, status: StatusModel) -> AppModel {
        AppModel { status: Some(status), ..self }
    }

    pub open spec fn told(self, line: Seq<char>) -> AppModel {
        self.said(one_line(Level::Info, line))
    }

    pub open spec fn reload(self) -> AppModel {
        AppModel { loading: true, outbox: self.outbox.push(JobModel::Reload), ..self }
    }

    pub open spec fn move_to(self, index: int) -> AppModel {
        if self.turns.len() == 0 {
            self
        } else {
            let at = if index < self.turns.len() {
                index
            } else {
                self.turns.len() - 1
            };
            AppModel { sel: at as usize, sel_seq: Some(self.turns[at].seq), ..self }
        }
    }

    pub open spec fn move_by(self, delta: int) -> AppModel {
        if self.turns.len() == 0 {
            self
        } else {
            self.move_to(stepped(self.sel as int, delta, self.turns.len() - 1))
        }
    }

    /// Ask for the patch of the selected path, or take it from what was read
    /// already.
    pub open spec fn request_patch(self) -> AppModel {
        match self.plan {
            PlanStateModel::Ready(plan) if self.show_patch && self.plan_sel < plan.files.len() => {
                let path = plan.files[self.plan_sel as int].1;
                if self.cache.contains_key(path) {
                    AppModel {
                        patch: PatchStateModel::Ready { path, body: self.cache[path] },
                        ..self
                    }
                } else {
                    let req = self.req.wrapping_add(1);
                    AppModel {
                        req,
                        patch_req: req,
                        patch: PatchStateModel::Loading(path),
                        outbox: self.outbox.push(
                            JobModel::Patch {
                                req,
                                path,
                                current_tree: plan.current_tree,
                                target_tree: plan.target_tree,
                            },
                        ),
                        ..self
                    }
                }
            },
            _ => self,
        }
    }

    pub open spec fn plan_to(self, index: int) -> AppModel {
        match self.plan {
            PlanStateModel::Ready(plan) if plan.files.len() > 0 => AppModel {
                plan_sel: (if index < plan.files.len() {
                    index
                } else {
                    plan.files.len() - 1
                }) as usize,
                patch_scroll: 0,
                ..self
            }.request_patch(),
            _ => self,
        }
    }

    pub open spec fn move_plan(self, delta: int) -> AppModel {
        match self.plan {
            PlanStateModel::Ready(plan) if plan.files.len() > 0 => self.plan_to(
                stepped(self.plan_sel as int, delta, plan.files.len() - 1),
            ),
            _ => self,
        }
    }

    pub open spec fn toggle_patch(self) -> AppModel {
        let next = AppModel { show_patch: !self.show_patch, patch_scroll: 0, ..self };
        if next.show_patch {
            next.request_patch()
        } else {
            next
        }
    }

    pub open spec fn scroll_patch(self, delta: int) -> AppModel {
        if self.show_patch {
            AppModel {
                patch_scroll: (if self.patch_scroll + delta < 0 {
                    0
                } else {
                    (self.patch_scroll + delta) % 0x1_0000
                }) as u16,
                ..self
            }
        } else {
            self
        }
    }

    pub open spec fn open_help(self) -> AppModel {
        if self.mode != Mode::Help {
            AppModel { return_to: self.mode, mode: Mode::Help, ..self }
        } else {
            self
        }
    }

    pub open spec fn toggle_notify(self) -> AppModel {
        AppModel { notify: !self.notify, ..self }.told(
            if self.notify {
                "the agent will not be told about a rewind"@
            } else {
                "the agent will be told what a rewind took back"@
            },
        )
    }

    pub open spec fn request_plan(self, seq: u64) -> AppModel {
        let req = self.req.wrapping_add(1);
        AppModel {
            req,
            plan_req: req,
            plan: PlanStateModel::Loading(seq),
            plan_sel: 0,
            patch: PatchStateModel::Idle,
            patch_scroll: 0,
            cache: Map::empty(),
            outbox: self.outbox.push(JobModel::Plan { req, seq }),
            ..self
        }
    }

    pub open spec fn open_rewind(self) -> AppModel {
        if self.restoring {
            self
        } else if self.turns.len() == 0 {
            self.told("nothing recorded yet — there is no turn to go back to"@)
        } else if self.blockers.len() > 0 {
            self.said(
                StatusModel {
                    level: Level::Bad,
                    lines: seq![
                        "this worktree is not in a state Sheep will restore"@,
                        self.blockers[0],
                    ],
                },
            )
        } else {
            match self.selected() {
                Some(t) => AppModel { mode: Mode::Rewind, ..self }.request_plan(t.seq),
                None => self,
            }
        }
    }

    pub open spec fn close_rewind(self) -> AppModel {
        AppModel {
            mode: Mode::Dock,
            plan: PlanStateModel::Idle,
            patch: PatchStateModel::Idle,
            cache: Map::empty(),
            ..self
        }
    }

    /// The only way to a write: a plan is ready, it changes something, and
    /// nothing is being restored.
    pub open spec fn confirm(self) -> AppModel {
        if self.restoring {
            self
        } else {
            match self.plan {
                PlanStateModel::Ready(plan) => if plan.files.len() == 0 {
                    self.told("the working tree already matches this turn — nothing to do"@)
                } else {
                    let req = self.req.wrapping_add(1);
                    AppModel {
                        req,
                        restore_req: req,
                        restoring: true,
                        status: None,
                        outbox: self.outbox.push(
                            JobModel::Restore {
                                req,
                                seq: plan.seq,
                                expect_tree: plan.current_tree,
                                pane: self.agent_pane(),
                                notify: self.notify,
                            },
                        ),
                        ..self
                    }
                },
                _ => self.told("wait for the plan before restoring"@),
            }
        }
    }
}

// -------------------------------------------------------------- transitions

impl AppModel {
    pub open spec fn dock_key(self, key: Key) -> AppModel {
        match key {
            Key::Char('q') | Key::Char('Q') => AppModel { quit: true, ..self },
            Key::Char('?') => self.open_help(),
            Key::Char('n') => self.toggle_notify(),
            Key::Char('r') => self.reload(),
            Key::Down | Key::Char('j') => self.move_by(1),
            Key::Up | Key::Char('k') => self.move_by(-1),
            Key::PageDown => self.move_by(5),
            Key::PageUp => self.move_by(-5),
            Key::Home | Key::Char('g') => self.move_to(0),
            Key::End | Key::Char('G') => self.move_to(
                if self.turns.len() == 0 {
                    0
                } else {
                    self.turns.len() - 1
                },
            ),
            Key::Enter | Key::Right | Key::Char('l') => self.open_rewind(),
            _ => self,
        }
    }

    pub open spec fn rewind_key(self, key: Key) -> AppModel {
        match key {
            Key::Char('q') | Key::Char('Q') => AppModel { quit: true, ..self },
            Key::Char('?') => self.open_help(),
            Key::Char('n') => self.toggle_notify(),
            Key::Esc | Key::Left | Key::Char('h') => self.close_rewind(),
            Key::Down | Key::Char('j') => self.move_plan(1),
            Key::Up | Key::Char('k') => self.move_plan(-1),
            Key::PageDown => self.move_plan(10),
            Key::PageUp => self.move_plan(-10),
            Key::Home => self.plan_to(0),
            Key::End => self.plan_to(usize::MAX as int),
            Key::Char('d') | Key::Enter => self.toggle_patch(),
            Key::Char('J') => self.scroll_patch(4),
            Key::Char('K') => self.scroll_patch(-4),
            Key::Char('R') => self.confirm(),
            Key::Char('r') => self.told("press shift+R to restore — lower-case r is refresh"@),
            _ => self,
        }
    }

    /// What a key does. Without a worktree the interface can only be left; while
    /// a restore is running it can only be asked to leave.
    pub open spec fn on_key(self, key: Key) -> AppModel {
        if self.fatal is Some {
            if key == Key::Char('q') || key == Key::Char('Q') || key == Key::Esc {
                AppModel { quit: true, ..self }
            } else {
                self
            }
        } else if self.restoring {
            if key == Key::Char('q') || key == Key::Char('Q') {
                AppModel { quit: true, ..self }
            } else {
                self.told("keys are ignored until the restore finishes"@)
            }
        } else {
            match self.mode {
                Mode::Help => if key == Key::Char('q') {
                    AppModel { quit: true, ..self }
                } else {
                    AppModel { mode: self.return_to, ..self }
                },
                Mode::Dock => self.dock_key(key),
                Mode::Rewind => self.rewind_key(key),
            }
        }
    }

    /// The selection follows the turn, not the row.
    pub open spec fn set_turns(self, turns: Seq<TurnModel>) -> AppModel {
        let sel = match self.sel_seq {
            Some(seq) => row_of(turns, seq),
            None => 0,
        };
        AppModel {
            turns,
            sel: sel as usize,
            sel_seq: if sel < turns.len() {
                Some(turns[sel].seq)
            } else {
                None
            },
            ..self
        }
    }

    /// Put a new plan on screen and ask again for whatever is shown beside it.
    pub open spec fn show_plan(self, plan: PlanModel) -> AppModel {
        AppModel {
            plan_sel: 0,
            cache: Map::empty(),
            plan: PlanStateModel::Ready(plan),
            ..self
        }.request_patch()
    }

    /// The number of the turn the plan on screen is about.
    pub open spec fn plan_seq(self) -> u64 {
        match self.plan {
            PlanStateModel::Ready(plan) => plan.seq,
            PlanStateModel::Loading(seq) => seq,
            PlanStateModel::Failed { seq, .. } => seq,
            PlanStateModel::Idle => 0,
        }
    }

    pub open spec fn apply(self, reply: ReplyModel) -> AppModel {
        match reply {
            ReplyModel::Loaded { turns, blockers, warnings, others } => AppModel {
                loading: false,
                blockers,
                warnings,
                others,
                ..self
            }.set_turns(turns),
            ReplyModel::Turns(turns) => AppModel { loading: false, ..self }.set_turns(turns),
            ReplyModel::Broken(message) => AppModel { loading: false, ..self }.said(
                one_line(Level::Bad, message),
            ),
            ReplyModel::Planned { req, plan } => if req == self.plan_req {
                self.show_plan(plan)
            } else {
                self
            },
            ReplyModel::PlanFailed { req, seq, message } => if req == self.plan_req {
                AppModel { plan: PlanStateModel::Failed { seq, message }, ..self }
            } else {
                self
            },
            ReplyModel::Patched { req, path, body } => if req == self.patch_req {
                AppModel {
                    cache: self.cache.insert(path, body),
                    patch: PatchStateModel::Ready { path, body },
                    ..self
                }
            } else {
                self
            },
            ReplyModel::PatchFailed { req, path, message } => if req == self.patch_req {
                AppModel { patch: PatchStateModel::Failed { path, message }, ..self }
            } else {
                self
            },
            ReplyModel::Stale { req, plan } => if req == self.restore_req {
                AppModel { restoring: false, ..self }.show_plan(plan).said(
                    StatusModel {
                        level: Level::Bad,
                        lines: seq![
                            "the working tree changed while this plan was on screen"@,
                            "nothing was restored. this is the new plan — read it and press shift+R again."@,
                        ],
                    },
                )
            } else {
                self
            },
            ReplyModel::Restored { req, outcome } => if req == self.restore_req {
                AppModel { restoring: false, uncertain: None, ..self }.close_rewind().said(
                    StatusModel { level: Level::Good, lines: restored_text(outcome) },
                ).reload()
            } else {
                self
            },
            ReplyModel::RestoreFailed { req, message, tree_moved } => if req == self.restore_req {
                if tree_moved {
                    AppModel {
                        restoring: false,
                        uncertain: Some(message),
                        plan: PlanStateModel::Failed { seq: self.plan_seq(), message },
                        ..self
                    }.said(
                        StatusModel {
                            level: Level::Bad,
                            lines: seq![
                                "the restore stopped partway — your files are between two states"@,
                                message,
                            ],
                        },
                    ).reload()
                } else {
                    AppModel { restoring: false, ..self }.said(
                        StatusModel {
                            level: Level::Bad,
                            lines: seq![
                                "the restore did not happen — your files are as they were"@,
                                message,
                            ],
                        },
                    )
                }
            } else {
                self
            },
        }
    }

    /// What is said when the worker ended.
    pub open spec fn lost_text(self) -> Seq<char> {
        if self.restoring {
            "the worker stopped while a restore was running. Whether anything was written is not known: run `sheep log` and `sheep diff` before trusting this worktree."@
        } else {
            "the worker stopped, so nothing more can be planned or restored here."@
        }
    }

    /// The worker ended and nothing will be answered any more.
    pub open spec fn worker_lost(self) -> AppModel {
        AppModel {
            restoring: false,
            loading: false,
            uncertain: if self.restoring {
                Some(self.lost_text())
            } else {
                self.uncertain
            },
            plan: match self.plan {
                PlanStateModel::Idle => PlanStateModel::Idle,
                _ => PlanStateModel::Failed { seq: self.plan_seq(), message: self.lost_text() },
            },
            ..self
        }.said(one_line(Level::Bad, self.lost_text()))
    }

    pub open spec fn tick(self, now: u64) -> AppModel {
        AppModel { now, spinner: self.spinner.wrapping_add(1), ..self }
    }
}

/// The sentences shown after a restore.
pub open spec fn restored_text(o: OutcomeModel) -> Seq<Seq<char>> {
    seq![
        "restored to #"@ + dec(o.seq as nat) + " · "@ + dec(o.written as nat) + " files written, "@
            + dec(o.removed as nat) + " removed"@,
        match o.checkpoint {
            Some(cp) => "the tree you had is turn #"@ + dec(cp as nat)
                + " — press enter on it, or `sheep restore #"@ + dec(cp as nat) + " --yes`"@,
            None => "nothing needed checkpointing"@,
        },
        match o.notice {
            NoticeModel::Sent(pane) => "the agent in pane "@ + pane + " was told what was taken back"@,
            NoticeModel::Off => "the agent was not told (notify is off — press n)"@,
            NoticeModel::Skipped(why) => "the agent was not told: "@ + why,
            NoticeModel::Failed(err) => "could not tell the agent: "@ + err,
        },
    ]
}

/// The sentences shown after a restore.
pub fn restored_lines(outcome: &Outcome) -> (r: Vec<String>)
    ensures
        texts(r@) == restored_text(outcome@),
{
    broadcast use lemma_texts_push;

    let mut lines: Vec<String> = Vec::new();
    let mut first: String = owned("restored to #");
    push_dec(&mut first, outcome.seq);
    first.append(" · ");
    push_dec(&mut first, outcome.written as u64);
    first.append(" files written, ");
    push_dec(&mut first, outcome.removed as u64);
    first.append(" removed");
    lines.push(first);
    let second: String = match outcome.checkpoint {
        Some(cp) => {
            let mut s: String = owned("the tree you had is turn #");
            push_dec(&mut s, cp);
            s.append(" — press enter on it, or `sheep restore #");
            push_dec(&mut s, cp);
            s.append(" --yes`");
            s
        },
        None => owned("nothing needed checkpointing"),
    };
    lines.push(second);
    let third: String = match &outcome.notice {
        Notice::Sent(pane) => {
            let mut s: String = owned("the agent in pane ");
            s.append(pane.as_str());
            s.append(" was told what was taken back");
            s
        },
        Notice::Off => owned("the agent was not told (notify is off — press n)"),
        Notice::Skipped(why) => {
            let mut s: String = owned("the agent was not told: ");
            s.append(why.as_str());
            s
        },
        Notice::Failed(err) => {
            let mut s: String = owned("could not tell the agent: ");
            s.append(err.as_str());
            s
        },
    };
    lines.push(third);
    proof {
        assert(texts(lines@) =~= restored_text(outcome@));
    }
    lines
}

// ---------------------------------------------------------------- execution

broadcast proof fn lemma_jobs_push(v: Seq<Job>, j: Job)
    ensures
        #[trigger] jobs_view(v.push(j)) == jobs_view(v).push(j@),
{
    assert(jobs_view(v.push(j)) =~= jobs_view(v).push(j@));
}

impl App {
    /// An interface that knows nothing yet, at `now` in Unix seconds.
    pub fn new(repo: &str, root: &str, line: &str, now: u64) -> (r: Self)
        ensures
            r@ == (AppModel {
                line: line@,
                repo: repo@,
                root: root@,
                turns: Seq::empty(),
                sel: 0,
                sel_seq: None,
                mode: Mode::Dock,
                return_to: Mode::Dock,
                plan: PlanStateModel::Idle,
                plan_sel: 0,
                patch: PatchStateModel::Idle,
                show_patch: false,
                patch_scroll: 0,
                cache: Map::empty(),
                blockers: Seq::empty(),
                warnings: Seq::empty(),
                others: Seq::empty(),
                fatal: None,
                status: None,
                uncertain: None,
                restoring: false,
                loading: true,
                notify: true,
                inside_herdr: false,
                now,
                spinner: 0,
                quit: false,
                req: 0,
                plan_req: 0,
                patch_req: 0,
                restore_req: 0,
                outbox: Seq::empty(),
            }),
    {
        let r = App {
            line: owned(line),
            repo: owned(repo),
            root: owned(root),
            turns: Vec::new(),
            sel: 0,
            sel_seq: None,
            mode: Mode::Dock,
            return_to: Mode::Dock,
            plan: PlanState::Idle,
            plan_sel: 0,
            patch: PatchState::Idle,
            show_patch: false,
            patch_scroll: 0,
            patch_cache: Vec::new(),
            blockers: Vec::new(),
            warnings: Vec::new(),
            others: Vec::new(),
            fatal: None,
            status: None,
            uncertain: None,
            restoring: false,
            loading: true,
            notify: true,
            inside_herdr: false,
            now,
            spinner: 0,
            quit: false,
            req: 0,
            plan_req: 0,
            patch_req: 0,
            restore_req: 0,
            outbox: Vec::new(),
        };
        proof {
            assert(r@.turns =~= Seq::<TurnModel>::empty());
            assert(r@.blockers =~= Seq::<Seq<char>>::empty());
            assert(r@.outbox =~= Seq::<JobModel>::empty());
        }
        r
    }

    /// The interface could not start. Everything else is skipped and the
    /// message is what the user sees.
    pub fn dead(self, fatal: Fatal) -> (r: Self)
        ensures
            r@ == (AppModel { loading: false, fatal: Some(fatal@), ..self@ }),
    {
        let mut app: App = self;
        app.loading = false;
        app.fatal = Some(fatal);
        app
    }

    pub fn selected(&self) -> (r: Option<&Turn>)
        ensures
            match r {
                Some(t) => self@.selected() == Some(t@),
                None => self@.selected() is None,
            },
    {
        if self.sel < self.turns.len() {
            Some(&self.turns[self.sel])
        } else {
            None
        }
    }

    /// The pane whose agent gets told what was taken back: the selected turn's,
    /// falling back to the newest turn on the timeline that recorded one.
    pub fn agent_pane(&self) -> (r: Option<String>)
        ensures
            opt_text(r) == self@.agent_pane(),
    {
        if let Some(t) = self.selected() {
            if t.pane_id.is_some() {
                return clone_opt(&t.pane_id);
            }
        }
        let mut i: usize = 0;
        proof {
            assert(self@.turns.skip(0) =~= self@.turns);
        }
        while i < self.turns.len()
            invariant
                i <= self.turns@.len(),
                self@.selected() matches Some(t) ==> t.pane_id is None,
                first_pane(self@.turns) == first_pane(self@.turns.skip(i as int)),
            decreases self.turns@.len() - i,
        {
            proof {
                let rest = self@.turns.skip(i as int);
                assert(rest[0] == self.turns@[i as int]@);
                assert(rest.drop_first() =~= self@.turns.skip(i + 1));
            }
            if self.turns[i].pane_id.is_some() {
                return clone_opt(&self.turns[i].pane_id);
            }
            i += 1;
        }
        None
    }

    /// Hand out the work that is waiting.
    pub fn take_jobs(&mut self) -> (r: Vec<Job>)
        ensures
            jobs_view(r@) == old(self)@.outbox,
            final(self)@ == (AppModel { outbox: Seq::empty(), ..old(self)@ }),
    {
        let mut out: Vec<Job> = Vec::new();
        std::mem::swap(&mut out, &mut self.outbox);
        proof {
            assert(self@.outbox =~= Seq::<JobModel>::empty());
        }
        out
    }

    pub fn reload(&mut self)
        ensures
            final(self)@ == old(self)@.reload(),
    {
        broadcast use lemma_jobs_push;

        self.loading = true;
        self.outbox.push(Job::Reload);
    }

    pub fn tick(&mut self, now: u64)
        ensures
            final(self)@ == old(self)@.tick(now),
    {
        self.now = now;
        self.spinner = self.spinner.wrapping_add(1);
    }

    // ---------------------------------------------------------------- keys

    pub fn on_key(&mut self, key: Key)
        ensures
            final(self)@ == old(self)@.on_key(key),
    {
        if self.fatal.is_some() {
            if key == Key::Char('q') || key == Key::Char('Q') || key == Key::Esc {
                self.quit = true;
            }
            return;
        }
        if self.restoring {
            if key == Key::Char('q') || key == Key::Char('Q') {
                self.quit = true;
            } else {
                self.status = Some(Status::info("keys are ignored until the restore finishes"));
            }
            return;
        }
        match self.mode {
            Mode::Help => {
                if key == Key::Char('q') {
                    self.quit = true;
                } else {
                    self.mode = self.return_to;
                }
            },
            Mode::Dock => {
                self.dock_key(key);
            },
            Mode::Rewind => {
                self.rewind_key(key);
            },
        }
    }

    fn dock_key(&mut self, key: Key)
        ensures
            final(self)@ == old(self)@.dock_key(key),
    {
        match key {
            Key::Char('q') | Key::Char('Q') => {
                self.quit = true;
            },
            Key::Char('?') => self.open_help(),
            Key::Char('n') => self.toggle_notify(),
            Key::Char('r') => self.reload(),
            Key::Down | Key::Char('j') => self.move_by(1),
            Key::Up | Key::Char('k') => self.move_by(-1),
            Key::PageDown => self.move_by(5),
            Key::PageUp => self.move_by(-5),
            Key::Home | Key::Char('g') => self.move_to(0),
            Key::End | Key::Char('G') => {
                let last: usize = self.turns.len().saturating_sub(1);
                self.move_to(last)
            },
            Key::Enter | Key::Right | Key::Char('l') => self.open_rewind(),
            _ => {},
        }
    }

    fn rewind_key(&mut self, key: Key)
        ensures
            final(self)@ == old(self)@.rewind_key(key),
    {
        match key {
            Key::Char('q') | Key::Char('Q') => {
                self.quit = true;
            },
            Key::Char('?') => self.open_help(),
            Key::Char('n') => self.toggle_notify(),
            Key::Esc | Key::Left | Key::Char('h') => self.close_rewind(),
            Key::Down | Key::Char('j') => self.move_plan(1),
            Key::Up | Key::Char('k') => self.move_plan(-1),
            Key::PageDown => self.move_plan(10),
            Key::PageUp => self.move_plan(-10),
            Key::Home => self.plan_to(0),
            Key::End => self.plan_to(usize::MAX),
            Key::Char('d') | Key::Enter => self.toggle_patch(),
            Key::Char('J') => self.scroll_patch(4),
            Key::Char('K') => self.scroll_patch(-4),
            // Restore is deliberately a shift key. `enter` opens a diff, `y`
            // does nothing, and nothing on the way here can trigger a write.
            Key::Char('R') => self.confirm(),
            Key::Char('r') => {
                self.status =
                Some(Status::info("press shift+R to restore — lower-case r is refresh"));
            },
            _ => {},
        }
    }

    fn open_help(&mut self)
        ensures
            final(self)@ == old(self)@.open_help(),
    {
        if self.mode != Mode::Help {
            self.return_to = self.mode;
            self.mode = Mode::Help;
        }
    }

    fn toggle_notify(&mut self)
        ensures
            final(self)@ == old(self)@.toggle_notify(),
    {
        self.notify = !self.notify;
        self.status =
        Some(
            Status::info(
                if self.notify {
                    "the agent will be told what a rewind took back"
                } else {
                    "the agent will not be told about a rewind"
                },
            ),
        );
    }

    fn move_by(&mut self, delta: i32)
        ensures
            final(self)@ == old(self)@.move_by(delta as int),
    {
        if self.turns.is_empty() {
            return;
        }
        let next: usize = step(self.sel, delta, self.turns.len() - 1);
        self.move_to(next);
    }

    fn move_to(&mut self, index: usize)
        ensures
            final(self)@ == old(self)@.move_to(index as int),
    {
        if self.turns.is_empty() {
            return;
        }
        self.sel = if index < self.turns.len() {
            index
        } else {
            self.turns.len() - 1
        };
        self.sel_seq = Some(self.turns[self.sel].seq);
    }

    fn move_plan(&mut self, delta: i32)
        ensures
            final(self)@ == old(self)@.move_plan(delta as int),
    {
        let count: usize = match &self.plan {
            PlanState::Ready(plan) => plan.files.len(),
            _ => 0,
        };
        if count == 0 {
            return;
        }
        let next: usize = step(self.plan_sel, delta, count - 1);
        self.plan_to(next);
    }

    fn plan_to(&mut self, index: usize)
        ensures
            final(self)@ == old(self)@.plan_to(index as int),
    {
        let count: usize = match &self.plan {
            PlanState::Ready(plan) => plan.files.len(),
            _ => 0,
        };
        if count == 0 {
            return;
        }
        self.plan_sel = if index < count {
            index
        } else {
            count - 1
        };
        self.patch_scroll = 0;
        self.request_patch();
    }

    fn toggle_patch(&mut self)
        ensures
            final(self)@ == old(self)@.toggle_patch(),
    {
        self.show_patch = !self.show_patch;
        self.patch_scroll = 0;
        if self.show_patch {
            self.request_patch();
        }
    }

    fn scroll_patch(&mut self, delta: i32)
        requires
            -0x1_0000 < delta < 0x1_0000,
        ensures
            final(self)@ == old(self)@.scroll_patch(delta as int),
    {
        if !self.show_patch {
            return;
        }
        let next: i32 = self.patch_scroll as i32 + delta;
        self.patch_scroll = if next < 0 {
            0
        } else {
            (next % 0x1_0000) as u16
        };
    }

    // -------------------------------------------------------------- rewind

    pub fn open_rewind(&mut self)
        ensures
            final(self)@ == old(self)@.open_rewind(),
    {
        if self.restoring {
            return;
        }
        if self.turns.is_empty() {
            self.status =
            Some(Status::info("nothing recorded yet — there is no turn to go back to"));
            return;
        }
        if !self.blockers.is_empty() {
            self.status =
            Some(
                Status::two(
                    Level::Bad,
                    "this worktree is not in a state Sheep will restore",
                    self.blockers[0].as_str(),
                ),
            );
            return;
        }
        if self.sel < self.turns.len() {
            let seq: u64 = self.turns[self.sel].seq;
            self.mode = Mode::Rewind;
            self.request_plan(seq);
        }
    }

    fn close_rewind(&mut self)
        ensures
            final(self)@ == old(self)@.close_rewind(),
    {
        self.mode = Mode::Dock;
        self.plan = PlanState::Idle;
        self.patch = PatchState::Idle;
        self.patch_cache = Vec::new();
    }

    fn request_plan(&mut self, seq: u64)
        ensures
            final(self)@ == old(self)@.request_plan(seq),
    {
        broadcast use lemma_jobs_push;

        self.req = self.req.wrapping_add(1);
        self.plan_req = self.req;
        self.plan = PlanState::Loading(seq);
        self.plan_sel = 0;
        self.patch = PatchState::Idle;
        self.patch_scroll = 0;
        self.patch_cache = Vec::new();
        let req: u64 = self.plan_req;
        self.outbox.push(Job::Plan { req, seq });
    }

    /// The patch already read for a path.
    fn cached(&self, path: &str) -> (r: Option<String>)
        ensures
            opt_text(r) == if self@.cache.contains_key(path@) {
                Some(self@.cache[path@])
            } else {
                None
            },
    {
        let mut i: usize = self.patch_cache.len();
        proof {
            assert(self.patch_cache@.take(i as int) =~= self.patch_cache@);
        }
        while i > 0
            invariant
                i <= self.patch_cache@.len(),
                self@.cache.contains_key(path@) == cache_view(
                    self.patch_cache@.take(i as int),
                ).contains_key(path@),
                self@.cache.contains_key(path@) ==> self@.cache[path@] == cache_view(
                    self.patch_cache@.take(i as int),
                )[path@],
            decreases i,
        {
            proof {
                let now = self.patch_cache@.take(i as int);
                assert(now.drop_last() =~= self.patch_cache@.take(i - 1));
                assert(now.last() == self.patch_cache@[i - 1]);
            }
            i -= 1;
            if same(self.patch_cache[i].0.as_str(), path) {
                return Some(self.patch_cache[i].1.clone());
            }
        }
        None
    }

    fn request_patch(&mut self)
        ensures
            final(self)@ == old(self)@.request_patch(),
    {
        broadcast use lemma_jobs_push;

        if !self.show_patch {
            return;
        }
        let (path, current_tree, target_tree): (String, String, String) = match &self.plan {
            PlanState::Ready(plan) => {
                if self.plan_sel < plan.files.len() {
                    (
                        plan.files[self.plan_sel].1.clone(),
                        plan.current_tree.clone(),
                        plan.target_tree.clone(),
                    )
                } else {
                    return;
                }
            },
            _ => {
                return;
            },
        };
        match self.cached(path.as_str()) {
            Some(body) => {
                self.patch = PatchState::Ready { path, body };
            },
            None => {
                self.req = self.req.wrapping_add(1);
                self.patch_req = self.req;
                self.patch = PatchState::Loading(path.clone());
                let req: u64 = self.patch_req;
                self.outbox.push(Job::Patch { req, path, current_tree, target_tree });
            },
        }
    }

    /// The only path to a write. Everything it needs is already on screen.
    fn confirm(&mut self)
        ensures
            final(self)@ == old(self)@.confirm(),
    {
        broadcast use lemma_jobs_push;

        if self.restoring {
            return;
        }
        let (seq, expect_tree): (u64, String) = match &self.plan {
            PlanState::Ready(plan) => {
                if plan.is_noop() {
                    self.status =
                    Some(
                        Status::info(
                            "the working tree already matches this turn — nothing to do",
                        ),
                    );
                    return;
                }
                (plan.seq, plan.current_tree.clone())
            },
            _ => {
                self.status = Some(Status::info("wait for the plan before restoring"));
                return;
            },
        };
        let pane: Option<String> = self.agent_pane();
        self.req = self.req.wrapping_add(1);
        self.restore_req = self.req;
        self.restoring = true;
        self.status = None;
        let req: u64 = self.restore_req;
        let notify: bool = self.notify;
        self.outbox.push(Job::Restore { req, seq, expect_tree, pane, notify });
    }

    // --------------------------------------------------------------- replies

    pub fn apply(&mut self, reply: Reply)
        ensures
            final(self)@ == old(self)@.apply(reply@),
    {
        match reply {
            Reply::Loaded { turns, blockers, warnings, others } => {
                self.loading = false;
                self.blockers = blockers;
                self.warnings = warnings;
                self.others = others;
                self.set_turns(turns);
            },
            Reply::Turns(turns) => {
                self.loading = false;
                self.set_turns(turns);
            },
            Reply::Broken(message) => {
                self.loading = false;
                self.status = Some(Status::bad(message.as_str()));
            },
            Reply::Planned { req, plan } => {
                if req == self.plan_req {
                    self.show_plan(plan);
                }
            },
            Reply::PlanFailed { req, seq, message } => {
                if req == self.plan_req {
                    self.plan = PlanState::Failed { seq, message };
                }
            },
            Reply::Patched { req, path, body } => {
                if req == self.patch_req {
                    self.patched(path, body);
                }
            },
            Reply::PatchFailed { req, path, message } => {
                if req == self.patch_req {
                    self.patch = PatchState::Failed { path, message };
                }
            },
            Reply::Stale { req, plan } => {
                if req == self.restore_req {
                    self.refused(plan);
                }
            },
            Reply::Restored { req, outcome } => {
                if req == self.restore_req {
                    self.restored(&outcome);
                }
            },
            Reply::RestoreFailed { req, message, tree_moved } => {
                if req == self.restore_req {
                    self.restore_failed(message, tree_moved);
                }
            },
        }
    }

    fn patched(&mut self, path: String, body: String)
        ensures
            final(self)@ == old(self)@.apply(
                ReplyModel::Patched { req: old(self)@.patch_req, path: path@, body: body@ },
            ),
    {
        let ghost was = self.patch_cache@;
        self.patch_cache.push((path.clone(), body.clone()));
        proof {
            assert(self.patch_cache@.drop_last() =~= was);
        }
        self.patch = PatchState::Ready { path, body };
    }

    fn refused(&mut self, plan: PlanView)
        ensures
            final(self)@ == old(self)@.apply(
                ReplyModel::Stale { req: old(self)@.restore_req, plan: plan@ },
            ),
    {
        self.restoring = false;
        self.show_plan(plan);
        self.status =
        Some(
            Status::two(
                Level::Bad,
                "the working tree changed while this plan was on screen",
                "nothing was restored. this is the new plan — read it and press shift+R again.",
            ),
        );
    }

    fn restored(&mut self, outcome: &Outcome)
        ensures
            final(self)@ == old(self)@.apply(
                ReplyModel::Restored { req: old(self)@.restore_req, outcome: outcome@ },
            ),
    {
        self.restoring = false;
        self.uncertain = None;
        self.close_rewind();
        self.status = Some(Status::new(Level::Good, restored_lines(outcome)));
        self.reload();
    }

    fn restore_failed(&mut self, message: String, tree_moved: bool)
        ensures
            final(self)@ == old(self)@.apply(
                ReplyModel::RestoreFailed {
                    req: old(self)@.restore_req,
                    message: message@,
                    tree_moved,
                },
            ),
    {
        self.restoring = false;
        if tree_moved {
            self.status =
            Some(
                Status::two(
                    Level::Bad,
                    "the restore stopped partway — your files are between two states",
                    message.as_str(),
                ),
            );
            let seq: u64 = self.plan_seq();
            self.plan = PlanState::Failed { seq, message: message.clone() };
            self.uncertain = Some(message);
            self.reload();
        } else {
            self.status =
            Some(
                Status::two(
                    Level::Bad,
                    "the restore did not happen — your files are as they were",
                    message.as_str(),
                ),
            );
        }
    }

    fn plan_seq(&self) -> (r: u64)
        ensures
            r == self@.plan_seq(),
    {
        match &self.plan {
            PlanState::Ready(plan) => plan.seq,
            PlanState::Loading(seq) => *seq,
            PlanState::Failed { seq, .. } => *seq,
            PlanState::Idle => 0,
        }
    }

    fn show_plan(&mut self, plan: PlanView)
        ensures
            final(self)@ == old(self)@.show_plan(plan@),
    {
        self.plan_sel = 0;
        self.patch_cache = Vec::new();
        self.plan = PlanState::Ready(plan);
        self.request_patch();
    }

    /// The worker ended: nothing will ever answer. Says so, and returns what
    /// was said.
    pub fn worker_lost(&mut self) -> (r: String)
        ensures
            final(self)@ == old(self)@.worker_lost(),
            r@ == old(self)@.lost_text(),
    {
        let text: String = owned(
            if self.restoring {
                "the worker stopped while a restore was running. Whether anything was written is not known: run `sheep log` and `sheep diff` before trusting this worktree."
            } else {
                "the worker stopped, so nothing more can be planned or restored here."
            },
        );
        if self.restoring {
            self.uncertain = Some(text.clone());
        }
        self.restoring = false;
        self.loading = false;
        let seq: u64 = self.plan_seq();
        match &self.plan {
            PlanState::Idle => {},
            _ => {
                self.plan = PlanState::Failed { seq, message: text.clone() };
            },
        }
        self.status = Some(Status::bad(text.as_str()));
        text
    }

    fn set_turns(&mut self, turns: Vec<Turn>)
        ensures
            final(self)@ == old(self)@.set_turns(turns_view(turns@)),
    {
        self.turns = turns;
        let mut sel: usize = 0;
        if let Some(seq) = self.sel_seq {
            let mut i: usize = 0;
            proof {
                lemma_position(self@.turns, seq);
            }
            while i < self.turns.len() && self.turns[i].seq != seq
                invariant
                    i <= self.turns@.len(),
                    forall|j: int| 0 <= j < i ==> (#[trigger] self@.turns[j]).seq != seq,
                decreases self.turns@.len() - i,
            {
                i += 1;
            }
            proof {
                let p = position(self@.turns, seq);
                if p < i {
                    assert(self@.turns[p].seq == seq);
                }
                if i < p {
                    assert(self@.turns[i as int].seq == seq);
                }
            }
            if i < self.turns.len() {
                sel = i;
            }
        }
        self.sel = sel;
        self.sel_seq = if self.sel < self.turns.len() {
            Some(self.turns[self.sel].seq)
        } else {
            None
        };
    }
}

} // verus!
