//! Corroborating a boundary and, if it holds, recording the turn.
//!
//! Herdr is asked again rather than trusted; the kernel is asked what runs in
//! the pane; and a turn is recorded only in the worktree it began in.
use crate::herdr::detect::{Sighting, Verdict};
use crate::herdr::log::{remarks, Level, Remark};
use crate::herdr::session::{Processes, ProcessesModel};
use crate::ops::SnapMeta;
use crate::repo::Worktree;
use crate::store::Turn;
use crate::strings::{
    chars_of, clone_opt, dec, opt_text, owned, push_dec, same,
};
use vstd::prelude::*;
use vstd::string::*;

verus! {

/// How far the corroboration is.
#[derive(Debug)]
pub enum SettleStage {
    /// Herdr is being asked about the pane.
    Asking,
    /// The kernel is being asked about the pane.
    Looking,
    /// The pane's worktree is being looked for.
    Placing,
    /// The turn is being recorded in this worktree.
    Recording { root: String },
    /// Herdr is being told the number of the turn.
    Reporting,
    Over,
}

/// What came of a step.
#[derive(Debug)]
pub enum SettleEvent {
    Pane(Result<Option<Sighting>, String>),
    Processes(Result<Option<Processes>, String>),
    Worktree(Option<Worktree>),
    Snapped(Result<Option<Turn>, String>),
    Reported(Result<(), String>),
}

/// What is to be done next.
#[derive(Debug)]
pub enum SettleAction {
    /// Ask herdr about the pane.
    Pane,
    /// Ask what runs in the pane.
    Processes,
    /// Find the worktree of a directory.
    Worktree(String),
    /// Record the working tree as a turn on a timeline, if it changed.
    Snap { worktree: Worktree, line: String, meta: SnapMeta },
    /// Tell herdr the number of the turn.
    Report(u64),
    /// The boundary is dealt with.
    Done(Verdict),
}

/// The corroboration of one boundary.
#[derive(Debug)]
pub struct Settle {
    pub pane_id: String,
    pub agent: Option<String>,
    /// The directory of the turn.
    pub cwd: Option<String>,
    /// The pane never went quiet.
    pub noisy: bool,
    /// The timeline of the turn.
    pub line: String,
    pub dry_run: bool,
    /// What ran in the pane when the boundary was first considered.
    pub before: Option<Processes>,
    /// The worktree the turn began in, where that is known.
    pub began: Option<String>,
    pub prompt: Option<String>,
    /// What runs in the pane now, once an agent was found there.
    pub seen: Option<Processes>,
    /// A turn was recorded.
    pub recorded: bool,
    pub stage: SettleStage,
}

// -------------------------------------------------------------------- wording

/// A remark about a pane.
pub open spec fn about(pane: Seq<char>, what: Seq<char>) -> Seq<char> {
    pane + ": "@ + what
}

/// How a remark says that a pane never went quiet.
pub open spec fn noise(noisy: bool) -> Seq<char> {
    if noisy {
        "  (never went quiet)"@
    } else {
        ""@
    }
}

/// A prompt in quotation marks.
pub open spec fn quoted(text: Seq<char>) -> Seq<char> {
    "\""@ + text.map_values(
        |c: char|
            if c == '"' {
                '\''
            } else {
                c
            },
    ) + "\""@
}

/// A prompt in quotation marks.
pub fn quote(text: &str) -> (r: String)
    ensures
        r@ == quoted(text@),
{
    let cs: Vec<char> = chars_of(text);
    let ghost f = |c: char|
        if c == '"' {
            '\''
        } else {
            c
        };
    let mut body: String = String::new();
    let mut i: usize = 0;
    proof {
        assert(body@ =~= cs@.take(0).map_values(f));
    }
    while i < cs.len()
        invariant
            i <= cs@.len(),
            f == (|c: char|
                if c == '"' {
                    '\''
                } else {
                    c
                }),
            body@ == cs@.take(i as int).map_values(f),
        decreases cs@.len() - i,
    {
        if cs[i] == '"' {
            body.push('\'');
        } else {
            body.push(cs[i]);
        }
        i += 1;
        proof {
            assert(body@ =~= cs@.take(i as int).map_values(f));
        }
    }
    proof {
        assert(cs@.take(cs@.len() as int) =~= cs@);
    }
    let mut out: String = owned("\"");
    out.append(body.as_str());
    out.append("\"");
    out
}

/// What a dry run says of a boundary.
pub open spec fn boundary_text(s: Settle, root: Seq<char>, p: ProcessesModel) -> Seq<char> {
    "boundary  "@ + s.pane_id@ + "  "@ + (match opt_text(s.agent) {
        Some(a) => a,
        None => "-"@,
    }) + "  line="@ + s.line@ + "  worktree="@ + root + "  procs="@ + p.leading(0) + "("@ + dec(
        p.running.len(),
    ) + ")"@ + noise(s.noisy) + "  prompt="@ + (match opt_text(s.prompt) {
        Some(t) => quoted(t),
        None => "-"@,
    })
}

/// What is said of a turn that was recorded.
pub open spec fn recorded_text(s: Settle, turn: Turn, root: Seq<char>) -> Seq<char> {
    s.pane_id@ + ": recorded #"@ + dec(turn.seq as nat) + " on "@ + s.line@ + " — "@ + dec(
        turn.files as nat,
    ) + " file(s) +"@ + dec(turn.insertions as nat) + " -"@ + dec(turn.deletions as nat) + " in "@
        + root + noise(s.noisy)
}

fn say(level: Level, pane: &str, what: &str) -> (r: Option<Remark>)
    ensures
        remarks(r, level, about(pane@, what@)),
{
    let mut text: String = owned(pane);
    text.append(": ");
    text.append(what);
    Some(Remark { level, text })
}

fn say_with(level: Level, pane: &str, what: &str, detail: &str) -> (r: Option<Remark>)
    ensures
        remarks(r, level, about(pane@, what@ + detail@)),
{
    let mut tail: String = owned(what);
    tail.append(detail);
    say(level, pane, tail.as_str())
}

fn noise_text(noisy: bool) -> (r: &'static str)
    ensures
        r@ == noise(noisy),
{
    if noisy {
        "  (never went quiet)"
    } else {
        ""
    }
}

fn boundary(s: &Settle, root: &str, p: &Processes) -> (r: String)
    ensures
        r@ == boundary_text(*s, root@, p@),
{
    let mut t: String = owned("boundary  ");
    t.append(s.pane_id.as_str());
    t.append("  ");
    match &s.agent {
        Some(a) => {
            t.append(a.as_str());
        },
        None => {
            t.append("-");
        },
    }
    t.append("  line=");
    t.append(s.line.as_str());
    t.append("  worktree=");
    t.append(root);
    t.append("  procs=");
    t.append(p.leader_name().as_str());
    t.append("(");
    push_dec(&mut t, p.running.len() as u64);
    t.append(")");
    t.append(noise_text(s.noisy));
    t.append("  prompt=");
    match &s.prompt {
        Some(text) => {
            t.append(quote(text.as_str()).as_str());
        },
        None => {
            t.append("-");
        },
    }
    t
}

fn recorded(s: &Settle, turn: &Turn, root: &str) -> (r: String)
    ensures
        r@ == recorded_text(*s, *turn, root@),
{
    let mut t: String = s.pane_id.clone();
    t.append(": recorded #");
    push_dec(&mut t, turn.seq);
    t.append(" on ");
    t.append(s.line.as_str());
    t.append(" — ");
    push_dec(&mut t, turn.files as u64);
    t.append(" file(s) +");
    push_dec(&mut t, turn.insertions);
    t.append(" -");
    push_dec(&mut t, turn.deletions);
    t.append(" in ");
    t.append(root);
    t.append(noise_text(s.noisy));
    t
}

// ----------------------------------------------------------------- processes

/// Whether two looks at a pane found the same pids.
pub open spec fn same_pids(a: ProcessesModel, b: ProcessesModel) -> bool {
    a.pid_list().to_multiset() == b.pid_list().to_multiset()
}

fn pids_agree(a: &Processes, b: &Processes) -> (r: bool)
    ensures
        r == same_pids(a@, b@),
{
    let x: Vec<u32> = a.pids();
    let y: Vec<u32> = b.pids();
    proof {
        if same_pids(a@, b@) {
            let leq = |m: u32, n: u32| m <= n;
            assert(vstd::relations::total_ordering(leq)) by {
                assert(vstd::relations::reflexive(leq));
                assert(vstd::relations::antisymmetric(leq));
                assert(vstd::relations::transitive(leq));
                assert(vstd::relations::strongly_connected(leq));
            }
            vstd::seq_lib::lemma_sorted_unique(x@, y@, leq);
        }
    }
    if x.len() != y.len() {
        return false;
    }
    let mut i: usize = 0;
    while i < x.len()
        invariant
            i <= x@.len(),
            x@.len() == y@.len(),
            x@.to_multiset() == a@.pid_list().to_multiset(),
            y@.to_multiset() == b@.pid_list().to_multiset(),
            same_pids(a@, b@) ==> x@ == y@,
            forall|k: int| 0 <= k < i ==> #[trigger] x@[k] == y@[k],
        decreases x@.len() - i,
    {
        if x[i] != y[i] {
            return false;
        }
        i += 1;
    }
    proof {
        assert(x@ =~= y@);
    }
    true
}

// ----------------------------------------------------------------- the steps

/// Which event a stage waits for.
pub open spec fn settle_expects(stage: SettleStage, event: SettleEvent) -> bool {
    match stage {
        SettleStage::Asking => event is Pane,
        SettleStage::Looking => event is Processes,
        SettleStage::Placing => event is Worktree,
        SettleStage::Recording { .. } => event is Snapped,
        SettleStage::Reporting => event is Reported,
        SettleStage::Over => false,
    }
}

/// What a corroboration holds at every stage but the first and the last.
pub open spec fn settle_wf(s: Settle) -> bool {
    &&& !(s.stage is Over) ==> s.cwd is Some
    &&& s.stage is Placing ==> s.seen is Some
}

/// Whether the boundary is dealt with, and how.
pub open spec fn settles(t: Settle, action: SettleAction, verdict: Verdict) -> bool {
    t.stage is Over && action == SettleAction::Done(verdict)
}

/// How the corroboration goes on once herdr has answered.
pub open spec fn asked(
    s: Settle,
    answer: Result<Option<Sighting>, String>,
    t: Settle,
    action: SettleAction,
    remark: Option<Remark>,
) -> bool {
    &&& t.seen == s.seen
    &&& t.recorded == s.recorded
    &&& match answer {
        Err(e) => settles(t, action, Verdict::Wait) && remarks(
            remark,
            Level::Warn,
            about(s.pane_id@, "cannot re-read the pane: "@ + e@),
        ),
        Ok(None) => settles(t, action, Verdict::Drop) && remark is None,
        Ok(Some(fresh)) => if !fresh.status.at_rest() {
            settles(t, action, Verdict::Drop) && remarks(
                remark,
                Level::Info,
                about(s.pane_id@, "herdr now says "@ + fresh.status.name() + " — not a boundary"@),
            )
        } else if fresh.cwd is Some && opt_text(fresh.cwd) != opt_text(s.cwd) {
            settles(t, action, Verdict::Drop) && remarks(
                remark,
                Level::Info,
                about(s.pane_id@, "the pane is in another directory now; skipped"@),
            )
        } else {
            t.stage is Looking && action is Processes && remark is None
        },
    }
}

/// How the corroboration goes on once it is known what runs in the pane.
pub open spec fn looked(
    s: Settle,
    answer: Result<Option<Processes>, String>,
    t: Settle,
    action: SettleAction,
    remark: Option<Remark>,
) -> bool {
    &&& t.recorded == s.recorded
    &&& match answer {
        Err(e) => t.seen == s.seen && settles(t, action, Verdict::Wait) && remarks(
            remark,
            Level::Warn,
            about(s.pane_id@, "cannot read process info: "@ + e@),
        ),
        Ok(None) => t.seen == s.seen && settles(t, action, Verdict::Drop) && remark is None,
        Ok(Some(p)) => if !p@.agent_runs() {
            t.seen == s.seen && settles(t, action, Verdict::Drop) && remarks(
                remark,
                Level::Info,
                about(s.pane_id@, "no agent process in the pane's foreground group; skipped"@),
            )
        } else if s.before matches Some(b) && b.leader != p.leader {
            t.seen == Some(p) && settles(t, action, Verdict::Drop) && remarks(
                remark,
                Level::Info,
                about(s.pane_id@, "the foreground program changed under us; skipped"@),
            )
        } else if s.before matches Some(b) && !same_pids(b@, p@) {
            t.seen == Some(p) && settles(t, action, Verdict::Wait) && remarks(
                remark,
                Level::Info,
                about(s.pane_id@, "still spawning processes; waiting"@),
            )
        } else {
            t.seen == Some(p) && t.stage is Placing && (match action {
                SettleAction::Worktree(dir) => Some(dir@) == opt_text(s.cwd),
                _ => false,
            }) && remark is None
        },
    }
}

/// How the corroboration goes on once the pane's worktree is known.
pub open spec fn placed(
    s: Settle,
    found: Option<Worktree>,
    t: Settle,
    action: SettleAction,
    remark: Option<Remark>,
) -> bool {
    &&& t.seen == s.seen
    &&& t.recorded == s.recorded
    &&& match found {
        None => settles(t, action, Verdict::Drop) && remark is None,
        Some(wt) => if s.began is Some && opt_text(s.began) != Some(wt.root@) {
            settles(t, action, Verdict::Drop) && remarks(
                remark,
                Level::Warn,
                about(s.pane_id@, "the turn began in another worktree; not recorded"@),
            )
        } else if s.dry_run {
            settles(t, action, Verdict::Settled) && (s.seen matches Some(p) && remarks(
                remark,
                Level::Info,
                boundary_text(s, wt.root@, p@),
            ))
        } else {
            &&& remark is None
            &&& match t.stage {
                SettleStage::Recording { root } => root@ == wt.root@,
                _ => false,
            }
            &&& match action {
                SettleAction::Snap { worktree, line, meta } => {
                    &&& worktree == wt
                    &&& line@ == s.line@
                    &&& meta.agent == s.agent
                    &&& opt_text(meta.pane_id) == Some(s.pane_id@)
                    &&& meta.prompt == s.prompt
                    &&& meta.note is None
                },
                _ => false,
            }
        },
    }
}

/// How the corroboration goes on once the turn was recorded, or was not.
pub open spec fn snapped(
    s: Settle,
    root: Seq<char>,
    outcome: Result<Option<Turn>, String>,
    t: Settle,
    action: SettleAction,
    remark: Option<Remark>,
) -> bool {
    &&& t.seen == s.seen
    &&& match outcome {
        Ok(Some(turn)) => t.recorded && t.stage is Reporting && action == SettleAction::Report(turn.seq)
            && remarks(remark, Level::Info, recorded_text(s, turn, root)),
        Ok(None) => t.recorded == s.recorded && settles(t, action, Verdict::Settled) && remarks(
            remark,
            Level::Info,
            about(s.pane_id@, "nothing changed on "@ + s.line@ + "; not recorded"@),
        ),
        Err(e) => t.recorded == s.recorded && settles(t, action, Verdict::Settled) && remarks(
            remark,
            Level::Warn,
            about(s.pane_id@, "cannot record: "@ + e@),
        ),
    }
}

/// How the corroboration ends once herdr was told the turn's number.
pub open spec fn reported(
    s: Settle,
    outcome: Result<(), String>,
    t: Settle,
    action: SettleAction,
    remark: Option<Remark>,
) -> bool {
    &&& t.seen == s.seen
    &&& t.recorded == s.recorded
    &&& settles(t, action, Verdict::Settled)
    &&& match outcome {
        Ok(_) => remark is None,
        Err(e) => remarks(
            remark,
            Level::Warn,
            about(s.pane_id@, "cannot report the turn number: "@ + e@),
        ),
    }
}

/// How the corroboration of a boundary goes from one stage to the next.
pub open spec fn settle_goes(
    s: Settle,
    event: SettleEvent,
    t: Settle,
    action: SettleAction,
    remark: Option<Remark>,
) -> bool {
    &&& t == (Settle { seen: t.seen, recorded: t.recorded, stage: t.stage, ..s })
    &&& match (s.stage, event) {
        (SettleStage::Asking, SettleEvent::Pane(answer)) => asked(s, answer, t, action, remark),
        (SettleStage::Looking, SettleEvent::Processes(answer)) => looked(s, answer, t, action, remark),
        (SettleStage::Placing, SettleEvent::Worktree(found)) => placed(s, found, t, action, remark),
        (SettleStage::Recording { root }, SettleEvent::Snapped(outcome)) => snapped(
            s,
            root@,
            outcome,
            t,
            action,
            remark,
        ),
        (SettleStage::Reporting, SettleEvent::Reported(outcome)) => reported(
            s,
            outcome,
            t,
            action,
            remark,
        ),
        _ => false,
    }
}

impl Settle {
    /// Start corroborating a boundary. One without a directory is no boundary.
    pub fn new(
        pane_id: String,
        agent: Option<String>,
        cwd: Option<String>,
        noisy: bool,
        line: String,
        dry_run: bool,
        before: Option<Processes>,
        began: Option<String>,
        prompt: Option<String>,
    ) -> (r: (Self, SettleAction, Option<Remark>))
        ensures
            settle_wf(r.0),
            r.0 == (Settle {
                pane_id,
                agent,
                cwd,
                noisy,
                line,
                dry_run,
                before,
                began,
                prompt,
                seen: None,
                recorded: false,
                stage: r.0.stage,
            }),
            if cwd is None {
                settles(r.0, r.1, Verdict::Drop) && remarks(
                    r.2,
                    Level::Info,
                    about(pane_id@, "no working directory reported; skipped"@),
                )
            } else {
                r.0.stage is Asking && r.1 is Pane && r.2 is None
            },
    {
        let (stage, action, remark): (SettleStage, SettleAction, Option<Remark>) = if cwd.is_none() {
            (
                SettleStage::Over,
                SettleAction::Done(Verdict::Drop),
                say(Level::Info, pane_id.as_str(), "no working directory reported; skipped"),
            )
        } else {
            (SettleStage::Asking, SettleAction::Pane, None)
        };
        (
            Settle {
                pane_id,
                agent,
                cwd,
                noisy,
                line,
                dry_run,
                before,
                began,
                prompt,
                seen: None,
                recorded: false,
                stage,
            },
            action,
            remark,
        )
    }

    fn over(self) -> (r: Self)
        ensures
            r == (Settle { stage: SettleStage::Over, ..self }),
    {
        let mut s: Settle = self;
        s.stage = SettleStage::Over;
        s
    }

    fn after_pane(self, answer: Result<Option<Sighting>, String>) -> (r: (
        Self,
        SettleAction,
        Option<Remark>,
    ))
        requires
            settle_wf(self),
            self.stage is Asking,
        ensures
            settle_wf(r.0),
            settle_goes(self, SettleEvent::Pane(answer), r.0, r.1, r.2),
    {
        match answer {
            Err(e) => {
                let remark = say_with(
                    Level::Warn,
                    self.pane_id.as_str(),
                    "cannot re-read the pane: ",
                    e.as_str(),
                );
                (self.over(), SettleAction::Done(Verdict::Wait), remark)
            },
            Ok(None) => (self.over(), SettleAction::Done(Verdict::Drop), None),
            Ok(Some(fresh)) => {
                if !fresh.status.is_rest() {
                    let mut what: String = owned("herdr now says ");
                    what.append(fresh.status.as_str());
                    what.append(" — not a boundary");
                    let remark = say(Level::Info, self.pane_id.as_str(), what.as_str());
                    return (self.over(), SettleAction::Done(Verdict::Drop), remark);
                }
                if fresh.cwd.is_some() && !crate::strings::same_opt(&fresh.cwd, &self.cwd) {
                    let remark = say(
                        Level::Info,
                        self.pane_id.as_str(),
                        "the pane is in another directory now; skipped",
                    );
                    return (self.over(), SettleAction::Done(Verdict::Drop), remark);
                }
                let mut s: Settle = self;
                s.stage = SettleStage::Looking;
                (s, SettleAction::Processes, None)
            },
        }
    }

    fn after_processes(self, answer: Result<Option<Processes>, String>) -> (r: (
        Self,
        SettleAction,
        Option<Remark>,
    ))
        requires
            settle_wf(self),
            self.stage is Looking,
        ensures
            settle_wf(r.0),
            settle_goes(self, SettleEvent::Processes(answer), r.0, r.1, r.2),
    {
        match answer {
            Err(e) => {
                let remark = say_with(
                    Level::Warn,
                    self.pane_id.as_str(),
                    "cannot read process info: ",
                    e.as_str(),
                );
                (self.over(), SettleAction::Done(Verdict::Wait), remark)
            },
            Ok(None) => (self.over(), SettleAction::Done(Verdict::Drop), None),
            Ok(Some(p)) => {
                if !p.agent_is_running() {
                    let remark = say(
                        Level::Info,
                        self.pane_id.as_str(),
                        "no agent process in the pane's foreground group; skipped",
                    );
                    return (self.over(), SettleAction::Done(Verdict::Drop), remark);
                }
                let (changed, spawning): (bool, bool) = match &self.before {
                    Some(b) => (b.leader != p.leader, !pids_agree(b, &p)),
                    None => (false, false),
                };
                let dir: Option<String> = clone_opt(&self.cwd);
                let mut s: Settle = self;
                s.seen = Some(p);
                if changed {
                    let remark = say(
                        Level::Info,
                        s.pane_id.as_str(),
                        "the foreground program changed under us; skipped",
                    );
                    return (s.over(), SettleAction::Done(Verdict::Drop), remark);
                }
                if spawning {
                    let remark = say(
                        Level::Info,
                        s.pane_id.as_str(),
                        "still spawning processes; waiting",
                    );
                    return (s.over(), SettleAction::Done(Verdict::Wait), remark);
                }
                match dir {
                    Some(dir) => {
                        s.stage = SettleStage::Placing;
                        (s, SettleAction::Worktree(dir), None)
                    },
                    None => (s.over(), SettleAction::Done(Verdict::Drop), None),
                }
            },
        }
    }

    fn after_worktree(self, found: Option<Worktree>) -> (r: (Self, SettleAction, Option<Remark>))
        requires
            settle_wf(self),
            self.stage is Placing,
        ensures
            settle_wf(r.0),
            settle_goes(self, SettleEvent::Worktree(found), r.0, r.1, r.2),
    {
        match found {
            None => (self.over(), SettleAction::Done(Verdict::Drop), None),
            Some(wt) => {
                let elsewhere: bool = match &self.began {
                    Some(root) => !same(root.as_str(), wt.root.as_str()),
                    None => false,
                };
                if elsewhere {
                    let remark = say(
                        Level::Warn,
                        self.pane_id.as_str(),
                        "the turn began in another worktree; not recorded",
                    );
                    return (self.over(), SettleAction::Done(Verdict::Drop), remark);
                }
                if self.dry_run {
                    let remark: Option<Remark> = match &self.seen {
                        Some(p) => Some(
                            Remark {
                                level: Level::Info,
                                text: boundary(&self, wt.root.as_str(), p),
                            },
                        ),
                        None => None,
                    };
                    return (self.over(), SettleAction::Done(Verdict::Settled), remark);
                }
                let meta = SnapMeta {
                    agent: clone_opt(&self.agent),
                    pane_id: Some(self.pane_id.clone()),
                    note: None,
                    prompt: clone_opt(&self.prompt),
                };
                let line: String = self.line.clone();
                let mut s: Settle = self;
                s.stage = SettleStage::Recording { root: wt.root.clone() };
                (s, SettleAction::Snap { worktree: wt, line, meta }, None)
            },
        }
    }

    fn after_snap(self, outcome: Result<Option<Turn>, String>) -> (r: (
        Self,
        SettleAction,
        Option<Remark>,
    ))
        requires
            settle_wf(self),
            self.stage is Recording,
        ensures
            settle_wf(r.0),
            settle_goes(self, SettleEvent::Snapped(outcome), r.0, r.1, r.2),
    {
        match outcome {
            Ok(Some(turn)) => {
                let text: String = match &self.stage {
                    SettleStage::Recording { root } => recorded(&self, &turn, root.as_str()),
                    _ => String::new(),
                };
                let mut s: Settle = self;
                s.recorded = true;
                s.stage = SettleStage::Reporting;
                (s, SettleAction::Report(turn.seq), Some(Remark { level: Level::Info, text }))
            },
            Ok(None) => {
                let mut what: String = owned("nothing changed on ");
                what.append(self.line.as_str());
                what.append("; not recorded");
                let remark = say(Level::Info, self.pane_id.as_str(), what.as_str());
                (self.over(), SettleAction::Done(Verdict::Settled), remark)
            },
            Err(e) => {
                let remark = say_with(
                    Level::Warn,
                    self.pane_id.as_str(),
                    "cannot record: ",
                    e.as_str(),
                );
                (self.over(), SettleAction::Done(Verdict::Settled), remark)
            },
        }
    }

    /// Take note of what came of a step, and say what is to be done next, and
    /// what is to be said in the log.
    pub fn step(self, event: SettleEvent) -> (r: (Self, SettleAction, Option<Remark>))
        requires
            settle_wf(self),
            settle_expects(self.stage, event),
        ensures
            settle_wf(r.0),
            settle_goes(self, event, r.0, r.1, r.2),
    {
        match event {
            SettleEvent::Pane(answer) => self.after_pane(answer),
            SettleEvent::Processes(answer) => self.after_processes(answer),
            SettleEvent::Worktree(found) => self.after_worktree(found),
            SettleEvent::Snapped(outcome) => self.after_snap(outcome),
            SettleEvent::Reported(outcome) => {
                let remark: Option<Remark> = match outcome {
                    Ok(_) => None,
                    Err(e) => say_with(
                        Level::Warn,
                        self.pane_id.as_str(),
                        "cannot report the turn number: ",
                        e.as_str(),
                    ),
                };
                (self.over(), SettleAction::Done(Verdict::Settled), remark)
            },
        }
    }
}

// --------------------------------------------------------------------- laws

/// A run of a corroboration: stage by stage, from the beginning.
pub open spec fn settle_run(
    states: Seq<Settle>,
    events: Seq<SettleEvent>,
    actions: Seq<SettleAction>,
    said: Seq<Option<Remark>>,
) -> bool {
    &&& states.len() == events.len() + 1
    &&& actions.len() == events.len()
    &&& said.len() == events.len()
    &&& states[0].stage is Asking
    &&& !states[0].recorded
    &&& forall|i: int|
        0 <= i < events.len() ==> #[trigger] settle_goes(
            states[i],
            events[i],
            states[i + 1],
            actions[i],
            said[i],
        )
}

/// Whether herdr, when asked again, said that the pane is at rest in the turn's
/// directory, before step `n`.
pub open spec fn herdr_agreed(s: Settle, events: Seq<SettleEvent>, n: int) -> bool {
    exists|j: int|
        0 <= j < n && match #[trigger] events[j] {
            SettleEvent::Pane(Ok(Some(fresh))) => fresh.status.at_rest() && (fresh.cwd is None
                || opt_text(fresh.cwd) == opt_text(s.cwd)),
            _ => false,
        }
}

/// Whether the kernel, when asked, showed an agent in the pane and nothing that
/// started or finished since the boundary was first considered, before step
/// `n`.
pub open spec fn kernel_agreed(s: Settle, events: Seq<SettleEvent>, n: int) -> bool {
    exists|j: int|
        0 <= j < n && match #[trigger] events[j] {
            SettleEvent::Processes(Ok(Some(p))) => p@.agent_runs() && (s.before matches Some(b)
                ==> b.leader == p.leader && same_pids(b@, p@)),
            _ => false,
        }
}

/// What every stage of a corroboration rests on.
pub open spec fn settle_rests(states: Seq<Settle>, events: Seq<SettleEvent>, n: int) -> bool {
    let s = states[n];
    let z = states[0];
    &&& s == (Settle { seen: s.seen, recorded: s.recorded, stage: s.stage, ..z })
    &&& s.stage is Asking || s.stage is Over || herdr_agreed(z, events, n)
    &&& s.stage is Asking || s.stage is Looking || s.stage is Over || kernel_agreed(z, events, n)
}

proof fn lemma_herdr_grows(s: Settle, events: Seq<SettleEvent>, n: int)
    requires
        herdr_agreed(s, events, n),
    ensures
        herdr_agreed(s, events, n + 1),
{
    let j = choose|j: int|
        0 <= j < n && match #[trigger] events[j] {
            SettleEvent::Pane(Ok(Some(fresh))) => fresh.status.at_rest() && (fresh.cwd is None
                || opt_text(fresh.cwd) == opt_text(s.cwd)),
            _ => false,
        };
    assert(0 <= j < n + 1 && (match events[j] {
        SettleEvent::Pane(Ok(Some(fresh))) => fresh.status.at_rest() && (fresh.cwd is None
            || opt_text(fresh.cwd) == opt_text(s.cwd)),
        _ => false,
    }));
}

proof fn lemma_kernel_grows(s: Settle, events: Seq<SettleEvent>, n: int)
    requires
        kernel_agreed(s, events, n),
    ensures
        kernel_agreed(s, events, n + 1),
{
    let j = choose|j: int|
        0 <= j < n && match #[trigger] events[j] {
            SettleEvent::Processes(Ok(Some(p))) => p@.agent_runs() && (s.before matches Some(b)
                ==> b.leader == p.leader && same_pids(b@, p@)),
            _ => false,
        };
    assert(0 <= j < n + 1 && (match events[j] {
        SettleEvent::Processes(Ok(Some(p))) => p@.agent_runs() && (s.before matches Some(b)
            ==> b.leader == p.leader && same_pids(b@, p@)),
        _ => false,
    }));
}

proof fn lemma_settle_rests(
    states: Seq<Settle>,
    events: Seq<SettleEvent>,
    actions: Seq<SettleAction>,
    said: Seq<Option<Remark>>,
    n: int,
)
    requires
        settle_run(states, events, actions, said),
        0 <= n < states.len(),
    ensures
        settle_rests(states, events, n),
    decreases n,
{
    if n > 0 {
        let i = n - 1;
        lemma_settle_rests(states, events, actions, said, i);
        assert(settle_goes(states[i], events[i], states[i + 1], actions[i], said[i]));
        let z = states[0];
        match states[i].stage {
            SettleStage::Asking => {
                if states[n].stage is Looking {
                    assert(match events[i] {
                        SettleEvent::Pane(Ok(Some(fresh))) => fresh.status.at_rest() && (
                        fresh.cwd is None || opt_text(fresh.cwd) == opt_text(z.cwd)),
                        _ => false,
                    });
                    assert(herdr_agreed(z, events, n));
                }
            },
            SettleStage::Looking => {
                lemma_herdr_grows(z, events, i);
                if states[n].stage is Placing {
                    assert(match events[i] {
                        SettleEvent::Processes(Ok(Some(p))) => p@.agent_runs() && (
                        z.before matches Some(b) ==> b.leader == p.leader && same_pids(b@, p@)),
                        _ => false,
                    });
                    assert(kernel_agreed(z, events, n));
                }
            },
            SettleStage::Over => {},
            _ => {
                lemma_herdr_grows(z, events, i);
                lemma_kernel_grows(z, events, i);
            },
        }
    }
}

/// A turn is recorded only after both herdr and the kernel agreed that the
/// agent has stopped, and only in the worktree the turn began in.
pub proof fn law_a_turn_is_corroborated_before_it_is_recorded(
    states: Seq<Settle>,
    events: Seq<SettleEvent>,
    actions: Seq<SettleAction>,
    said: Seq<Option<Remark>>,
    n: int,
)
    requires
        settle_run(states, events, actions, said),
        0 <= n < actions.len(),
        actions[n] is Snap,
    ensures
        herdr_agreed(states[0], events, n),
        kernel_agreed(states[0], events, n),
        states[0].began is Some ==> (actions[n] matches SettleAction::Snap { worktree, .. } && Some(
            worktree.root@,
        ) == opt_text(states[0].began)),
        !states[0].dry_run,
{
    lemma_settle_rests(states, events, actions, said, n);
    assert(settle_goes(states[n], events[n], states[n + 1], actions[n], said[n]));
}

/// A dry run records nothing and tells herdr nothing.
pub proof fn law_a_dry_run_leaves_nothing_behind(
    s: Settle,
    event: SettleEvent,
    t: Settle,
    action: SettleAction,
    remark: Option<Remark>,
)
    requires
        s.dry_run,
        settle_goes(s, event, t, action, remark),
        s.stage is Asking || s.stage is Looking || s.stage is Placing,
    ensures
        !(action is Snap),
        !(action is Report),
        !(t.stage is Recording),
        !(t.stage is Reporting),
        t.recorded == s.recorded,
{
}

/// A fault while asking is never taken for an answer: the corroboration waits
/// and says so.
pub proof fn law_a_fault_is_waited_out(
    s: Settle,
    event: SettleEvent,
    t: Settle,
    action: SettleAction,
    remark: Option<Remark>,
)
    requires
        settle_goes(s, event, t, action, remark),
        match event {
            SettleEvent::Pane(answer) => answer is Err,
            SettleEvent::Processes(answer) => answer is Err,
            _ => false,
        },
    ensures
        action == SettleAction::Done(Verdict::Wait),
        remark matches Some(r) && r.level == Level::Warn,
{
}

/// A worktree that cannot be recorded ends this boundary and nothing else: the
/// watch goes on.
pub proof fn law_an_unrecordable_worktree_is_settled(
    s: Settle,
    event: SettleEvent,
    t: Settle,
    action: SettleAction,
    remark: Option<Remark>,
)
    requires
        settle_goes(s, event, t, action, remark),
        event matches SettleEvent::Snapped(o) && o is Err,
    ensures
        action == SettleAction::Done(Verdict::Settled),
        t.recorded == s.recorded,
        remark is Some,
{
}

} // verus!
