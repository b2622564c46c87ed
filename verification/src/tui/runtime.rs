//! The event loop: draw, read a key, pump the worker.
//!
//! Two of the interface's promises live here. Whatever was typed while a
//! restore was running is thrown away when it ends, because those keys were
//! aimed at a screen that no longer exists. And the process does not leave
//! while a restore is in flight, however it came to be leaving.
use crate::strings::{opt_text, owned};
use crate::tui::app::{App, AppModel, Key};
use crate::tui::engine::{jobs_view, Job, JobModel, Reply, ReplyModel};
use vstd::prelude::*;
use vstd::string::*;

verus! {

/// How long a frame waits for a key before it draws anyway, in nanoseconds.
pub const FRAME: u128 = 120_000_000;

/// How long a restore in flight is waited for before leaving without it, in
/// seconds.
pub const FINISH_GRACE_SECS: u64 = 60;

/// What one poll of the worker found.
#[derive(Debug)]
pub enum Pumped {
    Reply(Reply),
    /// Nothing yet. The worker is alive, or there never was one.
    Idle,
    /// The worker ended. Nothing will ever answer.
    Gone,
}

/// How far a turn of the loop is.
#[derive(Debug, Clone, Copy, PartialEq, Eq, Structural)]
pub enum RunStage {
    Drawing,
    Reading,
    Pumping { was_restoring: bool },
    Sending { drain: bool },
    Draining,
    Ticking,
    Over,
}

/// What came of a step.
#[derive(Debug)]
pub enum RunEvent {
    Drawn(Result<(), String>),
    /// A key, nothing, or a terminal that stopped working.
    Read(Result<Option<Key>, String>),
    /// Time passed without reading.
    Paused,
    Polled(Pumped),
    Sent,
    Drained(Result<(), String>),
    /// The present, in Unix seconds.
    Now(u64),
}

/// What is to be done next.
#[derive(Debug)]
pub enum RunAction {
    /// Draw a frame.
    Draw,
    /// Wait up to a frame for a key.
    Wait,
    /// Let a frame pass without reading anything.
    Pause,
    /// See whether the worker answered.
    Poll,
    /// Hand these jobs to the worker.
    Send(Vec<Job>),
    /// Throw away every key that is waiting.
    Drain,
    /// Read the clock.
    Clock,
    /// Leave.
    Done(Result<(), String>),
}

/// The event loop.
#[derive(Debug)]
pub struct Run {
    /// The terminal stopped working, and why.
    pub failure: Option<String>,
    /// The worker ended, and what was said of it.
    pub lost: Option<String>,
    /// Since when the loop has been waiting to leave.
    pub leaving_since: Option<u64>,
    pub stage: RunStage,
}

pub struct RunModel {
    pub failure: Option<Seq<char>>,
    pub lost: Option<Seq<char>>,
    pub leaving_since: Option<u64>,
    pub stage: RunStage,
}

impl View for Run {
    type V = RunModel;

    open spec fn view(&self) -> RunModel {
        RunModel {
            failure: opt_text(self.failure),
            lost: opt_text(self.lost),
            leaving_since: self.leaving_since,
            stage: self.stage,
        }
    }
}

pub enum EventModel {
    Drawn(Option<Seq<char>>),
    Read(Result<Option<Key>, Seq<char>>),
    Paused,
    Answered(ReplyModel),
    Idle,
    Gone,
    Sent,
    Drained(Option<Seq<char>>),
    Now(u64),
}

/// What went wrong with a step.
pub open spec fn wrong(r: Result<(), String>) -> Option<Seq<char>> {
    match r {
        Ok(_) => None,
        Err(e) => Some(e@),
    }
}

impl View for RunEvent {
    type V = EventModel;

    open spec fn view(&self) -> EventModel {
        match *self {
            RunEvent::Drawn(r) => EventModel::Drawn(wrong(r)),
            RunEvent::Read(Ok(key)) => EventModel::Read(Ok(key)),
            RunEvent::Read(Err(e)) => EventModel::Read(Err(e@)),
            RunEvent::Paused => EventModel::Paused,
            RunEvent::Polled(Pumped::Reply(reply)) => EventModel::Answered(reply@),
            RunEvent::Polled(Pumped::Idle) => EventModel::Idle,
            RunEvent::Polled(Pumped::Gone) => EventModel::Gone,
            RunEvent::Sent => EventModel::Sent,
            RunEvent::Drained(r) => EventModel::Drained(wrong(r)),
            RunEvent::Now(now) => EventModel::Now(now),
        }
    }
}

pub enum ActionModel {
    Draw,
    Wait,
    Pause,
    Poll,
    Send(Seq<JobModel>),
    Drain,
    Clock,
    Done(Option<Seq<char>>),
}

impl View for RunAction {
    type V = ActionModel;

    open spec fn view(&self) -> ActionModel {
        match *self {
            RunAction::Draw => ActionModel::Draw,
            RunAction::Wait => ActionModel::Wait,
            RunAction::Pause => ActionModel::Pause,
            RunAction::Poll => ActionModel::Poll,
            RunAction::Send(jobs) => ActionModel::Send(jobs_view(jobs@)),
            RunAction::Drain => ActionModel::Drain,
            RunAction::Clock => ActionModel::Clock,
            RunAction::Done(r) => ActionModel::Done(wrong(r)),
        }
    }
}

/// The first of two.
pub open spec fn or<T>(a: Option<T>, b: Option<T>) -> Option<T> {
    if a is Some {
        a
    } else {
        b
    }
}

/// What is said when a restore is left running.
pub open spec fn abandoned(cause: Option<Seq<char>>) -> Seq<char> {
    "left with a restore still running after 60s; the worktree may be half-restored. Run `sheep log` and `sheep diff` before trusting it."@
        + (match cause {
        Some(e) => ": "@ + e,
        None => ""@,
    })
}

/// Which event a stage waits for. A stage that reads waits for a key, or for
/// time to pass once the loop is leaving.
pub open spec fn run_expects(s: RunModel, a: AppModel, e: EventModel) -> bool {
    match s.stage {
        RunStage::Drawing => e is Drawn,
        RunStage::Reading => if a.quit || s.failure is Some {
            e is Paused
        } else {
            e is Read
        },
        RunStage::Pumping { .. } => e is Answered || e is Idle || e is Gone,
        RunStage::Sending { .. } => e is Sent,
        RunStage::Draining => e is Drained,
        RunStage::Ticking => e is Now,
        RunStage::Over => false,
    }
}

/// A turn of the loop reads a key, unless the loop is leaving.
pub open spec fn reading(s: RunModel, a: AppModel) -> (RunModel, ActionModel) {
    (
        RunModel { stage: RunStage::Reading, ..s },
        if a.quit || s.failure is Some {
            ActionModel::Pause
        } else {
            ActionModel::Wait
        },
    )
}

/// A turn of the loop begins by drawing, while there is a terminal to draw on.
pub open spec fn beginning(s: RunModel, a: AppModel) -> (RunModel, ActionModel) {
    if s.failure is None {
        (RunModel { stage: RunStage::Drawing, ..s }, ActionModel::Draw)
    } else {
        reading(s, a)
    }
}

/// Once the worker has nothing more to say, waiting jobs are handed to it. A
/// restore that just ended has every waiting key thrown away.
pub open spec fn sending(s: RunModel, a: AppModel, was_restoring: bool) -> (
    RunModel,
    AppModel,
    ActionModel,
) {
    (
        RunModel { stage: RunStage::Sending { drain: was_restoring && !a.restoring }, ..s },
        AppModel { outbox: Seq::empty(), ..a },
        ActionModel::Send(
            if s.lost is None {
                a.outbox
            } else {
                Seq::empty()
            },
        ),
    )
}

/// How a turn of the loop ends: by leaving, or by beginning another.
pub open spec fn ending(s: RunModel, a: AppModel, now: u64) -> (RunModel, ActionModel) {
    if a.quit || s.failure is Some {
        if !a.restoring {
            (RunModel { stage: RunStage::Over, ..s }, ActionModel::Done(or(s.failure, s.lost)))
        } else {
            let since = match s.leaving_since {
                Some(t) => t,
                None => now,
            };
            let left = RunModel { leaving_since: Some(since), ..s };
            if now - since > FINISH_GRACE_SECS {
                (
                    RunModel { stage: RunStage::Over, ..left },
                    ActionModel::Done(Some(abandoned(or(s.failure, s.lost)))),
                )
            } else {
                beginning(left, a)
            }
        }
    } else {
        beginning(s, a)
    }
}

/// How the loop goes from one stage to the next.
pub open spec fn run_step(s: RunModel, a: AppModel, e: EventModel) -> (
    RunModel,
    AppModel,
    ActionModel,
) {
    match (s.stage, e) {
        (RunStage::Drawing, EventModel::Drawn(bad)) => {
            let t = RunModel { failure: or(s.failure, bad), ..s };
            (reading(t, a).0, a, reading(t, a).1)
        },
        (RunStage::Reading, EventModel::Read(Ok(Some(key)))) => {
            let b = a.on_key(key);
            (
                RunModel { stage: RunStage::Pumping { was_restoring: b.restoring }, ..s },
                b,
                ActionModel::Poll,
            )
        },
        (RunStage::Reading, EventModel::Read(Err(bad))) => (
            RunModel {
                failure: Some(bad),
                stage: RunStage::Pumping { was_restoring: a.restoring },
                ..s
            },
            a,
            ActionModel::Poll,
        ),
        (RunStage::Reading, _) => (
            RunModel { stage: RunStage::Pumping { was_restoring: a.restoring }, ..s },
            a,
            ActionModel::Poll,
        ),
        (RunStage::Pumping { .. }, EventModel::Answered(reply)) => (
            s,
            a.apply(reply),
            ActionModel::Poll,
        ),
        (RunStage::Pumping { was_restoring }, EventModel::Gone) => if s.lost is None {
            sending(
                RunModel { lost: Some(a.lost_text()), ..s },
                a.worker_lost(),
                was_restoring,
            )
        } else {
            sending(s, a, was_restoring)
        },
        (RunStage::Pumping { was_restoring }, _) => sending(s, a, was_restoring),
        (RunStage::Sending { drain }, _) => if drain {
            (RunModel { stage: RunStage::Draining, ..s }, a, ActionModel::Drain)
        } else {
            (RunModel { stage: RunStage::Ticking, ..s }, a, ActionModel::Clock)
        },
        (RunStage::Draining, EventModel::Drained(bad)) => (
            RunModel { failure: or(s.failure, bad), stage: RunStage::Ticking, ..s },
            a,
            ActionModel::Clock,
        ),
        (RunStage::Ticking, EventModel::Now(now)) => {
            let b = a.tick(now);
            (ending(s, b, now).0, b, ending(s, b, now).1)
        },
        _ => (s, a, ActionModel::Poll),
    }
}

impl Run {
    /// The loop, about to draw its first frame.
    pub fn new() -> (r: (Self, RunAction))
        ensures
            r.0@ == (RunModel {
                failure: None,
                lost: None,
                leaving_since: None,
                stage: RunStage::Drawing,
            }),
            r.1@ == ActionModel::Draw,
    {
        (
            Run { failure: None, lost: None, leaving_since: None, stage: RunStage::Drawing },
            RunAction::Draw,
        )
    }

    fn read(&mut self, app: &App) -> (r: RunAction)
        ensures
            (final(self)@, r@) == reading(old(self)@, app@),
    {
        self.stage = RunStage::Reading;
        if app.quit || self.failure.is_some() {
            RunAction::Pause
        } else {
            RunAction::Wait
        }
    }

    fn begin(&mut self, app: &App) -> (r: RunAction)
        ensures
            (final(self)@, r@) == beginning(old(self)@, app@),
    {
        if self.failure.is_none() {
            self.stage = RunStage::Drawing;
            RunAction::Draw
        } else {
            self.read(app)
        }
    }

    fn broke(&mut self, bad: Result<(), String>)
        ensures
            final(self)@ == (RunModel {
                failure: or(old(self)@.failure, wrong(bad)),
                ..old(self)@
            }),
    {
        if self.failure.is_none() {
            if let Err(e) = bad {
                self.failure = Some(e);
            }
        }
    }

    fn send(&mut self, app: &mut App, was_restoring: bool) -> (r: RunAction)
        ensures
            (final(self)@, final(app)@, r@) == sending(old(self)@, old(app)@, was_restoring),
    {
        self.stage = RunStage::Sending { drain: was_restoring && !app.restoring };
        let jobs: Vec<Job> = app.take_jobs();
        if self.lost.is_none() {
            RunAction::Send(jobs)
        } else {
            let none: Vec<Job> = Vec::new();
            proof {
                assert(jobs_view(none@) =~= Seq::<JobModel>::empty());
            }
            RunAction::Send(none)
        }
    }

    fn cause(&self) -> (r: Option<String>)
        ensures
            opt_text(r) == or(self@.failure, self@.lost),
    {
        match &self.failure {
            Some(e) => Some(e.clone()),
            None => match &self.lost {
                Some(e) => Some(e.clone()),
                None => None,
            },
        }
    }

    fn end(&mut self, app: &App, now: u64) -> (r: RunAction)
        ensures
            (final(self)@, r@) == ending(old(self)@, app@, now),
    {
        if !(app.quit || self.failure.is_some()) {
            return self.begin(app);
        }
        let cause: Option<String> = self.cause();
        if !app.restoring {
            self.stage = RunStage::Over;
            return match cause {
                Some(e) => RunAction::Done(Err(e)),
                None => RunAction::Done(Ok(())),
            };
        }
        let since: u64 = match self.leaving_since {
            Some(t) => t,
            None => now,
        };
        self.leaving_since = Some(since);
        if now >= since && now - since > FINISH_GRACE_SECS {
            self.stage = RunStage::Over;
            let mut note: String = owned(
                "left with a restore still running after 60s; the worktree may be half-restored. Run `sheep log` and `sheep diff` before trusting it.",
            );
            let tail: String = match cause {
                Some(e) => {
                    let mut s: String = owned(": ");
                    s.append(e.as_str());
                    s
                },
                None => owned(""),
            };
            note.append(tail.as_str());
            return RunAction::Done(Err(note));
        }
        self.begin(app)
    }

    /// Take note of what came of a step, and say what is to be done next.
    pub fn run(&mut self, app: &mut App, event: RunEvent) -> (r: RunAction)
        requires
            run_expects(old(self)@, old(app)@, event@),
        ensures
            (final(self)@, final(app)@, r@) == run_step(old(self)@, old(app)@, event@),
    {
        match event {
            RunEvent::Drawn(bad) => {
                self.broke(bad);
                self.read(app)
            },
            RunEvent::Read(Ok(Some(key))) => {
                app.on_key(key);
                self.stage = RunStage::Pumping { was_restoring: app.restoring };
                RunAction::Poll
            },
            RunEvent::Read(Ok(None)) => {
                self.stage = RunStage::Pumping { was_restoring: app.restoring };
                RunAction::Poll
            },
            RunEvent::Read(Err(e)) => {
                self.failure = Some(e);
                self.stage = RunStage::Pumping { was_restoring: app.restoring };
                RunAction::Poll
            },
            RunEvent::Paused => {
                self.stage = RunStage::Pumping { was_restoring: app.restoring };
                RunAction::Poll
            },
            RunEvent::Polled(Pumped::Reply(reply)) => {
                app.apply(reply);
                RunAction::Poll
            },
            RunEvent::Polled(Pumped::Idle) => {
                let was_restoring: bool = match self.stage {
                    RunStage::Pumping { was_restoring } => was_restoring,
                    _ => false,
                };
                self.send(app, was_restoring)
            },
            RunEvent::Polled(Pumped::Gone) => {
                let was_restoring: bool = match self.stage {
                    RunStage::Pumping { was_restoring } => was_restoring,
                    _ => false,
                };
                if self.lost.is_none() {
                    self.lost = Some(app.worker_lost());
                }
                self.send(app, was_restoring)
            },
            RunEvent::Sent => {
                let drain: bool = match self.stage {
                    RunStage::Sending { drain } => drain,
                    _ => false,
                };
                if drain {
                    self.stage = RunStage::Draining;
                    RunAction::Drain
                } else {
                    self.stage = RunStage::Ticking;
                    RunAction::Clock
                }
            },
            RunEvent::Drained(bad) => {
                self.broke(bad);
                self.stage = RunStage::Ticking;
                RunAction::Clock
            },
            RunEvent::Now(now) => {
                app.tick(now);
                self.end(app, now)
            },
        }
    }
}

// ------------------------------------------------------------------------ laws

/// The loop never leaves on top of a restore: it goes on until the restore has
/// ended, or until the grace period is over, and then it says so.
pub proof fn law_nothing_leaves_on_top_of_a_restore(s: RunModel, a: AppModel, e: EventModel)
    requires
        run_expects(s, a, e),
        run_step(s, a, e).2 is Done,
    ensures
        ({
            let (t, b, action) = run_step(s, a, e);
            !b.restoring || (e matches EventModel::Now(now) && s.leaving_since matches Some(since)
                && now - since > FINISH_GRACE_SECS && action == ActionModel::Done(
                Some(abandoned(or(s.failure, s.lost))),
            ))
        }),
{
}

/// The loop leaves only because the user asked to, or because the terminal
/// stopped working; and a terminal or a worker that failed is never reported as
/// a clean end.
pub proof fn law_a_failure_is_never_a_clean_end(s: RunModel, a: AppModel, e: EventModel)
    requires
        run_expects(s, a, e),
        run_step(s, a, e).2 is Done,
    ensures
        run_step(s, a, e).1.quit || s.failure is Some,
        run_step(s, a, e).2 == ActionModel::Done(None) ==> s.failure is None && s.lost is None,
{
}

/// When a restore has just ended, every key that waits is thrown away before
/// another one is read: between the last answer of the worker and the next key
/// there is a drain.
pub proof fn law_keys_typed_during_a_restore_are_dropped(
    s: RunModel,
    a: AppModel,
    e: EventModel,
    sent: EventModel,
)
    requires
        s.stage == (RunStage::Pumping { was_restoring: true }),
        run_expects(s, a, e),
        e is Idle || e is Gone,
        sent is Sent,
    ensures
        ({
            let (t, b, action) = run_step(s, a, e);
            !b.restoring ==> t.stage == (RunStage::Sending { drain: true }) && run_step(t, b, sent).2
                == ActionModel::Drain
        }),
{
}

/// Once the loop is leaving it reads no more keys.
pub proof fn law_a_leaving_loop_reads_no_keys(s: RunModel, a: AppModel, e: EventModel)
    requires
        run_expects(s, a, e),
        run_step(s, a, e).2 is Wait,
    ensures
        !run_step(s, a, e).1.quit,
        run_step(s, a, e).0.failure is None,
{
}

/// A worker that ended is asked for nothing more.
pub proof fn law_a_lost_worker_gets_no_jobs(s: RunModel, a: AppModel, e: EventModel)
    requires
        run_expects(s, a, e),
        run_step(s, a, e).0.lost is Some,
    ensures
        run_step(s, a, e).2 matches ActionModel::Send(jobs) ==> jobs.len() == 0,
{
}

} // verus!
