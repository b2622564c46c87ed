//! Turn-boundary detection.
//!
//! Herdr publishes a status per pane, inferred from what the pane paints, and
//! calls agents `done` while they are still mid-turn. A turn that is invented
//! is worse than one that is missed, so a boundary has to earn belief:
//!
//! 1. A candidate opens only on `working` → at rest, and only for a pane that
//!    has been seen `working` since the last turn it recorded.
//! 2. It has to survive a quiet window: `settle` with no status change and no
//!    new output.
//! 3. Any move back to `working` withdraws it; so do `blocked` and `unknown`.
//! 4. A turn is bound to the directory it started in, fixed on the edge into
//!    `working` and held until the turn resolves. A pane that moves while a
//!    turn is in flight abandons it.
//! 5. When the window closes the recorder corroborates. It may ask to wait,
//!    but only until `patience` runs out.
//!
//! The state machine takes sightings and the time, and emits signals. Times
//! and durations are nanoseconds on a clock that never runs backwards.
use crate::strings::{clone_opt, opt_text, owned, same, texts};
use vstd::prelude::*;

verus! {

/// Herdr's per-pane agent status.
#[derive(Debug, Clone, Copy, PartialEq, Eq, Structural)]
pub enum Status {
    Idle,
    Working,
    Blocked,
    Done,
    Unknown,
}

/// The status a word stands for; a word nobody knows is `Unknown`.
pub open spec fn status_named(raw: Seq<char>) -> Status {
    if raw == "idle"@ {
        Status::Idle
    } else if raw == "working"@ {
        Status::Working
    } else if raw == "blocked"@ {
        Status::Blocked
    } else if raw == "done"@ {
        Status::Done
    } else {
        Status::Unknown
    }
}

impl Status {
    /// The word herdr uses for this status.
    pub open spec fn name(self) -> Seq<char> {
        match self {
            Status::Idle => "idle"@,
            Status::Working => "working"@,
            Status::Blocked => "blocked"@,
            Status::Done => "done"@,
            Status::Unknown => "unknown"@,
        }
    }

    /// Not currently working, and finished rather than waiting.
    pub open spec fn at_rest(self) -> bool {
        self == Status::Idle || self == Status::Done
    }

    pub fn parse(raw: &str) -> (r: Self)
        ensures
            r == status_named(raw@),
    {
        if same(raw, "idle") {
            Status::Idle
        } else if same(raw, "working") {
            Status::Working
        } else if same(raw, "blocked") {
            Status::Blocked
        } else if same(raw, "done") {
            Status::Done
        } else {
            Status::Unknown
        }
    }

    pub fn as_str(&self) -> (r: &'static str)
        ensures
            r@ == self.name(),
    {
        match self {
            Status::Idle => "idle",
            Status::Working => "working",
            Status::Blocked => "blocked",
            Status::Done => "done",
            Status::Unknown => "unknown",
        }
    }

    /// `idle` and `done` are the two ways herdr says "not currently working".
    pub fn is_rest(&self) -> (r: bool)
        ensures
            r == self.at_rest(),
    {
        match self {
            Status::Idle | Status::Done => true,
            _ => false,
        }
    }
}

/// Reading a status back from its word gives the same status.
pub proof fn law_status_round_trip(s: Status)
    ensures
        status_named(s.name()) == s,
{
    reveal_strlit("idle");
    reveal_strlit("working");
    reveal_strlit("blocked");
    reveal_strlit("done");
    reveal_strlit("unknown");
    match s {
        Status::Idle => {},
        Status::Working => {
            assert("working"@[0] != "idle"@[0]);
        },
        Status::Blocked => {
            assert("blocked"@[0] != "idle"@[0]);
            assert("blocked"@[0] != "working"@[0]);
        },
        Status::Done => {
            assert("done"@[0] != "idle"@[0]);
            assert("done"@[0] != "working"@[0]);
            assert("done"@[0] != "blocked"@[0]);
        },
        Status::Unknown => {
            assert("unknown"@[0] != "idle"@[0]);
            assert("unknown"@[0] != "working"@[0]);
            assert("unknown"@[0] != "blocked"@[0]);
            assert("unknown"@[0] != "done"@[0]);
        },
    }
}

/// One look at a pane, however it arrived.
#[derive(Debug, Clone)]
pub struct Sighting {
    pub pane_id: String,
    pub agent: Option<String>,
    pub cwd: Option<String>,
    pub status: Status,
    /// Herdr's output counter for the pane. Bumps on every paint.
    pub revision: u64,
}

pub struct SightingModel {
    pub pane_id: Seq<char>,
    pub agent: Option<Seq<char>>,
    pub cwd: Option<Seq<char>>,
    pub status: Status,
    pub revision: u64,
}

impl View for Sighting {
    type V = SightingModel;

    open spec fn view(&self) -> SightingModel {
        SightingModel {
            pane_id: self.pane_id@,
            agent: opt_text(self.agent),
            cwd: opt_text(self.cwd),
            status: self.status,
            revision: self.revision,
        }
    }
}

/// Why a candidate boundary was taken back.
#[derive(Debug, Clone, Copy, PartialEq, Eq, Structural)]
pub enum Withdrawn {
    /// The pane went back to `working`: herdr's `done` was premature.
    StillWorking,
    /// The agent is waiting on the user, which is not the end of a turn.
    Blocked,
    /// Herdr lost track of the agent.
    LostAgent,
    /// The pane closed, exited, or released its agent.
    PaneGone,
    /// The pane changed directory, so the tree that would be recorded is not
    /// the tree the agent worked in.
    MovedDirectory,
    /// The boundary could not be corroborated within `patience`.
    Uncorroborated,
}

impl Withdrawn {
    pub open spec fn reason(self) -> Seq<char> {
        match self {
            Withdrawn::StillWorking => "the pane went back to working — false done"@,
            Withdrawn::Blocked => "the agent is blocked on the user"@,
            Withdrawn::LostAgent => "herdr lost track of the agent"@,
            Withdrawn::PaneGone => "the pane is gone"@,
            Withdrawn::MovedDirectory =>
                "the pane changed directory — the work was done somewhere else"@,
            Withdrawn::Uncorroborated => "it could not be corroborated within patience"@,
        }
    }

    pub fn as_str(&self) -> (r: &'static str)
        ensures
            r@ == self.reason(),
    {
        match self {
            Withdrawn::StillWorking => "the pane went back to working — false done",
            Withdrawn::Blocked => "the agent is blocked on the user",
            Withdrawn::LostAgent => "herdr lost track of the agent",
            Withdrawn::PaneGone => "the pane is gone",
            Withdrawn::MovedDirectory =>
                "the pane changed directory — the work was done somewhere else",
            Withdrawn::Uncorroborated => "it could not be corroborated within patience",
        }
    }
}

/// Something the recorder has to act on.
#[derive(Debug, Clone)]
pub enum Signal {
    /// A turn just started here.
    Started { pane_id: String, agent: Option<String>, cwd: Option<String> },
    /// A boundary is being considered.
    Candidate { pane_id: String },
    /// The quiet window elapsed. `agent` and `cwd` belong to the turn, not to
    /// whatever the pane says now. `noisy` means that the pane never went
    /// quiet and the window ran out of patience instead.
    Ripe { pane_id: String, agent: Option<String>, cwd: Option<String>, noisy: bool },
    /// A candidate was taken back before it could be recorded.
    Withdrawn { pane_id: String, why: Withdrawn },
}

pub enum SignalModel {
    Started { pane_id: Seq<char>, agent: Option<Seq<char>>, cwd: Option<Seq<char>> },
    Candidate { pane_id: Seq<char> },
    Ripe {
        pane_id: Seq<char>,
        agent: Option<Seq<char>>,
        cwd: Option<Seq<char>>,
        noisy: bool,
    },
    Withdrawn { pane_id: Seq<char>, why: Withdrawn },
}

impl View for Signal {
    type V = SignalModel;

    open spec fn view(&self) -> SignalModel {
        match *self {
            Signal::Started { pane_id, agent, cwd } => SignalModel::Started {
                pane_id: pane_id@,
                agent: opt_text(agent),
                cwd: opt_text(cwd),
            },
            Signal::Candidate { pane_id } => SignalModel::Candidate { pane_id: pane_id@ },
            Signal::Ripe { pane_id, agent, cwd, noisy } => SignalModel::Ripe {
                pane_id: pane_id@,
                agent: opt_text(agent),
                cwd: opt_text(cwd),
                noisy,
            },
            Signal::Withdrawn { pane_id, why } => SignalModel::Withdrawn { pane_id: pane_id@, why },
        }
    }
}

/// What a list of signals says.
pub open spec fn signals(v: Seq<Signal>) -> Seq<SignalModel> {
    v.map_values(|s: Signal| s@)
}

broadcast proof fn lemma_signals_push(v: Seq<Signal>, s: Signal)
    ensures
        #[trigger] signals(v.push(s)) == signals(v).push(s@),
{
    assert(signals(v.push(s)) =~= signals(v).push(s@));
}

/// The recorder's answer to a ripe boundary.
#[derive(Debug, Clone, Copy, PartialEq, Eq, Structural)]
pub enum Verdict {
    /// Dealt with: recorded, or deliberately not worth recording.
    Settled,
    /// The pane is still busy. Wait for more quiet.
    Wait,
    /// This is not a boundary after all. Drop it without recording.
    Drop,
}

#[derive(Debug, Clone, Copy, PartialEq, Eq, Structural)]
pub struct Tuning {
    /// Quiet required before a boundary is believed, in nanoseconds.
    pub settle: u128,
    /// How long to keep extending the quiet window, in nanoseconds.
    pub patience: u128,
}

impl Default for Tuning {
    fn default() -> (r: Self)
        ensures
            r.settle == 10 * 1_000_000_000,
            r.patience == 120 * 1_000_000_000,
    {
        Tuning { settle: 10_000_000_000, patience: 120_000_000_000 }
    }
}

#[derive(Debug)]
pub struct Candidate {
    agent: Option<String>,
    cwd: Option<String>,
    /// When the current quiet window closes.
    due: u128,
    /// The ceiling on the whole wait, corroboration retries included.
    deadline: u128,
    /// False once the boundary has been reported and its verdict is awaited.
    armed: bool,
    noisy: bool,
}

pub struct CandidateModel {
    pub agent: Option<Seq<char>>,
    pub cwd: Option<Seq<char>>,
    pub due: u128,
    pub deadline: u128,
    pub armed: bool,
    pub noisy: bool,
}

impl View for Candidate {
    type V = CandidateModel;

    closed spec fn view(&self) -> CandidateModel {
        CandidateModel {
            agent: opt_text(self.agent),
            cwd: opt_text(self.cwd),
            due: self.due,
            deadline: self.deadline,
            armed: self.armed,
            noisy: self.noisy,
        }
    }
}

/// What is remembered of one pane.
#[derive(Debug)]
pub struct Pane {
    id: String,
    agent: Option<String>,
    cwd: Option<String>,
    status: Status,
    revision: u64,
    /// A turn is in flight: seen `working` since the last one was dealt with.
    worked: bool,
    /// The turn in flight was abandoned by a move, until work starts anew.
    astray: bool,
    /// The directory the turn in flight started in.
    origin: Option<String>,
    candidate: Option<Candidate>,
    /// Read off the screen at the start of the turn. Never authoritative.
    prompt: Option<String>,
}

pub struct PaneModel {
    pub id: Seq<char>,
    pub agent: Option<Seq<char>>,
    pub cwd: Option<Seq<char>>,
    pub status: Status,
    pub revision: u64,
    pub worked: bool,
    pub astray: bool,
    pub origin: Option<Seq<char>>,
    pub candidate: Option<CandidateModel>,
    pub prompt: Option<Seq<char>>,
}

pub open spec fn candidate_view(c: Option<Candidate>) -> Option<CandidateModel> {
    match c {
        Some(c) => Some(c@),
        None => None,
    }
}

impl View for Pane {
    type V = PaneModel;

    closed spec fn view(&self) -> PaneModel {
        PaneModel {
            id: self.id@,
            agent: opt_text(self.agent),
            cwd: opt_text(self.cwd),
            status: self.status,
            revision: self.revision,
            worked: self.worked,
            astray: self.astray,
            origin: opt_text(self.origin),
            candidate: candidate_view(self.candidate),
            prompt: opt_text(self.prompt),
        }
    }
}

impl PaneModel {
    /// A candidate belongs to a turn in flight, keeps the directory the turn
    /// started in, and never waits past its deadline; a pane that is working has
    /// none. A pane with a turn in flight is still in the directory the turn
    /// started in.
    pub open spec fn wf(self) -> bool {
        &&& self.candidate matches Some(c) ==> {
            &&& self.worked
            &&& c.cwd == self.origin
            &&& c.due <= c.deadline
        }
        &&& self.status == Status::Working ==> self.candidate is None
        &&& self.worked ==> !self.astray && !has_moved(self.origin, self.cwd)
        &&& self.origin is Some ==> self.worked
    }
}

// ------------------------------------------------------------- one sighting

/// Whether a pane has left the directory `before`. A sighting that carries no
/// directory is not a move.
pub open spec fn has_moved(before: Option<Seq<char>>, after: Option<Seq<char>>) -> bool {
    before matches Some(b) && after matches Some(a) && a != b
}

fn moved(before: &Option<String>, after: &Option<String>) -> (r: bool)
    ensures
        r == has_moved(opt_text(*before), opt_text(*after)),
{
    match (before, after) {
        (Some(b), Some(a)) => !same(b.as_str(), a.as_str()),
        _ => false,
    }
}

pub open spec fn min(a: u128, b: u128) -> u128 {
    if a <= b {
        a
    } else {
        b
    }
}

/// The pane as it is first seen.
pub open spec fn first_seen(s: SightingModel) -> PaneModel {
    let working = s.status == Status::Working;
    PaneModel {
        id: s.pane_id,
        agent: s.agent,
        cwd: s.cwd,
        status: s.status,
        revision: s.revision,
        worked: working,
        astray: false,
        origin: if working {
            s.cwd
        } else {
            None
        },
        candidate: None,
        prompt: None,
    }
}

/// What a first look at a pane announces: a turn, if one is in flight.
pub open spec fn first_signals(s: SightingModel) -> Seq<SignalModel> {
    if s.status == Status::Working {
        seq![SignalModel::Started { pane_id: s.pane_id, agent: s.agent, cwd: s.cwd }]
    } else {
        Seq::empty()
    }
}

/// The pane with what the sighting says about agent, directory, output and
/// status taken over. What a sighting leaves out stays as it was.
pub open spec fn refreshed(p: PaneModel, s: SightingModel) -> PaneModel {
    PaneModel {
        agent: if s.agent is Some {
            s.agent
        } else {
            p.agent
        },
        cwd: if s.cwd is Some {
            s.cwd
        } else {
            p.cwd
        },
        status: s.status,
        revision: if s.revision > p.revision {
            s.revision
        } else {
            p.revision
        },
        ..p
    }
}

/// The pane with its turn in flight given up.
pub open spec fn without_turn(p: PaneModel) -> PaneModel {
    PaneModel { worked: false, origin: None, candidate: None, ..p }
}

/// The signal that takes back the pane's candidate, when it has one.
pub open spec fn taken_back(p: PaneModel, why: Withdrawn) -> Seq<SignalModel> {
    if p.candidate is Some {
        seq![SignalModel::Withdrawn { pane_id: p.id, why }]
    } else {
        Seq::empty()
    }
}

/// Whether the pane left the directory its turn in flight started in.
pub open spec fn strays(p: PaneModel, s: SightingModel) -> bool {
    p.worked && has_moved(p.origin, refreshed(p, s).cwd)
}

/// The first half of a sighting: take over what it says, give the turn up if
/// the pane moved, and note the directory if the turn had none yet.
pub open spec fn settled_in(p: PaneModel, s: SightingModel) -> PaneModel {
    let r = refreshed(p, s);
    if strays(p, s) {
        PaneModel { astray: true, ..without_turn(r) }
    } else if r.worked && r.origin is None && r.candidate is None {
        PaneModel { origin: r.cwd, ..r }
    } else {
        r
    }
}

/// A candidate that opens at `now` for the turn in flight.
pub open spec fn opened(t: Tuning, now: u128, p: PaneModel) -> CandidateModel {
    let deadline = (now + t.patience) as u128;
    CandidateModel {
        agent: p.agent,
        cwd: p.origin,
        due: min((now + t.settle) as u128, deadline),
        deadline,
        armed: true,
        noisy: false,
    }
}

/// A waiting candidate after the pane painted again while at rest.
pub open spec fn repainted(t: Tuning, now: u128, c: CandidateModel) -> CandidateModel {
    if now < c.deadline {
        CandidateModel { due: min((now + t.settle) as u128, c.deadline), ..c }
    } else {
        CandidateModel { noisy: true, ..c }
    }
}

/// What one more sighting makes of a pane that is already known.
pub open spec fn seen_again(t: Tuning, now: u128, p: PaneModel, s: SightingModel) -> PaneModel {
    let q = settled_in(p, s);
    match s.status {
        Status::Working => if p.status != Status::Working || (!q.worked && !q.astray) {
            PaneModel {
                worked: true,
                astray: false,
                origin: if q.worked {
                    q.origin
                } else {
                    q.cwd
                },
                candidate: None,
                ..q
            }
        } else {
            PaneModel { candidate: None, ..q }
        },
        Status::Blocked => PaneModel { candidate: None, ..q },
        Status::Unknown => without_turn(q),
        Status::Idle | Status::Done => if p.status == Status::Working && q.worked
            && q.candidate is None {
            PaneModel { candidate: Some(opened(t, now, q)), ..q }
        } else {
            match q.candidate {
                Some(c) if s.revision > p.revision && c.armed => PaneModel {
                    candidate: Some(repainted(t, now, c)),
                    ..q
                },
                _ => q,
            }
        },
    }
}

/// What one more sighting of a known pane announces.
pub open spec fn seen_signals(t: Tuning, now: u128, p: PaneModel, s: SightingModel) -> Seq<
    SignalModel,
> {
    let q = settled_in(p, s);
    let gave_up = if strays(p, s) {
        taken_back(p, Withdrawn::MovedDirectory)
    } else {
        Seq::empty()
    };
    match s.status {
        Status::Working => gave_up + taken_back(q, Withdrawn::StillWorking) + if p.status
            != Status::Working {
            seq![SignalModel::Started { pane_id: q.id, agent: q.agent, cwd: q.cwd }]
        } else {
            Seq::empty()
        },
        Status::Blocked => gave_up + taken_back(q, Withdrawn::Blocked),
        Status::Unknown => gave_up + taken_back(q, Withdrawn::LostAgent),
        Status::Idle | Status::Done => if p.status == Status::Working && q.worked
            && q.candidate is None {
            gave_up + seq![SignalModel::Candidate { pane_id: q.id }]
        } else {
            gave_up
        },
    }
}

impl Pane {
    fn new(sighting: &Sighting) -> (r: Self)
        ensures
            r@ == first_seen(sighting@),
            r@.wf(),
    {
        let working: bool = sighting.status == Status::Working;
        Pane {
            id: sighting.pane_id.clone(),
            agent: clone_opt(&sighting.agent),
            cwd: clone_opt(&sighting.cwd),
            status: sighting.status,
            revision: sighting.revision,
            worked: working,
            astray: false,
            origin: if working {
                clone_opt(&sighting.cwd)
            } else {
                None
            },
            candidate: None,
            prompt: None,
        }
    }

    /// Take back the candidate, if there is one, and say so.
    fn take_back(&mut self, why: Withdrawn, out: &mut Vec<Signal>)
        ensures
            final(self)@ == (PaneModel { candidate: None, ..old(self)@ }),
            signals(final(out)@) == signals(old(out)@) + taken_back(old(self)@, why),
    {
        broadcast use lemma_signals_push;

        if self.candidate.is_some() {
            self.candidate = None;
            out.push(Signal::Withdrawn { pane_id: self.id.clone(), why });
        }
        proof {
            assert(signals(out@) =~= signals(old(out)@) + taken_back(old(self)@, why));
        }
    }

    /// The first half of a sighting: everything before the status decides.
    fn settle_in(&mut self, sighting: &Sighting, out: &mut Vec<Signal>)
        requires
            old(self)@.wf(),
        ensures
            final(self)@ == settled_in(old(self)@, sighting@),
            signals(final(out)@) == signals(old(out)@) + if strays(old(self)@, sighting@) {
                taken_back(old(self)@, Withdrawn::MovedDirectory)
            } else {
                Seq::empty()
            },
    {
        if sighting.agent.is_some() {
            self.agent = clone_opt(&sighting.agent);
        }
        if sighting.cwd.is_some() {
            self.cwd = clone_opt(&sighting.cwd);
        }
        if sighting.revision > self.revision {
            self.revision = sighting.revision;
        }
        self.status = sighting.status;
        proof {
            assert(self@ == refreshed(old(self)@, sighting@));
        }
        if self.worked && moved(&self.origin, &self.cwd) {
            self.take_back(Withdrawn::MovedDirectory, out);
            self.worked = false;
            self.origin = None;
            self.astray = true;
        } else {
            if self.worked && self.origin.is_none() && self.candidate.is_none() {
                self.origin = clone_opt(&self.cwd);
            }
            proof {
                assert(signals(out@) =~= signals(old(out)@) + Seq::<SignalModel>::empty());
            }
        }
    }

    /// One more look at a pane that is already known.
    fn see(&mut self, tuning: &Tuning, now: u128, sighting: &Sighting) -> (r: Vec<Signal>)
        requires
            old(self)@.wf(),
            old(self)@.id == sighting@.pane_id,
            now + tuning.settle <= u128::MAX,
            now + tuning.patience <= u128::MAX,
        ensures
            final(self)@ == seen_again(*tuning, now, old(self)@, sighting@),
            final(self)@.wf(),
            signals(r@) == seen_signals(*tuning, now, old(self)@, sighting@),
    {
        broadcast use lemma_signals_push;

        let mut out: Vec<Signal> = Vec::new();
        proof {
            assert(signals(out@) =~= Seq::<SignalModel>::empty());
        }
        let was: Status = self.status;
        let painted: bool = sighting.revision > self.revision;
        self.settle_in(sighting, &mut out);
        let ghost q = self@;
        let ghost gave_up = if strays(old(self)@, sighting@) {
            taken_back(old(self)@, Withdrawn::MovedDirectory)
        } else {
            Seq::empty()
        };
        proof {
            assert(signals(out@) =~= gave_up);
        }
        match sighting.status {
            Status::Working => {
                self.take_back(Withdrawn::StillWorking, &mut out);
                if was != Status::Working || (!self.worked && !self.astray) {
                    if !self.worked {
                        self.origin = clone_opt(&self.cwd);
                    }
                    self.worked = true;
                    self.astray = false;
                }
                if was != Status::Working {
                    out.push(
                        Signal::Started {
                            pane_id: self.id.clone(),
                            agent: clone_opt(&self.agent),
                            cwd: clone_opt(&self.cwd),
                        },
                    );
                }
            },
            Status::Blocked => {
                self.take_back(Withdrawn::Blocked, &mut out);
            },
            Status::Unknown => {
                self.take_back(Withdrawn::LostAgent, &mut out);
                self.worked = false;
                self.origin = None;
            },
            Status::Idle | Status::Done => {
                if was == Status::Working && self.worked && self.candidate.is_none() {
                    let deadline: u128 = now + tuning.patience;
                    let due: u128 = now + tuning.settle;
                    self.candidate = Some(
                        Candidate {
                            agent: clone_opt(&self.agent),
                            cwd: clone_opt(&self.origin),
                            due: if due <= deadline {
                                due
                            } else {
                                deadline
                            },
                            deadline,
                            armed: true,
                            noisy: false,
                        },
                    );
                    out.push(Signal::Candidate { pane_id: self.id.clone() });
                } else if painted {
                    match self.candidate.take() {
                        Some(mut c) => {
                            if c.armed {
                                if now < c.deadline {
                                    let due: u128 = now + tuning.settle;
                                    c.due = if due <= c.deadline {
                                        due
                                    } else {
                                        c.deadline
                                    };
                                } else {
                                    c.noisy = true;
                                }
                            }
                            self.candidate = Some(c);
                        },
                        None => {},
                    }
                }
            },
        }
        proof {
            assert(signals(out@) =~= seen_signals(*tuning, now, old(self)@, sighting@));
        }
        out
    }
}

// ------------------------------------------------------------- the detector

/// The state machine. One per recorder.
#[derive(Debug)]
pub struct Detector {
    tuning: Tuning,
    /// Every pane seen, in the order they were first seen. No id occurs twice.
    panes: Vec<Pane>,
}

pub struct DetectorModel {
    pub tuning: Tuning,
    pub panes: Seq<PaneModel>,
}

pub closed spec fn pane_views(v: Seq<Pane>) -> Seq<PaneModel> {
    v.map_values(|p: Pane| p@)
}

impl View for Detector {
    type V = DetectorModel;

    closed spec fn view(&self) -> DetectorModel {
        DetectorModel { tuning: self.tuning, panes: pane_views(self.panes@) }
    }
}

/// Where the pane with this id stands, or the number of panes when it is not
/// known.
pub open spec fn index_of(panes: Seq<PaneModel>, id: Seq<char>) -> int
    decreases panes.len(),
{
    if panes.len() == 0 {
        0
    } else if panes[0].id == id {
        0
    } else {
        1 + index_of(panes.drop_first(), id)
    }
}

/// `index_of` finds the first pane with the id.
pub proof fn lemma_index_of(panes: Seq<PaneModel>, id: Seq<char>)
    ensures
        0 <= index_of(panes, id) <= panes.len(),
        index_of(panes, id) < panes.len() ==> panes[index_of(panes, id)].id == id,
        forall|j: int| 0 <= j < index_of(panes, id) ==> (#[trigger] panes[j]).id != id,
    decreases panes.len(),
{
    if panes.len() > 0 && panes[0].id != id {
        let rest = panes.drop_first();
        lemma_index_of(rest, id);
        assert forall|j: int| 0 <= j < index_of(panes, id) implies (#[trigger] panes[j]).id
            != id by {
            if j > 0 {
                assert(panes[j] == rest[j - 1]);
            }
        }
        if index_of(panes, id) < panes.len() {
            assert(panes[index_of(panes, id)] == rest[index_of(rest, id)]);
        }
    }
}

/// The first position with the id is where `index_of` points.
pub proof fn lemma_index_unique(panes: Seq<PaneModel>, id: Seq<char>, k: int)
    requires
        0 <= k <= panes.len(),
        k < panes.len() ==> panes[k].id == id,
        forall|j: int| 0 <= j < k ==> (#[trigger] panes[j]).id != id,
    ensures
        index_of(panes, id) == k,
    decreases panes.len(),
{
    lemma_index_of(panes, id);
    let i = index_of(panes, id);
    if i < k {
        assert(panes[i].id == id);
    }
    if k < i {
        assert(panes[k].id == id);
    }
}

pub open spec fn known(panes: Seq<PaneModel>, id: Seq<char>) -> bool {
    index_of(panes, id) < panes.len()
}

impl DetectorModel {
    pub open spec fn wf(self) -> bool {
        &&& forall|i: int| 0 <= i < self.panes.len() ==> (#[trigger] self.panes[i]).wf()
        &&& forall|i: int, j: int|
            0 <= i < j < self.panes.len() ==> (#[trigger] self.panes[i]).id != (
            #[trigger] self.panes[j]).id
    }

    /// Whether the windows that open at `now` end at a time that can be told.
    pub open spec fn in_time(self, now: u128) -> bool {
        now + self.tuning.settle <= u128::MAX && now + self.tuning.patience <= u128::MAX
    }

    /// One more look at a pane.
    pub open spec fn observe(self, now: u128, s: SightingModel) -> DetectorModel {
        let i = index_of(self.panes, s.pane_id);
        DetectorModel {
            panes: if i < self.panes.len() {
                self.panes.update(i, seen_again(self.tuning, now, self.panes[i], s))
            } else {
                self.panes.push(first_seen(s))
            },
            ..self
        }
    }

    pub open spec fn observe_signals(self, now: u128, s: SightingModel) -> Seq<SignalModel> {
        let i = index_of(self.panes, s.pane_id);
        if i < self.panes.len() {
            seen_signals(self.tuning, now, self.panes[i], s)
        } else {
            first_signals(s)
        }
    }
}

/// Whether the pane's window has closed and nobody was told yet.
pub open spec fn is_due(p: PaneModel, now: u128) -> bool {
    p.candidate matches Some(c) && c.armed && c.due <= now
}

/// When the window of a boundary that is still to be reported closes.
pub open spec fn window_end(p: PaneModel) -> Option<u128> {
    match p.candidate {
        Some(c) if c.armed => Some(c.due),
        _ => None,
    }
}

/// A pane after its boundary was reported.
pub open spec fn fired(p: PaneModel, now: u128) -> PaneModel {
    match p.candidate {
        Some(c) if is_due(p, now) => PaneModel {
            candidate: Some(CandidateModel { armed: false, ..c }),
            ..p
        },
        _ => p,
    }
}

/// The report for a pane whose window has closed.
pub open spec fn ripe(p: PaneModel, now: u128) -> SignalModel {
    let c = p.candidate->0;
    SignalModel::Ripe {
        pane_id: p.id,
        agent: c.agent,
        cwd: c.cwd,
        noisy: c.noisy || now >= c.deadline,
    }
}

/// The reports for all panes whose window has closed, in pane order.
pub open spec fn ripe_signals(panes: Seq<PaneModel>, now: u128) -> Seq<SignalModel>
    decreases panes.len(),
{
    if panes.len() == 0 {
        Seq::empty()
    } else {
        let before = ripe_signals(panes.drop_last(), now);
        if is_due(panes.last(), now) {
            before.push(ripe(panes.last(), now))
        } else {
            before
        }
    }
}

impl DetectorModel {
    pub open spec fn tick(self, now: u128) -> DetectorModel {
        DetectorModel { panes: self.panes.map_values(|p: PaneModel| fired(p, now)), ..self }
    }

    /// The pane after the recorder's answer to its boundary.
    pub open spec fn resolved(self, now: u128, p: PaneModel, verdict: Verdict) -> PaneModel {
        match verdict {
            Verdict::Settled => PaneModel { prompt: None, ..without_turn(p) },
            Verdict::Drop => without_turn(p),
            Verdict::Wait => match p.candidate {
                None => p,
                Some(c) => if now >= c.deadline {
                    without_turn(p)
                } else {
                    PaneModel {
                        candidate: Some(
                            CandidateModel {
                                armed: true,
                                due: min((now + self.tuning.settle) as u128, c.deadline),
                                noisy: false,
                                ..c
                            },
                        ),
                        ..p
                    }
                },
            },
        }
    }

    pub open spec fn resolve(self, now: u128, id: Seq<char>, verdict: Verdict) -> DetectorModel {
        let i = index_of(self.panes, id);
        if i < self.panes.len() {
            DetectorModel {
                panes: self.panes.update(i, self.resolved(now, self.panes[i], verdict)),
                ..self
            }
        } else {
            self
        }
    }

    /// Waiting past the deadline is giving up, and says so.
    pub open spec fn resolve_signals(self, now: u128, id: Seq<char>, verdict: Verdict) -> Seq<
        SignalModel,
    > {
        let i = index_of(self.panes, id);
        if i < self.panes.len() && verdict == Verdict::Wait && (self.panes[i].candidate matches Some(
            c,
        ) && now >= c.deadline) {
            seq![SignalModel::Withdrawn { pane_id: id, why: Withdrawn::Uncorroborated }]
        } else {
            Seq::empty()
        }
    }

    pub open spec fn forget(self, id: Seq<char>) -> DetectorModel {
        let i = index_of(self.panes, id);
        DetectorModel {
            panes: if i < self.panes.len() {
                self.panes.remove(i)
            } else {
                self.panes
            },
            ..self
        }
    }

    pub open spec fn forget_signals(self, id: Seq<char>) -> Seq<SignalModel> {
        let i = index_of(self.panes, id);
        if i < self.panes.len() {
            taken_back(self.panes[i], Withdrawn::PaneGone)
        } else {
            Seq::empty()
        }
    }

    /// The ids of every pane, in the order they were first seen.
    pub open spec fn ids(self) -> Seq<Seq<char>> {
        self.panes.map_values(|p: PaneModel| p.id)
    }
}

impl Detector {
    pub fn new(tuning: Tuning) -> (r: Self)
        ensures
            r@ == (DetectorModel { tuning, panes: Seq::empty() }),
            r@.wf(),
    {
        let r = Detector { tuning, panes: Vec::new() };
        proof {
            assert(r@.panes =~= Seq::<PaneModel>::empty());
        }
        r
    }

    /// Where the pane with this id stands, or the number of panes.
    fn find(&self, id: &str) -> (r: usize)
        ensures
            r == index_of(self@.panes, id@),
            r <= self.panes@.len(),
            self@.panes.len() == self.panes@.len(),
    {
        let mut i: usize = 0;
        while i < self.panes.len()
            invariant
                i <= self.panes@.len(),
                forall|j: int| 0 <= j < i ==> (#[trigger] self@.panes[j]).id != id@,
            decreases self.panes@.len() - i,
        {
            proof {
                assert(self@.panes[i as int] == self.panes@[i as int]@);
            }
            if same(self.panes[i].id.as_str(), id) {
                proof {
                    lemma_index_unique(self@.panes, id@, i as int);
                }
                return i;
            }
            i += 1;
        }
        proof {
            lemma_index_unique(self@.panes, id@, i as int);
        }
        i
    }

    /// Feed one look at a pane.
    pub fn observe(&mut self, now: u128, sighting: &Sighting) -> (r: Vec<Signal>)
        requires
            old(self)@.wf(),
            old(self)@.in_time(now),
        ensures
            final(self)@ == old(self)@.observe(now, sighting@),
            final(self)@.wf(),
            signals(r@) == old(self)@.observe_signals(now, sighting@),
    {
        broadcast use lemma_signals_push;

        let i: usize = self.find(sighting.pane_id.as_str());
        proof {
            lemma_index_of(self@.panes, sighting@.pane_id);
        }
        if i < self.panes.len() {
            proof {
                assert(self@.panes[i as int] == self.panes@[i as int]@);
            }
            let tuning: Tuning = self.tuning;
            let out: Vec<Signal> = self.panes[i].see(&tuning, now, sighting);
            proof {
                assert(self@.panes =~= old(self)@.observe(now, sighting@).panes);
                lemma_update_wf(old(self)@, i as int, self@.panes[i as int]);
            }
            out
        } else {
            let mut out: Vec<Signal> = Vec::new();
            proof {
                assert(signals(out@) =~= Seq::<SignalModel>::empty());
            }
            if sighting.status == Status::Working {
                out.push(
                    Signal::Started {
                        pane_id: sighting.pane_id.clone(),
                        agent: clone_opt(&sighting.agent),
                        cwd: clone_opt(&sighting.cwd),
                    },
                );
                proof {
                    assert(signals(out@) =~= first_signals(sighting@));
                }
            }
            self.panes.push(Pane::new(sighting));
            proof {
                assert(self@.panes =~= old(self)@.observe(now, sighting@).panes);
                assert forall|k: int| 0 <= k < self@.panes.len() implies (
                #[trigger] self@.panes[k]).wf() by {
                    if k < old(self)@.panes.len() {
                        assert(self@.panes[k] == old(self)@.panes[k]);
                    }
                }
            }
            out
        }
    }
}

/// Replacing a pane by one with the same id keeps the ids apart.
proof fn lemma_update_wf(d: DetectorModel, i: int, p: PaneModel)
    requires
        d.wf(),
        0 <= i < d.panes.len(),
        p.id == d.panes[i].id,
        p.wf(),
    ensures
        (DetectorModel { panes: d.panes.update(i, p), ..d }).wf(),
{
    let n = d.panes.update(i, p);
    assert forall|a: int, b: int| 0 <= a < b < n.len() implies (#[trigger] n[a]).id != (
    #[trigger] n[b]).id by {
        assert(d.panes[a].id != d.panes[b].id);
    }
}

impl Pane {
    /// Report the boundary if its window has closed.
    fn fire(&mut self, now: u128, out: &mut Vec<Signal>)
        requires
            old(self)@.wf(),
        ensures
            final(self)@ == fired(old(self)@, now),
            final(self)@.wf(),
            signals(final(out)@) == if is_due(old(self)@, now) {
                signals(old(out)@).push(ripe(old(self)@, now))
            } else {
                signals(old(out)@)
            },
    {
        broadcast use lemma_signals_push;

        match self.candidate.take() {
            Some(mut c) => {
                if c.armed && c.due <= now {
                    c.armed = false;
                    out.push(
                        Signal::Ripe {
                            pane_id: self.id.clone(),
                            agent: clone_opt(&c.agent),
                            cwd: clone_opt(&c.cwd),
                            noisy: c.noisy || now >= c.deadline,
                        },
                    );
                }
                self.candidate = Some(c);
            },
            None => {},
        }
    }

    /// Give the turn in flight up.
    fn end_turn(&mut self)
        ensures
            final(self)@ == without_turn(old(self)@),
    {
        self.candidate = None;
        self.worked = false;
        self.origin = None;
    }

    /// Take the recorder's answer. True when waiting turned into giving up.
    fn answer(&mut self, tuning: &Tuning, now: u128, verdict: Verdict) -> (gave_up: bool)
        requires
            old(self)@.wf(),
            now + tuning.settle <= u128::MAX,
        ensures
            final(self)@ == (DetectorModel { tuning: *tuning, panes: Seq::empty() }).resolved(
                now,
                old(self)@,
                verdict,
            ),
            final(self)@.wf(),
            gave_up == (verdict == Verdict::Wait && (old(self)@.candidate matches Some(c) && now
                >= c.deadline)),
    {
        match verdict {
            Verdict::Settled => {
                self.end_turn();
                self.prompt = None;
                false
            },
            Verdict::Drop => {
                self.end_turn();
                false
            },
            Verdict::Wait => {
                match self.candidate.take() {
                    None => false,
                    Some(mut c) => {
                        if now >= c.deadline {
                            self.end_turn();
                            true
                        } else {
                            let due: u128 = now + tuning.settle;
                            c.armed = true;
                            c.due = if due <= c.deadline {
                                due
                            } else {
                                c.deadline
                            };
                            c.noisy = false;
                            self.candidate = Some(c);
                            false
                        }
                    },
                }
            },
        }
    }
}

impl Detector {
    /// Fire any candidate whose quiet window has closed.
    pub fn tick(&mut self, now: u128) -> (r: Vec<Signal>)
        requires
            old(self)@.wf(),
        ensures
            final(self)@ == old(self)@.tick(now),
            final(self)@.wf(),
            signals(r@) == ripe_signals(old(self)@.panes, now),
    {
        let mut out: Vec<Signal> = Vec::new();
        let mut i: usize = 0;
        let ghost before = self@.panes;
        proof {
            assert(signals(out@) =~= ripe_signals(before.take(0), now));
        }
        while i < self.panes.len()
            invariant
                i <= self.panes@.len(),
                before == old(self)@.panes,
                old(self)@.wf(),
                self.tuning == old(self)@.tuning,
                self.panes@.len() == before.len(),
                forall|j: int| 0 <= j < i ==> #[trigger] self.panes@[j]@ == fired(before[j], now),
                forall|j: int| i <= j < before.len() ==> #[trigger] self.panes@[j]@ == before[j],
                signals(out@) == ripe_signals(before.take(i as int), now),
            decreases self.panes@.len() - i,
        {
            proof {
                assert(before.take(i + 1).drop_last() =~= before.take(i as int));
                assert(before.take(i + 1).last() == before[i as int]);
                assert(self.panes@[i as int]@ == before[i as int]);
                assert(before[i as int].wf());
            }
            self.panes[i].fire(now, &mut out);
            i += 1;
        }
        proof {
            assert(before.take(before.len() as int) =~= before);
            assert(self@.panes =~= old(self)@.tick(now).panes);
            lemma_tick_wf(old(self)@, now);
        }
        out
    }

    /// When the recorder next has to wake up, if it has anything pending: the
    /// earliest end of a window that is still to be reported.
    pub fn next_deadline(&self) -> (r: Option<u128>)
        ensures
            match r {
                None => forall|i: int|
                    0 <= i < self@.panes.len() ==> window_end(#[trigger] self@.panes[i]) is None,
                Some(due) => {
                    &&& exists|i: int|
                        0 <= i < self@.panes.len() && window_end(#[trigger] self@.panes[i]) == Some(
                            due,
                        )
                    &&& forall|i: int|
                        0 <= i < self@.panes.len() && window_end(
                            #[trigger] self@.panes[i],
                        ) is Some ==> due <= window_end(self@.panes[i])->0
                },
            },
    {
        let mut best: Option<u128> = None;
        let mut i: usize = 0;
        while i < self.panes.len()
            invariant
                i <= self.panes@.len() == self@.panes.len(),
                match best {
                    None => forall|j: int|
                        0 <= j < i ==> window_end(#[trigger] self@.panes[j]) is None,
                    Some(due) => {
                        &&& exists|j: int|
                            0 <= j < i && window_end(#[trigger] self@.panes[j]) == Some(due)
                        &&& forall|j: int|
                            0 <= j < i && window_end(#[trigger] self@.panes[j]) is Some ==> due
                                <= window_end(self@.panes[j])->0
                    },
                },
            decreases self.panes@.len() - i,
        {
            let ghost was = best;
            proof {
                assert(self@.panes[i as int] == self.panes@[i as int]@);
            }
            match &self.panes[i].candidate {
                Some(c) => {
                    if c.armed {
                        match best {
                            Some(due) => {
                                if c.due < due {
                                    best = Some(c.due);
                                }
                            },
                            None => {
                                best = Some(c.due);
                            },
                        }
                    }
                },
                None => {},
            }
            proof {
                if best != was {
                    assert(window_end(self@.panes[i as int]) == best);
                } else if best is Some {
                    let j = choose|j: int|
                        0 <= j < i && window_end(#[trigger] self@.panes[j]) == was;
                    assert(window_end(self@.panes[j]) == best);
                }
            }
            i += 1;
        }
        best
    }

    /// Answer a ripe boundary, and say what the answer implies.
    #[must_use]
    pub fn resolve(&mut self, now: u128, pane_id: &str, verdict: Verdict) -> (r: Vec<Signal>)
        requires
            old(self)@.wf(),
            old(self)@.in_time(now),
        ensures
            final(self)@ == old(self)@.resolve(now, pane_id@, verdict),
            final(self)@.wf(),
            signals(r@) == old(self)@.resolve_signals(now, pane_id@, verdict),
    {
        broadcast use lemma_signals_push;

        let mut out: Vec<Signal> = Vec::new();
        proof {
            assert(signals(out@) =~= Seq::<SignalModel>::empty());
            lemma_index_of(self@.panes, pane_id@);
        }
        let i: usize = self.find(pane_id);
        if i < self.panes.len() {
            proof {
                assert(self@.panes[i as int] == self.panes@[i as int]@);
            }
            let tuning: Tuning = self.tuning;
            let gave_up: bool = self.panes[i].answer(&tuning, now, verdict);
            if gave_up {
                out.push(
                    Signal::Withdrawn { pane_id: owned(pane_id), why: Withdrawn::Uncorroborated },
                );
            }
            proof {
                assert(self@.panes =~= old(self)@.resolve(now, pane_id@, verdict).panes);
                lemma_update_wf(old(self)@, i as int, self@.panes[i as int]);
                assert(signals(out@) =~= old(self)@.resolve_signals(now, pane_id@, verdict));
            }
        }
        out
    }

    /// Forget a pane that closed, exited, or released its agent.
    pub fn forget(&mut self, pane_id: &str) -> (r: Vec<Signal>)
        requires
            old(self)@.wf(),
        ensures
            final(self)@ == old(self)@.forget(pane_id@),
            final(self)@.wf(),
            signals(r@) == old(self)@.forget_signals(pane_id@),
    {
        broadcast use lemma_signals_push;

        let mut out: Vec<Signal> = Vec::new();
        proof {
            assert(signals(out@) =~= Seq::<SignalModel>::empty());
            lemma_index_of(self@.panes, pane_id@);
        }
        let i: usize = self.find(pane_id);
        if i < self.panes.len() {
            proof {
                assert(self@.panes[i as int] == self.panes@[i as int]@);
            }
            let pane: Pane = self.panes.remove(i);
            if pane.candidate.is_some() {
                out.push(Signal::Withdrawn { pane_id: owned(pane_id), why: Withdrawn::PaneGone });
            }
            proof {
                assert(self@.panes =~= old(self)@.forget(pane_id@).panes);
                assert(signals(out@) =~= old(self)@.forget_signals(pane_id@));
                lemma_forget_wf(old(self)@, pane_id@);
            }
        }
        out
    }

    /// Store the prompt captured at the start of a turn. Failing to capture
    /// one keeps whatever was there.
    pub fn set_prompt(&mut self, pane_id: &str, prompt: Option<String>)
        requires
            old(self)@.wf(),
        ensures
            final(self)@ == ({
                let i = index_of(old(self)@.panes, pane_id@);
                if i < old(self)@.panes.len() && prompt is Some {
                    DetectorModel {
                        panes: old(self)@.panes.update(
                            i,
                            PaneModel { prompt: opt_text(prompt), ..old(self)@.panes[i] },
                        ),
                        ..old(self)@
                    }
                } else {
                    old(self)@
                }
            }),
            final(self)@.wf(),
    {
        proof {
            lemma_index_of(self@.panes, pane_id@);
        }
        let i: usize = self.find(pane_id);
        if i < self.panes.len() && prompt.is_some() {
            proof {
                assert(self@.panes[i as int] == self.panes@[i as int]@);
            }
            let ghost p = PaneModel { prompt: opt_text(prompt), ..self@.panes[i as int] };
            self.panes[i].prompt = prompt;
            proof {
                assert(self@.panes =~= old(self)@.panes.update(i as int, p));
                lemma_update_wf(old(self)@, i as int, p);
            }
        }
    }

    /// The prompt held for this pane's turn.
    pub fn prompt(&self, pane_id: &str) -> (r: Option<&str>)
        ensures
            crate::strings::opt_str(r) == if known(self@.panes, pane_id@) {
                self@.panes[index_of(self@.panes, pane_id@)].prompt
            } else {
                None
            },
    {
        let i: usize = self.find(pane_id);
        if i < self.panes.len() {
            proof {
                assert(self@.panes[i as int] == self.panes@[i as int]@);
            }
            match &self.panes[i].prompt {
                Some(p) => Some(p.as_str()),
                None => None,
            }
        } else {
            None
        }
    }

    /// How many panes are known.
    pub fn pane_count(&self) -> (r: usize)
        ensures
            r == self@.panes.len(),
    {
        self.panes.len()
    }

    /// The id of every pane that is known.
    pub fn pane_ids(&self) -> (r: Vec<String>)
        ensures
            texts(r@) == self@.ids(),
    {
        let mut out: Vec<String> = Vec::new();
        let mut i: usize = 0;
        while i < self.panes.len()
            invariant
                i <= self.panes@.len() == self@.panes.len(),
                out@.len() == i,
                forall|j: int| 0 <= j < i ==> #[trigger] out@[j]@ == self@.panes[j].id,
            decreases self.panes@.len() - i,
        {
            proof {
                assert(self@.panes[i as int] == self.panes@[i as int]@);
            }
            out.push(self.panes[i].id.clone());
            i += 1;
        }
        proof {
            assert(texts(out@) =~= self@.ids());
        }
        out
    }

    /// Whether a candidate is currently pending for this pane.
    pub fn is_pending(&self, pane_id: &str) -> (r: bool)
        ensures
            r == (known(self@.panes, pane_id@) && self@.panes[index_of(
                self@.panes,
                pane_id@,
            )].candidate is Some),
    {
        let i: usize = self.find(pane_id);
        if i < self.panes.len() {
            proof {
                assert(self@.panes[i as int] == self.panes@[i as int]@);
            }
            self.panes[i].candidate.is_some()
        } else {
            false
        }
    }
}

proof fn lemma_tick_wf(d: DetectorModel, now: u128)
    requires
        d.wf(),
    ensures
        d.tick(now).wf(),
{
    let n = d.tick(now).panes;
    assert forall|a: int, b: int| 0 <= a < b < n.len() implies (#[trigger] n[a]).id != (
    #[trigger] n[b]).id by {
        assert(d.panes[a].id != d.panes[b].id);
    }
    assert forall|a: int| 0 <= a < n.len() implies (#[trigger] n[a]).wf() by {
        assert(d.panes[a].wf());
    }
}

proof fn lemma_forget_wf(d: DetectorModel, id: Seq<char>)
    requires
        d.wf(),
    ensures
        d.forget(id).wf(),
{
    lemma_index_of(d.panes, id);
    let i = index_of(d.panes, id);
    if i < d.panes.len() {
        let n = d.forget(id).panes;
        assert forall|a: int, b: int| 0 <= a < b < n.len() implies (#[trigger] n[a]).id != (
        #[trigger] n[b]).id by {
            let x = if a < i {
                a
            } else {
                a + 1
            };
            let y = if b < i {
                b
            } else {
                b + 1
            };
            assert(n[a] == d.panes[x]);
            assert(n[b] == d.panes[y]);
        }
        assert forall|a: int| 0 <= a < n.len() implies (#[trigger] n[a]).wf() by {
            let x = if a < i {
                a
            } else {
                a + 1
            };
            assert(n[a] == d.panes[x]);
        }
    }
}

} // verus!
