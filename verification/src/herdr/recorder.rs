//! The recorder: herdr's events in, turns on a timeline out.
//!
//! The detector decides when a turn ended; this part maps events to sightings,
//! signals to errands, and panes to worktrees and timelines. Whoever runs it
//! performs the errands. One pane's failure never ends the watch.
use crate::herdr::detect::{
    index_of, known, signals, window_end, Detector, DetectorModel, PaneModel, Sighting, Signal,
    SignalModel, SightingModel, Tuning, Verdict,
};
use crate::herdr::json::{flag_in, json_flag, json_member, member, text_member};
use crate::herdr::log::{remarks, Level, Remark};
use crate::herdr::prompt::{last_prompt, scrape};
use crate::herdr::session::{sighted, sighting, sighting_view, sightings, Processes};
use crate::herdr::settle::{about, settle_wf, settles, Settle, SettleAction};
use crate::herdr::wire::{topic, topic_text, Event};
use crate::repo::{holds, Worktree};
use crate::strings::{
    lemma_texts_empty, lemma_texts_push, lines, opt_str, opt_text, owned, owned_opt, same, texts,
};
use crate::table::Table;
use vstd::prelude::*;
use vstd::string::*;

verus! {

/// Longest the loop sleeps with nothing pending, in nanoseconds.
pub const TICK: u128 = 1_000_000_000;

/// How much of the screen is read for a prompt, in lines.
pub const PROMPT_LINES: u32 = 80;

/// How long herdr shows a turn number, in nanoseconds.
pub const TURN_TTL: u128 = 14_400_000_000_000;

/// How a pane's timeline is named.
#[derive(Debug, Clone, Copy, PartialEq, Eq, Structural)]
pub enum LineBy {
    /// By agent: one timeline for each agent in each worktree. Pane ids are
    /// given anew in every session, agents are not.
    Agent,
    /// By pane id: strictly one timeline for each pane.
    Pane,
}

impl LineBy {
    /// The timeline of a pane.
    pub open spec fn line(self, pane_id: Seq<char>, agent: Option<Seq<char>>) -> Seq<char> {
        let raw = match self {
            LineBy::Agent => match agent {
                Some(a) => a,
                None => "agent"@,
            },
            LineBy::Pane => pane_id,
        };
        if raw.len() == 0 {
            "agent"@
        } else {
            raw
        }
    }

    /// The timeline of a pane.
    pub fn timeline(&self, pane_id: &str, agent: Option<&str>) -> (r: String)
        ensures
            r@ == self.line(pane_id@, opt_str(agent)),
    {
        let raw: &str = match self {
            LineBy::Agent => match agent {
                Some(a) => a,
                None => "agent",
            },
            LineBy::Pane => pane_id,
        };
        if raw.is_empty() {
            owned("agent")
        } else {
            owned(raw)
        }
    }

    pub open spec fn name(self) -> Seq<char> {
        match self {
            LineBy::Agent => "Agent"@,
            LineBy::Pane => "Pane"@,
        }
    }

    pub fn as_str(&self) -> (r: &'static str)
        ensures
            r@ == self.name(),
    {
        match self {
            LineBy::Agent => "Agent",
            LineBy::Pane => "Pane",
        }
    }
}

#[derive(Debug)]
pub struct Config {
    /// Print boundaries instead of recording them. Writes nothing, anywhere.
    pub dry_run: bool,
    pub tuning: Tuning,
    pub line_by: LineBy,
    pub file_budget: usize,
    pub state: String,
    /// How often herdr's own view is read again, in nanoseconds.
    pub reconcile_every: u128,
}

/// How a run of the event loop finished.
#[derive(Debug)]
pub enum Ended {
    /// Herdr closed the stream.
    Disconnected,
    /// The subscription itself failed.
    Failed(String),
}

/// One poll of the event stream.
#[derive(Debug)]
pub enum Pump {
    Event(Event),
    /// The timeout elapsed with nothing to report.
    Idle,
    Closed,
    Failed(String),
}

/// The topics one subscription needs to see every agent in the session, those
/// in panes that do not exist yet among them.
pub fn topics() -> (r: Vec<String>)
    ensures
        texts(r@) == seq![
            topic_text("pane.updated"@),
            topic_text("pane.created"@),
            topic_text("pane.closed"@),
            topic_text("pane.exited"@),
            topic_text("pane.agent_detected"@),
        ],
{
    let mut v: Vec<String> = Vec::new();
    v.push(topic("pane.updated"));
    v.push(topic("pane.created"));
    v.push(topic("pane.closed"));
    v.push(topic("pane.exited"));
    v.push(topic("pane.agent_detected"));
    proof {
        assert(texts(v@) =~= seq![
            topic_text("pane.updated"@),
            topic_text("pane.created"@),
            topic_text("pane.closed"@),
            topic_text("pane.exited"@),
            topic_text("pane.agent_detected"@),
        ]);
    }
    v
}

// ------------------------------------------------------------------- events

/// What an event tells the recorder.
#[derive(Debug)]
pub enum Told {
    /// A pane looks like this now.
    Sighted(Sighting),
    /// A pane is gone, or its agent is.
    Gone(String),
    /// Something changed: ask herdr about this pane.
    Ask(String),
    Nothing,
}

pub enum ToldModel {
    Sighted(SightingModel),
    Gone(Seq<char>),
    Ask(Seq<char>),
    Nothing,
}

impl View for Told {
    type V = ToldModel;

    open spec fn view(&self) -> ToldModel {
        match *self {
            Told::Sighted(s) => ToldModel::Sighted(s@),
            Told::Gone(p) => ToldModel::Gone(p@),
            Told::Ask(p) => ToldModel::Ask(p@),
            Told::Nothing => ToldModel::Nothing,
        }
    }
}

/// What an event of a kind tells, from what it holds.
pub open spec fn told_of(
    kind: Seq<char>,
    pane: Option<SightingModel>,
    pane_id: Option<Seq<char>>,
    released: bool,
) -> ToldModel {
    if kind == "pane_updated"@ || kind == "pane_created"@ {
        match pane {
            Some(s) => ToldModel::Sighted(s),
            None => ToldModel::Nothing,
        }
    } else if kind == "pane_closed"@ || kind == "pane_exited"@ {
        match pane_id {
            Some(id) => ToldModel::Gone(id),
            None => ToldModel::Nothing,
        }
    } else if kind == "pane_agent_detected"@ {
        match pane_id {
            Some(id) => if released {
                ToldModel::Gone(id)
            } else {
                ToldModel::Ask(id)
            },
            None => ToldModel::Nothing,
        }
    } else {
        ToldModel::Nothing
    }
}

/// What an event of a kind tells, from what it holds.
pub fn told_from(kind: &str, pane: Option<Sighting>, pane_id: Option<String>, released: bool) -> (r:
    Told)
    ensures
        r@ == told_of(kind@, sighting_view(pane), opt_text(pane_id), released),
{
    if same(kind, "pane_updated") || same(kind, "pane_created") {
        match pane {
            Some(s) => Told::Sighted(s),
            None => Told::Nothing,
        }
    } else if same(kind, "pane_closed") || same(kind, "pane_exited") {
        match pane_id {
            Some(id) => Told::Gone(id),
            None => Told::Nothing,
        }
    } else if same(kind, "pane_agent_detected") {
        match pane_id {
            Some(id) => {
                if released {
                    Told::Gone(id)
                } else {
                    Told::Ask(id)
                }
            },
            None => Told::Nothing,
        }
    } else {
        Told::Nothing
    }
}

/// Whether an event tells the recorder this.
pub open spec fn tells(event: Event, told: ToldModel) -> bool {
    told == told_of(
        event.kind@,
        match json_member(event.data@, "pane"@) {
            Some(pane) => sighted(pane),
            None => None,
        },
        text_member(event.data@, "pane_id"@),
        match json_member(event.data@, "released"@) {
            Some(held) => json_flag(held) == Some(true),
            None => false,
        },
    )
}

/// What an event tells the recorder.
pub fn on_event(event: &Event) -> (r: Told)
    ensures
        tells(*event, r@),
{
    let pane: Option<Sighting> = match member(event.data.as_str(), "pane") {
        Some(pane) => sighting(pane.as_str()),
        None => None,
    };
    let released: bool = match member(event.data.as_str(), "released") {
        Some(held) => match flag_in(held.as_str()) {
            Some(flag) => flag,
            None => false,
        },
        None => false,
    };
    told_from(event.kind.as_str(), pane, event.pane_id(), released)
}

// ----------------------------------------------------------------- recorder

impl Clone for Processes {
    fn clone(&self) -> (r: Self)
        ensures
            r@ == self@,
    {
        let mut running: Vec<(u32, String)> = Vec::new();
        let mut i: usize = 0;
        while i < self.running.len()
            invariant
                i <= self.running@.len(),
                running@ == self.running@.take(i as int),
            decreases self.running@.len() - i,
        {
            proof {
                assert(self.running@.take(i + 1) =~= self.running@.take(i as int).push(
                    self.running@[i as int],
                ));
            }
            running.push((self.running[i].0, self.running[i].1.clone()));
            i += 1;
        }
        proof {
            assert(self.running@.take(i as int) =~= self.running@);
        }
        Processes { shell_pid: self.shell_pid, leader: self.leader, running }
    }
}

/// What a signal asks to be done outside.
#[derive(Debug)]
pub enum Errand {
    Nothing,
    /// A turn began: find the worktree of its directory, and read the prompt
    /// off the pane's screen.
    Begin { pane_id: String, cwd: Option<String> },
    /// A boundary is considered: look what runs in the pane.
    Fingerprint(String),
    /// A boundary is ripe: corroborate it, starting with this step.
    Settle(Settle, SettleAction),
}

#[derive(Debug)]
pub struct Recorder {
    pub config: Config,
    pub detector: Detector,
    /// What ran in a pane when a boundary was first considered.
    pub fingerprints: Table<Processes>,
    /// The worktree of a directory, once it was looked for.
    pub worktrees: Table<Option<Worktree>>,
    /// The worktree each pane's turn began in.
    pub began: Table<String>,
    /// Turns recorded so far.
    pub recorded: u64,
}

/// Whether `due` is the earliest end of a window, or there is none.
pub open spec fn earliest(panes: Seq<PaneModel>, due: Option<u128>) -> bool {
    match due {
        None => forall|i: int| 0 <= i < panes.len() ==> window_end(#[trigger] panes[i]) is None,
        Some(due) => {
            &&& exists|i: int|
                0 <= i < panes.len() && window_end(#[trigger] panes[i]) == Some(due)
            &&& forall|i: int|
                0 <= i < panes.len() && window_end(#[trigger] panes[i]) is Some ==> due
                    <= window_end(panes[i])->0
        },
    }
}

/// How long to wait for events when the next window ends at `due`.
pub open spec fn wait_until(due: Option<u128>, now: u128) -> int {
    match due {
        None => TICK as int,
        Some(due) => if due <= now {
            0
        } else if due - now <= TICK {
            due - now
        } else {
            TICK as int
        },
    }
}

/// The prompt held for a pane's turn.
pub open spec fn prompt_for(d: DetectorModel, pane_id: Seq<char>) -> Option<Seq<char>> {
    if known(d.panes, pane_id) {
        d.panes[index_of(d.panes, pane_id)].prompt
    } else {
        None
    }
}

/// What is remembered under a key.
pub open spec fn under<T>(m: Map<Seq<char>, T>, key: Seq<char>) -> Option<T> {
    if m.dom().contains(key) {
        Some(m[key])
    } else {
        None
    }
}

/// Whether a corroboration was begun for a ripe boundary with everything the
/// recorder knows of it.
pub open spec fn corroborates(
    r: Recorder,
    s: Settle,
    pane_id: Seq<char>,
    agent: Option<Seq<char>>,
    cwd: Option<Seq<char>>,
    noisy: bool,
) -> bool {
    &&& settle_wf(s)
    &&& s.pane_id@ == pane_id
    &&& opt_text(s.agent) == agent
    &&& opt_text(s.cwd) == cwd
    &&& s.noisy == noisy
    &&& s.line@ == r.config.line_by.line(pane_id, agent)
    &&& s.dry_run == r.config.dry_run
    &&& match under(r.fingerprints@, pane_id) {
        Some(p) => s.before matches Some(b) && b@ == p@,
        None => s.before is None,
    }
    &&& match under(r.began@, pane_id) {
        Some(root) => s.began matches Some(b) && b@ == root@,
        None => s.began is None,
    }
    &&& opt_text(s.prompt) == prompt_for(r.detector@, pane_id)
    &&& s.seen is None
    &&& !s.recorded
}

/// Whether an errand and a remark are what a signal asks for.
pub open spec fn acts(r: Recorder, signal: SignalModel, errand: Errand, remark: Option<Remark>) -> bool {
    match signal {
        SignalModel::Started { pane_id, cwd, .. } => remark is None && (match errand {
            Errand::Begin { pane_id: p, cwd: d } => p@ == pane_id && opt_text(d) == cwd,
            _ => false,
        }),
        SignalModel::Candidate { pane_id } => remark is None && (match errand {
            Errand::Fingerprint(p) => p@ == pane_id,
            _ => false,
        }),
        SignalModel::Withdrawn { pane_id, why } => errand is Nothing && remarks(
            remark,
            Level::Info,
            about(pane_id, "withdrawn — "@ + why.reason()),
        ),
        SignalModel::Ripe { pane_id, agent, cwd, noisy } => match errand {
            Errand::Settle(s, first) => {
                &&& corroborates(r, s, pane_id, agent, cwd, noisy)
                &&& if cwd is None {
                    settles(s, first, Verdict::Drop) && remarks(
                        remark,
                        Level::Info,
                        about(pane_id, "no working directory reported; skipped"@),
                    )
                } else {
                    s.stage is Asking && first is Pane && remark is None
                }
            },
            _ => false,
        },
    }
}

impl Recorder {
    pub open spec fn wf(&self) -> bool {
        &&& self.detector@.wf()
        &&& self.fingerprints.wf()
        &&& self.worktrees.wf()
        &&& self.began.wf()
    }

    pub fn new(config: Config) -> (r: Self)
        ensures
            r.wf(),
            r.config == config,
            r.detector@ == (DetectorModel { tuning: config.tuning, panes: Seq::empty() }),
            r.fingerprints@ == Map::<Seq<char>, Processes>::empty(),
            r.worktrees@ == Map::<Seq<char>, Option<Worktree>>::empty(),
            r.began@ == Map::<Seq<char>, String>::empty(),
            r.recorded == 0,
    {
        let detector: Detector = Detector::new(config.tuning);
        Recorder {
            config,
            detector,
            fingerprints: Table::new(),
            worktrees: Table::new(),
            began: Table::new(),
            recorded: 0,
        }
    }

    /// Turns recorded so far.
    pub fn recorded(&self) -> (r: u64)
        ensures
            r == self.recorded,
    {
        self.recorded
    }

    /// How long to wait for the next event.
    pub fn poll_timeout(&self, now: u128) -> (r: u128)
        ensures
            exists|due: Option<u128>| #[trigger]
                earliest(self.detector@.panes, due) && r == wait_until(due, now),
    {
        let due: Option<u128> = self.detector.next_deadline();
        proof {
            assert(earliest(self.detector@.panes, due));
        }
        match due {
            None => TICK,
            Some(due) => {
                if due <= now {
                    0
                } else if due - now <= TICK {
                    due - now
                } else {
                    TICK
                }
            },
        }
    }

    /// The panes that are followed and that herdr no longer lists.
    pub fn absent(&self, agents: &Vec<Sighting>) -> (r: Vec<String>)
        ensures
            texts(r@) == self.detector@.ids().filter(
                |id: Seq<char>| !listed(sightings(agents@), id),
            ),
    {
        broadcast use lemma_texts_push;

        let ids: Vec<String> = self.detector.pane_ids();
        let ghost keep = |id: Seq<char>| !listed(sightings(agents@), id);
        let mut out: Vec<String> = Vec::new();
        let mut i: usize = 0;
        proof {
            reveal(Seq::filter);
            lemma_texts_empty(out@);
            assert(texts(ids@).take(0) =~= Seq::<Seq<char>>::empty());
        }
        while i < ids.len()
            invariant
                i <= ids@.len(),
                keep == (|id: Seq<char>| !listed(sightings(agents@), id)),
                texts(out@) == texts(ids@).take(i as int).filter(keep),
            decreases ids@.len() - i,
        {
            broadcast use lemma_texts_push;

            proof {
                reveal(Seq::filter);
                let now = texts(ids@).take(i + 1);
                assert(now.drop_last() =~= texts(ids@).take(i as int));
                assert(now.last() == ids@[i as int]@);
            }
            if !lists(agents, ids[i].as_str()) {
                out.push(ids[i].clone());
            }
            i += 1;
        }
        proof {
            assert(texts(ids@).take(ids@.len() as int) =~= texts(ids@));
        }
        out
    }

    /// One more look at a pane.
    pub fn observe(&mut self, now: u128, sighting: &Sighting) -> (r: Vec<Signal>)
        requires
            old(self).wf(),
            old(self).detector@.in_time(now),
        ensures
            final(self).wf(),
            final(self).detector@ == old(self).detector@.observe(now, sighting@),
            signals(r@) == old(self).detector@.observe_signals(now, sighting@),
            final(self).same_but_detector(*old(self)),
    {
        self.detector.observe(now, sighting)
    }

    /// The boundaries whose windows have closed.
    pub fn fire(&mut self, now: u128) -> (r: Vec<Signal>)
        requires
            old(self).wf(),
        ensures
            final(self).wf(),
            final(self).detector@ == old(self).detector@.tick(now),
            signals(r@) == crate::herdr::detect::ripe_signals(old(self).detector@.panes, now),
            final(self).same_but_detector(*old(self)),
    {
        self.detector.tick(now)
    }

    /// Everything but the detector.
    pub open spec fn same_but_detector(&self, other: Recorder) -> bool {
        &&& self.config == other.config
        &&& self.fingerprints@ == other.fingerprints@
        &&& self.worktrees@ == other.worktrees@
        &&& self.began@ == other.began@
        &&& self.recorded == other.recorded
    }

    /// Forget a pane.
    pub fn drop_pane(&mut self, pane_id: &str) -> (r: Vec<Signal>)
        requires
            old(self).wf(),
        ensures
            final(self).wf(),
            final(self).detector@ == old(self).detector@.forget(pane_id@),
            signals(r@) == old(self).detector@.forget_signals(pane_id@),
            final(self).fingerprints@ == old(self).fingerprints@.remove(pane_id@),
            final(self).began@ == old(self).began@.remove(pane_id@),
            final(self).worktrees@ == old(self).worktrees@,
            final(self).config == old(self).config,
            final(self).recorded == old(self).recorded,
    {
        let out: Vec<Signal> = self.detector.forget(pane_id);
        self.fingerprints.remove(pane_id);
        self.began.remove(pane_id);
        out
    }

    /// What a signal asks to be done, and what is to be said of it. A boundary
    /// that was withdrawn takes what ran in its pane along.
    pub fn act(&mut self, signal: Signal) -> (r: (Errand, Option<Remark>))
        requires
            old(self).wf(),
        ensures
            final(self).wf(),
            acts(*old(self), signal@, r.0, r.1),
            final(self).detector@ == old(self).detector@,
            final(self).config == old(self).config,
            final(self).worktrees@ == old(self).worktrees@,
            final(self).began@ == old(self).began@,
            final(self).recorded == old(self).recorded,
            final(self).fingerprints@ == match signal@ {
                SignalModel::Withdrawn { pane_id, .. } => old(self).fingerprints@.remove(pane_id),
                _ => old(self).fingerprints@,
            },
    {
        match signal {
            Signal::Started { pane_id, agent: _, cwd } => (Errand::Begin { pane_id, cwd }, None),
            Signal::Candidate { pane_id } => (Errand::Fingerprint(pane_id), None),
            Signal::Withdrawn { pane_id, why } => {
                self.fingerprints.remove(pane_id.as_str());
                let mut tail: String = owned("withdrawn — ");
                tail.append(why.as_str());
                let mut text: String = pane_id;
                text.append(": ");
                text.append(tail.as_str());
                (Errand::Nothing, Some(Remark { level: Level::Info, text }))
            },
            Signal::Ripe { pane_id, agent, cwd, noisy } => {
                let line: String = match &agent {
                    Some(a) => self.config.line_by.timeline(pane_id.as_str(), Some(a.as_str())),
                    None => self.config.line_by.timeline(pane_id.as_str(), None),
                };
                let before: Option<Processes> = match self.fingerprints.get(pane_id.as_str()) {
                    Some(p) => Some(p.clone()),
                    None => None,
                };
                let began: Option<String> = match self.began.get(pane_id.as_str()) {
                    Some(root) => Some(root.clone()),
                    None => None,
                };
                let prompt: Option<String> = owned_opt(self.detector.prompt(pane_id.as_str()));
                let (s, first, remark) = Settle::new(
                    pane_id,
                    agent,
                    cwd,
                    noisy,
                    line,
                    self.config.dry_run,
                    before,
                    began,
                    prompt,
                );
                (Errand::Settle(s, first), remark)
            },
        }
    }

    /// Remember the worktree a pane's turn began in, if it is in one.
    pub fn begun(&mut self, pane_id: &str, root: Option<String>)
        requires
            old(self).wf(),
        ensures
            final(self).wf(),
            final(self).began@ == match root {
                Some(root) => old(self).began@.insert(pane_id@, root),
                None => old(self).began@.remove(pane_id@),
            },
            final(self).detector@ == old(self).detector@,
            final(self).config == old(self).config,
            final(self).fingerprints@ == old(self).fingerprints@,
            final(self).worktrees@ == old(self).worktrees@,
            final(self).recorded == old(self).recorded,
    {
        match root {
            Some(root) => self.began.put(pane_id, root),
            None => self.began.remove(pane_id),
        }
    }

    /// Keep the prompt that a pane's screen shows, if it shows one.
    pub fn prompted(&mut self, pane_id: &str, screen: Result<Option<String>, String>) -> (r: Option<
        Remark,
    >)
        requires
            old(self).wf(),
        ensures
            final(self).wf(),
            final(self).same_but_detector(*old(self)),
            match screen {
                Err(e) => final(self).detector@ == old(self).detector@ && remarks(
                    r,
                    Level::Warn,
                    about(pane_id@, "cannot read the pane: "@ + e@),
                ),
                Ok(shown) => r is None && final(self).detector@ == ({
                    let prompt = match shown {
                        Some(text) => last_prompt(lines(text@)),
                        None => None,
                    };
                    let i = index_of(old(self).detector@.panes, pane_id@);
                    if i < old(self).detector@.panes.len() && prompt is Some {
                        DetectorModel {
                            panes: old(self).detector@.panes.update(
                                i,
                                PaneModel { prompt, ..old(self).detector@.panes[i] },
                            ),
                            ..old(self).detector@
                        }
                    } else {
                        old(self).detector@
                    }
                }),
            },
    {
        match screen {
            Err(e) => {
                let mut tail: String = owned("cannot read the pane: ");
                tail.append(e.as_str());
                let mut text: String = owned(pane_id);
                text.append(": ");
                text.append(tail.as_str());
                Some(Remark { level: Level::Warn, text })
            },
            Ok(shown) => {
                let prompt: Option<String> = match shown {
                    Some(text) => scrape(text.as_str()),
                    None => None,
                };
                self.detector.set_prompt(pane_id, prompt);
                None
            },
        }
    }

    /// Remember what runs in a pane, if that could be seen.
    pub fn fingerprinted(&mut self, pane_id: &str, found: Option<Processes>)
        requires
            old(self).wf(),
        ensures
            final(self).wf(),
            final(self).fingerprints@ == match found {
                Some(p) => old(self).fingerprints@.insert(pane_id@, p),
                None => old(self).fingerprints@,
            },
            final(self).detector@ == old(self).detector@,
            final(self).config == old(self).config,
            final(self).worktrees@ == old(self).worktrees@,
            final(self).began@ == old(self).began@,
            final(self).recorded == old(self).recorded,
    {
        if let Some(p) = found {
            self.fingerprints.put(pane_id, p);
        }
    }

    /// The worktree of a directory, if it was looked for before: a directory
    /// that is in none is remembered as such.
    pub fn worktree(&self, cwd: &str) -> (r: Option<Option<Worktree>>)
        requires
            self.wf(),
        ensures
            r == under(self.worktrees@, cwd@),
    {
        match self.worktrees.get(cwd) {
            Some(Some(wt)) => Some(Some(wt.clone())),
            Some(None) => Some(None),
            None => None,
        }
    }

    /// Remember the worktree of a directory.
    pub fn found_worktree(&mut self, cwd: &str, found: Option<Worktree>)
        requires
            old(self).wf(),
        ensures
            final(self).wf(),
            final(self).worktrees@ == old(self).worktrees@.insert(cwd@, found),
            final(self).detector@ == old(self).detector@,
            final(self).config == old(self).config,
            final(self).fingerprints@ == old(self).fingerprints@,
            final(self).began@ == old(self).began@,
            final(self).recorded == old(self).recorded,
    {
        self.worktrees.put(cwd, found);
    }

    /// Take in the end of a corroboration.
    pub fn settled(&mut self, now: u128, done: Settle, verdict: Verdict) -> (r: Vec<Signal>)
        requires
            old(self).wf(),
            old(self).detector@.in_time(now),
            old(self).recorded < u64::MAX,
        ensures
            final(self).wf(),
            final(self).detector@ == old(self).detector@.resolve(now, done.pane_id@, verdict),
            signals(r@) == old(self).detector@.resolve_signals(now, done.pane_id@, verdict),
            final(self).fingerprints@ == match done.seen {
                Some(p) => old(self).fingerprints@.insert(done.pane_id@, p),
                None => old(self).fingerprints@,
            },
            final(self).recorded == old(self).recorded + (if done.recorded {
                1int
            } else {
                0
            }),
            final(self).config == old(self).config,
            final(self).worktrees@ == old(self).worktrees@,
            final(self).began@ == old(self).began@,
    {
        let out: Vec<Signal> = self.detector.resolve(now, done.pane_id.as_str(), verdict);
        if let Some(p) = done.seen {
            self.fingerprints.put(done.pane_id.as_str(), p);
        }
        if done.recorded {
            self.recorded = self.recorded + 1;
        }
        out
    }
}

/// Whether one of the sightings is of this pane.
pub open spec fn listed(agents: Seq<SightingModel>, id: Seq<char>) -> bool {
    exists|i: int| 0 <= i < agents.len() && (#[trigger] agents[i]).pane_id == id
}

fn lists(agents: &Vec<Sighting>, id: &str) -> (r: bool)
    ensures
        r == listed(sightings(agents@), id@),
{
    let mut i: usize = 0;
    while i < agents.len()
        invariant
            i <= agents@.len(),
            forall|k: int| 0 <= k < i ==> (#[trigger] sightings(agents@)[k]).pane_id != id@,
        decreases agents@.len() - i,
    {
        proof {
            assert(sightings(agents@)[i as int] == agents@[i as int]@);
        }
        if same(agents[i].pane_id.as_str(), id) {
            return true;
        }
        i += 1;
    }
    false
}

// --------------------------------------------------------------------- laws

/// The recorder and whoever reads a timeline agree on its name: the same agent
/// in any pane has one timeline by agent, and a pane has one by pane whatever
/// its agent.
pub proof fn law_a_timeline_has_one_name(
    pane_a: Seq<char>,
    pane_b: Seq<char>,
    agent_a: Option<Seq<char>>,
    agent_b: Option<Seq<char>>,
)
    ensures
        LineBy::Agent.line(pane_a, agent_a) == LineBy::Agent.line(pane_b, agent_a),
        LineBy::Pane.line(pane_a, agent_a) == LineBy::Pane.line(pane_a, agent_b),
        agent_a is Some && agent_a->0.len() > 0 ==> LineBy::Agent.line(pane_a, agent_a)
            == agent_a->0,
        pane_a.len() > 0 ==> LineBy::Pane.line(pane_a, agent_a) == pane_a,
{
}

/// The loop always wakes up in time for the next window: it never sleeps past
/// the earliest one, nor longer than a tick.
pub proof fn law_the_loop_never_oversleeps(panes: Seq<PaneModel>, due: Option<u128>, now: u128, i: int)
    requires
        earliest(panes, due),
        0 <= i < panes.len(),
    ensures
        0 <= wait_until(due, now) <= TICK,
        window_end(panes[i]) matches Some(end) ==> now + wait_until(due, now) <= (if end >= now {
            end
        } else {
            now
        }),
{
    if due is None {
        assert(window_end(panes[i]) is None);
    }
}

} // verus!
