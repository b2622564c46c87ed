//! The recorder, end to end, against a scripted herdr.
//!
//! The detector is tested on its own in `detect_boundaries.rs`; what is under
//! test here is everything the detector deliberately does not know — the
//! corroboration against the live session, the pane-to-worktree mapping, the
//! timeline naming, and the promise that one bad worktree cannot stop the rest
//! of the session being recorded.

use sheep::herdr::cli::{admitted, banner, run as after_connection, Connection, WatchArgs};
use sheep::herdr::detect::{Sighting, Signal, Status, Tuning, Verdict};
use sheep::herdr::log::{self, Level, Log, Remark};
use sheep::herdr::pump::{PumpAction, PumpEvent, Pumping};
use sheep::herdr::recorder::{
    on_event, topics, Config, Ended, Errand, LineBy, Pump, Recorder, Told, TICK,
};
use sheep::herdr::session::Processes;
use sheep::herdr::settle::{quote, Settle, SettleAction, SettleEvent};
use sheep::herdr::supervise::{Next, Supervisor};
use sheep::herdr::wire::Event;
use sheep::repo::Worktree;
use sheep::store::{slug, Turn, TurnKind};
use std::collections::{BTreeMap, VecDeque};

const SETTLE_MS: u64 = 120;
const BUDGET: usize = 60_000;

fn millis(n: u64) -> u128 {
    n as u128 * 1_000_000
}

// ------------------------------------------------------------------- the world

#[derive(Default)]
struct Repo {
    body: String,
    stuck: bool,
    turns: BTreeMap<String, Vec<Turn>>,
}

/// A scripted session and the checkouts beside it.
#[derive(Default)]
struct World {
    panes: BTreeMap<String, Sighting>,
    /// Successive answers about a pane's processes; the last one repeats.
    processes: BTreeMap<String, VecDeque<Processes>>,
    screens: BTreeMap<String, String>,
    reported: Vec<(String, u64)>,
    missing: Vec<String>,
    repos: BTreeMap<String, Repo>,
    remarks: Vec<Remark>,
    looked_for: Vec<String>,
    now: u128,
}

enum Step {
    Ev(Event),
    /// Let time pass so a settle window can close.
    Rest(u64),
    /// Change a working tree between turns.
    Edit(String, String),
}

impl World {
    fn repo(&mut self, name: &str) -> String {
        let root = format!("/w/{name}");
        self.repos.insert(root.clone(), Repo { body: "fn main() {}\n".into(), ..Repo::default() });
        root
    }

    fn pane(&mut self, pane_id: &str, agent: &str, cwd: &str, status: Status) {
        self.panes.insert(
            pane_id.to_string(),
            Sighting {
                pane_id: pane_id.to_string(),
                agent: Some(agent.to_string()),
                cwd: Some(cwd.to_string()),
                status,
                revision: 0,
            },
        );
    }

    fn runs(&mut self, pane_id: &str, sequence: Vec<Processes>) {
        self.processes.insert(pane_id.to_string(), sequence.into());
    }

    fn screen(&mut self, pane_id: &str, text: &str) {
        self.screens.insert(pane_id.to_string(), text.to_string());
    }

    fn turns(&self, root: &str, line: &str) -> Vec<Turn> {
        self.repos[root].turns.get(&slug(line)).cloned().unwrap_or_default()
    }

    fn ask_pane(&self, pane_id: &str) -> Option<Sighting> {
        if self.missing.iter().any(|p| p == pane_id) {
            return None;
        }
        self.panes.get(pane_id).cloned()
    }

    fn ask_processes(&mut self, pane_id: &str) -> Option<Processes> {
        let queue = self.processes.get_mut(pane_id)?;
        if queue.len() > 1 {
            queue.pop_front()
        } else {
            queue.front().cloned()
        }
    }

    fn find_worktree(&mut self, recorder: &mut Recorder, cwd: &str) -> Option<Worktree> {
        if let Some(known) = recorder.worktree(cwd) {
            return known;
        }
        self.looked_for.push(cwd.to_string());
        let found = self.repos.contains_key(cwd).then_some(Worktree {
            root: cwd.to_string(),
            git_dir: format!("{cwd}/.git"),
            common_dir: format!("{cwd}/.git"),
            id: "id".to_string(),
        });
        recorder.found_worktree(cwd, found.clone());
        found
    }

    fn settle(&mut self, recorder: &mut Recorder, first: Settle, mut action: SettleAction) {
        let mut settle = first;
        let verdict: Verdict = loop {
            let event = match action {
                SettleAction::Pane => SettleEvent::Pane(Ok(self.ask_pane(&settle.pane_id))),
                SettleAction::Processes => {
                    SettleEvent::Processes(Ok(self.ask_processes(&settle.pane_id)))
                }
                SettleAction::Worktree(cwd) => {
                    SettleEvent::Worktree(self.find_worktree(recorder, &cwd))
                }
                SettleAction::Snap { worktree, line, meta } => {
                    let repo = self.repos.get_mut(&worktree.root).unwrap();
                    let log = repo.turns.entry(slug(&line)).or_default();
                    SettleEvent::Snapped(if repo.stuck {
                        Err("refusing to continue: a merge is in progress.".to_string())
                    } else if log.last().is_some_and(|t| t.tree == repo.body) {
                        Ok(None)
                    } else {
                        let turn = Turn {
                            seq: log.len() as u64 + 1,
                            kind: TurnKind::Turn,
                            commit: "c0ffee".to_string(),
                            tree: repo.body.clone(),
                            parent: None,
                            at: 0,
                            files: 1,
                            insertions: 1,
                            deletions: 0,
                            pane_id: meta.pane_id,
                            agent: meta.agent,
                            prompt: meta.prompt,
                            note: meta.note,
                        };
                        log.push(turn.clone());
                        Ok(Some(turn))
                    })
                }
                SettleAction::Report(seq) => {
                    self.reported.push((settle.pane_id.clone(), seq));
                    SettleEvent::Reported(Ok(()))
                }
                SettleAction::Done(verdict) => break verdict,
            };
            let remark;
            (settle, action, remark) = settle.step(event);
            self.remarks.extend(remark);
        };
        let more = recorder.settled(self.now, settle, verdict);
        self.act(recorder, more);
    }

    fn act(&mut self, recorder: &mut Recorder, signals: Vec<Signal>) {
        for signal in signals {
            let (errand, remark) = recorder.act(signal);
            self.remarks.extend(remark);
            match errand {
                Errand::Nothing => {}
                Errand::Begin { pane_id, cwd } => {
                    let root = cwd.and_then(|c| self.find_worktree(recorder, &c)).map(|w| w.root);
                    recorder.begun(&pane_id, root);
                    let shown = self.screens.get(&pane_id).cloned();
                    self.remarks.extend(recorder.prompted(&pane_id, Ok(shown)));
                }
                Errand::Fingerprint(pane_id) => {
                    let found = self.ask_processes(&pane_id);
                    recorder.fingerprinted(&pane_id, found);
                }
                Errand::Settle(settle, action) => self.settle(recorder, settle, action),
            }
        }
    }

    fn observe(&mut self, recorder: &mut Recorder, sighting: &Sighting) {
        let signals = recorder.observe(self.now, sighting);
        self.act(recorder, signals);
    }

    fn reconcile(&mut self, recorder: &mut Recorder) {
        let listed: Vec<Sighting> = self.panes.values().cloned().collect();
        let (gone, agents, remark) = recorder.reconcile(Ok(listed));
        self.remarks.extend(remark);
        for pane_id in gone {
            let signals = recorder.drop_pane(&pane_id);
            self.act(recorder, signals);
        }
        for sighting in &agents {
            self.observe(recorder, sighting);
        }
    }

    fn handle(&mut self, recorder: &mut Recorder, told: Told) {
        match told {
            Told::Sighted(sighting) => self.observe(recorder, &sighting),
            Told::Gone(pane_id) => {
                let signals = recorder.drop_pane(&pane_id);
                self.act(recorder, signals);
            }
            Told::Ask(pane_id) => {
                if let Some(sighting) = self.ask_pane(&pane_id) {
                    self.observe(recorder, &sighting);
                }
            }
            Told::Nothing => {}
        }
    }

    /// Hand the recorder a stream that plays the steps and is then closed.
    fn run(&mut self, config: Config, steps: Vec<Step>) -> Recorder {
        let mut recorder = Recorder::new(config);
        self.now = 1_000_000_000_000;
        let mut steps: VecDeque<Step> = steps.into();
        let (mut at, mut action) = Pumping::new();
        loop {
            let event = match action {
                PumpAction::Reconcile => {
                    self.reconcile(&mut recorder);
                    PumpEvent::Reconciled(self.now)
                }
                PumpAction::Poll(_) => PumpEvent::Polled(match steps.pop_front() {
                    Some(Step::Ev(event)) => Pump::Event(event),
                    Some(Step::Rest(ms)) => {
                        self.now += millis(ms);
                        Pump::Idle
                    }
                    Some(Step::Edit(root, body)) => {
                        if let Some(repo) = self.repos.get_mut(&root) {
                            repo.body = body;
                        }
                        Pump::Idle
                    }
                    None => Pump::Closed,
                }),
                PumpAction::Handle(told) => {
                    self.handle(&mut recorder, told);
                    PumpEvent::Handled
                }
                PumpAction::Clock => PumpEvent::Now(self.now),
                PumpAction::Fire(now) => {
                    let signals = recorder.fire(now);
                    self.act(&mut recorder, signals);
                    PumpEvent::Fired(self.now)
                }
                PumpAction::Done(ended) => {
                    assert!(matches!(ended, Ended::Disconnected));
                    return recorder;
                }
            };
            action = recorder.pump(&mut at, event);
        }
    }
}

/// An agent process holding the pane's foreground group, with `extra` other
/// pids under it — the servers and tool children a real agent carries.
fn agent_running(extra: &[u32]) -> Processes {
    let mut running = vec![(4_100, "goose.exe".to_string())];
    running.extend(extra.iter().map(|pid| (*pid, "node".to_string())));
    Processes { shell_pid: 4_000, leader: 4_100, running }
}

/// The pane has dropped back to its shell: whatever herdr last said about the
/// agent describes a program that has exited.
fn shell_only() -> Processes {
    Processes { shell_pid: 4_000, leader: 4_000, running: vec![(4_000, "zsh".to_string())] }
}

fn event(kind: &str, pane_id: &str, agent: &str, cwd: &str, status: &str, revision: u64) -> Step {
    Step::Ev(Event {
        kind: kind.to_string(),
        data: format!(
            "{{\"type\":\"{kind}\",\"pane\":{{\"pane_id\":\"{pane_id}\",\"terminal_id\":\"term_1\",\"workspace_id\":\"w1\",\"tab_id\":\"w1:t1\",\"focused\":false,\"agent\":\"{agent}\",\"agent_status\":\"{status}\",\"cwd\":\"{cwd}\",\"revision\":{revision}}}}}"
        ),
    })
}

fn status(pane_id: &str, agent: &str, cwd: &str, status: &str, revision: u64) -> Step {
    event("pane_updated", pane_id, agent, cwd, status, revision)
}

/// A full turn in one pane: work starts, files change, work stops, the pane
/// goes quiet long enough for the boundary to be believed.
fn one_turn(pane: &str, agent: &str, repo: &str, rev: u64, body: &str) -> Vec<Step> {
    vec![
        status(pane, agent, repo, "working", rev),
        Step::Edit(repo.to_string(), body.to_string()),
        status(pane, agent, repo, "idle", rev + 1),
        Step::Rest(SETTLE_MS * 2),
    ]
}

fn config(dry_run: bool) -> Config {
    Config {
        dry_run,
        tuning: Tuning { settle: millis(SETTLE_MS), patience: millis(5_000) },
        line_by: LineBy::Agent,
        file_budget: BUDGET,
        state: "/w/state".to_string(),
        reconcile_every: millis(3_600_000),
    }
}

// ------------------------------------------------------------------- tests --

#[test]
fn a_finished_turn_is_recorded_against_its_pane_and_agent() {
    let mut w = World::default();
    let repo = w.repo("work");
    w.pane("w1:p1", "goose", &repo, Status::Idle);
    w.runs("w1:p1", vec![agent_running(&[4_200])]);
    w.screen("w1:p1", "❯ tidy up the parser\n\n⏺ Reading src.rs\n");

    w.run(config(false), one_turn("w1:p1", "goose", &repo, 10, "fn main() { }\n"));

    let turns = w.turns(&repo, "goose");
    assert_eq!(turns.len(), 1, "one finished turn, one entry: {turns:?}");
    let turn = &turns[0];
    assert_eq!(turn.kind, TurnKind::Turn);
    assert_eq!(turn.agent.as_deref(), Some("goose"));
    assert_eq!(turn.pane_id.as_deref(), Some("w1:p1"));
    assert_eq!(turn.prompt.as_deref(), Some("tidy up the parser"));
    assert_eq!(w.reported, vec![("w1:p1".to_string(), 1)], "herdr is told the turn number");
}

#[test]
fn herdr_changing_its_mind_stops_the_turn_being_recorded() {
    let mut w = World::default();
    let repo = w.repo("work");
    w.pane("w1:p1", "goose", &repo, Status::Working);
    w.runs("w1:p1", vec![agent_running(&[4_200])]);
    w.screen("w1:p1", "❯ keep going\n");

    w.run(config(false), one_turn("w1:p1", "goose", &repo, 10, "fn main() { }\n"));

    assert!(w.turns(&repo, "goose").is_empty(), "a done herdr took back is not a turn");
    assert!(w.reported.is_empty());
    assert!(w.remarks.iter().any(|r| r.text.contains("herdr now says working — not a boundary")));
}

#[test]
fn a_pane_still_spawning_processes_is_not_finished() {
    let mut w = World::default();
    let repo = w.repo("work");
    w.pane("w1:p1", "goose", &repo, Status::Idle);
    w.screen("w1:p1", "❯ run the suite\n");
    // Fingerprint at the candidate, then a tool child that has gone by the
    // time the window closes, then a stable group.
    w.runs(
        "w1:p1",
        vec![agent_running(&[4_200, 4_300]), agent_running(&[4_200]), agent_running(&[4_200])],
    );

    let mut steps = one_turn("w1:p1", "goose", &repo, 10, "fn main() { }\n");
    // Enough quiet for the re-armed window to close as well.
    steps.push(Step::Rest(SETTLE_MS * 3));
    w.run(config(false), steps);

    let turns = w.turns(&repo, "goose");
    assert_eq!(turns.len(), 1, "the turn lands once the process group settles: {turns:?}");
    assert!(w.remarks.iter().any(|r| r.text.contains("still spawning processes; waiting")));
}

#[test]
fn a_pane_whose_agent_has_exited_records_nothing() {
    let mut w = World::default();
    let repo = w.repo("work");
    w.pane("w1:p1", "goose", &repo, Status::Done);
    w.runs("w1:p1", vec![shell_only()]);
    w.screen("w1:p1", "❯ finish up\n");

    w.run(config(false), one_turn("w1:p1", "goose", &repo, 10, "fn main() { }\n"));

    assert!(
        w.turns(&repo, "goose").is_empty(),
        "a pane back at its shell has no agent to have finished a turn"
    );
}

#[test]
fn a_pane_that_is_not_a_worktree_is_skipped_without_complaint() {
    let mut w = World::default();
    let plain = "/w/notes".to_string();
    w.pane("w1:p1", "goose", &plain, Status::Idle);
    w.runs("w1:p1", vec![agent_running(&[])]);
    w.screen("w1:p1", "❯ read the notes\n");

    let recorder = w.run(config(false), one_turn("w1:p1", "goose", &plain, 10, "x\n"));

    assert_eq!(recorder.recorded(), 0);
    assert!(w.reported.is_empty());
    assert!(w.remarks.is_empty(), "not an error, and not reported as one: {:?}", w.remarks);
    assert_eq!(w.looked_for, vec![plain], "and not looked for every turn");
}

#[test]
fn four_agents_in_four_worktrees_get_four_timelines() {
    let mut w = World::default();
    let repos: Vec<String> = (1..=4).map(|n| w.repo(&format!("agent{n}"))).collect();

    let mut steps = Vec::new();
    for (index, repo) in repos.iter().enumerate() {
        let pane = format!("w1:p{}", index + 1);
        w.pane(&pane, "goose", repo, Status::Idle);
        w.runs(&pane, vec![agent_running(&[4_200])]);
        w.screen(&pane, "❯ do the thing\n");
        steps.push(status(&pane, "goose", repo, "working", 10));
        steps.push(Step::Edit(repo.clone(), "fn main() { /* changed */ }\n".to_string()));
    }
    // Every pane finishes before any window closes: four boundaries in flight.
    for (index, repo) in repos.iter().enumerate() {
        steps.push(status(&format!("w1:p{}", index + 1), "goose", repo, "idle", 11));
    }
    steps.push(Step::Rest(SETTLE_MS * 3));

    let recorder = w.run(config(false), steps);
    assert_eq!(recorder.recorded(), 4);

    for repo in &repos {
        let turns = w.turns(repo, "goose");
        assert_eq!(turns.len(), 1, "{repo} should hold exactly its own turn");
        assert_eq!(turns[0].seq, 1, "each timeline numbers from one");
    }
    assert_eq!(w.reported.len(), 4, "each pane is told its own turn number: {:?}", w.reported);
}

#[test]
fn one_unrecordable_worktree_does_not_stop_the_others() {
    let mut w = World::default();
    let good = w.repo("good");
    let stuck = w.repo("stuck");
    w.repos.get_mut(&stuck).unwrap().stuck = true;

    w.pane("w1:p1", "goose", &stuck, Status::Idle);
    w.runs("w1:p1", vec![agent_running(&[])]);
    w.screen("w1:p1", "❯ merge things\n");
    w.pane("w1:p2", "codex", &good, Status::Idle);
    w.runs("w1:p2", vec![agent_running(&[])]);
    w.screen("w1:p2", "❯ tidy up\n");

    let mut steps = one_turn("w1:p1", "goose", &stuck, 10, "fn main() { /* a */ }\n");
    steps.extend(one_turn("w1:p2", "codex", &good, 10, "fn main() { /* b */ }\n"));
    let recorder = w.run(config(false), steps);

    assert!(w.turns(&stuck, "goose").is_empty(), "the stuck worktree records nothing");
    assert_eq!(w.turns(&good, "codex").len(), 1, "and the healthy one is unaffected");
    assert_eq!(recorder.recorded(), 1);
    assert!(w.remarks.iter().any(|r| r.level.as_str() == "warn" && r.text.contains("cannot record")));
}

#[test]
fn a_dry_run_leaves_nothing_behind() {
    let mut w = World::default();
    let repo = w.repo("work");
    w.pane("w1:p1", "goose", &repo, Status::Idle);
    w.runs("w1:p1", vec![agent_running(&[4_200])]);
    w.screen("w1:p1", "❯ change one line\n");

    let recorder = w.run(config(true), one_turn("w1:p1", "goose", &repo, 10, "fn main() {}\n"));

    assert_eq!(recorder.recorded(), 0);
    assert!(w.repos[&repo].turns.is_empty(), "no turn log");
    assert!(w.reported.is_empty(), "and herdr is not told anything either");
    assert!(
        w.remarks.iter().any(|r| r.text
            == "boundary  w1:p1  goose  line=goose  worktree=/w/work  procs=goose.exe(2)  prompt=\"change one line\""),
        "{:?}",
        w.remarks
    );
}

#[test]
fn a_turn_that_changed_nothing_does_not_reach_the_timeline() {
    let mut w = World::default();
    let repo = w.repo("work");
    w.pane("w1:p1", "goose", &repo, Status::Idle);
    w.runs("w1:p1", vec![agent_running(&[])]);
    w.screen("w1:p1", "❯ what does this file do\n");

    let mut steps = one_turn("w1:p1", "goose", &repo, 10, "fn main() { /* edited */ }\n");
    // A second turn that answers a question without touching a file.
    steps.extend(vec![
        status("w1:p1", "goose", &repo, "working", 20),
        status("w1:p1", "goose", &repo, "idle", 21),
        Step::Rest(SETTLE_MS * 2),
    ]);
    w.run(config(false), steps);

    let turns = w.turns(&repo, "goose");
    assert_eq!(turns.len(), 1, "an answer with no edit is not a checkpoint worth keeping");
}

#[test]
fn a_pane_that_appears_after_start_up_is_picked_up() {
    let mut w = World::default();
    let repo = w.repo("late");
    w.runs("w9:p9", vec![agent_running(&[])]);
    w.screen("w9:p9", "❯ start something new\n");
    w.pane("w9:p9", "goose", &repo, Status::Idle);

    let steps = vec![
        event("pane_created", "w9:p9", "goose", &repo, "working", 1),
        Step::Edit(repo.clone(), "fn main() { /* late */ }\n".to_string()),
        status("w9:p9", "goose", &repo, "idle", 2),
        Step::Rest(SETTLE_MS * 2),
    ];
    w.run(config(false), steps);
    assert_eq!(w.turns(&repo, "goose").len(), 1);
}

#[test]
fn a_pane_that_closed_mid_window_records_nothing() {
    let mut w = World::default();
    let repo = w.repo("work");
    w.pane("w1:p1", "goose", &repo, Status::Idle);
    w.runs("w1:p1", vec![agent_running(&[])]);
    w.screen("w1:p1", "❯ close me\n");
    w.missing.push("w1:p1".to_string());

    w.run(config(false), one_turn("w1:p1", "goose", &repo, 10, "fn main() { }\n"));

    assert!(w.turns(&repo, "goose").is_empty(), "a pane that is gone cannot finish a turn");
}

#[test]
fn timelines_can_be_named_by_pane_instead() {
    let mut w = World::default();
    let repo = w.repo("work");
    w.pane("w1:p1", "goose", &repo, Status::Idle);
    w.runs("w1:p1", vec![agent_running(&[])]);
    w.screen("w1:p1", "❯ separate me\n");

    let by_pane = Config { line_by: LineBy::Pane, ..config(false) };
    w.run(by_pane, one_turn("w1:p1", "goose", &repo, 10, "fn main() { }\n"));

    assert!(w.turns(&repo, "goose").is_empty());
    assert_eq!(w.turns(&repo, "w1:p1").len(), 1);
}

#[test]
fn a_pane_that_closes_or_is_released_is_forgotten() {
    let mut w = World::default();
    let repo = w.repo("work");
    w.pane("w1:p1", "goose", &repo, Status::Idle);
    w.runs("w1:p1", vec![agent_running(&[])]);
    w.screen("w1:p1", "");
    let mut steps = vec![
        status("w1:p1", "goose", &repo, "working", 10),
        Step::Edit(repo.clone(), "x".to_string()),
        status("w1:p1", "goose", &repo, "idle", 11),
    ];
    steps.push(Step::Ev(Event {
        kind: "pane_closed".to_string(),
        data: "{\"pane_id\":\"w1:p1\"}".to_string(),
    }));
    steps.push(Step::Rest(SETTLE_MS * 3));
    let recorder = w.run(config(false), steps);
    assert_eq!(recorder.detector.pane_count(), 0);
    assert!(w.turns(&repo, "goose").is_empty());

    let released = Event {
        kind: "pane_agent_detected".to_string(),
        data: "{\"pane_id\":\"w1:p1\",\"released\":true}".to_string(),
    };
    assert!(matches!(on_event(&released), Told::Gone(pane) if pane == "w1:p1"));
    let detected = Event {
        kind: "pane_agent_detected".to_string(),
        data: "{\"pane_id\":\"w1:p1\"}".to_string(),
    };
    assert!(matches!(on_event(&detected), Told::Ask(pane) if pane == "w1:p1"));
    let other = Event { kind: "tab_renamed".to_string(), data: "{}".to_string() };
    assert!(matches!(on_event(&other), Told::Nothing));
}

#[test]
fn a_pane_herdr_no_longer_lists_is_pruned() {
    let mut w = World::default();
    let repo = w.repo("work");
    w.pane("w1:p1", "goose", &repo, Status::Working);
    let mut recorder = w.run(config(false), vec![]);
    assert_eq!(recorder.detector.pane_count(), 1);
    assert_eq!(recorder.absent(&vec![]), vec!["w1:p1".to_string()]);
    w.panes.clear();
    w.reconcile(&mut recorder);
    assert_eq!(recorder.detector.pane_count(), 0);
}

#[test]
fn the_loop_wakes_for_a_window_and_never_sleeps_longer_than_a_tick() {
    let mut w = World::default();
    let repo = w.repo("work");
    w.pane("w1:p1", "goose", &repo, Status::Working);
    let mut recorder = w.run(config(false), vec![]);
    assert_eq!(recorder.poll_timeout(w.now), TICK);
    let rest = Sighting { status: Status::Idle, revision: 2, ..w.panes["w1:p1"].clone() };
    recorder.observe(w.now, &rest);
    assert_eq!(recorder.poll_timeout(w.now), millis(SETTLE_MS));
    assert_eq!(recorder.poll_timeout(w.now + millis(SETTLE_MS * 2)), 0);
}

#[test]
fn the_session_is_looked_at_again_when_it_is_due() {
    let recorder = Recorder::new(config(false));
    let (mut at, first) = Pumping::new();
    assert!(matches!(first, PumpAction::Reconcile), "a run begins with a look at the session");
    assert!(matches!(recorder.pump(&mut at, PumpEvent::Reconciled(1_000)), PumpAction::Poll(TICK)));
    let clock = recorder.pump(&mut at, PumpEvent::Polled(Pump::Idle));
    assert!(matches!(clock, PumpAction::Clock));
    let now = 1_000 + millis(3_600_000) - 1;
    assert!(matches!(recorder.pump(&mut at, PumpEvent::Now(now)), PumpAction::Fire(n) if n == now));
    assert!(matches!(recorder.pump(&mut at, PumpEvent::Fired(now)), PumpAction::Poll(_)));
    recorder.pump(&mut at, PumpEvent::Polled(Pump::Idle));
    recorder.pump(&mut at, PumpEvent::Now(now + 1));
    assert!(matches!(recorder.pump(&mut at, PumpEvent::Fired(now + 1)), PumpAction::Reconcile));
    recorder.pump(&mut at, PumpEvent::Reconciled(now + 2));
    let over = recorder.pump(&mut at, PumpEvent::Polled(Pump::Failed("reset".to_string())));
    assert!(matches!(over, PumpAction::Done(Ended::Failed(why)) if why == "reset"));
}

#[test]
fn a_session_that_cannot_be_read_forgets_no_pane() {
    let mut w = World::default();
    let repo = w.repo("work");
    w.pane("w1:p1", "goose", &repo, Status::Working);
    let recorder = w.run(config(false), vec![]);
    let (gone, agents, remark) = recorder.reconcile(Err("no answer".to_string()));
    assert!(gone.is_empty() && agents.is_empty());
    assert_eq!(remark.unwrap().text, "cannot list agents: no answer");
}

// --------------------------------------------------------- naming a timeline --

/// A herdr pane id: the colon is why `store::slug` exists, and why a pane id is
/// a bad timeline name.
const PANE: &str = "w31:pW";

fn watch_args() -> WatchArgs {
    WatchArgs {
        dry_run: false,
        settle: 10_000_000_000,
        patience: 120,
        line_by: LineBy::Agent,
        file_budget: BUDGET,
        verbose: false,
    }
}

#[test]
fn the_pane_id_is_never_the_timeline() {
    for agent in [Some("goose"), None] {
        let line = watch_args().line_by.timeline(PANE, agent);
        assert_ne!(line, PANE);
        assert_ne!(slug(&line), slug(PANE));
    }
    assert_eq!(LineBy::Agent.timeline(PANE, Some("goose")), "goose");
    assert_eq!(LineBy::Agent.timeline(PANE, None), "agent");
    assert_eq!(LineBy::Agent.timeline(PANE, Some("")), "agent");
    assert_eq!(LineBy::Pane.timeline(PANE, Some("goose")), PANE);
}

// ------------------------------------------------------------------ the watch --

#[test]
fn watch_refuses_outside_a_herdr_session_and_says_why() {
    let err = admitted(false).expect_err("watch must not start outside herdr");
    assert!(
        err.contains("inside a herdr session"),
        "a refusal that says nothing is the blank hang this exists to stop: {err}"
    );
    assert!(admitted(true).is_ok());
}

#[test]
fn the_banner_says_what_the_watch_was_told_to_do() {
    let said = banner(&watch_args(), "10.0", &Some("/w/state/logs/watch.log".to_string()));
    assert_eq!(
        said.text,
        "watching: settle 10.0s, patience 120s, timelines by Agent, log /w/state/logs/watch.log"
    );
}

#[test]
fn a_connection_that_ended_is_told_and_retried() {
    let mut supervisor = Supervisor::new();
    let (_, next, _) = after_connection(
        &mut supervisor,
        Connection::Ended(Ended::Disconnected),
        3,
        1_000_000_000_000,
        60_000_000_000,
        true,
    );
    assert!(matches!(next, Next::Retry(500_000_000)));
    let (said, next, _) = after_connection(
        &mut supervisor,
        Connection::Refused("no socket".to_string()),
        3,
        1_000_000_000_000,
        0,
        true,
    );
    assert!(said.text.contains("no socket"), "{}", said.text);
    assert!(matches!(next, Next::Retry(_)));
}

#[test]
fn a_log_line_has_its_time_its_level_and_its_text() {
    let line = log::write(1_787_730_000, &Remark { level: Level::Warn, text: "careful".into() });
    assert_eq!(line, "2026-08-26 07:40:00Z warn careful");
    assert!(!log::rotate(10));
    assert!(log::rotate(log::MAX_BYTES + 1));
    assert_eq!(Log::open("/w/state", false).path(), Some("/w/state/logs/watch.log"));
    assert_eq!(Log::to_stdout().path(), None);
}

#[test]
fn a_quoted_prompt_holds_no_quote_of_its_own() {
    assert_eq!(quote("say \"hi\""), "\"say 'hi'\"");
}

#[test]
fn one_subscription_covers_every_pane() {
    let all = topics();
    assert_eq!(all.len(), 5);
    let first: serde_json::Value = serde_json::from_str(&all[0]).unwrap();
    assert_eq!(first["type"], "pane.updated");
}
