//! Which server answers mean "the thing you asked about is not there", and
//! which mean "something is wrong". Reading the second as the first is how a
//! recorder stops recording for the rest of the day while its log still says
//! everything is fine.

use sheep::herdr::detect::Tuning;
use sheep::herdr::pump::{PumpAction, PumpEvent, Pumping};
use sheep::herdr::recorder::{Config, Ended, LineBy, Pump, Recorder};
use sheep::herdr::session::{
    agents_in, optional, pane_in, pane_params, processes_in, report_params, screen_in,
    screen_params, Processes,
};
use sheep::herdr::wire::{self, Fault, Heard};

fn error(code: &str, message: &str) -> Option<String> {
    Some(format!(
        "{{\"id\":\"x\",\"error\":{{\"code\":\"{code}\",\"message\":\"{message}\"}}}}\n"
    ))
}

fn answer(result: &str) -> Option<String> {
    Some(format!("{{\"id\":\"x\",\"result\":{result}}}\n"))
}

/// What asking about something comes to: there, gone, or a fault.
fn asked(method: &str, line: &Option<String>) -> Result<Option<String>, Fault> {
    optional(wire::reply(method, line))
}

fn processes(line: &Option<String>) -> Processes {
    let result = asked("pane.process_info", line).unwrap().expect("processes");
    processes_in(&result).unwrap()
}

// ------------------------------------------- what absence is, and what is not --

#[test]
fn a_pane_that_does_not_exist_is_absence() {
    let line = error("pane_not_found", "pane w9:p9 not found");
    assert!(asked("pane.get", &line).expect("not-found is an answer, not a fault").is_none());
    assert!(asked("pane.process_info", &line).expect("same for process info").is_none());
    assert!(asked("pane.read", &line).expect("and for reading the screen").is_none());
}

#[test]
fn an_agent_that_does_not_exist_is_absence_too() {
    let line = error("agent_not_found", "agent target nope not found");
    assert!(asked("pane.get", &line).unwrap().is_none());
}

#[test]
fn a_method_herdr_does_not_have_is_a_fault_not_absence() {
    // This is the one that matters. A herdr built without `pane.process_info`,
    // or a params mistake on our side, answers `invalid_request` — and if that
    // reads as "the pane is gone" the recorder drops every turn from then on
    // and says nothing about it.
    let line = error("invalid_request", "unknown variant `pane.process_info`");
    let err = asked("pane.process_info", &line).expect_err("a broken method is not a missing pane");
    assert!(err.text().contains("invalid_request"), "and it keeps its code: {}", err.text());

    let err = asked("pane.get", &line).expect_err("nor is a params mistake");
    assert!(err.text().contains("unknown variant"), "and its message: {}", err.text());
}

#[test]
fn an_internal_failure_is_a_fault_too() {
    // Nothing is on an allow-list by accident: any code we have not verified
    // means "gone" has to propagate.
    let line = error("internal", "the server fell over");
    assert!(asked("pane.get", &line).is_err());
    assert!(asked("pane.process_info", &line).is_err());
    assert!(wire::reply("pane.report_metadata", &line).is_err());
}

// ------------------------------------------------------- reading the answers --

#[test]
fn a_pane_reply_becomes_a_sighting() {
    let line = answer(
        "{\"type\":\"pane_info\",\"pane\":{\"pane_id\":\"w1:p1\",\"terminal_id\":\"t\",\"workspace_id\":\"w1\",\"tab_id\":\"w1:t1\",\"focused\":false,\"agent\":\"goose\",\"agent_status\":\"done\",\"cwd\":\"/repo\",\"revision\":42}}",
    );
    let result = asked("pane.get", &line).unwrap().expect("a result");
    let sighting = pane_in(&result).unwrap().expect("a pane");
    assert_eq!(sighting.pane_id, "w1:p1");
    assert_eq!(sighting.agent.as_deref(), Some("goose"));
    assert_eq!(sighting.cwd.as_deref(), Some("/repo"));
    assert_eq!(sighting.revision, 42);
    assert!(sighting.status.is_rest());
}

#[test]
fn a_pane_with_no_agent_is_not_a_sighting() {
    // Sheep records agent turns. A plain shell pane has none, and tracking it
    // would only fill the detector with panes that can never produce anything.
    let line = answer(
        "{\"type\":\"pane_info\",\"pane\":{\"pane_id\":\"w1:p9\",\"terminal_id\":\"t\",\"workspace_id\":\"w1\",\"tab_id\":\"w1:t1\",\"focused\":false,\"agent_status\":\"unknown\",\"cwd\":\"/repo\",\"revision\":1}}",
    );
    let result = asked("pane.get", &line).unwrap().expect("a result");
    assert!(pane_in(&result).unwrap().is_none());
}

#[test]
fn a_process_reply_names_the_foreground_group() {
    let found = processes(&answer(
        "{\"type\":\"pane_process_info\",\"process_info\":{\"pane_id\":\"w1:p1\",\"shell_pid\":100,\"foreground_process_group_id\":200,\"foreground_processes\":[{\"pid\":200,\"name\":\"goose.exe\",\"argv0\":\"goose\"},{\"pid\":201,\"name\":\"node\",\"argv0\":\"node\"}]}}",
    ));
    assert!(found.agent_is_running(), "a non-shell leader means an agent is there");
    assert_eq!(found.pids(), vec![200, 201]);
    assert_eq!(found.leader_name(), "goose.exe");
}

#[test]
fn a_pane_sitting_at_its_own_shell_has_no_agent_running() {
    let found = processes(&answer(
        "{\"type\":\"pane_process_info\",\"process_info\":{\"pane_id\":\"w1:p1\",\"shell_pid\":100,\"foreground_process_group_id\":100,\"foreground_processes\":[{\"pid\":100,\"name\":\"zsh\",\"argv0\":\"-zsh\"}]}}",
    ));
    assert!(
        !found.agent_is_running(),
        "whatever herdr last said, no agent could have finished a turn here"
    );
}

// ------------------------------------------------------------ the event pump --

/// What the loop does about one poll of the stream.
fn polled(pump: Pump) -> PumpAction {
    let recorder = Recorder::new(Config {
        dry_run: true,
        tuning: Tuning { settle: 1, patience: 1 },
        line_by: LineBy::Agent,
        file_budget: 1,
        state: "/w/state".to_string(),
        reconcile_every: 1,
    });
    let (mut at, _) = Pumping::new();
    recorder.pump(&mut at, PumpEvent::Reconciled(1));
    recorder.pump(&mut at, PumpEvent::Polled(pump))
}

#[test]
fn the_live_source_hands_events_to_the_loop_and_reports_the_hang_up() {
    let heard = wire::next_event(
        "{\"event\":\"pane_updated\",\"data\":{\"type\":\"pane_updated\",\"pane\":{\"pane_id\":\"w1:p1\",\"terminal_id\":\"t\",\"workspace_id\":\"w1\",\"tab_id\":\"w1:t1\",\"focused\":false,\"agent\":\"goose\",\"agent_status\":\"working\",\"cwd\":\"/repo\",\"revision\":7}}}\n",
    );
    let Heard::Event(event) = heard else { panic!("the first line should be the event: {heard:?}") };
    assert_eq!(event.kind, "pane_updated");
    let data: serde_json::Value = serde_json::from_str(&event.data).unwrap();
    assert_eq!(data["pane"]["agent_status"], "working");
    assert!(matches!(polled(Pump::Event(event)), PumpAction::Handle(_)), "an event goes on");
    assert!(matches!(polled(Pump::Idle), PumpAction::Clock), "and so does silence");

    // The end of the stream is what a live handoff and a shutdown look like.
    assert!(matches!(polled(Pump::Closed), PumpAction::Done(Ended::Disconnected)));
    let failed = polled(Pump::Failed("no".to_string()));
    assert!(matches!(failed, PumpAction::Done(Ended::Failed(why)) if why == "no"));
}

#[test]
fn every_agent_that_herdr_lists_is_seen() {
    let result = "{\"agents\":[{\"pane_id\":\"w1:p1\",\"agent\":\"goose\",\"agent_status\":\"working\",\"cwd\":\"/a\",\"revision\":1},{\"agent\":\"no pane\"},{\"pane_id\":\"w1:p2\",\"agent\":\"codex\",\"agent_status\":\"idle\",\"revision\":2}]}";
    let seen = agents_in(result).unwrap();
    let ids: Vec<&str> = seen.iter().map(|s| s.pane_id.as_str()).collect();
    assert_eq!(ids, vec!["w1:p1", "w1:p2"]);
    assert_eq!(seen[1].cwd, None);
    assert!(agents_in("{}").is_err(), "an answer of another shape is a fault");
    assert!(processes_in("{}").is_err());
    assert!(pane_in("{}").is_err());
}

#[test]
fn what_is_asked_names_the_pane() {
    let asked: serde_json::Value = serde_json::from_str(&pane_params("w1:p1")).unwrap();
    assert_eq!(asked["pane_id"], "w1:p1");
    let read: serde_json::Value = serde_json::from_str(&screen_params("w1:p1", 80)).unwrap();
    assert_eq!(read["pane_id"], "w1:p1");
    assert_eq!(read["lines"], 80);
    let told: serde_json::Value =
        serde_json::from_str(&report_params("w1:p1", 7, 60_000_000_000)).unwrap();
    assert_eq!(told["pane_id"], "w1:p1");
    assert!(told.to_string().contains("#7"), "{told}");
    assert!(told.to_string().contains("60000"), "{told}");
}

#[test]
fn a_screen_reply_is_its_text() {
    let result = "{\"type\":\"pane_read\",\"read\":{\"text\":\"one\\ntwo\"}}";
    assert_eq!(screen_in(result).unwrap(), "one\ntwo");
    assert!(screen_in("{}").is_err());
}
