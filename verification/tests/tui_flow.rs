//! Driving the interface: what a keystroke is allowed to do, and what happens
//! when the one key that writes is pressed.

use sheep::git::Output;
use sheep::ops::{Failure, RestoreFailed, StaleTree};
use sheep::repo::Health;
use sheep::shadow::plan::RestorePlan;
use sheep::store::{Store, TurnKind};
use sheep::tui::app::{self, App, Key, Level, Mode, PlanState};
use sheep::tui::cli::{self, Step, UiArgs};
use sheep::tui::engine::{self, Action, Job, Notice, PlanView, Reply};

const NOW: u64 = 1_780_000_000;

fn plan_view() -> PlanView {
    PlanView {
        seq: 1,
        commit: "c0ffee".repeat(6),
        target_tree: "target".into(),
        current_tree: "current".into(),
        written: 1,
        removed: 0,
        files: vec![(Action::Write, "src/a.ts".into())],
    }
}

fn app_with_plan() -> App {
    let mut app = App::new("demo", "/tmp/demo", "default", NOW);
    app.apply(Reply::Loaded {
        turns: vec![sheep::store::Turn {
            seq: 1,
            kind: TurnKind::Turn,
            commit: "c0ffee".repeat(6),
            tree: "t".into(),
            parent: None,
            at: app.now - 60,
            files: 1,
            insertions: 2,
            deletions: 0,
            pane_id: Some("w1:p1".into()),
            agent: Some("goose".into()),
            prompt: None,
            note: None,
        }],
        blockers: vec![],
        warnings: vec![],
        others: vec![],
    });
    app.on_key(Key::Enter);
    let jobs = app.take_jobs();
    let Some(Job::Plan { req, .. }) = jobs.first().cloned() else { panic!("no plan job") };
    app.apply(Reply::Planned { req, plan: plan_view() });
    app
}

#[test]
fn no_plan_on_screen_means_no_restore() {
    let mut app = App::new("demo", "/tmp/demo", "default", NOW);
    app.apply(Reply::Loaded { turns: vec![], blockers: vec![], warnings: vec![], others: vec![] });
    // Nothing recorded: enter must not even open the picker, and must say why
    // rather than leaving the user on an empty overlay.
    app.on_key(Key::Enter);
    assert!(app.take_jobs().is_empty());
    assert_eq!(app.mode, Mode::Dock, "there is no plan to show, so there is no overlay to open");
    assert!(app.status.as_ref().unwrap().lines[0].contains("nothing recorded yet"));

    // A worktree Sheep will not touch is the same: refused, with the blocker's
    // own words rather than a plan that would fail a second later.
    let mut app = app_with_plan();
    app.on_key(Key::Esc);
    app.apply(Reply::Loaded {
        turns: app.turns.clone(),
        blockers: vec!["a rebase is in progress.".into()],
        warnings: vec![],
        others: vec![],
    });
    app.on_key(Key::Enter);
    assert!(app.take_jobs().is_empty(), "a blocked worktree must not even be planned against");
    assert_eq!(app.mode, Mode::Dock);
    assert!(app
        .status
        .as_ref()
        .unwrap()
        .lines
        .iter()
        .any(|l| l.contains("a rebase is in progress")));

    // A plan that is still loading is not a plan anyone has read.
    let mut app = app_with_plan();
    app.on_key(Key::Enter); // toggles the diff pane, not a restore
    app.take_jobs();
    app.plan = PlanState::Loading(1);
    app.on_key(Key::Char('R'));
    assert!(
        !app.take_jobs().iter().any(|j| matches!(j, Job::Restore { .. })),
        "a restore must not be reachable while the plan is still being worked out"
    );
}

#[test]
fn only_the_shift_key_restores() {
    for key in [Key::Enter, Key::Char('y'), Key::Char('r'), Key::Right, Key::Char(' ')] {
        let mut app = app_with_plan();
        app.on_key(key);
        assert!(
            !app.take_jobs().iter().any(|j| matches!(j, Job::Restore { .. })),
            "{key:?} must not start a restore"
        );
    }
    let mut app = app_with_plan();
    app.on_key(Key::Char('R'));
    let restores: Vec<_> =
        app.take_jobs().into_iter().filter(|j| matches!(j, Job::Restore { .. })).collect();
    assert_eq!(restores.len(), 1, "shift+R should start exactly one restore");
    match &restores[0] {
        Job::Restore { seq, expect_tree, pane, notify, .. } => {
            assert_eq!(*seq, 1);
            // The tree the plan was computed against travels with the job so the
            // worker can refuse if the working tree moved in the meantime.
            assert_eq!(expect_tree, "current");
            assert_eq!(pane.as_deref(), Some("w1:p1"));
            assert!(notify);
        }
        _ => unreachable!(),
    }
}

#[test]
fn a_plan_that_went_stale_is_reshown_rather_than_applied() {
    let mut app = app_with_plan();
    app.on_key(Key::Char('R'));
    let Some(Job::Restore { req, .. }) =
        app.take_jobs().into_iter().find(|j| matches!(j, Job::Restore { .. }))
    else {
        panic!("no restore job")
    };

    let mut fresher = plan_view();
    fresher.files.push((Action::Remove, "src/gone.ts".into()));
    fresher.removed = 1;
    fresher.current_tree = "moved".into();
    app.apply(Reply::Stale { req, plan: fresher });

    assert!(!app.restoring);
    let status = app.status.as_ref().expect("a stale plan has to be reported");
    assert_eq!(status.level, Level::Bad);
    assert!(status.lines.iter().any(|l| l.contains("nothing was restored")), "{status:?}");
    match &app.plan {
        PlanState::Ready(plan) => {
            assert_eq!(plan.touched(), 2, "the new plan replaces the old one")
        }
        other => panic!("expected the new plan on screen, got {other:?}"),
    }
}

#[test]
fn the_message_to_the_agent_names_the_turn_the_damage_and_the_way_back() {
    let text = engine::rewind_message(7, &"a1b2c3d4e5f6".repeat(3), 6, 2, Some(13));
    assert!(text.starts_with("[sheep]"), "{text}");
    assert!(text.contains("turn #7"), "{text}");
    assert!(text.contains("a1b2c3d4e5f6"), "{text}");
    assert!(text.contains("8 path(s) changed on disk: 6 rewritten, 2 deleted"), "{text}");
    assert!(text.contains("re-read any file before you edit it"), "{text}");
    assert!(text.contains("`sheep restore #13 --yes`"), "{text}");

    // With no checkpoint there is no way back to promise, so it is not promised.
    let text = engine::rewind_message(7, "abc", 1, 0, None);
    assert!(!text.contains("puts it back"), "{text}");
}

/// The app's half of the protection: while a restore is in flight, nothing a
/// key does may queue work. The other half — that keys buffered by the terminal
/// during the write never get delivered afterwards — is not reachable from here
/// at all, because an `App` has no input buffer. It lives in the event loop and
/// is tested in `tui_runtime.rs`.
#[test]
fn no_key_queues_work_while_a_restore_is_in_flight() {
    let mut app = app_with_plan();
    app.on_key(Key::Char('R'));
    let first: Vec<_> =
        app.take_jobs().into_iter().filter(|j| matches!(j, Job::Restore { .. })).collect();
    assert_eq!(first.len(), 1);
    assert!(app.restoring);

    // Someone leaning on the key for the second the restore takes, plus every
    // other key that normally does something.
    for key in [
        Key::Char('R'),
        Key::Char('R'),
        Key::Enter,
        Key::Char('j'),
        Key::Char('d'),
        Key::Esc,
        Key::Char('n'),
        Key::Char('r'),
    ] {
        app.on_key(key);
    }
    assert!(app.take_jobs().is_empty(), "no keystroke may queue work while a restore is in flight");
    assert!(app.status.as_ref().unwrap().lines[0].contains("keys are ignored"));
    // The keys that would otherwise have moved the screen out from under the
    // write did not.
    assert_eq!(app.mode, Mode::Rewind);
    assert!(!app.show_patch);
    assert!(app.notify, "`n` must not have flipped the write-back mid-restore");

    // And the legitimate path is intact: once the worker answers, a deliberate
    // press on the plan that is now on screen does start a restore.
    let Job::Restore { req, .. } = first[0] else { unreachable!() };
    let mut fresher = plan_view();
    fresher.files.push((Action::Remove, "src/gone.ts".into()));
    fresher.removed = 1;
    app.apply(Reply::Stale { req, plan: fresher });
    assert!(!app.restoring);
    app.on_key(Key::Char('R'));
    assert_eq!(app.take_jobs().iter().filter(|j| matches!(j, Job::Restore { .. })).count(), 1);
}

#[test]
fn quitting_during_a_restore_leaves_the_write_in_flight_for_the_runtime_to_finish() {
    let mut app = app_with_plan();
    app.on_key(Key::Char('R'));
    app.take_jobs();
    assert!(app.restoring);

    app.on_key(Key::Char('q'));
    assert!(app.quit, "quitting must still be possible");
    assert!(app.restoring, "quitting must not clear the flag the runtime waits on before exiting");

    // Only when the worker answers does the interface become quittable.
    let mut done = plan_view();
    done.files.clear();
    app.apply(Reply::Restored {
        req: 2,
        outcome: sheep::tui::engine::Outcome {
            seq: 1,
            commit: "c0ffee".repeat(6),
            written: 1,
            removed: 0,
            checkpoint: Some(2),
            notice: Notice::Off,
        },
    });
    assert!(!app.restoring);
}

#[test]
fn the_only_scripted_key_refused_is_the_one_that_writes() {
    assert_eq!(cli::scripted_key('R'), None);
    assert_eq!(cli::scripted_key('r'), Some(Key::Char('r')));
    assert_eq!(cli::scripted_key('d'), Some(Key::Char('d')));
    assert_eq!(cli::scripted_key('\r'), Some(Key::Enter));
    assert_eq!(cli::scripted_key('\x1b'), Some(Key::Esc));
}

/// What a restore reports, in each of the four things that can happen to the
/// write-back. This is the plugin's headline behaviour and the sentence a user
/// reads to find out whether their agent knows what happened; only the
/// "no pane" case was covered anywhere.
#[test]
fn a_restore_reports_the_way_back_and_what_the_agent_was_told() {
    let outcome = |notice: Notice| sheep::tui::engine::Outcome {
        seq: 7,
        commit: "a1b2c3d4e5f6".repeat(3),
        written: 6,
        removed: 2,
        checkpoint: Some(13),
        notice,
    };

    let told = app::restored_lines(&outcome(Notice::Sent("w3K:p2".into()))).join(" | ");
    assert!(told.contains("restored to #7 · 6 files written, 2 removed"), "{told}");
    assert!(told.contains("turn #13"), "the way back has to be named: {told}");
    assert!(told.contains("`sheep restore #13 --yes`"), "{told}");
    assert!(told.contains("the agent in pane w3K:p2 was told what was taken back"), "{told}");

    let off = app::restored_lines(&outcome(Notice::Off)).join(" | ");
    assert!(off.contains("the agent was not told"), "{off}");
    assert!(off.contains("press n"), "and how to turn it back on: {off}");

    let skipped = app::restored_lines(&outcome(Notice::Skipped("not running inside herdr".into())))
        .join(" | ");
    assert!(skipped.contains("not told: not running inside herdr"), "{skipped}");

    let failed =
        app::restored_lines(&outcome(Notice::Failed("herdr api not_found: no such pane".into())))
            .join(" | ");
    assert!(failed.contains("could not tell the agent"), "{failed}");
    assert!(failed.contains("no such pane"), "the reason has to survive: {failed}");

    // A restore with nothing to checkpoint must not promise a way back.
    let mut nothing = outcome(Notice::Off);
    nothing.checkpoint = None;
    let bare = app::restored_lines(&nothing).join(" | ");
    assert!(!bare.contains("sheep restore #"), "{bare}");
    assert!(bare.contains("nothing needed checkpointing"), "{bare}");
}

#[test]
fn the_cursor_follows_the_turn_rather_than_the_row() {
    let mut app = App::new("demo", "/tmp/demo", "default", NOW);
    let make = |seq: u64| sheep::store::Turn {
        seq,
        kind: TurnKind::Turn,
        commit: format!("{seq}"),
        tree: "t".into(),
        parent: None,
        at: 0,
        files: 1,
        insertions: 0,
        deletions: 0,
        pane_id: None,
        agent: None,
        prompt: None,
        note: None,
    };
    app.apply(Reply::Turns(vec![make(3), make(2), make(1)]));
    app.on_key(Key::Down);
    assert_eq!(app.selected().unwrap().seq, 2);

    // The agent records another turn while the dock is open.
    app.apply(Reply::Turns(vec![make(4), make(3), make(2), make(1)]));
    assert_eq!(
        app.selected().unwrap().seq,
        2,
        "a new turn arriving must not slide the cursor onto a different snapshot"
    );
}

fn healthy() -> Health {
    Health { blockers: vec![], warnings: vec![], tracked_files: 1 }
}

/// The dock has to be able to tell "nothing has happened yet" from "you are
/// reading a timeline nothing writes".
#[test]
fn a_load_reports_the_other_timelines_recorded_for_this_worktree() {
    let files = vec!["goose.ndjson".to_string(), "codex.ndjson".to_string(), "x.tmp".to_string()];
    let lines = Store::lines_for(files);
    assert_eq!(lines, vec!["codex".to_string(), "goose".to_string()]);

    let Reply::Loaded { turns, others, .. } = engine::loaded(&healthy(), vec![], &lines, "w31:pW")
    else {
        panic!("a reload should load")
    };
    assert!(turns.is_empty(), "nothing was ever recorded under a pane id");
    assert_eq!(others, vec!["codex".to_string(), "goose".to_string()]);

    // And the timeline you are actually on is not offered as somewhere else to
    // look.
    let Reply::Loaded { others, .. } = engine::loaded(&healthy(), vec![], &lines, "goose") else {
        panic!("a reload should load")
    };
    assert_eq!(others, vec!["codex".to_string()]);
}

/// The mapping from a failed restore to what the interface says.
#[test]
fn a_restore_that_could_not_be_undone_is_reported_as_a_moved_tree() {
    let unrecovered = RestoreFailed {
        recovered: false,
        checkpoint_seq: Some(4),
        cause: "cannot write src/a.ts: Permission denied (os error 13)".into(),
        recovery_error: Some("cannot create src/a.ts".into()),
    };
    let said = unrecovered.text();
    match engine::restore_failure(7, 1, "c0ffee", &Failure::Restore(unrecovered), "") {
        Reply::RestoreFailed { req, message, tree_moved } => {
            assert_eq!(req, 7);
            assert!(tree_moved, "ops could not put the tree back, so it is between two states");
            // the operation's own words, not a second phrasing that can drift
            assert_eq!(message, said);
            assert!(message.contains("`sheep restore #4 --yes`"), "{message}");
        }
        other => panic!("expected a failure reply, got {other:?}"),
    }

    let recovered = RestoreFailed {
        recovered: true,
        checkpoint_seq: Some(4),
        cause: "cannot write src/a.ts".into(),
        recovery_error: None,
    };
    match engine::restore_failure(7, 1, "c0ffee", &Failure::Restore(recovered), "") {
        Reply::RestoreFailed { tree_moved, message, .. } => {
            assert!(!tree_moved, "the files were put back, so nothing is uncertain");
            assert!(message.contains("put back as they were"), "{message}");
        }
        other => panic!("expected a failure reply, got {other:?}"),
    }

    // Anything else happened before a file was touched.
    let early = Failure::Other("refusing to continue: a rebase is in progress.".into());
    match engine::restore_failure(7, 1, "c0ffee", &early, "") {
        Reply::RestoreFailed { tree_moved, message, .. } => {
            assert!(!tree_moved);
            assert!(message.contains("a rebase is in progress"), "{message}");
        }
        other => panic!("expected a failure reply, got {other:?}"),
    }
}

#[test]
fn a_moved_tree_is_answered_with_the_plan_as_it_stands() {
    let plan = RestorePlan {
        target_tree: "target".into(),
        current_tree: "moved".into(),
        write: vec!["a.txt".into()],
        remove: vec!["b.txt".into()],
    };
    let stale = Failure::Stale(StaleTree { expected: "seen".into(), actual: "moved".into(), plan });
    match engine::restore_failure(1, 1, "c0ffee", &stale, "") {
        Reply::Stale { req, plan } => {
            assert_eq!(req, 1);
            assert_eq!(plan.seq, 1);
            assert_eq!(plan.current_tree, "moved");
            assert!(!plan.commit.is_empty(), "the refused plan should still name its target");
            assert_eq!(plan.files[0], (Action::Write, "a.txt".to_string()));
            assert_eq!(plan.files[1], (Action::Remove, "b.txt".to_string()));
        }
        other => panic!("expected a refusal, got {other:?}"),
    }
}

#[test]
fn the_agent_write_back_is_a_no_op_outside_herdr() {
    let engine::Telling::Agent(pane) = engine::telling(true, Some("w1:p1".into())) else {
        panic!("there is a pane to tell")
    };
    assert_eq!(engine::told(pane, Ok(false)), Notice::Skipped("not running inside herdr".into()));
    assert_eq!(engine::told("w1:p1".into(), Ok(true)), Notice::Sent("w1:p1".into()));
    assert_eq!(engine::told("w1:p1".into(), Err("no".into())), Notice::Failed("no".into()));
    assert!(matches!(engine::telling(false, Some("w1:p1".into())), engine::Telling::Nobody(Notice::Off)));
    assert!(matches!(
        engine::telling(true, None),
        engine::Telling::Nobody(Notice::Skipped(why)) if why == "no agent pane recorded on this timeline"
    ));
}

fn output(stdout: &str, success: bool, stderr: &str) -> Output {
    Output {
        success,
        status: "exit status: 0".to_string(),
        stdout: stdout.to_string(),
        stderr: stderr.to_string(),
    }
}

#[test]
fn the_patch_preview_reads_the_hunks_out_of_the_shadow_repo() {
    let raw = "diff --git a/src/cart.ts b/src/cart.ts\nindex 1..2 100644\n--- a/src/cart.ts\n+++ b/src/cart.ts\n@@ -1 +1 @@\n-export const total = () => 2;\n+export const total = () => 1;\n";
    match engine::patched(2, "src/cart.ts".into(), Ok(output(raw, true, ""))) {
        Reply::Patched { body, .. } => {
            assert!(body.contains("@@"), "{body}");
            assert!(body.contains("-export const total = () => 2;"), "{body}");
            assert!(body.contains("+export const total = () => 1;"), "{body}");
            // The noise above the first hunk is stripped: a preview panel is
            // twelve rows and four of them cannot go on `index`/`---`/`+++`.
            assert!(!body.contains("diff --git"), "{body}");
        }
        other => panic!("expected a patch, got {other:?}"),
    }
    match engine::patched(2, "a".into(), Ok(output("", false, "fatal: bad object\n"))) {
        Reply::PatchFailed { message, .. } => {
            assert_eq!(message, "git diff-tree failed: fatal: bad object")
        }
        other => panic!("expected a failure, got {other:?}"),
    }
}

#[test]
fn a_long_patch_says_where_the_preview_stops() {
    let raw: String = (0..700).map(|n| format!("+{n}\n")).collect();
    let shown = engine::patch_text(&raw);
    assert_eq!(shown.lines().count(), 602);
    assert!(shown.ends_with("+599\n…\n(preview stops at 600 lines)"), "{shown}");
    let raw: String = (0..600).map(|n| format!("+{n}\n")).collect();
    assert_eq!(engine::patch_text(&raw).lines().count(), 600);
}

/// `--keys` runs before a single frame is drawn. `R` is the only key that
/// writes, so it is the one key `--keys` must not carry.
#[test]
fn scripted_keys_cannot_reach_a_write() {
    let args = UiArgs {
        rewind: true,
        no_notify: false,
        select: Some("1".into()),
        keys: Some("RRR".into()),
        snapshot: Some("80x20".into()),
    };
    let steps = cli::settle(&args);
    assert_eq!(steps.len(), 3, "load, select and open the plan, and nothing else: {steps:?}");
    assert!(matches!(&steps[0], Step::Reload));
    assert!(matches!(&steps[1], Step::Select(t) if t == "1"));
    assert!(matches!(&steps[2], Step::Rewind));
}

/// The same steps, carried out: the plan for the turn is on screen, and nothing
/// asks for a restore.
#[test]
fn scripted_keys_end_at_the_plan() {
    let args = UiArgs {
        rewind: true,
        no_notify: false,
        select: Some("1".into()),
        keys: Some("RRR".into()),
        snapshot: Some("80x20".into()),
    };
    let turn = |seq: u64| {
        let mut t = app_with_plan().turns[0].clone();
        t.seq = seq;
        t
    };
    let mut app = App::new("repo", "/tmp/repo", "default", NOW);
    let mut asked = Vec::new();
    for step in cli::settle(&args) {
        match step {
            Step::Reload => app.reload(),
            Step::Select(target) => cli::select_turn(&mut app, &target),
            Step::Rewind => app.open_rewind(),
            Step::Press(key) => app.on_key(key),
        }
        for job in app.take_jobs() {
            asked.push(format!("{job:?}"));
            match job {
                Job::Reload => app.apply(Reply::Loaded {
                    turns: vec![turn(2), turn(1)],
                    blockers: vec![],
                    warnings: vec![],
                    others: vec![],
                }),
                Job::Plan { req, seq, .. } => {
                    app.apply(Reply::Planned { req, plan: PlanView { seq, ..plan_view() } });
                }
                other => panic!("only a reading and a plan are asked for: {other:?}"),
            }
        }
    }
    match &app.plan {
        PlanState::Ready(plan) => assert_eq!(plan.seq, 1),
        other => panic!("expected the plan for #1, got {other:?}"),
    }
    assert_eq!(asked.len(), 2, "{asked:?}");
    assert!(app.take_jobs().is_empty(), "no restore is queued");
    assert!(!app.restoring);
    assert_eq!(app.mode, Mode::Rewind);
}

#[test]
fn a_size_is_read_and_kept_within_what_can_be_drawn() {
    assert_eq!(cli::parse_size("100x34"), (100, 34));
    assert_eq!(cli::parse_size(" 80 X 20 "), (80, 20));
    assert_eq!(cli::parse_size("5x5"), (20, 8));
    assert_eq!(cli::parse_size("9999x9999"), (400, 200));
    assert_eq!(cli::parse_size("wide"), (100, 34));
}

#[test]
fn a_target_selects_its_turn() {
    let mut app = app_with_plan();
    app.on_key(Key::Esc);
    let make = |seq: u64| {
        let mut t = app.turns[0].clone();
        t.seq = seq;
        t
    };
    let turns = vec![make(9), make(8), make(7)];
    app.apply(Reply::Turns(turns));
    app.on_key(Key::Home);
    cli::select_turn(&mut app, "#7");
    assert_eq!(app.selected().unwrap().seq, 7);
    cli::select_turn(&mut app, "nonsense");
    assert_eq!(app.selected().unwrap().seq, 7);
}

#[test]
fn the_worker_speaks_up_only_when_there_is_something_new() {
    let app = app_with_plan();
    let mut seen = engine::Seen::new();
    assert!(seen.news(&app.turns), "the first reading is news");
    assert!(!seen.news(&app.turns), "the same again is not");
    let mut more = vec![app.turns[0].clone(), app.turns[0].clone()];
    more[0].seq = 2;
    more[0].commit = "new".into();
    assert!(seen.news(&more));
    seen.answered(&Reply::Loaded { turns: vec![], blockers: vec![], warnings: vec![], others: vec![] });
    assert!(!seen.news(&vec![]), "a reload told it already");
}
