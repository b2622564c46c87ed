//! The short strings a narrow dock can show, and what the commands print.

use sheep::git::{Git, Output};
use sheep::herdr::session::tell_params;
use sheep::ops::collect::Collected;
use sheep::repo::{Health, Warning, Worktree};
use sheep::report;
use sheep::shadow::plan::RestorePlan;
use sheep::store::{Turn, TurnKind};
use sheep::tui::cli::seated;
use sheep::tui::text::{
    abbrev, age, age_short, basename, clean, filled_blocks, magnitude, pad, stamp, truncate,
    truncate_left, width, wrap,
};

#[test]
fn a_cut_says_that_something_was_lost() {
    assert_eq!(truncate("hello", 5), "hello");
    assert_eq!(truncate("hello", 4), "hel…");
    assert_eq!(truncate("hello", 1), "…");
    assert_eq!(truncate("hello", 0), "");
    assert_eq!(truncate_left("src/tui/render.rs", 10), "…render.rs");
    assert_eq!(truncate_left("a", 10), "a");
    assert_eq!(pad("ab", 4), "ab  ");
    assert_eq!(pad("abcdef", 4), "abc…");
    assert_eq!(abbrev("0123456789", 8), "01234567");
    assert_eq!(width("“é”"), 3);
}

#[test]
fn a_scraped_string_is_one_printable_line() {
    assert_eq!(clean("  a\tb\n\n c\u{7}d  "), "a b c d");
    assert_eq!(clean("\n\t "), "");
    assert_eq!(clean(&clean(" x  y ")), "x y");
}

#[test]
fn an_age_is_told_in_its_largest_unit() {
    assert_eq!(age(100, 98), "just now");
    assert_eq!(age(100, 95), "5s ago");
    assert_eq!(age(1_000, 0), "16m ago");
    assert_eq!(age(10_000, 0), "2h ago");
    assert_eq!(age(200_000, 0), "2d ago");
    assert_eq!(age(2_000_000, 0), "3w ago");
    assert_eq!(age_short(100, 98), "now");
    assert_eq!(age_short(1_000, 0), "16m");
    assert_eq!(age(0, 100), "just now");
}

#[test]
fn a_stamp_says_which_zone_it_is_in() {
    assert_eq!(stamp(0), "1970-01-01 00:00 UTC");
    assert_eq!(stamp(951_827_696), "2000-02-29 12:34 UTC");
    assert_eq!(stamp(1_787_668_320), "2026-08-25 14:32 UTC");
}

#[test]
fn a_bar_never_hides_a_side_of_a_change() {
    assert_eq!(filled_blocks(0, 0, 10, 12, 5), 0);
    assert_eq!(filled_blocks(1, 0, 1_000, 12, 0), 1, "a one-line change is not nothing");
    assert_eq!(filled_blocks(9, 0, 9, 12, 99), 12);
    assert_eq!(magnitude(0, 5, 4, 2), (0, 4));
    assert_eq!(magnitude(5, 0, 4, 2), (4, 0));
    assert_eq!(magnitude(1, 99, 4, 0), (1, 3));
    assert_eq!(magnitude(99, 1, 4, 4), (3, 1));
    assert_eq!(magnitude(1, 1, 4, 2), (2, 2));
}

#[test]
fn words_are_wrapped_and_long_ones_split() {
    assert_eq!(wrap("one two three", 8), vec!["one two".to_string(), "three".to_string()]);
    assert_eq!(wrap("abcdefghij", 4), vec!["abcd".to_string(), "efgh".to_string(), "ij".to_string()]);
    assert!(wrap("anything", 0).is_empty());
    assert_eq!(wrap("  ", 5), vec![String::new()], "a blank text is still one line");
    assert_eq!(basename("/w/repo"), "repo");
}

// ------------------------------------------------------------------- reports --

fn turn(seq: u64) -> Turn {
    Turn {
        seq,
        kind: TurnKind::Checkpoint,
        commit: "0123456789abcdef".into(),
        tree: "t".into(),
        parent: None,
        at: 0,
        files: 3,
        insertions: 12,
        deletions: 4,
        pane_id: None,
        agent: None,
        prompt: None,
        note: Some("why".into()),
    }
}

#[test]
fn the_log_lists_the_newest_turn_first() {
    let lines = report::log_lines(&vec![turn(1), turn(2), turn(3)], "default", 2);
    assert_eq!(
        lines,
        vec![
            "#3    0123456789ab  checkpoint    3 files  +12     -4      why".to_string(),
            "#2    0123456789ab  checkpoint    3 files  +12     -4      why".to_string(),
        ]
    );
    assert_eq!(
        report::log_lines(&vec![], "default", 2),
        vec!["no turns recorded on `default` yet".to_string()]
    );
    assert_eq!(turn(3).subject(), "#3 checkpoint - · 3 files +12 -4");
    assert_eq!(report::snapped(&Some(turn(3))), "0123456789ab  #3 checkpoint - · 3 files +12 -4");
    assert_eq!(report::snapped(&None), "nothing changed since the last turn");
}

#[test]
fn a_plan_is_printed_path_by_path() {
    let plan = RestorePlan {
        write: vec!["a".into()],
        remove: vec!["b".into()],
        target_tree: "t".into(),
        current_tree: "c".into(),
    };
    assert_eq!(
        report::plan_lines(&plan, "0123456789abcdef"),
        vec![
            "restore to 0123456789ab  ·  1 file(s) written, 1 removed".to_string(),
            "  write   a".to_string(),
            "  remove  b".to_string(),
        ]
    );
    assert_eq!(
        report::plan_lines(&RestorePlan::default(), "abc"),
        vec!["already at abc: nothing to restore".to_string()]
    );
    assert_eq!(
        report::restored(2, Some(5)),
        vec![
            "restored 2 path(s).".to_string(),
            "previous state kept as turn #5 — `sheep restore #5` puts it back.".to_string(),
        ]
    );
}

#[test]
fn the_doctor_names_what_is_left_alone() {
    let wt = Worktree {
        root: "/w/nested".into(),
        git_dir: "/w/nested/.git".into(),
        common_dir: "/w/nested/.git".into(),
        id: "nested-09dea686ace6d410".into(),
    };
    let health = Health {
        blockers: vec![],
        warnings: vec![Warning::Submodules(1), Warning::IgnoredFilesPresent],
        tracked_files: 3,
    };
    assert_eq!(
        report::doctor(&wt, "/w/neststate", &health),
        vec![
            "worktree   /w/nested".to_string(),
            "id         nested-09dea686ace6d410".to_string(),
            "kind       main checkout".to_string(),
            "objects    /w/nested/.git/objects".to_string(),
            "state      /w/neststate".to_string(),
            "tracked    3 files".to_string(),
            "note       1 submodule(s): Sheep records the commit pointer, not the submodule's working tree.".to_string(),
            "note       gitignored files present: Sheep never captures or overwrites them.".to_string(),
            "status     ready".to_string(),
        ]
    );
}

// ----------------------------------------------------------------------- git --

#[test]
fn a_git_command_reads_nothing_from_the_environment_it_runs_in() {
    let run = Git::bare("/w/state/shadow/x.git").command(&vec!["gc".to_string()]);
    assert!(run.clear.contains(&"GIT_DIR".to_string()));
    assert!(run.clear.contains(&"GIT_INDEX_FILE".to_string()));
    assert!(run.args.contains(&"gc".to_string()));
}

#[test]
fn a_failed_git_command_says_what_it_was() {
    let out = |success: bool, stdout: &str, stderr: &str| Output {
        success,
        status: "exit status: 128".to_string(),
        stdout: stdout.to_string(),
        stderr: stderr.to_string(),
    };
    let args = vec!["rev-parse".to_string(), "HEAD".to_string()];
    assert_eq!(Git::run(&args, Ok(out(true, "abc\n", ""))).unwrap(), "abc");
    let err = Git::run(&args, Ok(out(false, "", "fatal: no\n"))).unwrap_err();
    assert!(err.contains("rev-parse") && err.contains("fatal: no"), "{err}");
    assert!(Git::run(&args, Err("gone".to_string())).is_err());
    assert_eq!(
        Git::run_z(&args, Ok(out(true, "a\0b\0", ""))).unwrap(),
        vec!["a".to_string(), "b".to_string()]
    );
}

// ------------------------------------------------------------------ the commands

#[test]
fn ui_without_a_terminal_says_so() {
    let err = seated(false).expect_err("ui must not enter raw mode without a tty");
    assert!(
        err.contains("interactive terminal"),
        "a raw-mode error is not a reason a person can act on: {err}"
    );
    assert!(err.contains("sheep log") || err.contains("--snapshot"), "{err}");
    assert!(seated(true).is_ok());
}

#[test]
fn a_shortened_timeline_says_what_it_kept() {
    let done = Collected {
        line: "goose".into(),
        kept: 500,
        dropped: 12,
        bytes_before: 4096,
        bytes_after: 1024,
    };
    assert_eq!(
        report::collected(&done),
        "goose  ·  500 turn(s) kept, 12 dropped  ·  4096 → 1024 bytes"
    );
}

#[test]
fn an_agent_is_told_in_its_own_pane() {
    let sent: serde_json::Value =
        serde_json::from_str(&tell_params("w3K:p1", "say \"hi\"")).unwrap();
    assert_eq!(sent["target"], "w3K:p1");
    assert_eq!(sent["text"], "say \"hi\"");
}
