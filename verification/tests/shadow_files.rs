//! What the shadow repository keeps beside the user's, and how it is read.

use sheep::calls::Call;
use sheep::git::Output;
use sheep::repo::Worktree;
use sheep::shadow::Shadow;
use sheep::tui::app::Key;
use sheep::tui::cli::{no_state, parse_size, translate, Code};

fn shadow() -> Shadow {
    let wt = Worktree {
        root: "/w/repo".into(),
        git_dir: "/w/main/.git/worktrees/repo".into(),
        common_dir: "/w/main/.git".into(),
        id: "repo-0011223344556677".into(),
    };
    Shadow::ensure(wt, "/w/state")
}

#[test]
fn everything_it_writes_is_under_the_state_directory() {
    let s = shadow();
    assert_eq!(s.git_dir, "/w/state/shadow/repo-0011223344556677.git");
    assert_eq!(s.tmp_dir, "/w/state/tmp");
    for path in [s.head_file(), s.alternates_file(), s.exclude_file(), s.marker_file()] {
        assert!(path.starts_with("/w/state/shadow/"), "{path}");
    }
    assert_eq!(s.exclude_source(), "/w/main/.git/info/exclude");
    assert_eq!(s.upstream_file(), "/w/main/.git/objects/info/alternates");
    assert_eq!(s.marker(), "/w/repo\n");
    assert_eq!(s.scratch_index("snap", 42), "/w/state/tmp/repo-0011223344556677-snap-42.idx");
}

#[test]
fn it_borrows_from_whatever_the_users_repository_borrows_from() {
    let s = shadow();
    assert_eq!(s.alternates(&None), "/w/main/.git/objects\n");
    assert_eq!(
        s.alternates(&Some("  ../../other/objects \n\n/elsewhere/objects\n".to_string())),
        "/w/main/.git/objects\n/w/main/.git/objects/../../other/objects\n/elsewhere/objects\n"
    );
}

#[test]
fn a_reference_is_tried_as_a_commit_a_timeline_and_an_ancestor() {
    assert_eq!(
        Shadow::candidates("default", "2"),
        vec![
            "2^{commit}".to_string(),
            "refs/sheep/2^{commit}".to_string(),
            "refs/sheep/default~2^{commit}".to_string(),
        ]
    );
    let out = |success: bool, stdout: &str| Output {
        success,
        status: "exit status: 1".to_string(),
        stdout: stdout.to_string(),
        stderr: String::new(),
    };
    let answers = vec![out(false, "abc\n"), out(true, "\n"), out(true, "def\n")];
    assert_eq!(Shadow::resolve("2", &answers), Ok("def".to_string()));
    assert_eq!(
        Shadow::resolve("2", &vec![out(false, "")]),
        Err("no snapshot matches `2`".to_string())
    );
    assert_eq!(Shadow::head(&out(true, " abc \n")), Some("abc".to_string()));
    assert_eq!(Shadow::head(&out(false, "abc")), None);
    assert_eq!(Shadow::tree_of("abc").args(), vec!["rev-parse", "abc^{tree}"]);
    assert_eq!(
        Shadow::head_call("default").args(),
        vec!["rev-parse", "--verify", "--quiet", "refs/sheep/default"]
    );
}

#[test]
fn the_log_of_a_timeline_is_read_newest_first() {
    assert_eq!(
        Shadow::log_call("default", 5).args(),
        vec!["log", "--format=%H%x1f%at%x1f%s", "-n5", "refs/sheep/default"]
    );
    let raw = "c2\u{1f}1700000001\u{1f}#2 turn\nbroken\n\nc1\u{1f}1700000000\u{1f}#1 turn\nc0\u{1f}x\u{1f}y\n";
    assert_eq!(
        Shadow::log(raw),
        vec![
            ("c2".to_string(), 1_700_000_001, "#2 turn".to_string()),
            ("c1".to_string(), 1_700_000_000, "#1 turn".to_string()),
        ]
    );
}

#[test]
fn nested_repositories_are_pointers_and_files_are_files() {
    let entries = vec![
        "100644 blob aaaa\tsrc/main.rs".to_string(),
        "160000 commit bbbb\tvendor/parser".to_string(),
        "040000 tree cccc\tsrc".to_string(),
    ];
    assert_eq!(Shadow::gitlinks(&entries), vec!["vendor/parser".to_string()]);
    assert_eq!(Shadow::held(&entries), vec!["src/main.rs".to_string()]);
    assert_eq!(Shadow::verify(&entries), vec!["aaaa".to_string()]);
    assert_eq!(Shadow::tree_size(&entries), 3);
    assert_eq!(Shadow::diffstat("3\t1\ta\n-\t-\tb.bin\n10\t0\tc\n"), (3, 13, 1));
}

#[test]
fn a_commit_names_its_parent_and_its_tree() {
    let root = Call::CommitTree { tree: "t".into(), parent: None, message: "m".into() };
    assert_eq!(root.args(), vec!["commit-tree", "t", "-m", "m"]);
    let next =
        Call::CommitTree { tree: "t".into(), parent: Some("p".into()), message: "m".into() };
    assert_eq!(next.args(), vec!["commit-tree", "t", "-p", "p", "-m", "m"]);
    assert_eq!(
        Shadow::swap_ref("default", "c", &None).args(),
        vec!["update-ref", "refs/sheep/default", "c", ""],
        "a timeline that is not there yet must still not be there"
    );
}

#[test]
fn control_only_leaves() {
    assert_eq!(translate(true, Code::Char('c')), Some(Key::Char('q')));
    assert_eq!(translate(true, Code::Char('d')), Some(Key::Char('q')));
    assert_eq!(translate(true, Code::Char('R')), None);
    assert_eq!(translate(true, Code::Up), None);
    assert_eq!(translate(false, Code::Char('R')), Some(Key::Char('R')));
    assert_eq!(translate(false, Code::PageDown), Some(Key::PageDown));
    assert_eq!(translate(false, Code::Other), None);
    assert_eq!(parse_size("92x18"), (92, 18));
    assert_eq!(parse_size("1X9999"), (20, 200));
    assert_eq!(parse_size("wide"), (100, 34));
    assert_eq!(no_state("why".to_string()).headline, "no state directory");
}
