//! The half of Sheep that can destroy someone's work, from the attacker's side:
//! every case here is a way a real repository could be shaped when a restore
//! lands on it.
//!
//! Git and the disk are stood in for by a small world in memory. Every decision
//! is the library's own: the world only does what it is told.

use sheep::calls::Call;
use sheep::lock::Busy;
use sheep::ops::collect::{Collect, CollectAction, CollectEvent, Collected, Retention};
use sheep::ops::planning::{Planned, Planning, PlanningAction, PlanningEvent};
use sheep::ops::restore::{Restore, RestoreAction, RestoreEvent};
use sheep::ops::snap::{Snap, SnapAction, SnapEvent};
use sheep::ops::{is_busy, short, Failure, Restored, SnapMeta};
use sheep::repo::{
    inspect, nested_repositories, operation_markers, state_dir_from, worktree_id, Blocker,
    Facts as RepoFacts, Place, Warning, Worktree,
};
use sheep::shadow::apply::{Deed, Facts};
use sheep::shadow::plan::RestorePlan;
use sheep::shadow::{Rechain, RechainStep, Shadow, Snapshot};
use sheep::store::{slug, Store, Turn, TurnKind};
use std::collections::{BTreeMap, BTreeSet};

const BUDGET: usize = 60_000;
const ROOT: &str = "/w/repo";

type Tree = BTreeMap<String, Option<String>>;

/// A worktree, its shadow repository and its turn logs. In a tree, `None` is a
/// pointer to another repository.
#[derive(Default)]
struct World {
    files: BTreeMap<String, String>,
    /// Endings of paths that an ignore rule matches, and directories it names.
    ignored: Vec<String>,
    /// What the user's own repository tracks.
    known: BTreeSet<String>,
    nested: Vec<String>,
    markers: Vec<String>,
    unmerged: Vec<String>,
    trees: BTreeMap<String, Tree>,
    commits: BTreeMap<String, (String, Option<String>)>,
    /// How many commits were ever written.
    written: usize,
    refs: BTreeMap<String, String>,
    logs: BTreeMap<String, Vec<Turn>>,
    /// Contents that were pruned from every object store.
    pruned: BTreeSet<String>,
    /// A write that fails, and how.
    broken: Option<String>,
    locked: bool,
    now: u64,
    done: Vec<String>,
}

fn worktree() -> Worktree {
    Worktree {
        root: ROOT.to_string(),
        git_dir: format!("{ROOT}/.git"),
        common_dir: format!("{ROOT}/.git"),
        id: "repo-0000".to_string(),
    }
}

impl World {
    fn new() -> Self {
        World { now: 1_780_000_000, ..World::default() }
    }

    fn write(&mut self, path: &str, body: &str) {
        self.files.insert(path.to_string(), body.to_string());
    }

    fn delete(&mut self, path: &str) {
        self.files.remove(path);
    }

    fn read(&self, path: &str) -> &str {
        self.files.get(path).map(String::as_str).unwrap_or("")
    }

    fn has(&self, path: &str) -> bool {
        self.files.contains_key(path)
    }

    fn commit_all(&mut self) {
        let tree = self.tree_on_disk();
        self.known = tree.keys().cloned().collect();
    }

    fn is_ignored(&self, path: &str) -> bool {
        self.ignored.iter().any(|rule| {
            if rule.ends_with('/') {
                path.starts_with(rule.as_str()) || path.contains(&format!("/{rule}"))
            } else {
                path == rule || path.ends_with(rule.trim_start_matches('*'))
            }
        })
    }

    /// What staging the working tree gives: what is not ignored, and whatever
    /// the library lists on top of that.
    fn tree_on_disk(&self) -> Tree {
        let known: Vec<(String, bool)> =
            self.known.iter().map(|p| (p.clone(), self.files.contains_key(p))).collect();
        let mut tree = Tree::new();
        for (call, input) in Shadow::write_tree(&known) {
            match call {
                Call::Stage => {
                    for (path, body) in &self.files {
                        match self.nested.iter().find(|n| path.starts_with(&format!("{n}/"))) {
                            Some(nested) => {
                                tree.insert(nested.clone(), None);
                            }
                            None if !self.is_ignored(path) => {
                                tree.insert(path.clone(), Some(body.clone()));
                            }
                            None => {}
                        }
                    }
                }
                Call::StageListed => {
                    for path in input.unwrap().split_terminator('\0') {
                        tree.insert(path.to_string(), Some(self.files[path].clone()));
                    }
                }
                Call::WriteTree => {}
                other => panic!("not how a tree is written: {other:?}"),
            }
        }
        tree
    }

    fn write_tree(&mut self) -> String {
        let tree = self.tree_on_disk();
        if let Some((id, _)) = self.trees.iter().find(|(_, t)| **t == tree) {
            return id.clone();
        }
        let id = format!("{:040x}", self.trees.len() + 0xabc0);
        self.trees.insert(id.clone(), tree);
        id
    }

    fn commit(&mut self, tree: &str, parent: Option<String>) -> String {
        let id = format!("{:040x}", self.written + 0xc0ffee);
        self.written += 1;
        self.commits.insert(id.clone(), (tree.to_string(), parent));
        id
    }

    fn move_ref(&mut self, call: Call) -> Result<(), String> {
        match call {
            Call::MoveRef { name, to, from } => {
                if self.refs.get(&name) != from.as_ref() {
                    return Err(format!("{name} is elsewhere"));
                }
                self.refs.insert(name, to);
                Ok(())
            }
            Call::DropRef { name, from } => {
                if self.refs.get(&name) != Some(&from) {
                    return Err(format!("{name} is elsewhere"));
                }
                self.refs.remove(&name);
                Ok(())
            }
            other => panic!("not how a ref is moved: {other:?}"),
        }
    }

    fn entries(&self, tree: &str) -> Vec<String> {
        self.trees[tree]
            .iter()
            .map(|(path, body)| match body {
                Some(_) => format!("100644 blob 1234567890\t{path}"),
                None => format!("160000 commit 1234567890\t{path}"),
            })
            .collect()
    }

    fn compare(&self, from: &str, to: &str) -> Vec<String> {
        let (a, b) = (&self.trees[from], &self.trees[to]);
        let paths: BTreeSet<&String> = a.keys().chain(b.keys()).collect();
        let mut records = Vec::new();
        for path in paths {
            let status = match (a.get(path), b.get(path)) {
                (Some(x), Some(y)) if x == y => continue,
                (Some(_), Some(_)) => "M",
                (Some(_), None) => "D",
                _ => "A",
            };
            records.push(status.to_string());
            records.push(path.clone());
        }
        records
    }

    fn plan_to(&mut self, target: &str) -> RestorePlan {
        let current = self.write_tree();
        let records = self.compare(&current, target);
        Shadow::plan(target, &current, &records)
    }

    fn log(&self, line: &str) -> Vec<Turn> {
        self.logs.get(&slug(line)).cloned().unwrap_or_default()
    }

    fn head(&self, line: &str) -> Option<String> {
        self.refs.get(&Shadow::ref_name(line)).cloned()
    }

    fn lock(&self) -> Result<(), Failure> {
        if self.locked {
            return Err(Failure::Busy(Busy {
                path: "/w/state/locks/repo-0000.lock".to_string(),
                holder: "pid 1".to_string(),
                waited: 5_000_000_000,
            }));
        }
        Ok(())
    }

    fn facts(&self) -> RepoFacts {
        let stage: String = self
            .nested
            .iter()
            .filter(|n| self.known.contains(*n))
            .map(|n| format!("160000 1234567890 0\t{n}\n"))
            .collect();
        let untracked: Vec<String> = self
            .nested
            .iter()
            .filter(|n| !self.known.contains(*n))
            .map(|n| format!("{n}/"))
            .collect();
        RepoFacts {
            unmerged: self.unmerged.clone(),
            markers: self.markers.clone(),
            tracked_files: self.known.len(),
            stage,
            nested: nested_repositories(&untracked),
            unborn: vec![],
            ignored: self.files.keys().any(|p| self.is_ignored(p)),
        }
    }

    fn record(&mut self, machine: (Snap, SnapAction), line: &str) -> Result<Option<Turn>, Failure> {
        let (mut snap, mut action) = machine;
        loop {
            let event = match action {
                SnapAction::Lock(_) => SnapEvent::Locked(self.lock()),
                SnapAction::Inspect => SnapEvent::Inspected(Ok(inspect(&self.facts(), BUDGET))),
                SnapAction::WriteTree => SnapEvent::Wrote(Ok(self.write_tree())),
                SnapAction::Head => SnapEvent::Head(Ok(self.head(line))),
                SnapAction::TreeOf(commit) => SnapEvent::Tree(Ok(self.commits[&commit].0.clone())),
                SnapAction::DiffStat { from, to } => {
                    let raw: String = self
                        .compare(&from, &to)
                        .chunks(2)
                        .map(|r| format!("2\t1\t{}\n", r[1]))
                        .collect();
                    SnapEvent::Counted(Ok(Shadow::diffstat(&raw)))
                }
                SnapAction::TreeSize(tree) => {
                    SnapEvent::Counted(Ok((Shadow::tree_size(&self.entries(&tree)), 0, 0)))
                }
                SnapAction::LastTurn => SnapEvent::Last(Ok(self.log(line).last().cloned())),
                SnapAction::Commit { tree, parent, message: _ } => {
                    let commit = self.commit(&tree, parent.clone());
                    let moved = self.move_ref(Shadow::swap_ref(line, &commit, &parent));
                    let at = self.now;
                    SnapEvent::Committed(Shadow::commit(line, &tree, parent, at, commit, moved))
                }
                SnapAction::Append(turn) => {
                    let last = self.log(line).last().cloned();
                    let allowed = Store::append(&last, &turn);
                    if allowed.is_ok() {
                        self.logs.entry(slug(line)).or_default().push(turn);
                    }
                    SnapEvent::Appended(allowed)
                }
                SnapAction::Done(result) => return result,
            };
            (snap, action) = snap.step(event);
        }
    }

    fn snap_on(&mut self, line: &str, note: &str, allow_empty: bool) -> Result<Option<Turn>, Failure> {
        let meta = SnapMeta { note: Some(note.to_string()), ..SnapMeta::default() };
        self.record(Snap::new(TurnKind::Turn, meta, allow_empty), line)
    }

    fn snap(&mut self, note: &str) -> u64 {
        self.snap_on("default", note, false)
            .expect("snap should succeed")
            .expect("snap should record a turn")
            .seq
    }

    fn plan_on(&mut self, line: &str, target: &str) -> Result<Planned, String> {
        let (mut planning, mut action) = Planning::new(line, target);
        loop {
            let event = match action {
                PlanningAction::Inspect => {
                    PlanningEvent::Inspected(Ok(inspect(&self.facts(), BUDGET)))
                }
                PlanningAction::Turns => PlanningEvent::Turns(Ok(self.log(line))),
                PlanningAction::Resolve(name) => PlanningEvent::Resolved(
                    if self.commits.contains_key(&name) { Ok(name) } else { Err(name) },
                ),
                PlanningAction::TreeOf(commit) => {
                    PlanningEvent::Tree(Ok(self.commits[&commit].0.clone()))
                }
                PlanningAction::PlanTo(tree) => PlanningEvent::Planned(Ok(self.plan_to(&tree))),
                PlanningAction::Done(result) => return result,
            };
            (planning, action) = planning.step(event);
        }
    }

    fn plan(&mut self, seq: u64) -> Planned {
        self.plan_on("default", &seq.to_string()).expect("planning should succeed")
    }

    fn below<'a>(&'a self, path: &'a str) -> impl Iterator<Item = &'a String> + 'a {
        let inside = format!("{path}/");
        self.files.keys().filter(move |p| p.as_str() == path || p.starts_with(&inside))
    }

    fn above<'a>(&'a self, path: &'a str) -> impl Iterator<Item = &'a String> + 'a {
        self.files.keys().filter(move |p| path.starts_with(&format!("{p}/")))
    }

    fn apply(&mut self, plan: &RestorePlan) -> Result<(), String> {
        let target = self.trees[&plan.target_tree].clone();
        let probes = Shadow::verify_paths(&plan.target_tree, &plan.write);
        let answer: String = match Shadow::batch_check(&probes) {
            None => String::new(),
            Some((_, input)) => input
                .lines()
                .map(|probe| {
                    let path = probe.split_once(':').unwrap().1;
                    match target.get(path) {
                        Some(Some(body)) if !self.pruned.contains(body) => {
                            format!("1234567890 blob {}\n", body.len())
                        }
                        _ => format!("{probe} missing\n"),
                    }
                })
                .collect(),
        };
        let facts = Facts {
            missing: Shadow::missing(&answer),
            held: Shadow::held(&self.entries(&plan.current_tree)),
            occupied: plan
                .write
                .iter()
                .flat_map(|p| self.below(p).chain(self.above(p)).cloned())
                .collect(),
            directories: plan
                .remove
                .iter()
                .filter(|p| self.below(p).any(|q| q != *p))
                .cloned()
                .collect(),
        };
        let shadow = Shadow::ensure(worktree(), "/w/state");
        for deed in shadow.apply(plan, &facts)? {
            match deed {
                Deed::Remove(path) => {
                    let path = path.strip_prefix("/w/repo/").unwrap().to_string();
                    self.done.push(format!("remove {path}"));
                    self.files.remove(&path);
                }
                Deed::Prune(path) => {
                    let path = path.strip_prefix("/w/repo/").unwrap();
                    self.done.push(format!("prune {path}"));
                }
                Deed::Write { read, write, input } => {
                    assert!(matches!(read, Call::ReadTree { tree } if tree == plan.target_tree));
                    assert!(matches!(write, Call::CheckoutListed));
                    for path in input.split_terminator('\0') {
                        self.done.push(format!("write {path}"));
                        if self.broken.as_deref() == Some(path) {
                            return Err(format!("cannot write {path}: Permission denied"));
                        }
                        // Git clears its own ground.
                        let cleared: Vec<String> = self.below(path).cloned().collect();
                        for each in cleared {
                            self.files.remove(&each);
                        }
                        let body = target[path].clone().expect("a file");
                        self.files.insert(path.to_string(), body);
                    }
                }
            }
        }
        Ok(())
    }

    fn restore_expecting(
        &mut self,
        line: &str,
        target: &str,
        expect: Option<String>,
    ) -> Result<Restored, Failure> {
        let (mut restore, mut action) = Restore::new(expect);
        loop {
            let event = match action {
                RestoreAction::Lock(_) => RestoreEvent::Locked(self.lock()),
                RestoreAction::Plan => RestoreEvent::Planned(
                    self.plan_on(line, target).map(|p| (p.commit, p.plan)),
                ),
                RestoreAction::Snap { kind, note } => {
                    let meta = SnapMeta { note: Some(note), ..SnapMeta::default() };
                    let recorded = self.record(Snap::locked(kind, meta, true), line);
                    RestoreEvent::Snapped(recorded.map_err(|f| match f {
                        Failure::Other(e) => e,
                        other => panic!("a snapshot under the lock cannot fail so: {other:?}"),
                    }))
                }
                RestoreAction::Apply(plan) => RestoreEvent::Applied(self.apply(&plan)),
                RestoreAction::PlanTo(tree) => RestoreEvent::Replanned(Ok(self.plan_to(&tree))),
                RestoreAction::Done(result) => return result,
            };
            (restore, action) = restore.step(event);
        }
    }

    fn restore(&mut self, seq: u64) -> Restored {
        self.restore_expecting("default", &seq.to_string(), None).expect("restore should succeed")
    }

    fn rebuild(
        &mut self,
        line: &str,
        chain: Vec<sheep::shadow::Link>,
        expected: Option<String>,
    ) -> Result<Vec<String>, String> {
        let mut rechain = Rechain::new(line, chain, expected);
        loop {
            match rechain.step() {
                RechainStep::Commit { call, at: _ } => {
                    let Call::CommitTree { tree, parent, message: _ } = call else {
                        panic!("not how a commit is written: {call:?}")
                    };
                    let commit = self.commit(&tree, parent);
                    rechain.wrote(commit);
                }
                RechainStep::Move(call) => {
                    let moved = self.move_ref(call);
                    return rechain.finish(moved);
                }
                RechainStep::Nothing => return rechain.finish(Ok(())),
            }
        }
    }

    /// Shorten a timeline. `beside` runs right after the head was read.
    fn collect_beside(
        &mut self,
        line: &str,
        policy: Retention,
        apply: bool,
        beside: fn(&mut World),
    ) -> Result<Collected, Failure> {
        let (mut collect, mut action) = Collect::new(line, policy, apply);
        loop {
            let event = match action {
                CollectAction::Lock(_) => CollectEvent::Locked(self.lock()),
                CollectAction::Head => {
                    let head = self.head(line);
                    beside(self);
                    CollectEvent::Head(Ok(head))
                }
                CollectAction::Turns => CollectEvent::Turns(Ok(self.log(line))),
                CollectAction::Size => CollectEvent::Size(self.commits.len() as u64 * 100),
                CollectAction::Now => CollectEvent::Now(self.now),
                CollectAction::Rebuild { chain, expected } => {
                    CollectEvent::Rebuilt(self.rebuild(line, chain, expected))
                }
                CollectAction::Rewrite(turns) => {
                    self.logs.insert(slug(line), turns);
                    CollectEvent::Rewrote(Ok(()))
                }
                CollectAction::Prune => {
                    let mut reached = BTreeSet::new();
                    for head in self.refs.values() {
                        let mut at = Some(head.clone());
                        while let Some(commit) = at {
                            at = self.commits[&commit].1.clone();
                            reached.insert(commit);
                        }
                    }
                    self.commits.retain(|id, _| reached.contains(id));
                    CollectEvent::Pruned(Ok(()))
                }
                CollectAction::Done(result) => return result,
            };
            (collect, action) = collect.step(event);
        }
    }

    fn collect(&mut self, policy: Retention, apply: bool) -> Collected {
        self.collect_beside("default", policy, apply, |_| {}).expect("the collection succeeds")
    }
}

fn failed(failure: &Failure) -> String {
    match failure {
        Failure::Restore(failed) => failed.text(),
        Failure::Other(e) => e.clone(),
        other => panic!("not a failed restore: {other:?}"),
    }
}

// ---------------------------------------------------------------------------
// The happy path, stated precisely.
// ---------------------------------------------------------------------------

#[test]
fn restores_a_file_an_agent_rewrote() {
    let mut f = World::new();
    f.write("src/auth.rs", "fn login() { good() }\n");
    f.commit_all();

    let good = f.snap("turn 1");
    f.write("src/auth.rs", "fn login() { WRONG }\n");
    f.write("src/extra.rs", "// the agent also added this\n");
    f.snap("turn 2");

    let done = f.restore(good);
    assert_eq!(f.read("src/auth.rs"), "fn login() { good() }\n");
    assert!(!f.has("src/extra.rs"), "a file added after the target turn must be removed");
    assert_eq!(done.plan.write, vec!["src/auth.rs".to_string()]);
    assert_eq!(done.plan.remove, vec!["src/extra.rs".to_string()]);
}

#[test]
fn a_restore_is_itself_undoable() {
    let mut f = World::new();
    f.write("a.txt", "one\n");
    f.commit_all();
    let first = f.snap("turn 1");
    f.write("a.txt", "two\n");
    f.snap("turn 2");

    let done = f.restore(first);
    assert_eq!(f.read("a.txt"), "one\n");

    let checkpoint = done.checkpoint.expect("a checkpoint must be recorded before restoring");
    assert_eq!(checkpoint.kind, TurnKind::Checkpoint);
    assert_eq!(checkpoint.note.as_deref(), Some(format!("before restore to {}", short(&done.commit)).as_str()));
    f.restore(checkpoint.seq);
    assert_eq!(
        f.read("a.txt"),
        "two\n",
        "restoring the checkpoint must put the replaced state back"
    );
}

#[test]
fn an_unchanged_tree_is_not_recorded_twice() {
    let mut f = World::new();
    f.write("a.txt", "one\n");
    f.commit_all();
    f.snap("turn 1");

    let repeat = f.snap_on("default", "again", false).expect("snap should succeed");
    assert!(repeat.is_none(), "an agent turn that changed nothing must not create a turn");
    let asked = f.snap_on("default", "asked for", true).expect("snap should succeed");
    assert_eq!(asked.expect("recorded all the same").seq, 2);
}

#[test]
fn works_in_a_repository_with_no_commits() {
    let mut f = World::new();
    f.write("first.txt", "hello\n");
    let turn = f.snap("before any commit exists");

    f.write("first.txt", "goodbye\n");
    f.snap("turn 2");
    f.restore(turn);
    assert_eq!(f.read("first.txt"), "hello\n");
}

// ---------------------------------------------------------------------------
// The promise: Sheep does not touch what it did not record.
// ---------------------------------------------------------------------------

#[test]
fn gitignored_files_are_never_captured_and_never_removed() {
    let mut f = World::new();
    f.ignored = vec!["node_modules/".into(), ".env".into()];
    f.write("a.txt", "one\n");
    f.commit_all();
    let first = f.snap("turn 1");

    // Exactly the things a user would be furious to lose.
    f.write("node_modules/left-pad/index.js", "module.exports = 1\n");
    f.write(".env", "SECRET=hunter2\n");
    f.write("a.txt", "two\n");
    f.snap("turn 2");

    let done = f.restore(first);
    assert_eq!(f.read("a.txt"), "one\n");
    assert!(f.has(".env"), "an ignored file must survive a restore");
    assert_eq!(f.read(".env"), "SECRET=hunter2\n");
    assert!(f.has("node_modules/left-pad/index.js"), "ignored trees must survive a restore");
    assert!(
        !done.plan.remove.iter().any(|p| p.contains("node_modules") || p.contains(".env")),
        "ignored paths must never appear in a restore plan: {:?}",
        done.plan.remove
    );
}

#[test]
fn a_restore_touches_only_the_paths_in_its_plan() {
    let mut f = World::new();
    f.write("touched.txt", "one\n");
    f.write("untouched.txt", "stable\n");
    f.commit_all();
    let first = f.snap("turn 1");
    f.write("touched.txt", "two\n");
    f.snap("turn 2");

    f.restore(first);
    assert_eq!(f.done, vec!["write touched.txt".to_string()]);
    assert_eq!(f.read("untouched.txt"), "stable\n");
}

// ---------------------------------------------------------------------------
// Refusals. Ambiguous state is a stop, not a guess.
// ---------------------------------------------------------------------------

#[test]
fn refuses_a_worktree_with_unresolved_conflicts() {
    let mut f = World::new();
    f.write("conflict.txt", "ours\n");
    f.commit_all();
    f.unmerged = vec![
        "100644 1234567890 1\tconflict.txt".into(),
        "100644 1234567890 2\tconflict.txt".into(),
        "100644 1234567890 3\tconflict.txt".into(),
    ];

    let health = inspect(&f.facts(), BUDGET);
    assert!(
        matches!(health.blockers.first(), Some(Blocker::UnmergedPaths(_))),
        "unmerged paths must be a blocker, got {:?}",
        health.blockers
    );

    let attempt = f.snap_on("default", "", false);
    assert!(attempt.is_err(), "snapshotting a conflicted tree must fail loudly");
}

#[test]
fn refuses_a_worktree_mid_operation() {
    let mut f = World::new();
    f.write("a.txt", "one\n");
    f.commit_all();
    assert!(operation_markers().contains(&"MERGE_HEAD".to_string()));
    f.markers = vec!["MERGE_HEAD".into()];

    let health = inspect(&f.facts(), BUDGET);
    assert!(
        matches!(health.blockers.first(), Some(Blocker::OperationInProgress(_))),
        "an in-flight merge must be a blocker, got {:?}",
        health.blockers
    );
    assert!(!health.is_safe());
    assert!(health.bail_if_unsafe().unwrap_err().starts_with("refusing to continue: "));
}

fn place(inside: bool, bare: &str) -> Place {
    Place {
        inside,
        bare: bare.to_string(),
        root: ROOT.to_string(),
        git_dir: format!("{ROOT}/.git"),
        common_dir: format!("{ROOT}/.git"),
    }
}

#[test]
fn refuses_a_directory_that_is_not_a_worktree() {
    let err = Worktree::discover("/tmp/plain", place(false, ""))
        .expect_err("a plain directory must be refused");
    assert!(err.contains("not inside a git worktree"), "the error should say why: {err}");
    let err = Worktree::discover("/tmp/bare", place(true, "true"))
        .expect_err("a bare repository must be refused");
    assert!(err.contains("bare repository"), "the error should say why: {err}");
}

#[test]
fn refuses_a_worktree_over_the_file_budget() {
    let mut f = World::new();
    for i in 0..5 {
        f.write(&format!("f{i}.txt"), "x\n");
    }
    f.commit_all();

    let health = inspect(&f.facts(), 2);
    assert!(
        matches!(health.blockers.first(), Some(Blocker::TooLarge { files: 5, limit: 2 })),
        "the budget must be enforced, got {:?}",
        health.blockers
    );
    assert!(inspect(&f.facts(), BUDGET).is_safe(), "the default budget must allow it");
}

#[test]
fn refuses_to_restore_a_snapshot_with_a_missing_object() {
    let mut f = World::new();
    f.write("a.txt", "one\n");
    f.commit_all();
    let first = f.snap("turn 1");
    f.write("only-in-sheep.txt", "never committed by the user\n");
    f.snap("turn 2");
    f.write("a.txt", "two\n");
    f.snap("turn 3");

    // The one real hazard of borrowing objects: a pruned blob.
    f.pruned.insert("one\n".into());
    let planned = f.plan(first);
    let err = f.apply(&planned.plan).expect_err("restoring an incomplete snapshot must fail");
    assert!(err.contains("incomplete"), "the refusal should name the problem: {err}");
    assert_eq!(f.read("a.txt"), "two\n", "a refused restore must not have written anything");
    assert!(f.done.is_empty());
}

// ---------------------------------------------------------------------------
// Shapes a real repository actually takes.
// ---------------------------------------------------------------------------

#[test]
fn handles_a_linked_worktree_and_borrows_the_main_object_database() {
    let linked = Place {
        inside: true,
        bare: "false".into(),
        root: "/w/agent-1".into(),
        git_dir: "/w/repo/.git/worktrees/agent-1".into(),
        common_dir: "/w/repo/.git".into(),
    };
    let wt = Worktree::discover("/w/agent-1", linked)
        .expect("a linked worktree must be discoverable");
    assert!(wt.is_linked(), "the linked worktree must be recognised as linked");
    assert_eq!(
        wt.objects_dir(),
        "/w/repo/.git/objects",
        "a linked worktree must borrow the main repository's object database"
    );
    assert!(!worktree().is_linked());

    let objects = wt.objects_dir();
    let shadow = Shadow::ensure(wt, "/w/state");
    let body = shadow.alternates(&None);
    assert!(body.contains(&objects), "the shadow repo must borrow rather than copy: {body}");
}

#[test]
fn survives_a_file_becoming_a_directory_and_back() {
    let mut f = World::new();
    f.write("thing", "I am a file\n");
    f.commit_all();
    let as_file = f.snap("turn 1");

    f.delete("thing");
    f.write("thing/inner.txt", "I am a directory now\n");
    let as_dir = f.snap("turn 2");

    f.restore(as_file);
    assert_eq!(f.read("thing"), "I am a file\n");
    assert!(!f.has("thing/inner.txt"));

    f.restore(as_dir);
    assert!(!f.has("thing"), "the directory must come back");
    assert_eq!(f.read("thing/inner.txt"), "I am a directory now\n");
}

#[test]
fn handles_awkward_filenames_and_binary_content() {
    let mut f = World::new();
    f.write("a file with spaces.txt", "one\n");
    f.write("türkçe/çalışma dosyası.txt", "iki\n");
    f.commit_all();
    let first = f.snap("turn 1");

    f.write("a file with spaces.txt", "CHANGED\n");
    f.write("türkçe/çalışma dosyası.txt", "CHANGED\n");
    f.snap("turn 2");

    f.restore(first);
    assert_eq!(f.read("a file with spaces.txt"), "one\n");
    assert_eq!(f.read("türkçe/çalışma dosyası.txt"), "iki\n");
    // A binary file has no line counts, and is a file all the same.
    assert_eq!(Shadow::diffstat("-\t-\tblob.bin\n3\t1\ta.txt\n"), (2, 3, 1));
}

#[test]
fn reports_submodules_as_a_warning_rather_than_failing() {
    let mut f = World::new();
    f.write("a.txt", "one\n");
    f.write("vendor/dep/dep.txt", "dep\n");
    f.nested = vec!["vendor/dep".into()];
    f.commit_all();

    let health = inspect(&f.facts(), BUDGET);
    assert!(health.is_safe(), "a submodule must not block: {:?}", health.blockers);
    assert!(
        health.warnings.iter().any(|w| matches!(w, Warning::Submodules(_))),
        "a submodule must be surfaced as a warning: {:?}",
        health.warnings
    );

    let first = f.snap("turn 1");
    f.write("a.txt", "two\n");
    f.snap("turn 2");
    f.restore(first);
    assert_eq!(f.read("a.txt"), "one\n");
    assert!(f.has("vendor/dep/dep.txt"), "the submodule checkout must be left alone");
}

#[test]
fn removing_a_file_empties_its_directory_without_taking_the_neighbours() {
    let mut f = World::new();
    f.write("keep/stay.txt", "stay\n");
    f.commit_all();
    let first = f.snap("turn 1");

    f.write("added/deep/new.txt", "added by the agent\n");
    f.write("keep/also-new.txt", "added by the agent\n");
    f.snap("turn 2");

    f.restore(first);
    assert_eq!(
        f.done,
        vec![
            "remove added/deep/new.txt".to_string(),
            "remove keep/also-new.txt".to_string(),
            "prune keep".to_string(),
            "prune added/deep".to_string(),
            "prune added".to_string(),
        ],
        "removals first, then whatever may be empty now, the deepest first"
    );
    assert!(f.has("keep/stay.txt"), "a directory with survivors must be kept");
    assert!(!f.has("keep/also-new.txt"));
}

#[test]
fn survives_a_repository_large_enough_to_fill_a_pipe_buffer() {
    let mut f = World::new();
    for i in 0..1_000 {
        f.write(&format!("pkg/m{:02}/f{i}.ts", i % 50), "export const v = 1;\n");
    }
    f.commit_all();
    let baseline = f.snap("turn 1");

    f.write("pkg/m00/f0.ts", "BROKEN\n");
    f.write("pkg/m01/f1.ts", "BROKEN\n");
    f.write("pkg/m00/new.ts", "added by the agent\n");
    f.snap("turn 2");

    let done = f.restore(baseline);
    assert_eq!(done.plan.write.len(), 2, "only the modified files should be written");
    assert_eq!(done.plan.remove, vec!["pkg/m00/new.ts".to_string()]);
    assert_eq!(f.read("pkg/m00/f0.ts"), "export const v = 1;\n");
    assert!(!f.has("pkg/m00/new.ts"));
}

#[test]
fn the_first_turn_reports_the_size_of_the_tree() {
    let mut f = World::new();
    f.write("a.txt", "one\n");
    f.write("b/c.txt", "two\n");
    f.commit_all();

    let turn = f.snap_on("default", "", false).unwrap().unwrap();
    assert_eq!(turn.files, 2, "a baseline turn should describe what it captured, not `0 files`");
}

#[test]
fn a_herdr_pane_id_can_name_a_timeline() {
    // Timelines are named after the pane that produced them, and a herdr pane
    // id looks like `w31:pW`. The colon is illegal in a git ref.
    let mut f = World::new();
    f.write("a.txt", "one\n");
    f.commit_all();

    let line = "w31:pW";
    let first = f
        .snap_on(line, "", false)
        .expect("a pane id must be usable as a timeline name")
        .expect("the first turn should record");
    assert!(!Shadow::ref_name(line).contains(':'), "{}", Shadow::ref_name(line));

    f.write("a.txt", "two\n");
    f.snap_on(line, "", false).unwrap().unwrap();

    f.restore_expecting(line, &first.seq.to_string(), None).unwrap();
    assert_eq!(f.read("a.txt"), "one\n");

    // And it must not collide with the timeline of a differently-spelled pane.
    let other = f.snap_on("w31/pW", "", false).unwrap().unwrap();
    assert_eq!(other.seq, 1, "a different timeline must start its own numbering");
}

#[test]
fn a_restore_refuses_a_plan_the_tree_has_moved_out_from_under() {
    // The plan a user saw has to be the plan that runs, or none at all.
    let mut f = World::new();
    f.write("a.txt", "one\n");
    f.commit_all();
    let target = f.snap("turn 1");
    f.write("a.txt", "two\n");
    f.snap("turn 2");

    let seen = f.plan(target);
    let tree_when_the_user_looked = seen.plan.current_tree.clone();
    assert_eq!(seen.plan.write, vec!["a.txt".to_string()]);

    // The agent keeps going while the plan is on screen.
    f.write("b.txt", "the agent kept working\n");

    let err = f
        .restore_expecting("default", &target.to_string(), Some(tree_when_the_user_looked))
        .expect_err("a moved tree must stop the restore");
    let Failure::Stale(stale) = err else { panic!("the caller needs to know why: {err:?}") };
    assert!(
        stale.plan.remove.contains(&"b.txt".to_string()),
        "the refusal should carry the plan as it stands now: {:?}",
        stale.plan
    );
    assert_eq!(f.read("a.txt"), "two\n", "nothing may be written by a refused restore");
    assert!(f.has("b.txt"), "the agent's newer work must be left alone");
    assert!(f.log("default").iter().all(|t| t.kind != TurnKind::Checkpoint));

    // And the same call succeeds once it is told the truth.
    let fresh = f.plan(target);
    f.restore_expecting("default", &target.to_string(), Some(fresh.plan.current_tree))
        .expect("a plan that matches the tree must apply");
    assert_eq!(f.read("a.txt"), "one\n");
    assert!(!f.has("b.txt"));
}

// ---------------------------------------------------------------------------
// Retention. The only interesting question is whether forgetting damages what
// it keeps.
// ---------------------------------------------------------------------------

/// Record `n` turns, each changing one file, and return their sequence numbers.
fn record_turns(f: &mut World, n: usize) -> Vec<u64> {
    (0..n)
        .map(|i| {
            f.write("a.txt", &format!("revision {i}\n"));
            f.write(&format!("only-in-{i}.txt"), "marker\n");
            f.snap(&format!("turn {i}"))
        })
        .collect()
}

fn keep(keep: usize) -> Retention {
    Retention { keep, max_age_days: None }
}

#[test]
fn a_kept_turn_still_restores_to_the_same_files_after_collection() {
    let mut f = World::new();
    f.write("a.txt", "base\n");
    f.commit_all();
    let seqs = record_turns(&mut f, 8);
    let keeper = *seqs.last().unwrap() - 2;

    let before = f.plan(keeper);
    let expected_tree = f.commits[&before.commit].0.clone();

    let report = f.collect(keep(3), true);
    assert_eq!(report.kept, 3);
    assert_eq!(report.dropped, 5, "8 turns kept at 3 should drop 5");

    let after = f.plan(keeper);
    assert_eq!(
        f.commits[&after.commit].0, expected_tree,
        "a kept turn must point at the same tree after collection"
    );

    f.restore(keeper);
    assert_eq!(f.read("a.txt"), "revision 5\n");
    assert!(f.has("only-in-5.txt"));
    assert!(!f.has("only-in-7.txt"), "work after the kept turn must be gone");
}

#[test]
fn a_dropped_turn_is_really_gone_and_its_space_with_it() {
    let mut f = World::new();
    f.write("a.txt", "base\n");
    f.commit_all();
    let seqs = record_turns(&mut f, 12);
    let dropped = seqs[0];

    let before = f.collect(keep(2), false);
    assert_eq!(before.dropped, 10, "a dry run must still say what it would do");
    assert_eq!(before.bytes_before, before.bytes_after, "a dry run must change nothing");
    assert!(
        f.plan_on("default", &dropped.to_string()).is_ok(),
        "the dry run must not have removed anything"
    );

    let report = f.collect(keep(2), true);
    assert_eq!(report.kept, 2);
    assert!(
        report.bytes_after < report.bytes_before,
        "collection should reclaim space, went {} -> {}",
        report.bytes_before,
        report.bytes_after
    );
    let err = f.plan_on("default", &dropped.to_string()).unwrap_err();
    assert_eq!(err, "no turn #1 on timeline `default`", "a dropped turn must be out of reach");
}

#[test]
fn collection_never_leaves_a_timeline_empty() {
    let mut f = World::new();
    f.write("a.txt", "base\n");
    f.commit_all();
    record_turns(&mut f, 3);

    f.now += 1;
    // Everything recorded a moment ago is "older than zero days".
    let report = f.collect(Retention { keep: 0, max_age_days: Some(0) }, true);
    assert_eq!(report.kept, 1, "the newest turn is always kept");

    let turns = f.log("default");
    assert_eq!(turns.len(), 1);
    let seq = turns[0].seq;
    f.restore(seq);
}

#[test]
fn recording_continues_from_where_collection_left_off() {
    let mut f = World::new();
    f.write("a.txt", "base\n");
    f.commit_all();
    let seqs = record_turns(&mut f, 6);
    let highest = *seqs.last().unwrap();

    f.collect(keep(2), true);

    f.write("a.txt", "after collection\n");
    let next = f.snap("after");
    assert_eq!(next, highest + 1, "turn numbers must not restart after collection");
}

#[test]
fn no_number_comes_back_however_often_a_timeline_is_shortened() {
    let mut f = World::new();
    f.write("a.txt", "0\n");
    f.commit_all();
    let mut given: Vec<u64> = Vec::new();
    for round in 0..4 {
        for n in 0..3 {
            f.write("a.txt", &format!("{round} {n}\n"));
            given.push(f.snap("turn"));
        }
        f.collect(keep(1 + round % 2), true);
    }
    assert_eq!(given, (1..=12).collect::<Vec<u64>>(), "from one on, without a gap");
    assert_eq!(f.log("default").last().map(|t| t.seq), Some(12));
}

#[test]
fn a_restore_and_its_undo_leave_the_very_files_that_were_there() {
    let mut f = World::new();
    f.write("a.txt", "one\n");
    f.write("gone.txt", "only at the target\n");
    f.commit_all();
    let target = f.snap("turn 1");
    f.delete("gone.txt");
    f.write("a.txt", "two\n");
    f.write("b/new.txt", "new\n");
    f.snap("turn 2");
    f.write("a.txt", "never recorded\n");

    let before = f.tree_on_disk();
    let done = f.restore(target);
    assert_ne!(f.tree_on_disk(), before);
    let checkpoint = done.checkpoint.expect("there was something to keep");
    f.write("a.txt", "work after the restore\n");
    let back = f.restore(checkpoint.seq);
    assert_eq!(back.commit, checkpoint.commit);
    assert_eq!(f.tree_on_disk(), before, "every file is back, and no other");

    f.write("a.txt", "and more work\n");
    let numbered = format!("#{}", checkpoint.seq);
    f.restore_expecting("default", &numbered, None).expect("the number leads to the turn");
    assert_eq!(f.tree_on_disk(), before, "with a hash or without");

    let again = f.restore(checkpoint.seq);
    assert!(again.checkpoint.is_none(), "what changes nothing keeps nothing");
    assert_eq!(f.tree_on_disk(), before);
}

#[test]
fn a_turn_is_of_the_tree_that_is_there_and_a_second_look_records_nothing() {
    let mut f = World::new();
    f.write("a.txt", "one\n");
    f.commit_all();
    f.snap("turn 1");
    f.write("a.txt", "two\n");
    let (head, tree) = (f.head("default"), f.write_tree());
    let made = f.snap_on("default", "turn 2", false).unwrap().expect("something changed");
    assert_eq!((made.seq, &made.tree, &made.parent), (2, &tree, &head));
    assert_eq!(f.head("default"), Some(made.commit.clone()));
    assert_eq!(f.log("default").last().map(|t| t.commit.clone()), Some(made.commit.clone()));

    assert!(f.snap_on("default", "again", false).unwrap().is_none());
    assert_eq!(f.head("default"), Some(made.commit), "and nothing was committed");
    assert_eq!(f.log("default").len(), 2);
    let insisted = f.snap_on("default", "again", true).unwrap().expect("the caller insists");
    assert_eq!((insisted.seq, insisted.tree), (3, tree));
}

#[test]
fn the_last_turn_is_read_without_parsing_the_whole_log() {
    let body: String = (1..=40).map(|n| format!("{{\"seq\":{n}}}\n")).collect();
    assert_eq!(Store::records(&body).len(), 40);
    // A block read from the end may begin in the middle of a line.
    let block = &body[body.len() - 25..];
    let tail = Store::tail_records(block, false);
    assert_eq!(tail.last().map(String::as_str), Some("{\"seq\":40}"));
    assert_eq!(tail.last(), Store::records(&body).last(), "the fast path must agree with the slow one");
    assert!(Store::tail_records("{\"seq\":40}", false).is_empty());
    assert_eq!(Store::tail_records("{\"seq\":40}", true).len(), 1);
    assert_eq!(Store::records("\n  \n").len(), 0);
}

// ---------------------------------------------------------------------------
// Bytes that no snapshot holds.
// ---------------------------------------------------------------------------

#[test]
fn a_nested_repository_is_never_deleted_by_a_restore() {
    let mut f = World::new();
    f.write("a.txt", "one\n");
    f.commit_all();
    let before_vendor = f.snap("before the nested repository existed");

    f.nested = vec!["vendor".into()];
    f.write("vendor/.git/HEAD", "ref: refs/heads/main\n");
    f.write("vendor/uncommitted.txt", "work nobody else has\n");
    f.write("vendor/.env", "SECRET=hunter2\n");
    f.snap("the nested repository exists now");

    // It must be visible before anything happens, not discovered afterwards.
    let health = inspect(&f.facts(), BUDGET);
    assert!(
        health.warnings.iter().any(|w| matches!(w, Warning::NestedRepositories(paths) if paths.iter().any(|p| p == "vendor"))),
        "a nested repository must be surfaced by doctor: {:?}",
        health.warnings
    );

    let planned = f.plan(before_vendor);
    assert_eq!(
        planned.plan.remove,
        vec!["vendor".to_string()],
        "the plan is one line, and that is the trap"
    );

    let err = f
        .restore_expecting("default", &before_vendor.to_string(), None)
        .expect_err("removing a directory Sheep never captured must be refused");
    assert!(failed(&err).contains("vendor"), "the refusal should name it: {}", failed(&err));

    // Everything survives, including the parts no snapshot could ever hold.
    assert!(f.has("vendor/.git/HEAD"), "the nested repository's history must survive");
    assert_eq!(f.read("vendor/uncommitted.txt"), "work nobody else has\n");
    assert_eq!(f.read("vendor/.env"), "SECRET=hunter2\n");
    assert_eq!(f.read("a.txt"), "one\n");
    assert!(f.done.is_empty(), "and the refusal happens before anything else is touched");
}

#[test]
fn a_path_that_became_a_directory_under_the_plan_is_refused() {
    let mut f = World::new();
    f.write("a.txt", "one\n");
    f.commit_all();
    let target = f.snap("turn 1");
    f.write("later.txt", "added by the agent\n");
    f.snap("turn 2");

    let planned = f.plan(target);
    assert_eq!(planned.plan.remove, vec!["later.txt".to_string()]);

    f.delete("later.txt");
    f.write("later.txt/surprise.txt", "written after the plan was made\n");

    let err = f.apply(&planned.plan).expect_err("a directory must not be removed");
    assert!(err.contains("later.txt"), "the refusal should name it: {err}");
    assert!(f.has("later.txt/surprise.txt"), "its contents must survive");
}

#[test]
fn a_restore_that_fails_partway_puts_the_tree_back() {
    let mut f = World::new();
    f.write("keep/x.txt", "original\n");
    f.write("gone.txt", "here at the target\n");
    f.commit_all();
    let target = f.snap("turn 1");

    f.delete("gone.txt");
    f.write("keep/x.txt", "the agent changed this\n");
    f.write("new.txt", "and added this\n");
    f.snap("turn 2");

    // The write fails after the removals have run.
    f.broken = Some("keep/x.txt".into());
    let err = f
        .restore_expecting("default", &target.to_string(), None)
        .expect_err("a write that cannot land must fail");
    let Failure::Restore(failed) = err else {
        panic!("a partial restore must be reported as one: {err:?}")
    };
    assert!(failed.recovered, "the tree should have been put back; instead: {}", failed.text());
    assert!(
        failed.checkpoint_seq.is_some(),
        "the way back has to be nameable even when recovery worked"
    );

    // The agent's work is exactly as it was before the attempt.
    assert_eq!(f.read("keep/x.txt"), "the agent changed this\n");
    assert_eq!(f.read("new.txt"), "and added this\n");
    assert!(!f.has("gone.txt"), "a file the restore had written must be back to absent");
    assert!(
        !failed.text().contains("nothing was written"),
        "the message must never claim nothing happened: {}",
        failed.text()
    );
    assert!(failed.text().contains("put back as they were"), "{}", failed.text());
}

#[test]
fn a_bookkeeping_failure_after_a_restore_is_not_reported_as_a_failed_restore() {
    let plan = RestorePlan {
        write: vec!["a.txt".into()],
        remove: vec![],
        target_tree: "t".into(),
        current_tree: "c".into(),
    };
    let (restore, action) = Restore::new(None);
    assert!(matches!(action, RestoreAction::Lock(60_000_000_000)));
    let (restore, action) = restore.step(RestoreEvent::Locked(Ok(())));
    assert!(matches!(action, RestoreAction::Plan));
    let (restore, action) = restore.step(RestoreEvent::Planned(Ok(("c0ffee".into(), plan))));
    assert!(matches!(action, RestoreAction::Snap { kind: TurnKind::Checkpoint, .. }));
    let (restore, action) = restore.step(RestoreEvent::Snapped(Ok(None)));
    assert!(matches!(action, RestoreAction::Apply(_)));
    let (restore, action) = restore.step(RestoreEvent::Applied(Ok(())));
    assert!(matches!(action, RestoreAction::Snap { kind: TurnKind::Manual, .. }));
    let (_, action) = restore.step(RestoreEvent::Snapped(Err("a merge is in progress".into())));
    match action {
        RestoreAction::Done(Ok(done)) => assert_eq!(
            done.bookkeeping_error.as_deref(),
            Some("a merge is in progress"),
            "a restore that landed carries the bookkeeping problem as a note, not as a failure"
        ),
        other => panic!("the restore landed: {other:?}"),
    }
}

#[test]
fn a_restore_never_writes_over_bytes_no_snapshot_holds() {
    let mut f = World::new();
    f.ignored = vec!["build/".into()];
    f.write("build", "at first this path is a file\n");
    f.commit_all();
    let as_file = f.snap("turn 1");

    // The path becomes an ignored directory holding real work.
    f.delete("build");
    f.write("build/artifact.bin", "expensive to regenerate\n");
    f.write("build/.env", "SECRET=hunter2\n");
    f.snap_on("default", "turn 2", true).unwrap();

    let planned = f.plan(as_file);
    assert!(
        planned.plan.write.contains(&"build".to_string()),
        "the plan should want to write the file back: {:?}",
        planned.plan
    );

    let err = f
        .restore_expecting("default", &as_file.to_string(), None)
        .expect_err("writing over a directory Sheep never captured must be refused");
    assert!(failed(&err).contains("build"), "the refusal should name it: {}", failed(&err));

    assert!(f.has("build/artifact.bin"), "the ignored tree must survive");
    assert_eq!(f.read("build/.env"), "SECRET=hunter2\n");
}

#[test]
fn a_nested_repository_is_not_clobbered_by_a_write_either() {
    let mut f = World::new();
    f.write("vendor", "at first this path is a file\n");
    f.commit_all();
    let as_file = f.snap("turn 1");

    f.delete("vendor");
    f.nested = vec!["vendor".into()];
    f.write("vendor/.git/HEAD", "ref: refs/heads/main\n");
    f.write("vendor/work.txt", "uncommitted work nobody else has\n");
    f.snap("turn 2");

    let err = f
        .restore_expecting("default", &as_file.to_string(), None)
        .expect_err("writing over a nested repository must be refused");
    assert!(failed(&err).contains("vendor"), "the refusal should name it: {}", failed(&err));
    assert!(f.has("vendor/.git/HEAD"), "the nested repository's history must survive");
    assert_eq!(f.read("vendor/work.txt"), "uncommitted work nobody else has\n");
}

#[test]
fn a_tracked_file_an_ignore_rule_matches_is_still_captured() {
    let mut f = World::new();
    f.write("config/app.env", "PORT=8080\n");
    f.write("normal.txt", "one\n");
    f.commit_all();
    // The rule arrives after the file is already tracked — an everyday event
    // when an agent tidies a .gitignore mid-session.
    f.ignored = vec!["*.env".into()];

    let captured = f.snap("turn 1");
    f.write("config/app.env", "PORT=9999\n");
    f.write("normal.txt", "two\n");
    f.snap("turn 2");

    let planned = f.plan(captured);
    assert!(
        planned.plan.write.contains(&"config/app.env".to_string()),
        "a tracked file must be in the plan even when an ignore rule matches it: {:?}",
        planned.plan
    );

    f.restore(captured);
    assert_eq!(f.read("config/app.env"), "PORT=8080\n", "a tracked file must round-trip");
    assert_eq!(f.read("normal.txt"), "one\n");
}

#[test]
fn a_genuinely_untracked_ignored_file_is_still_left_alone() {
    let mut f = World::new();
    f.ignored = vec![".env".into(), "node_modules/".into()];
    f.write("a.txt", "one\n");
    f.commit_all();
    let first = f.snap("turn 1");

    f.write(".env", "SECRET=hunter2\n");
    f.write("node_modules/left-pad/index.js", "module.exports = 1\n");
    f.write("a.txt", "two\n");
    f.snap("turn 2");

    let planned = f.plan(first);
    assert!(
        !planned.plan.remove.iter().any(|p| p.contains(".env") || p.contains("node_modules")),
        "an untracked ignored path must never enter a plan: {:?}",
        planned.plan
    );
    f.restore(first);
    assert_eq!(f.read(".env"), "SECRET=hunter2\n");
    assert!(f.has("node_modules/left-pad/index.js"));
}

#[test]
fn a_path_sheep_cannot_name_is_refused_rather_than_silently_skipped() {
    let mut plan = RestorePlan::default();
    plan.remove.push("caf\u{FFFD}.txt".to_string());
    plan.target_tree = "0".repeat(40);
    plan.current_tree = "0".repeat(40);

    let shadow = Shadow::ensure(worktree(), "/w/state");
    let nothing = Facts { missing: vec![], held: vec![], occupied: vec![], directories: vec![] };
    let err =
        shadow.apply(&plan, &nothing).expect_err("a path we cannot address must not be acted on");
    assert!(
        err.contains("not valid UTF-8"),
        "a removal that would silently no-op must be a refusal instead: {err}"
    );
}

#[test]
fn line_endings_survive_a_hostile_global_gitconfig() {
    // `core.autocrlf = input` in a machine's own configuration is routine
    // advice. The shadow must not inherit it.
    let shadow = Shadow::ensure(worktree(), "/w/state");
    let run = shadow.git().command(&vec!["add".to_string()]);
    let value = |key: &str| {
        run.set.iter().rev().find(|(k, _)| k == key).map(|(_, v)| v.as_str()).unwrap_or("")
    };
    assert_eq!(value("GIT_CONFIG_KEY_0"), "core.autocrlf");
    assert_eq!(value("GIT_CONFIG_VALUE_0"), "false");
    assert_eq!(value("GIT_CONFIG_COUNT"), "3");
}

// ---------------------------------------------------------------------------
// Two writers in one state directory.
// ---------------------------------------------------------------------------

#[test]
fn a_writer_that_cannot_have_the_lock_is_told_so_rather_than_left_waiting() {
    let mut f = World::new();
    f.write("a.txt", "one\n");
    f.snap("the first turn");
    let before = f.log("default").len();

    f.locked = true;
    f.write("a.txt", "two\n");
    let err = f
        .snap_on("default", "", false)
        .expect_err("a snapshot cannot record while someone else holds the lock");
    assert!(is_busy(&err), "contention must be its own error, not a general failure: {err:?}");
    assert_eq!(f.log("default").len(), before, "and nothing may be half-written on the way out");

    f.locked = false;
    f.snap("and now it records");
    assert_eq!(f.log("default").len(), before + 1);
}

#[test]
fn a_rebuilt_timeline_refuses_a_ref_that_moved_under_it() {
    let mut f = World::new();
    f.write("a.txt", "one\n");
    f.snap("turn 1");
    let first = f.log("default")[0].clone();
    let read_at = f.head("default");

    // Somebody records after that read.
    f.write("a.txt", "two\n");
    f.snap("turn 2");
    let second = f.log("default")[1].clone();

    let chain =
        vec![sheep::shadow::Link { tree: first.tree.clone(), message: first.subject(), at: first.at }];
    let err = f
        .rebuild("default", chain, read_at)
        .expect_err("a ref that moved must not be swapped away");
    assert!(
        err.contains("moved while Sheep was writing to it"),
        "the refusal must say what happened: {err}"
    );
    assert_eq!(
        f.head("default").as_deref(),
        Some(second.commit.as_str()),
        "and the ref must be left exactly where the other writer put it"
    );
}

#[test]
fn a_turn_appended_while_a_collection_reads_is_never_silently_dropped() {
    let mut f = World::new();
    f.write("a.txt", "base\n");
    record_turns(&mut f, 6);

    // A writer that holds no lock appends between the two reads.
    let collected = f.collect_beside("default", keep(3), true, |f| {
        f.write("late.txt", "and this too\n");
        f.snap("appended while the collection was reading");
    });
    let late = 7;
    // Two acceptable outcomes, and the third is the bug: the turn is kept, or
    // the collection refuses because the ref moved under it.
    match collected {
        Ok(_) => assert!(f.log("default").iter().any(|t| t.seq == late), "silently dropped"),
        Err(Failure::Other(why)) => assert!(why.contains("moved while Sheep was writing"), "{why}"),
        Err(other) => panic!("not a refusal: {other:?}"),
    }
    f.plan(late);
}

// ---------------------------------------------------------------------------
// Names and places.
// ---------------------------------------------------------------------------

#[test]
fn a_worktree_is_named_after_its_directory_and_the_whole_of_its_path() {
    assert_eq!(worktree_id("/w/repo"), "repo-7005185596c2e32b", "the digest is that of the standard");
    assert_ne!(worktree_id("/w/repo"), worktree_id("/elsewhere/repo"));
    let (a, b) = (worktree_id("/w/repo"), worktree_id("/w/other"));
    assert_ne!(a[a.len() - 16..], b[b.len() - 16..], "the name is not all that tells them apart");
}

#[test]
fn the_state_directory_follows_its_order_of_precedence() {
    let some = |s: &str| Some(s.to_string());
    assert_eq!(state_dir_from(some("/h"), some("/s"), some("/x"), some("/home")).unwrap(), "/h");
    assert_eq!(state_dir_from(None, some("/s"), some("/x"), some("/home")).unwrap(), "/s");
    assert_eq!(state_dir_from(None, None, some("/x"), some("/home")).unwrap(), "/x/sheep");
    assert_eq!(state_dir_from(None, None, None, some("/home")).unwrap(), "/home/.local/state/sheep");
    assert!(state_dir_from(None, None, None, None).is_err());
}

#[test]
fn a_legal_name_is_its_own_slug_and_others_do_not_collide() {
    assert_eq!(slug("goose"), "goose");
    assert_ne!(slug("w31:pW"), slug("w31/pW"));
    assert_ne!(slug("a/b"), slug("a/b/c"), "names of any length");
    assert!(slug("w31:pW").chars().all(|c| c.is_ascii_alphanumeric() || c == '-' || c == '_' || c == '.'));
    assert!(!slug("").is_empty());
}

#[test]
fn a_snapshot_is_what_was_committed() {
    let made: Snapshot =
        Shadow::commit("default", "t", Some("p".into()), 7, "c".into(), Ok(())).unwrap();
    assert_eq!((made.commit.as_str(), made.tree.as_str(), made.at), ("c", "t", 7));
    let err = Shadow::commit("default", "t", None, 7, "c".into(), Err("no".into())).unwrap_err();
    assert!(err.contains("default"), "{err}");
}

/// A file an ignore rule hides is in no snapshot, and writing a directory where
/// it stands would take it away.
#[test]
fn an_ignored_file_is_not_cleared_away_for_a_directory() {
    let plan = RestorePlan {
        write: vec!["cache/a.txt".to_string()],
        remove: vec![],
        target_tree: "t".to_string(),
        current_tree: "c".to_string(),
    };
    let facts = Facts {
        missing: vec![],
        held: vec!["a.txt".to_string()],
        occupied: vec!["cache".to_string()],
        directories: vec![],
    };
    let shadow = Shadow::ensure(worktree(), "/w/state");
    let why = shadow.apply(&plan, &facts).expect_err("the file is in no snapshot");
    assert!(why.contains("cache/a.txt"), "{why}");
    let held = Facts { held: vec!["cache".to_string()], ..facts };
    assert!(shadow.apply(&plan, &held).is_ok(), "a file a snapshot holds may go");
}

/// Whatever the program writes, it writes into its own repository, through an
/// index of its own.
#[test]
fn every_write_goes_to_the_shadow_repository() {
    let shadow = Shadow::ensure(worktree(), "/w/state");
    let text = |s: &str| s.to_string();
    let writes = vec![
        Call::Stage,
        Call::StageListed,
        Call::WriteTree,
        Call::CommitTree { tree: text("t"), parent: None, message: text("m") },
        Call::MoveRef { name: text("refs/sheep/default"), to: text("c"), from: None },
        Call::DropRef { name: text("refs/sheep/default"), from: text("c") },
        Call::ReadTree { tree: text("t") },
        Call::CheckoutListed,
        Call::ExpireReflogs,
        Call::Prune,
    ];
    for call in writes {
        let run = shadow.runs(&call, "/w/state", "snap", 7, 1_700_000_000).command(&call.args());
        assert_eq!(run.args[0], "--git-dir", "{call:?}");
        assert_eq!(run.args[1], shadow.git_dir, "{call:?}");
        let index = run.set.iter().find(|(key, _)| key == "GIT_INDEX_FILE");
        if let Some((_, index)) = index {
            assert!(index.starts_with("/w/state/tmp/"), "{index}");
        }
        let staged = matches!(
            call,
            Call::Stage
                | Call::StageListed
                | Call::WriteTree
                | Call::ReadTree { .. }
                | Call::CheckoutListed
        );
        assert_eq!(index.is_some(), staged, "{call:?}");
    }
    for call in [Call::Known, Call::Unmerged, Call::Untracked, Call::Ignored, Call::IsInside] {
        let run = shadow.runs(&call, "/w/state", "snap", 7, 0).command(&call.args());
        assert!(run.args[0] == "ls-files" || run.args[0] == "rev-parse", "{call:?}");
        assert_eq!(run.cwd, shadow.worktree.root);
    }
    let dated = shadow.runs(
        &Call::CommitTree { tree: text("t"), parent: None, message: text("m") },
        "/w/state",
        "snap",
        7,
        1_700_000_000,
    );
    let set = dated.command(&vec![]).set;
    assert!(set.contains(&(text("GIT_COMMITTER_DATE"), text("1700000000 +0000"))));
    assert!(set.contains(&(text("GIT_CONFIG_KEY_0"), text("core.autocrlf"))));
}
