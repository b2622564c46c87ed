//! Recording the working tree as a turn.
use crate::repo::Health;
use crate::shadow::Snapshot;
use crate::store::{Store, Turn, TurnKind};
use crate::strings::{clone_opt, same};
use super::{Failure, SnapMeta, SNAP_WAIT};
use vstd::prelude::*;
use vstd::string::*;

verus! {

/// How far the recording of a turn is.
#[derive(Debug)]
#[allow(inconsistent_fields)]
pub enum SnapStage {
    Locking,
    Inspecting,
    Staging,
    /// The working tree is this tree.
    Placing { tree: String },
    /// The timeline's head is this commit.
    Comparing { tree: String, parent: String },
    Counting { tree: String, parent: Option<String> },
    Numbering { tree: String, parent: Option<String>, files: usize, insertions: u64, deletions: u64 },
    Committing { turn: Turn },
    Appending { turn: Turn },
    Over,
}

/// What came of a step.
#[derive(Debug)]
pub enum SnapEvent {
    Locked(Result<(), Failure>),
    Inspected(Result<Health, String>),
    Wrote(Result<String, String>),
    Head(Result<Option<String>, String>),
    Tree(Result<String, String>),
    Counted(Result<(usize, u64, u64), String>),
    Last(Result<Option<Turn>, String>),
    Committed(Result<Snapshot, String>),
    Appended(Result<(), String>),
}

/// What is to be done next.
#[derive(Debug)]
pub enum SnapAction {
    /// Take the worktree's lock, waiting this many nanoseconds for it.
    Lock(u128),
    /// Look whether the worktree is safe to touch.
    Inspect,
    /// Turn the working tree into a tree.
    WriteTree,
    /// Read the head of the timeline.
    Head,
    /// Read the tree of a commit.
    TreeOf(String),
    /// Compare two trees.
    DiffStat { from: String, to: String },
    /// Count the files of a tree, as the files of a first turn.
    TreeSize(String),
    /// Read the last turn of the log.
    LastTurn,
    /// Write a commit behind `parent`, and move the timeline's head from
    /// `parent` to it.
    Commit { tree: String, parent: Option<String>, message: String },
    /// Append a turn to the log.
    Append(Turn),
    /// The turn that was recorded, if there was anything to record.
    Done(Result<Option<Turn>, Failure>),
}

/// The recording of one turn.
#[derive(Debug)]
pub struct Snap {
    pub kind: TurnKind,
    pub meta: SnapMeta,
    /// Record even when nothing changed.
    pub allow_empty: bool,
    pub stage: SnapStage,
}

/// Which event a stage waits for.
pub open spec fn snap_expects(stage: SnapStage, event: SnapEvent) -> bool {
    match stage {
        SnapStage::Locking => event is Locked,
        SnapStage::Inspecting => event is Inspected,
        SnapStage::Staging => event is Wrote,
        SnapStage::Placing { .. } => event is Head,
        SnapStage::Comparing { .. } => event is Tree,
        SnapStage::Counting { .. } => event is Counted,
        SnapStage::Numbering { .. } => match event {
            SnapEvent::Last(Ok(Some(last))) => last.seq < u64::MAX,
            SnapEvent::Last(_) => true,
            _ => false,
        },
        SnapStage::Committing { .. } => event is Committed,
        SnapStage::Appending { .. } => event is Appended,
        SnapStage::Over => false,
    }
}

/// Whether the recording is over because a step failed.
pub open spec fn snap_fails(t: SnapStage, action: SnapAction, why: Seq<char>) -> bool {
    &&& t is Over
    &&& match action {
        SnapAction::Done(Err(Failure::Other(e))) => e@ == why,
        _ => false,
    }
}

/// The number of the turn behind `last`.
pub open spec fn seq_after(last: Option<Turn>) -> int {
    match last {
        Some(t) => t.seq + 1,
        None => 1,
    }
}

/// How recording a turn goes from one stage to the next.
pub open spec fn snap_goes(s: Snap, event: SnapEvent, t: SnapStage, action: SnapAction) -> bool {
    match (s.stage, event) {
        (SnapStage::Locking, SnapEvent::Locked(Ok(_))) => t is Inspecting && action is Inspect,
        (SnapStage::Locking, SnapEvent::Locked(Err(f))) => t is Over && action == SnapAction::Done(
            Err(f),
        ),
        (SnapStage::Inspecting, SnapEvent::Inspected(Err(e))) => snap_fails(t, action, e@),
        (SnapStage::Inspecting, SnapEvent::Inspected(Ok(health))) => if health@.blockers.len() > 0 {
            snap_fails(t, action, "refusing to continue: "@ + health@.blockers[0].text())
        } else {
            t is Staging && action is WriteTree
        },
        (SnapStage::Staging, SnapEvent::Wrote(Err(e))) => snap_fails(t, action, e@),
        (SnapStage::Staging, SnapEvent::Wrote(Ok(tree))) => t == (SnapStage::Placing { tree })
            && action is Head,
        (SnapStage::Placing { tree }, SnapEvent::Head(Err(e))) => snap_fails(t, action, e@),
        (SnapStage::Placing { tree }, SnapEvent::Head(Ok(None))) => t == (SnapStage::Counting {
            tree,
            parent: None,
        }) && action == SnapAction::TreeSize(tree),
        (SnapStage::Placing { tree }, SnapEvent::Head(Ok(Some(parent)))) => t == (
        SnapStage::Comparing { tree, parent }) && action == SnapAction::TreeOf(parent),
        (SnapStage::Comparing { tree, parent }, SnapEvent::Tree(Err(e))) => snap_fails(t, action, e@),
        (SnapStage::Comparing { tree, parent }, SnapEvent::Tree(Ok(before))) => if !s.allow_empty
            && before@ == tree@ {
            t is Over && action == SnapAction::Done(Ok(None))
        } else {
            t == (SnapStage::Counting { tree, parent: Some(parent) }) && action == (
            SnapAction::DiffStat { from: before, to: tree })
        },
        (SnapStage::Counting { tree, parent }, SnapEvent::Counted(Err(e))) => snap_fails(
            t,
            action,
            e@,
        ),
        (
            SnapStage::Counting { tree, parent },
            SnapEvent::Counted(Ok((files, insertions, deletions))),
        ) => t == (SnapStage::Numbering { tree, parent, files, insertions, deletions })
            && action is LastTurn,
        (SnapStage::Numbering { .. }, SnapEvent::Last(Err(e))) => snap_fails(t, action, e@),
        (
            SnapStage::Numbering { tree, parent, files, insertions, deletions },
            SnapEvent::Last(Ok(last)),
        ) => match (t, action) {
            (
                SnapStage::Committing { turn },
                SnapAction::Commit { tree: ct, parent: cp, message },
            ) => {
                &&& turn.seq == seq_after(last)
                &&& turn.kind == s.kind
                &&& turn.tree == tree
                &&& turn.parent == parent
                &&& turn.files == files
                &&& turn.insertions == insertions
                &&& turn.deletions == deletions
                &&& turn.pane_id == s.meta.pane_id
                &&& turn.agent == s.meta.agent
                &&& turn.prompt == s.meta.prompt
                &&& turn.note == s.meta.note
                &&& ct == tree
                &&& cp == parent
                &&& message@ == turn@.subject()
            },
            _ => false,
        },
        (SnapStage::Committing { turn }, SnapEvent::Committed(Err(e))) => snap_fails(t, action, e@),
        (SnapStage::Committing { turn }, SnapEvent::Committed(Ok(made))) => {
            let dated = Turn { commit: made.commit, at: made.at, ..turn };
            t == (SnapStage::Appending { turn: dated }) && action == SnapAction::Append(dated)
        },
        (SnapStage::Appending { turn }, SnapEvent::Appended(Err(e))) => snap_fails(t, action, e@),
        (SnapStage::Appending { turn }, SnapEvent::Appended(Ok(_))) => t is Over && action
            == SnapAction::Done(Ok(Some(turn))),
        _ => false,
    }
}

impl Snap {
    /// Start recording a turn, by taking the lock.
    pub fn new(kind: TurnKind, meta: SnapMeta, allow_empty: bool) -> (r: (Self, SnapAction))
        ensures
            r.0.kind == kind,
            r.0.meta == meta,
            r.0.allow_empty == allow_empty,
            r.0.stage is Locking,
            r.1 == SnapAction::Lock(SNAP_WAIT),
    {
        (
            Snap { kind, meta, allow_empty, stage: SnapStage::Locking },
            SnapAction::Lock(SNAP_WAIT),
        )
    }

    /// Start recording a turn while the lock is held already.
    pub fn locked(kind: TurnKind, meta: SnapMeta, allow_empty: bool) -> (r: (Self, SnapAction))
        ensures
            r.0.kind == kind,
            r.0.meta == meta,
            r.0.allow_empty == allow_empty,
            r.0.stage is Inspecting,
            r.1 is Inspect,
    {
        (Snap { kind, meta, allow_empty, stage: SnapStage::Inspecting }, SnapAction::Inspect)
    }

    /// Take note of what came of a step, and say what is to be done next.
    pub fn step(self, event: SnapEvent) -> (r: (Self, SnapAction))
        requires
            snap_expects(self.stage, event),
        ensures
            snap_goes(self, event, r.0.stage, r.1),
            r.0.kind == self.kind,
            r.0.meta == self.meta,
            r.0.allow_empty == self.allow_empty,
    {
        let ghost me = self;
        let Snap { kind, meta, allow_empty, stage } = self;
        let (next, action): (SnapStage, SnapAction) = match event {
            SnapEvent::Locked(Ok(_)) => (SnapStage::Inspecting, SnapAction::Inspect),
            SnapEvent::Locked(Err(f)) => (SnapStage::Over, SnapAction::Done(Err(f))),
            SnapEvent::Inspected(Ok(health)) => match health.bail_if_unsafe() {
                Ok(_) => (SnapStage::Staging, SnapAction::WriteTree),
                Err(e) => (SnapStage::Over, SnapAction::Done(Err(Failure::Other(e)))),
            },
            SnapEvent::Wrote(Ok(tree)) => (SnapStage::Placing { tree }, SnapAction::Head),
            SnapEvent::Head(Ok(head)) => {
                let r = placed(stage, head);
                proof {
                    assert(snap_goes(me, SnapEvent::Head(Ok(head)), r.0, r.1));
                }
                r
            },
            SnapEvent::Tree(Ok(before)) => {
                let r = compared(stage, before, allow_empty);
                proof {
                    assert(snap_goes(me, SnapEvent::Tree(Ok(before)), r.0, r.1));
                }
                r
            },
            SnapEvent::Counted(Ok(counts)) => {
                let r = counted(stage, counts);
                proof {
                    assert(snap_goes(me, SnapEvent::Counted(Ok(counts)), r.0, r.1));
                }
                r
            },
            SnapEvent::Last(Ok(last)) => {
                let r = numbered(stage, kind, &meta, last);
                proof {
                    assert(snap_goes(me, SnapEvent::Last(Ok(last)), r.0, r.1));
                }
                r
            },
            SnapEvent::Committed(Ok(made)) => {
                let r = committed(stage, made);
                proof {
                    assert(snap_goes(me, SnapEvent::Committed(Ok(made)), r.0, r.1));
                }
                r
            },
            SnapEvent::Appended(Ok(_)) => {
                let r = appended(stage);
                proof {
                    assert(snap_goes(me, SnapEvent::Appended(Ok(())), r.0, r.1));
                }
                r
            },
            SnapEvent::Inspected(Err(e)) => (SnapStage::Over, SnapAction::Done(Err(Failure::Other(e)))),
            SnapEvent::Wrote(Err(e)) => (SnapStage::Over, SnapAction::Done(Err(Failure::Other(e)))),
            SnapEvent::Head(Err(e)) => (SnapStage::Over, SnapAction::Done(Err(Failure::Other(e)))),
            SnapEvent::Tree(Err(e)) => (SnapStage::Over, SnapAction::Done(Err(Failure::Other(e)))),
            SnapEvent::Counted(Err(e)) => (SnapStage::Over, SnapAction::Done(Err(Failure::Other(e)))),
            SnapEvent::Last(Err(e)) => (SnapStage::Over, SnapAction::Done(Err(Failure::Other(e)))),
            SnapEvent::Committed(Err(e)) => (SnapStage::Over, SnapAction::Done(Err(Failure::Other(e)))),
            SnapEvent::Appended(Err(e)) => (SnapStage::Over, SnapAction::Done(Err(Failure::Other(e)))),
        };
        (Snap { kind, meta, allow_empty, stage: next }, action)
    }
}

fn placed(stage: SnapStage, head: Option<String>) -> (r: (SnapStage, SnapAction))
    requires
        stage is Placing,
    ensures
        forall|s: Snap|
            s.stage == stage ==> #[trigger] snap_goes(s, SnapEvent::Head(Ok(head)), r.0, r.1),
{
    match stage {
        SnapStage::Placing { tree } => match head {
            None => (
                SnapStage::Counting { tree: tree.clone(), parent: None },
                SnapAction::TreeSize(tree),
            ),
            Some(parent) => (
                SnapStage::Comparing { tree, parent: parent.clone() },
                SnapAction::TreeOf(parent),
            ),
        },
        _ => (SnapStage::Over, SnapAction::Head),
    }
}

fn compared(stage: SnapStage, before: String, allow_empty: bool) -> (r: (SnapStage, SnapAction))
    requires
        stage is Comparing,
    ensures
        forall|s: Snap|
            s.stage == stage && s.allow_empty == allow_empty ==> #[trigger] snap_goes(
                s,
                SnapEvent::Tree(Ok(before)),
                r.0,
                r.1,
            ),
{
    match stage {
        SnapStage::Comparing { tree, parent } => {
            if !allow_empty && same(before.as_str(), tree.as_str()) {
                return (SnapStage::Over, SnapAction::Done(Ok(None)));
            }
            (
                SnapStage::Counting { tree: tree.clone(), parent: Some(parent) },
                SnapAction::DiffStat { from: before, to: tree },
            )
        },
        _ => (SnapStage::Over, SnapAction::Head),
    }
}

fn counted(stage: SnapStage, counts: (usize, u64, u64)) -> (r: (SnapStage, SnapAction))
    requires
        stage is Counting,
    ensures
        forall|s: Snap|
            s.stage == stage ==> #[trigger] snap_goes(s, SnapEvent::Counted(Ok(counts)), r.0, r.1),
{
    match stage {
        SnapStage::Counting { tree, parent } => (
            SnapStage::Numbering {
                tree,
                parent,
                files: counts.0,
                insertions: counts.1,
                deletions: counts.2,
            },
            SnapAction::LastTurn,
        ),
        _ => (SnapStage::Over, SnapAction::Head),
    }
}

fn numbered(stage: SnapStage, kind: TurnKind, meta: &SnapMeta, last: Option<Turn>) -> (r: (
    SnapStage,
    SnapAction,
))
    requires
        stage is Numbering,
        last matches Some(t) ==> t.seq < u64::MAX,
    ensures
        forall|s: Snap|
            s.stage == stage && s.kind == kind && s.meta == meta ==> #[trigger] snap_goes(
                s,
                SnapEvent::Last(Ok(last)),
                r.0,
                r.1,
            ),
{
    match stage {
        SnapStage::Numbering { tree, parent, files, insertions, deletions } => {
            let turn = Turn {
                seq: Store::next_seq(&last),
                kind,
                commit: String::new(),
                tree: tree.clone(),
                parent: clone_opt(&parent),
                at: 0,
                files,
                insertions,
                deletions,
                pane_id: clone_opt(&meta.pane_id),
                agent: clone_opt(&meta.agent),
                prompt: clone_opt(&meta.prompt),
                note: clone_opt(&meta.note),
            };
            let message: String = turn.subject();
            (SnapStage::Committing { turn }, SnapAction::Commit { tree, parent, message })
        },
        _ => (SnapStage::Over, SnapAction::Head),
    }
}

fn committed(stage: SnapStage, made: Snapshot) -> (r: (SnapStage, SnapAction))
    requires
        stage is Committing,
    ensures
        forall|s: Snap|
            s.stage == stage ==> #[trigger] snap_goes(s, SnapEvent::Committed(Ok(made)), r.0, r.1),
{
    match stage {
        SnapStage::Committing { turn } => {
            let dated = Turn { commit: made.commit, at: made.at, ..turn };
            (SnapStage::Appending { turn: dated.clone() }, SnapAction::Append(dated))
        },
        _ => (SnapStage::Over, SnapAction::Head),
    }
}

fn appended(stage: SnapStage) -> (r: (SnapStage, SnapAction))
    requires
        stage is Appending,
    ensures
        forall|s: Snap|
            s.stage == stage ==> #[trigger] snap_goes(s, SnapEvent::Appended(Ok(())), r.0, r.1),
{
    match stage {
        SnapStage::Appending { turn } => (SnapStage::Over, SnapAction::Done(Ok(Some(turn)))),
        _ => (SnapStage::Over, SnapAction::Head),
    }
}

// --------------------------------------------------------------------- laws

/// A run of the recording of a turn: stage by stage, from the beginning.
pub open spec fn snap_run(
    states: Seq<Snap>,
    events: Seq<SnapEvent>,
    actions: Seq<SnapAction>,
) -> bool {
    &&& states.len() == events.len() + 1
    &&& actions.len() == events.len()
    &&& states[0].stage is Locking || states[0].stage is Inspecting
    &&& forall|i: int|
        0 <= i < events.len() ==> #[trigger] snap_goes(
            states[i],
            events[i],
            states[i + 1].stage,
            actions[i],
        )
    &&& forall|i: int|
        0 <= i < events.len() ==> (#[trigger] states[i + 1]).kind == states[0].kind && states[i
            + 1].meta == states[0].meta && states[i + 1].allow_empty == states[0].allow_empty
}

/// Whether the worktree was found safe before step `n`.
pub open spec fn found_safe(events: Seq<SnapEvent>, n: int) -> bool {
    exists|j: int|
        0 <= j < n && match #[trigger] events[j] {
            SnapEvent::Inspected(Ok(health)) => health@.blockers.len() == 0,
            _ => false,
        }
}

/// A stage that is past the inspection.
pub open spec fn past_inspection(stage: SnapStage) -> bool {
    !(stage is Locking) && !(stage is Inspecting) && !(stage is Over)
}

proof fn lemma_inspected(
    states: Seq<Snap>,
    events: Seq<SnapEvent>,
    actions: Seq<SnapAction>,
    n: int,
)
    requires
        snap_run(states, events, actions),
        0 <= n < states.len(),
        past_inspection(states[n].stage),
    ensures
        found_safe(events, n),
    decreases n,
{
    if n > 0 {
        let i = n - 1;
        assert(snap_goes(states[i], events[i], states[i + 1].stage, actions[i]));
        if past_inspection(states[n - 1].stage) {
            lemma_inspected(states, events, actions, n - 1);
            let j = choose|j: int|
                0 <= j < n - 1 && match #[trigger] events[j] {
                    SnapEvent::Inspected(Ok(health)) => health@.blockers.len() == 0,
                    _ => false,
                };
            assert(0 <= j < n && (match events[j] {
                SnapEvent::Inspected(Ok(health)) => health@.blockers.len() == 0,
                _ => false,
            }));
        } else {
            assert(states[n - 1].stage is Inspecting);
            assert(match events[n - 1] {
                SnapEvent::Inspected(Ok(health)) => health@.blockers.len() == 0,
                _ => false,
            });
        }
    }
}

/// Nothing of a worktree is staged, committed or logged before it was found
/// safe to touch.
pub proof fn law_nothing_is_recorded_in_an_unsafe_worktree(
    states: Seq<Snap>,
    events: Seq<SnapEvent>,
    actions: Seq<SnapAction>,
    n: int,
)
    requires
        snap_run(states, events, actions),
        0 <= n < actions.len(),
        actions[n] is WriteTree || actions[n] is Commit || actions[n] is Append,
    ensures
        found_safe(events, n + 1),
{
    assert(snap_goes(states[n], events[n], states[n + 1].stage, actions[n]));
    lemma_inspected(states, events, actions, n + 1);
}

/// The turn that a stage has in hand is the one that is committed, logged and
/// handed back: its number is one past the last, and its tree is the working
/// tree.
pub proof fn law_the_turn_recorded_is_the_tree_that_was_staged(
    s: Snap,
    event: SnapEvent,
    t: SnapStage,
    action: SnapAction,
)
    requires
        snap_goes(s, event, t, action),
    ensures
        match (s.stage, action) {
            (_, SnapAction::Append(turn)) => match (s.stage, event) {
                (SnapStage::Committing { turn: had }, SnapEvent::Committed(Ok(made))) => turn.tree
                    == had.tree && turn.seq == had.seq && turn.parent == had.parent && turn.commit
                    == made.commit && turn.at == made.at,
                _ => false,
            },
            (SnapStage::Appending { turn }, SnapAction::Done(Ok(done))) => done == Some(turn),
            (_, SnapAction::Done(Ok(done))) => done is None && !s.allow_empty,
            (SnapStage::Numbering { tree, .. }, SnapAction::Commit { tree: ct, .. }) => ct == tree,
            _ => true,
        },
{
}

/// A tree that is the same as the one before is recorded only when the caller
/// insists.
pub proof fn law_an_unchanged_tree_is_not_a_turn(
    s: Snap,
    event: SnapEvent,
    t: SnapStage,
    action: SnapAction,
    tree: String,
    parent: String,
    before: String,
)
    requires
        s.stage == (SnapStage::Comparing { tree, parent }),
        event == SnapEvent::Tree(Ok(before)),
        snap_goes(s, event, t, action),
    ensures
        action == SnapAction::Done(Ok(None)) <==> !s.allow_empty && before@ == tree@,
{
}

/// What a recording finds: the tree that the working tree is, the head of the
/// timeline, the tree of that head, how many files changed and how many lines
/// were added and deleted, and the last turn of the log.
pub struct Found {
    pub tree: Seq<char>,
    pub head: Option<String>,
    pub head_tree: Seq<char>,
    pub files: usize,
    pub insertions: u64,
    pub deletions: u64,
    pub last: Option<Turn>,
}

impl Found {
    /// Whether the working tree is what the timeline ends with.
    pub open spec fn unchanged(self) -> bool {
        self.head is Some && self.head_tree == self.tree
    }
}

/// Whether every answer says what is there to be found.
pub open spec fn finds(events: Seq<SnapEvent>, found: Found) -> bool {
    forall|i: int|
        0 <= i < events.len() ==> match #[trigger] events[i] {
            SnapEvent::Wrote(Ok(tree)) => tree@ == found.tree,
            SnapEvent::Head(Ok(head)) => head == found.head,
            SnapEvent::Tree(Ok(tree)) => tree@ == found.head_tree,
            SnapEvent::Counted(Ok((files, added, deleted))) => files == found.files && added
                == found.insertions && deleted == found.deletions,
            SnapEvent::Last(Ok(last)) => last == found.last,
            _ => true,
        }
}

/// Whether no answer is a failure, and the worktree is safe to touch.
pub open spec fn snap_unhindered(events: Seq<SnapEvent>) -> bool {
    forall|i: int|
        0 <= i < events.len() ==> match #[trigger] events[i] {
            SnapEvent::Locked(r) => r is Ok,
            SnapEvent::Inspected(r) => r matches Ok(health) && health@.blockers.len() == 0,
            SnapEvent::Wrote(r) => r is Ok,
            SnapEvent::Head(r) => r is Ok,
            SnapEvent::Tree(r) => r is Ok,
            SnapEvent::Counted(r) => r is Ok,
            SnapEvent::Last(r) => r is Ok,
            SnapEvent::Committed(r) => r is Ok,
            SnapEvent::Appended(r) => r is Ok,
        }
}

/// Whether a turn is the one to record of what was found.
pub open spec fn records(s: Snap, turn: Turn, found: Found) -> bool {
    &&& turn.tree@ == found.tree
    &&& turn.parent == found.head
    &&& turn.seq == seq_after(found.last)
    &&& turn.files == found.files
    &&& turn.insertions == found.insertions
    &&& turn.deletions == found.deletions
    &&& turn.kind == s.kind
    &&& turn.pane_id == s.meta.pane_id
    &&& turn.agent == s.meta.agent
    &&& turn.prompt == s.meta.prompt
    &&& turn.note == s.meta.note
}

/// What a stage has in hand of what was found.
pub open spec fn snap_holds(s: Snap, found: Found) -> bool {
    let wanted = s.allow_empty || !found.unchanged();
    match s.stage {
        SnapStage::Placing { tree } => tree@ == found.tree,
        SnapStage::Comparing { tree, parent } => tree@ == found.tree && found.head == Some(parent),
        SnapStage::Counting { tree, parent } => tree@ == found.tree && parent == found.head
            && wanted,
        SnapStage::Numbering { tree, parent, files, insertions, deletions } => tree@ == found.tree
            && parent == found.head && files == found.files && insertions == found.insertions
            && deletions == found.deletions && wanted,
        SnapStage::Committing { turn } => records(s, turn, found) && wanted,
        SnapStage::Appending { turn } => records(s, turn, found) && wanted,
        _ => true,
    }
}

proof fn lemma_snap_holds(
    states: Seq<Snap>,
    events: Seq<SnapEvent>,
    actions: Seq<SnapAction>,
    found: Found,
    n: int,
)
    requires
        snap_run(states, events, actions),
        finds(events, found),
        0 <= n < states.len(),
    ensures
        snap_holds(states[n], found),
        states[n].kind == states[0].kind,
        states[n].meta == states[0].meta,
        states[n].allow_empty == states[0].allow_empty,
        states[n].stage matches SnapStage::Appending { turn } ==> n > 0 && actions[n - 1]
            == SnapAction::Append(turn),
    decreases n,
{
    if n > 0 {
        let i = n - 1;
        lemma_snap_holds(states, events, actions, found, i);
        assert(snap_goes(states[i], events[i], states[i + 1].stage, actions[i]));
        assert(states[i + 1].kind == states[0].kind);
        assert(match events[i] {
            SnapEvent::Wrote(Ok(tree)) => tree@ == found.tree,
            SnapEvent::Head(Ok(head)) => head == found.head,
            SnapEvent::Tree(Ok(tree)) => tree@ == found.head_tree,
            SnapEvent::Counted(Ok((files, added, deleted))) => files == found.files && added
                == found.insertions && deleted == found.deletions,
            SnapEvent::Last(Ok(last)) => last == found.last,
            _ => true,
        });
    }
}

/// A recording that is done made no turn if and only if the tree is the one that
/// the timeline ends with and the caller does not insist. Otherwise it made the
/// turn with the next number, of the tree that is there, behind the head, and
/// the last thing it asked for was to append that turn to the log. It fails only
/// if a step of it does.
pub proof fn law_a_recording_is_of_what_is_there(
    states: Seq<Snap>,
    events: Seq<SnapEvent>,
    actions: Seq<SnapAction>,
    found: Found,
    n: int,
)
    requires
        snap_run(states, events, actions),
        finds(events, found),
        0 <= n < actions.len(),
    ensures
        actions[n] matches SnapAction::Done(Ok(made)) ==> {
            &&& made is None <==> found.unchanged() && !states[0].allow_empty
            &&& made matches Some(turn) ==> records(states[0], turn, found) && n > 0 && actions[n
                - 1] == SnapAction::Append(turn)
            &&& made is None ==> forall|i: int|
                0 <= i < n ==> !((#[trigger] actions[i]) is Commit || actions[i] is Append)
        },
        snap_unhindered(events) ==> !(actions[n] matches SnapAction::Done(Err(_))),
{
    lemma_snap_holds(states, events, actions, found, n);
    assert(snap_goes(states[n], events[n], states[n + 1].stage, actions[n]));
    assert(match events[n] {
        SnapEvent::Tree(Ok(tree)) => tree@ == found.head_tree,
        _ => true,
    });
    match actions[n] {
        SnapAction::Done(Ok(None)) => {
            assert forall|i: int| 0 <= i < n implies !((#[trigger] actions[i]) is Commit
                || actions[i] is Append) by {
                lemma_not_yet_committed(states, events, actions, n, i);
            }
        },
        _ => {},
    }
}

/// A stage before anything is committed.
pub open spec fn uncommitted(stage: SnapStage) -> bool {
    !(stage is Committing || stage is Appending || stage is Over)
}

proof fn lemma_not_yet_committed(
    states: Seq<Snap>,
    events: Seq<SnapEvent>,
    actions: Seq<SnapAction>,
    n: int,
    i: int,
)
    requires
        snap_run(states, events, actions),
        0 <= i < n < states.len(),
        uncommitted(states[n].stage),
    ensures
        !(actions[i] is Commit || actions[i] is Append),
        uncommitted(states[i].stage),
    decreases n - i,
{
    let j = n - 1;
    assert(snap_goes(states[j], events[j], states[j + 1].stage, actions[j]));
    if i < j {
        lemma_not_yet_committed(states, events, actions, j, i);
    }
}

/// Recording again at once records nothing: where the head is the turn that was
/// just made, and the working tree is still its tree, a recording that does not
/// insist ends with no turn.
pub proof fn law_recording_again_records_nothing(
    states: Seq<Snap>,
    events: Seq<SnapEvent>,
    actions: Seq<SnapAction>,
    turn: Turn,
    found: Found,
    n: int,
)
    requires
        snap_run(states, events, actions),
        finds(events, found),
        found.head == Some(turn.commit),
        found.head_tree == turn.tree@,
        found.tree == turn.tree@,
        !states[0].allow_empty,
        snap_unhindered(events),
        0 <= n < actions.len(),
        actions[n] is Done,
    ensures
        actions[n] == SnapAction::Done(Ok(None)),
{
    law_a_recording_is_of_what_is_there(states, events, actions, found, n);
}

/// The turn that a recording hands back has the counts it was told, each under
/// its own name: as many files, as many lines added and as many lines deleted.
/// Its tree is the one that was staged, its parent the head of the timeline, and
/// its number one past the last, or one. What is counted is the way from the
/// head's tree to the staged tree; where there is no head, the files of the
/// staged tree.
pub proof fn law_a_turn_has_the_counts_of_its_change(
    states: Seq<Snap>,
    events: Seq<SnapEvent>,
    actions: Seq<SnapAction>,
    found: Found,
    n: int,
)
    requires
        snap_run(states, events, actions),
        finds(events, found),
        0 <= n < actions.len(),
    ensures
        match actions[n] {
            SnapAction::Done(Ok(Some(turn))) => {
                &&& turn.files == found.files
                &&& turn.insertions == found.insertions
                &&& turn.deletions == found.deletions
                &&& turn.tree@ == found.tree
                &&& turn.parent == found.head
                &&& turn.kind == states[0].kind
                &&& found.last matches Some(last) ==> turn.seq == last.seq + 1
                &&& found.last is None ==> turn.seq == 1
                &&& turn.agent == states[0].meta.agent
                &&& turn.pane_id == states[0].meta.pane_id
                &&& turn.prompt == states[0].meta.prompt
                &&& turn.note == states[0].meta.note
            },
            SnapAction::Append(turn) => {
                &&& turn.files == found.files
                &&& turn.insertions == found.insertions
                &&& turn.deletions == found.deletions
                &&& turn.tree@ == found.tree
                &&& turn.parent == found.head
            },
            SnapAction::DiffStat { from, to } => from@ == found.head_tree && to@ == found.tree
                && found.head is Some,
            SnapAction::TreeSize(tree) => tree@ == found.tree && found.head is None,
            SnapAction::TreeOf(commit) => found.head == Some(commit),
            SnapAction::Commit { tree, parent, .. } => tree@ == found.tree && parent == found.head,
            _ => true,
        },
{
    lemma_snap_holds(states, events, actions, found, n);
    lemma_snap_holds(states, events, actions, found, n + 1);
    assert(snap_goes(states[n], events[n], states[n + 1].stage, actions[n]));
    assert(match events[n] {
        SnapEvent::Head(Ok(head)) => head == found.head,
        SnapEvent::Tree(Ok(tree)) => tree@ == found.head_tree,
        _ => true,
    });
}

/// A recording goes through its steps in order, and each asks for the next: the
/// lock, the inspection, the tree, the head, the head's tree where there is a
/// head, the count, the last turn, the commit, the log. Nothing else follows a
/// step that went well, but for a tree that is unchanged.
pub proof fn law_a_recording_goes_step_by_step(
    s: Snap,
    event: SnapEvent,
    t: SnapStage,
    action: SnapAction,
)
    requires
        snap_goes(s, event, t, action),
    ensures
        event matches SnapEvent::Locked(Ok(_)) ==> action is Inspect,
        event matches SnapEvent::Inspected(Ok(h)) ==> (action is WriteTree <==> h@.blockers.len()
            == 0) && (action is WriteTree || (action matches SnapAction::Done(d) && d is Err)),
        event matches SnapEvent::Wrote(Ok(_)) ==> action is Head,
        event matches SnapEvent::Head(Ok(h)) ==> (action is TreeSize <==> h is None) && (
        action is TreeOf <==> h is Some),
        event matches SnapEvent::Tree(Ok(_)) ==> action is DiffStat || action == SnapAction::Done(
            Ok(None),
        ),
        event matches SnapEvent::Counted(Ok(_)) ==> action is LastTurn,
        event matches SnapEvent::Last(Ok(_)) ==> (action matches SnapAction::Commit { message, .. }
            && (t matches SnapStage::Committing { turn } && message@ == turn@.subject())),
        event matches SnapEvent::Committed(Ok(made)) ==> (action matches SnapAction::Append(turn)
            && turn.commit == made.commit && turn.at == made.at),
        event matches SnapEvent::Appended(Ok(_)) ==> (action matches SnapAction::Done(d) && (
        d matches Ok(o) && o is Some)),
{
}

/// What stops a recording is handed on in its own words: the lock that is held,
/// the failure of a step as it is, and the first thing in the way.
pub proof fn law_what_stops_a_recording_is_told(
    s: Snap,
    event: SnapEvent,
    t: SnapStage,
    action: SnapAction,
)
    requires
        snap_goes(s, event, t, action),
    ensures
        action is Done <==> t is Over,
        event matches SnapEvent::Locked(Err(f)) ==> action == SnapAction::Done(Err(f)),
        (match event {
            SnapEvent::Inspected(Err(e)) => Some(e@),
            SnapEvent::Wrote(Err(e)) => Some(e@),
            SnapEvent::Head(Err(e)) => Some(e@),
            SnapEvent::Tree(Err(e)) => Some(e@),
            SnapEvent::Counted(Err(e)) => Some(e@),
            SnapEvent::Last(Err(e)) => Some(e@),
            SnapEvent::Committed(Err(e)) => Some(e@),
            SnapEvent::Appended(Err(e)) => Some(e@),
            _ => None,
        }) matches Some(why) ==> (action matches SnapAction::Done(Err(Failure::Other(e))) && e@
            == why),
        event matches SnapEvent::Inspected(Ok(h)) ==> (h@.blockers.len() > 0 ==> (
        action matches SnapAction::Done(Err(Failure::Other(e))) && h@.blockers[0].text().is_suffix_of(
            e@,
        ))),
{
    if let SnapEvent::Inspected(Ok(h)) = event {
        if h@.blockers.len() > 0 {
            let tail = h@.blockers[0].text();
            let e = "refusing to continue: "@ + tail;
            assert(e.subrange(e.len() - tail.len(), e.len() as int) =~= tail);
        }
    }
}

} // verus!
