//! Restoring the working tree to a turn, and keeping a way back.
use crate::shadow::plan::RestorePlan;
use crate::store::{Turn, TurnKind};
use crate::strings::{opt_text, owned, same, within};
use super::{short, Failure, RestoreFailed, Restored, StaleTree, USER_WAIT};
use vstd::prelude::*;
use vstd::string::*;

verus! {

/// How far the restore is.
#[derive(Debug)]
#[allow(inconsistent_fields)]
pub enum RestoreStage {
    Locking,
    Planning,
    /// The state that is about to be replaced is being recorded.
    Checkpointing { plan: RestorePlan, commit: String },
    Applying { plan: RestorePlan, commit: String, checkpoint: Option<Turn> },
    /// The restore failed: a plan back to the checkpoint is being made.
    Replanning { cause: String, checkpoint: Turn },
    /// That plan is being carried out.
    Reapplying { cause: String, checkpoint: Turn },
    /// The files are restored: where that landed is being recorded.
    Recording { plan: RestorePlan, commit: String, checkpoint: Option<Turn> },
    Over,
}

/// What came of a step.
#[derive(Debug)]
pub enum RestoreEvent {
    Locked(Result<(), Failure>),
    /// The commit that is the target, and the plan.
    Planned(Result<(String, RestorePlan), String>),
    Snapped(Result<Option<Turn>, String>),
    Applied(Result<(), String>),
    Replanned(Result<RestorePlan, String>),
}

/// What is to be done next.
#[derive(Debug)]
pub enum RestoreAction {
    /// Take the worktree's lock, waiting this many nanoseconds for it.
    Lock(u128),
    /// Plan the restore.
    Plan,
    /// Record the working tree as a turn, changed or not.
    Snap { kind: TurnKind, note: String },
    /// Carry out a plan.
    Apply(RestorePlan),
    /// Plan a restore to a tree.
    PlanTo(String),
    Done(Result<Restored, Failure>),
}

/// One restore.
#[derive(Debug)]
pub struct Restore {
    /// The tree that the plan a person agreed to was made against.
    pub expect_tree: Option<String>,
    pub stage: RestoreStage,
}

/// Which event a stage waits for.
pub open spec fn restore_expects(stage: RestoreStage, event: RestoreEvent) -> bool {
    match stage {
        RestoreStage::Locking => event is Locked,
        RestoreStage::Planning => event is Planned,
        RestoreStage::Checkpointing { .. } => event is Snapped,
        RestoreStage::Applying { .. } => event is Applied,
        RestoreStage::Replanning { .. } => event is Replanned,
        RestoreStage::Reapplying { .. } => event is Applied,
        RestoreStage::Recording { .. } => event is Snapped,
        RestoreStage::Over => false,
    }
}

/// Whether the restore is over, before anything was changed.
pub open spec fn restore_refused(t: RestoreStage, action: RestoreAction, why: Seq<char>) -> bool {
    &&& t is Over
    &&& match action {
        RestoreAction::Done(Err(Failure::Other(e))) => e@ == why,
        _ => false,
    }
}

/// Whether the restore is over, after it had begun.
pub open spec fn restore_broke(
    t: RestoreStage,
    action: RestoreAction,
    recovered: bool,
    checkpoint: Option<u64>,
    cause: Seq<char>,
    recovery_error: Option<Seq<char>>,
) -> bool {
    &&& t is Over
    &&& match action {
        RestoreAction::Done(Err(Failure::Restore(f))) => f.recovered == recovered
            && f.checkpoint_seq == checkpoint && f.cause@ == cause && opt_text(f.recovery_error)
            == recovery_error,
        _ => false,
    }
}

/// Whether the next step records a turn.
pub open spec fn restore_snaps(action: RestoreAction, kind: TurnKind, note: Seq<char>) -> bool {
    match action {
        RestoreAction::Snap { kind: k, note: n } => k == kind && n@ == note,
        _ => false,
    }
}

/// Whether a plan is one that was agreed to.
pub open spec fn agreed(expect_tree: Option<String>, plan: RestorePlan) -> bool {
    match expect_tree {
        Some(tree) => plan.current_tree@ == tree@,
        None => true,
    }
}

/// How a restore goes from one stage to the next.
pub open spec fn restore_goes(
    s: Restore,
    event: RestoreEvent,
    t: RestoreStage,
    action: RestoreAction,
) -> bool {
    match (s.stage, event) {
        (RestoreStage::Locking, RestoreEvent::Locked(Ok(_))) => t is Planning && action is Plan,
        (RestoreStage::Locking, RestoreEvent::Locked(Err(f))) => t is Over && action
            == RestoreAction::Done(Err(f)),
        (RestoreStage::Planning, RestoreEvent::Planned(Err(e))) => restore_refused(t, action, e@),
        (RestoreStage::Planning, RestoreEvent::Planned(Ok((commit, plan)))) => if !agreed(
            s.expect_tree,
            plan,
        ) {
            t is Over && (match action {
                RestoreAction::Done(Err(Failure::Stale(stale))) => opt_text(s.expect_tree) == Some(
                    stale.expected@,
                ) && stale.actual@ == plan.current_tree@ && stale.plan == plan,
                _ => false,
            })
        } else if plan@.noop() {
            t is Over && action == RestoreAction::Done(
                Ok(Restored { plan, commit, checkpoint: None, bookkeeping_error: None }),
            )
        } else {
            t == (RestoreStage::Checkpointing { plan, commit }) && restore_snaps(
                action,
                TurnKind::Checkpoint,
                "before restore to "@ + within(commit@, 12),
            )
        },
        (RestoreStage::Checkpointing { .. }, RestoreEvent::Snapped(Err(e))) => restore_refused(
            t,
            action,
            e@,
        ),
        (
            RestoreStage::Checkpointing { plan, commit },
            RestoreEvent::Snapped(Ok(checkpoint)),
        ) => t == (RestoreStage::Applying { plan, commit, checkpoint }) && (match action {
            RestoreAction::Apply(p) => p@ == plan@,
            _ => false,
        }),
        (
            RestoreStage::Applying { plan, commit, checkpoint },
            RestoreEvent::Applied(Ok(_)),
        ) => t == (RestoreStage::Recording { plan, commit, checkpoint }) && restore_snaps(
            action,
            TurnKind::Manual,
            "restored to "@ + within(commit@, 12),
        ),
        (
            RestoreStage::Applying { plan, commit, checkpoint },
            RestoreEvent::Applied(Err(cause)),
        ) => match checkpoint {
            Some(cp) => t == (RestoreStage::Replanning { cause, checkpoint: cp }) && (match action {
                RestoreAction::PlanTo(tree) => tree@ == cp.tree@,
                _ => false,
            }),
            None => restore_broke(t, action, false, None, cause@, None),
        },
        (
            RestoreStage::Replanning { cause, checkpoint },
            RestoreEvent::Replanned(Err(e)),
        ) => restore_broke(t, action, false, Some(checkpoint.seq), cause@, Some(e@)),
        (
            RestoreStage::Replanning { cause, checkpoint },
            RestoreEvent::Replanned(Ok(back)),
        ) => t == (RestoreStage::Reapplying { cause, checkpoint }) && action
            == RestoreAction::Apply(back),
        (RestoreStage::Reapplying { cause, checkpoint }, RestoreEvent::Applied(Ok(_))) =>
            restore_broke(t, action, true, Some(checkpoint.seq), cause@, None),
        (
            RestoreStage::Reapplying { cause, checkpoint },
            RestoreEvent::Applied(Err(e)),
        ) => restore_broke(t, action, false, Some(checkpoint.seq), cause@, Some(e@)),
        (
            RestoreStage::Recording { plan, commit, checkpoint },
            RestoreEvent::Snapped(outcome),
        ) => t is Over && action == RestoreAction::Done(
            Ok(
                Restored {
                    plan,
                    commit,
                    checkpoint,
                    bookkeeping_error: match outcome {
                        Ok(_) => None,
                        Err(e) => Some(e),
                    },
                },
            ),
        ),
        _ => false,
    }
}

impl Restore {
    /// Start a restore, by taking the lock. Where `expect_tree` is given, the
    /// restore is abandoned if the working tree is no longer that.
    pub fn new(expect_tree: Option<String>) -> (r: (Self, RestoreAction))
        ensures
            r.0.expect_tree == expect_tree,
            r.0.stage is Locking,
            r.1 == RestoreAction::Lock(USER_WAIT),
    {
        (Restore { expect_tree, stage: RestoreStage::Locking }, RestoreAction::Lock(USER_WAIT))
    }

    /// Take note of what came of a step, and say what is to be done next.
    pub fn step(self, event: RestoreEvent) -> (r: (Self, RestoreAction))
        requires
            restore_expects(self.stage, event),
        ensures
            restore_goes(self, event, r.0.stage, r.1),
            r.0.expect_tree == self.expect_tree,
    {
        let Restore { expect_tree, stage } = self;
        let (next, action): (RestoreStage, RestoreAction) = match stage {
            RestoreStage::Locking => match event {
                RestoreEvent::Locked(Ok(_)) => (RestoreStage::Planning, RestoreAction::Plan),
                RestoreEvent::Locked(Err(f)) => (RestoreStage::Over, RestoreAction::Done(Err(f))),
                _ => (RestoreStage::Over, RestoreAction::Plan),
            },
            RestoreStage::Planning => match event {
                RestoreEvent::Planned(Ok((commit, plan))) => planned(&expect_tree, commit, plan),
                RestoreEvent::Planned(Err(e)) => (
                    RestoreStage::Over,
                    RestoreAction::Done(Err(Failure::Other(e))),
                ),
                _ => (RestoreStage::Over, RestoreAction::Plan),
            },
            RestoreStage::Checkpointing { plan, commit } => match event {
                RestoreEvent::Snapped(Ok(checkpoint)) => {
                    let again: RestorePlan = plan.clone();
                    (
                        RestoreStage::Applying { plan, commit, checkpoint },
                        RestoreAction::Apply(again),
                    )
                },
                RestoreEvent::Snapped(Err(e)) => (
                    RestoreStage::Over,
                    RestoreAction::Done(Err(Failure::Other(e))),
                ),
                _ => (RestoreStage::Over, RestoreAction::Plan),
            },
            RestoreStage::Applying { plan, commit, checkpoint } => match event {
                RestoreEvent::Applied(Ok(_)) => {
                    let mut note: String = owned("restored to ");
                    note.append(short(commit.as_str()).as_str());
                    (
                        RestoreStage::Recording { plan, commit, checkpoint },
                        RestoreAction::Snap { kind: TurnKind::Manual, note },
                    )
                },
                RestoreEvent::Applied(Err(cause)) => match checkpoint {
                    Some(cp) => {
                        let tree: String = cp.tree.clone();
                        (
                            RestoreStage::Replanning { cause, checkpoint: cp },
                            RestoreAction::PlanTo(tree),
                        )
                    },
                    None => broke(false, None, cause, None),
                },
                _ => (RestoreStage::Over, RestoreAction::Plan),
            },
            RestoreStage::Replanning { cause, checkpoint } => match event {
                RestoreEvent::Replanned(Ok(back)) => (
                    RestoreStage::Reapplying { cause, checkpoint },
                    RestoreAction::Apply(back),
                ),
                RestoreEvent::Replanned(Err(e)) => broke(
                    false,
                    Some(checkpoint.seq),
                    cause,
                    Some(e),
                ),
                _ => (RestoreStage::Over, RestoreAction::Plan),
            },
            RestoreStage::Reapplying { cause, checkpoint } => match event {
                RestoreEvent::Applied(Ok(_)) => broke(true, Some(checkpoint.seq), cause, None),
                RestoreEvent::Applied(Err(e)) => broke(
                    false,
                    Some(checkpoint.seq),
                    cause,
                    Some(e),
                ),
                _ => (RestoreStage::Over, RestoreAction::Plan),
            },
            RestoreStage::Recording { plan, commit, checkpoint } => match event {
                RestoreEvent::Snapped(outcome) => {
                    let bookkeeping_error: Option<String> = match outcome {
                        Ok(_) => None,
                        Err(e) => Some(e),
                    };
                    (
                        RestoreStage::Over,
                        RestoreAction::Done(
                            Ok(Restored { plan, commit, checkpoint, bookkeeping_error }),
                        ),
                    )
                },
                _ => (RestoreStage::Over, RestoreAction::Plan),
            },
            RestoreStage::Over => (RestoreStage::Over, RestoreAction::Plan),
        };
        (Restore { expect_tree, stage: next }, action)
    }
}

fn broke(
    recovered: bool,
    checkpoint_seq: Option<u64>,
    cause: String,
    recovery_error: Option<String>,
) -> (r: (RestoreStage, RestoreAction))
    ensures
        restore_broke(r.0, r.1, recovered, checkpoint_seq, cause@, opt_text(recovery_error)),
{
    (
        RestoreStage::Over,
        RestoreAction::Done(
            Err(
                Failure::Restore(
                    RestoreFailed { recovered, checkpoint_seq, cause, recovery_error },
                ),
            ),
        ),
    )
}

fn planned(expect_tree: &Option<String>, commit: String, plan: RestorePlan) -> (r: (
    RestoreStage,
    RestoreAction,
))
    ensures
        restore_goes(
            Restore { expect_tree: *expect_tree, stage: RestoreStage::Planning },
            RestoreEvent::Planned(Ok((commit, plan))),
            r.0,
            r.1,
        ),
{
    if let Some(expected) = expect_tree {
        if !same(plan.current_tree.as_str(), expected.as_str()) {
            let actual: String = plan.current_tree.clone();
            return (
                RestoreStage::Over,
                RestoreAction::Done(
                    Err(Failure::Stale(StaleTree { expected: expected.clone(), actual, plan })),
                ),
            );
        }
    }
    if plan.is_noop() {
        return (
            RestoreStage::Over,
            RestoreAction::Done(
                Ok(Restored { plan, commit, checkpoint: None, bookkeeping_error: None }),
            ),
        );
    }
    let mut note: String = owned("before restore to ");
    note.append(short(commit.as_str()).as_str());
    (
        RestoreStage::Checkpointing { plan, commit },
        RestoreAction::Snap { kind: TurnKind::Checkpoint, note },
    )
}

// --------------------------------------------------------------------- laws

/// A run of a restore: stage by stage, from the beginning.
pub open spec fn restore_run(
    states: Seq<Restore>,
    events: Seq<RestoreEvent>,
    actions: Seq<RestoreAction>,
) -> bool {
    &&& states.len() == events.len() + 1
    &&& actions.len() == events.len()
    &&& states[0].stage is Locking
    &&& forall|i: int|
        0 <= i < events.len() ==> #[trigger] restore_goes(
            states[i],
            events[i],
            states[i + 1].stage,
            actions[i],
        )
    &&& forall|i: int|
        0 <= i < events.len() ==> (#[trigger] states[i + 1]).expect_tree == states[i].expect_tree
}

/// Whether an agreed plan that changes something came before step `n`.
pub open spec fn agreed_before(
    expect_tree: Option<String>,
    events: Seq<RestoreEvent>,
    plan: RestorePlan,
    n: int,
) -> bool {
    exists|j: int|
        0 <= j < n && match #[trigger] events[j] {
            RestoreEvent::Planned(Ok((_, p))) => p == plan && agreed(expect_tree, p) && !p@.noop(),
            _ => false,
        }
}

/// Whether a checkpoint was asked for and taken before step `n`.
pub open spec fn checkpointed_before(
    events: Seq<RestoreEvent>,
    actions: Seq<RestoreAction>,
    n: int,
) -> bool {
    exists|j: int|
        0 <= j < n - 1 && match (#[trigger] actions[j], events[j + 1]) {
            (
                RestoreAction::Snap { kind, .. },
                RestoreEvent::Snapped(Ok(_)),
            ) => kind == TurnKind::Checkpoint,
            _ => false,
        }
}

/// Whether anything was written to the working tree before step `n`.
pub open spec fn applied_before(actions: Seq<RestoreAction>, n: int) -> bool {
    exists|j: int| 0 <= j < n && (#[trigger] actions[j]) is Apply
}

/// What every stage of a run rests on.
pub open spec fn restore_rests(
    states: Seq<Restore>,
    events: Seq<RestoreEvent>,
    actions: Seq<RestoreAction>,
    n: int,
) -> bool {
    let expect = states[0].expect_tree;
    &&& states[n].expect_tree == expect
    &&& match states[n].stage {
        RestoreStage::Locking => !applied_before(actions, n),
        RestoreStage::Planning => !applied_before(actions, n),
        RestoreStage::Checkpointing { plan, .. } => !applied_before(actions, n) && agreed_before(
            expect,
            events,
            plan,
            n,
        ) && n > 0 && (match actions[n - 1] {
            RestoreAction::Snap { kind, .. } => kind == TurnKind::Checkpoint,
            _ => false,
        }),
        RestoreStage::Applying { plan, .. } => agreed_before(expect, events, plan, n)
            && checkpointed_before(events, actions, n),
        RestoreStage::Replanning { .. } => checkpointed_before(events, actions, n),
        RestoreStage::Reapplying { .. } => checkpointed_before(events, actions, n),
        RestoreStage::Recording { .. } => checkpointed_before(events, actions, n),
        RestoreStage::Over => true,
    }
}

proof fn lemma_agreed_grows(
    expect: Option<String>,
    events: Seq<RestoreEvent>,
    plan: RestorePlan,
    n: int,
)
    requires
        agreed_before(expect, events, plan, n),
    ensures
        agreed_before(expect, events, plan, n + 1),
{
    let j = choose|j: int|
        0 <= j < n && match #[trigger] events[j] {
            RestoreEvent::Planned(Ok((_, p))) => p == plan && agreed(expect, p) && !p@.noop(),
            _ => false,
        };
    assert(0 <= j < n + 1 && (match events[j] {
        RestoreEvent::Planned(Ok((_, p))) => p == plan && agreed(expect, p) && !p@.noop(),
        _ => false,
    }));
}

proof fn lemma_checkpointed_grows(
    events: Seq<RestoreEvent>,
    actions: Seq<RestoreAction>,
    n: int,
)
    requires
        checkpointed_before(events, actions, n),
    ensures
        checkpointed_before(events, actions, n + 1),
{
    let j = choose|j: int|
        0 <= j < n - 1 && match (#[trigger] actions[j], events[j + 1]) {
            (
                RestoreAction::Snap { kind, .. },
                RestoreEvent::Snapped(Ok(_)),
            ) => kind == TurnKind::Checkpoint,
            _ => false,
        };
    assert(0 <= j < n && (match (actions[j], events[j + 1]) {
        (RestoreAction::Snap { kind, .. }, RestoreEvent::Snapped(Ok(_))) => kind
            == TurnKind::Checkpoint,
        _ => false,
    }));
}

proof fn lemma_restore_rests(
    states: Seq<Restore>,
    events: Seq<RestoreEvent>,
    actions: Seq<RestoreAction>,
    n: int,
)
    requires
        restore_run(states, events, actions),
        0 <= n < states.len(),
    ensures
        restore_rests(states, events, actions, n),
    decreases n,
{
    if n > 0 {
        let i = n - 1;
        lemma_restore_rests(states, events, actions, i);
        assert(restore_goes(states[i], events[i], states[i + 1].stage, actions[i]));
        assert(states[i + 1].expect_tree == states[i].expect_tree);
        let expect = states[0].expect_tree;
        match states[i].stage {
            RestoreStage::Planning => match events[i] {
                RestoreEvent::Planned(Ok((_, p))) => {
                    if agreed(expect, p) && !p@.noop() {
                        assert(agreed_before(expect, events, p, n));
                    }
                },
                _ => {},
            },
            RestoreStage::Checkpointing { plan, .. } => {
                lemma_agreed_grows(expect, events, plan, i);
                if states[n].stage is Applying {
                    assert(match (actions[i - 1], events[i]) {
                        (RestoreAction::Snap { kind, .. }, RestoreEvent::Snapped(Ok(_))) => kind
                            == TurnKind::Checkpoint,
                        _ => false,
                    });
                    let j = i - 1;
                    assert(events[j + 1] == events[i]);
                    assert(checkpointed_before(events, actions, n));
                }
            },
            RestoreStage::Locking => {},
            RestoreStage::Over => {},
            _ => {
                lemma_checkpointed_grows(events, actions, i);
            },
        }
    }
}

/// Nothing of the working tree changes before its state was recorded as a
/// checkpoint, so that undo can be undone.
pub proof fn law_a_checkpoint_comes_before_every_change(
    states: Seq<Restore>,
    events: Seq<RestoreEvent>,
    actions: Seq<RestoreAction>,
    n: int,
)
    requires
        restore_run(states, events, actions),
        0 <= n < actions.len(),
        actions[n] is Apply,
    ensures
        checkpointed_before(events, actions, n + 1),
{
    assert(restore_goes(states[n], events[n], states[n + 1].stage, actions[n]));
    lemma_restore_rests(states, events, actions, n + 1);
}

/// The plan a person agreed to is the plan that is carried out: a plan is
/// carried out only if the tree it was made against is the expected one, and a
/// restore that is told of a moved tree changes nothing.
pub proof fn law_the_plan_that_runs_is_the_plan_that_was_seen(
    states: Seq<Restore>,
    events: Seq<RestoreEvent>,
    actions: Seq<RestoreAction>,
    n: int,
)
    requires
        restore_run(states, events, actions),
        0 <= n < actions.len(),
        match actions[n] {
            RestoreAction::Apply(_) => states[n].stage is Checkpointing,
            RestoreAction::Done(Err(Failure::Stale(_))) => states[n].stage is Planning,
            _ => false,
        },
    ensures
        match actions[n] {
            RestoreAction::Apply(p) => exists|plan: RestorePlan| #[trigger]
                agreed_before(states[0].expect_tree, events, plan, n) && p@ == plan@,
            _ => !applied_before(actions, n),
        },
{
    lemma_restore_rests(states, events, actions, n);
    assert(restore_goes(states[n], events[n], states[n + 1].stage, actions[n]));
    match states[n].stage {
        RestoreStage::Checkpointing { plan, .. } => {
            assert(agreed_before(states[0].expect_tree, events, plan, n));
        },
        _ => {},
    }
}

/// A failure that does not say the restore had begun is reported only while
/// nothing has been changed.
pub proof fn law_a_plain_failure_changed_nothing(
    states: Seq<Restore>,
    events: Seq<RestoreEvent>,
    actions: Seq<RestoreAction>,
    n: int,
)
    requires
        restore_run(states, events, actions),
        0 <= n < actions.len(),
        actions[n] matches RestoreAction::Done(Err(f)) && !(f is Restore),
    ensures
        !applied_before(actions, n),
{
    lemma_restore_rests(states, events, actions, n);
    assert(restore_goes(states[n], events[n], states[n + 1].stage, actions[n]));
}

/// A restore that landed is never reported as a failure: what went wrong with
/// recording it is carried along.
pub proof fn law_bookkeeping_is_not_the_restore(
    s: Restore,
    event: RestoreEvent,
    t: RestoreStage,
    action: RestoreAction,
)
    requires
        s.stage is Recording,
        restore_expects(s.stage, event),
        restore_goes(s, event, t, action),
    ensures
        action matches RestoreAction::Done(Ok(done)) && (done.bookkeeping_error is Some <==> (
        event matches RestoreEvent::Snapped(o) && o is Err)),
{
}

/// A restore that failed after its checkpoint tries the way back to that very
/// checkpoint, and its report names it whether or not that worked.
pub proof fn law_a_failed_restore_names_the_way_back(
    s: Restore,
    event: RestoreEvent,
    t: RestoreStage,
    action: RestoreAction,
    checkpoint: Turn,
)
    requires
        restore_expects(s.stage, event),
        restore_goes(s, event, t, action),
        match s.stage {
            RestoreStage::Applying { checkpoint: c, .. } => c == Some(checkpoint) && (
            event matches RestoreEvent::Applied(r) && r is Err),
            RestoreStage::Replanning { checkpoint: c, .. } => c == checkpoint,
            RestoreStage::Reapplying { checkpoint: c, .. } => c == checkpoint,
            _ => false,
        },
    ensures
        match action {
            RestoreAction::PlanTo(tree) => tree@ == checkpoint.tree@,
            RestoreAction::Apply(_) => true,
            RestoreAction::Done(Err(Failure::Restore(f))) => f.checkpoint_seq == Some(
                checkpoint.seq,
            ) && (f.recovered ==> f.recovery_error is None),
            _ => false,
        },
{
}

/// A restore goes through its steps in order: the lock, the plan, the checkpoint
/// of the state that will be replaced, the write, and a turn for where it landed.
/// A plan against another tree than the one agreed to is stale, and is handed
/// back; a plan that changes nothing is done at once, without a checkpoint.
pub proof fn law_a_restore_goes_step_by_step(
    s: Restore,
    event: RestoreEvent,
    t: RestoreStage,
    action: RestoreAction,
)
    requires
        restore_goes(s, event, t, action),
    ensures
        event matches RestoreEvent::Locked(Ok(_)) ==> action is Plan,
        event matches RestoreEvent::Planned(Ok((commit, plan))) ==> {
            let moved = s.expect_tree matches Some(tree) && tree@ != plan.current_tree@;
            let changes = plan.write@.len() + plan.remove@.len() > 0;
            &&& moved <==> (action matches RestoreAction::Done(Err(Failure::Stale(_))))
            &&& !moved && !changes ==> (action matches RestoreAction::Done(Ok(done))
                && done.checkpoint is None && done.commit == commit && done.plan == plan
                && done.bookkeeping_error is None)
            &&& !moved && changes ==> (action matches RestoreAction::Snap { kind, .. } && kind
                == TurnKind::Checkpoint)
        },
        s.stage is Checkpointing ==> (event matches RestoreEvent::Snapped(Ok(made)) ==> (
        t matches RestoreStage::Applying { plan, commit, checkpoint } && checkpoint == made
            && s.stage == (RestoreStage::Checkpointing { plan, commit }) && (
        action matches RestoreAction::Apply(p) && p@ == plan@))),
        s.stage is Applying ==> (event matches RestoreEvent::Applied(Ok(_)) ==> (
        action matches RestoreAction::Snap { kind, .. } && kind == TurnKind::Manual)),
        s.stage matches RestoreStage::Applying { checkpoint, .. } ==> (
        event matches RestoreEvent::Applied(Err(_)) ==> (checkpoint is Some <==> action is PlanTo)),
        s.stage matches RestoreStage::Recording { plan, commit, checkpoint } ==> (
        action matches RestoreAction::Done(Ok(done)) && done.plan == plan && done.commit == commit
            && done.checkpoint == checkpoint),
        s.stage is Checkpointing ==> (event matches RestoreEvent::Snapped(Err(_)) ==> !(
        action is Apply)),
{
    if let RestoreEvent::Planned(Ok((commit, plan))) = event {
        assert(plan@.write.len() == plan.write@.len());
        assert(plan@.remove.len() == plan.remove@.len());
    }
}

/// The two turns around a restore say which target it was: the one before it that
/// it is about to go there, the one after it that it went there.
pub proof fn law_the_turns_around_a_restore_name_its_target(
    s: Restore,
    event: RestoreEvent,
    t: RestoreStage,
    action: RestoreAction,
)
    requires
        restore_goes(s, event, t, action),
    ensures
        action matches RestoreAction::Snap { kind, note } ==> {
            &&& kind == TurnKind::Checkpoint ==> (event matches RestoreEvent::Planned(Ok((
                commit,
                _,
            ))) && note@ == "before restore to "@ + within(commit@, 12))
            &&& kind == TurnKind::Manual ==> (s.stage matches RestoreStage::Applying { commit, .. }
                && note@ == "restored to "@ + within(commit@, 12))
            &&& kind != TurnKind::Turn
        },
{
}

/// A restore that broke off says whether everything was put back, and it was put
/// back only if the plan to the checkpoint was made and carried out.
pub proof fn law_a_broken_restore_says_whether_it_recovered(
    s: Restore,
    event: RestoreEvent,
    t: RestoreStage,
    action: RestoreAction,
)
    requires
        !(s.stage is Locking),
        restore_goes(s, event, t, action),
        action matches RestoreAction::Done(Err(Failure::Restore(_))),
    ensures
        action matches RestoreAction::Done(Err(Failure::Restore(f))) && (f.recovered <==> (
        s.stage is Reapplying && (event matches RestoreEvent::Applied(r) && r is Ok))) && (
        f.recovery_error is Some <==> (match event {
            RestoreEvent::Replanned(r) => r is Err,
            RestoreEvent::Applied(r) => r is Err && s.stage is Reapplying,
            _ => false,
        })) && (match s.stage {
            RestoreStage::Replanning { cause, checkpoint } => f.cause@ == cause@ && f.checkpoint_seq
                == Some(checkpoint.seq),
            RestoreStage::Reapplying { cause, checkpoint } => f.cause@ == cause@ && f.checkpoint_seq
                == Some(checkpoint.seq),
            RestoreStage::Applying { .. } => f.checkpoint_seq is None && (
            event matches RestoreEvent::Applied(Err(cause)) && f.cause@ == cause@),
            _ => false,
        }),
{
}

/// What stops a restore before it began is handed on as it is, and so is why the
/// turn that records where it landed was not made.
pub proof fn law_what_stops_a_restore_is_told(
    s: Restore,
    event: RestoreEvent,
    t: RestoreStage,
    action: RestoreAction,
)
    requires
        restore_goes(s, event, t, action),
    ensures
        action is Done <==> t is Over,
        event matches RestoreEvent::Locked(Err(f)) ==> action == RestoreAction::Done(Err(f)),
        event matches RestoreEvent::Planned(Err(e)) ==> (action matches RestoreAction::Done(Err(
            Failure::Other(why),
        )) && why@ == e@),
        s.stage is Checkpointing ==> (event matches RestoreEvent::Snapped(Err(e)) ==> (
        action matches RestoreAction::Done(Err(Failure::Other(why))) && why@ == e@)),
        s.stage is Recording ==> (event matches RestoreEvent::Snapped(Err(e)) ==> (
        action matches RestoreAction::Done(Ok(done)) && done.bookkeeping_error == Some(e))),
        s.stage is Recording ==> (event matches RestoreEvent::Snapped(Ok(_)) ==> (
        action matches RestoreAction::Done(Ok(done)) && done.bookkeeping_error is None)),
        event matches RestoreEvent::Replanned(Err(e)) ==> (action matches RestoreAction::Done(Err(
            Failure::Restore(f),
        )) && opt_text(f.recovery_error) == Some(e@)),
        s.stage is Reapplying ==> (event matches RestoreEvent::Applied(Err(e)) ==> (
        action matches RestoreAction::Done(Err(Failure::Restore(f))) && opt_text(f.recovery_error)
            == Some(e@))),
        event matches RestoreEvent::Planned(Ok((_, plan))) ==> (action matches RestoreAction::Done(
            Err(Failure::Stale(stale)),
        ) ==> opt_text(s.expect_tree) == Some(stale.expected@) && stale.actual@
            == plan.current_tree@ && stale.plan == plan),
{
}

} // verus!
