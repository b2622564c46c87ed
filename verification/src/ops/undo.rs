//! A restore and the way back, from the files before to the files after.
//!
//! What git says is taken at its word here: that a comparison tells how two
//! trees differ, that a snapshot holds the files that were there, and that a
//! plan that was carried out did what it says.
use crate::shadow::landing::{
    after, law_a_restore_lands_on_its_target, law_an_empty_plan_means_the_same_files,
    planned_from, tells, Files,
};
use crate::shadow::plan::RestoreModel;
use crate::store::{numbered, turn_with, Turn, TurnModel};
use crate::strings::{dec, law_decimal_round_trip, without_hash};
use super::planning::{
    law_a_number_leads_to_its_turn, law_a_turn_is_named_with_or_without_a_hash, planning_run,
    reads, target_of, Planned, Planning, PlanningAction, PlanningEvent, TargetModel,
};
use super::restore::{
    restore_goes, restore_run, Restore, RestoreAction, RestoreEvent, RestoreStage,
};
use super::{Failure, Restored};
use vstd::prelude::*;

verus! {

/// What git has stored: the files of each tree, and the tree of each commit.
pub struct Objects {
    pub trees: Map<Seq<char>, Files>,
    pub commits: Map<Seq<char>, Seq<char>>,
}

impl Objects {
    /// The files of a commit.
    pub open spec fn files_of(self, commit: Seq<char>) -> Files {
        self.trees[self.commits[commit]]
    }

    /// Whether a turn holds these files.
    pub open spec fn holds(self, turn: Turn, files: Files) -> bool {
        self.trees[turn.tree@] == files && self.commits[turn.commit@] == turn.tree@
    }

    /// Whether a plan is made of a comparison that tells how the tree it leads
    /// to differs from these files.
    pub open spec fn plans(self, plan: RestoreModel, files: Files) -> bool {
        exists|records: Seq<Seq<char>>| #[trigger]
            tells(records, files, self.trees[plan.target_tree]) && planned_from(plan, records)
    }
}

/// Whether an answer is true of the files before and after the step. A step
/// that only looks leaves the files as they are, and so does one that records
/// them, which it always does when asked for a turn, changed or not. A plan that
/// was carried out leaves what it says; one that broke off may leave anything.
pub open spec fn is_true(
    o: Objects,
    asked: Option<RestoreAction>,
    event: RestoreEvent,
    before: Files,
    after_it: Files,
) -> bool {
    match event {
        RestoreEvent::Locked(_) => after_it == before,
        RestoreEvent::Planned(Ok((commit, plan))) => {
            &&& after_it == before
            &&& plan@.target_tree == o.commits[commit@]
            &&& o.plans(plan@, before)
        },
        RestoreEvent::Planned(Err(_)) => after_it == before,
        RestoreEvent::Snapped(Ok(recorded)) => {
            &&& after_it == before
            &&& recorded matches Some(turn)
            &&& o.holds(turn, before)
        },
        RestoreEvent::Snapped(Err(_)) => after_it == before,
        RestoreEvent::Replanned(Ok(plan)) => {
            &&& after_it == before
            &&& asked matches Some(RestoreAction::PlanTo(tree)) ==> plan@.target_tree == tree@
            &&& o.plans(plan@, before)
        },
        RestoreEvent::Replanned(Err(_)) => after_it == before,
        RestoreEvent::Applied(Ok(_)) => asked matches Some(RestoreAction::Apply(plan)) ==> after_it
            == after(before, plan@, o.trees[plan@.target_tree]),
        RestoreEvent::Applied(Err(_)) => true,
    }
}

/// What was asked for before step `i`.
pub open spec fn asked_before(actions: Seq<RestoreAction>, i: int) -> Option<RestoreAction> {
    if i > 0 {
        Some(actions[i - 1])
    } else {
        None
    }
}

/// A run of a restore whose answers are all true of the files as they were
/// before and after each step.
pub open spec fn true_run(
    o: Objects,
    states: Seq<Restore>,
    events: Seq<RestoreEvent>,
    actions: Seq<RestoreAction>,
    files: Seq<Files>,
) -> bool {
    &&& restore_run(states, events, actions)
    &&& files.len() == states.len()
    &&& forall|i: int|
        0 <= i < events.len() ==> is_true(
            o,
            asked_before(actions, i),
            #[trigger] events[i],
            files[i],
            files[i + 1],
        )
}

/// Whether a checkpoint was taken that holds these files.
pub open spec fn kept_in(o: Objects, checkpoint: Option<Turn>, files: Files) -> bool {
    checkpoint matches Some(turn) && o.holds(turn, files)
}

/// What is true of the files at each stage.
pub open spec fn stands(
    o: Objects,
    stage: RestoreStage,
    asked: Option<RestoreAction>,
    first: Files,
    files: Files,
) -> bool {
    match stage {
        RestoreStage::Locking => files == first,
        RestoreStage::Planning => files == first,
        RestoreStage::Checkpointing { plan, commit } => {
            &&& files == first
            &&& plan@.target_tree == o.commits[commit@]
            &&& o.plans(plan@, first)
            &&& !plan@.noop()
        },
        RestoreStage::Applying { plan, commit, checkpoint } => {
            &&& files == first
            &&& plan@.target_tree == o.commits[commit@]
            &&& o.plans(plan@, first)
            &&& !plan@.noop()
            &&& kept_in(o, checkpoint, first)
            &&& asked matches Some(RestoreAction::Apply(p))
            &&& p@ == plan@
        },
        RestoreStage::Replanning { checkpoint, .. } => {
            &&& o.holds(checkpoint, first)
            &&& asked matches Some(RestoreAction::PlanTo(tree))
            &&& tree@ == checkpoint.tree@
        },
        RestoreStage::Reapplying { checkpoint, .. } => {
            &&& o.holds(checkpoint, first)
            &&& asked matches Some(RestoreAction::Apply(p))
            &&& p@.target_tree == checkpoint.tree@
            &&& o.plans(p@, files)
        },
        RestoreStage::Recording { plan, commit, checkpoint } => {
            &&& files == o.files_of(commit@)
            &&& !plan@.noop()
            &&& kept_in(o, checkpoint, first)
        },
        RestoreStage::Over => true,
    }
}

proof fn lemma_lands(o: Objects, plan: RestoreModel, files: Files)
    requires
        o.plans(plan, files),
    ensures
        after(files, plan, o.trees[plan.target_tree]) == o.trees[plan.target_tree],
        plan.noop() <==> files == o.trees[plan.target_tree],
{
    let target = o.trees[plan.target_tree];
    let records = choose|records: Seq<Seq<char>>| #[trigger]
        tells(records, files, target) && planned_from(plan, records);
    law_a_restore_lands_on_its_target(records, plan, files, target);
    law_an_empty_plan_means_the_same_files(records, plan, files, target);
}

proof fn lemma_stands(
    o: Objects,
    states: Seq<Restore>,
    events: Seq<RestoreEvent>,
    actions: Seq<RestoreAction>,
    files: Seq<Files>,
    n: int,
)
    requires
        true_run(o, states, events, actions, files),
        0 <= n < states.len(),
    ensures
        stands(o, states[n].stage, asked_before(actions, n), files[0], files[n]),
    decreases n,
{
    if n > 0 {
        let i = n - 1;
        lemma_stands(o, states, events, actions, files, i);
        assert(restore_goes(states[i], events[i], states[i + 1].stage, actions[i]));
        assert(is_true(o, asked_before(actions, i), events[i], files[i], files[i + 1]));
        match states[i].stage {
            RestoreStage::Applying { plan, .. } => {
                lemma_lands(o, plan@, files[0]);
            },
            _ => {},
        }
    }
}

/// A restore that is reported as done leaves exactly the files of its target.
/// It has a checkpoint if and only if it had anything to change, and the
/// checkpoint holds exactly the files that were there before.
pub proof fn law_a_restore_that_is_done_left_the_target(
    o: Objects,
    states: Seq<Restore>,
    events: Seq<RestoreEvent>,
    actions: Seq<RestoreAction>,
    files: Seq<Files>,
    n: int,
    done: Restored,
)
    requires
        true_run(o, states, events, actions, files),
        0 <= n < actions.len(),
        actions[n] == RestoreAction::Done(Ok(done)),
    ensures
        files[n + 1] == o.files_of(done.commit@),
        done.checkpoint is Some <==> files[0] != o.files_of(done.commit@),
        done.checkpoint is Some <==> !done.plan@.noop(),
        done.checkpoint matches Some(turn) ==> o.holds(turn, files[0]),
{
    lemma_stands(o, states, events, actions, files, n);
    assert(restore_goes(states[n], events[n], states[n + 1].stage, actions[n]));
    assert(is_true(o, asked_before(actions, n), events[n], files[n], files[n + 1]));
    match events[n] {
        RestoreEvent::Planned(Ok((commit, plan))) => {
            lemma_lands(o, plan@, files[n]);
        },
        _ => {
            lemma_recorded(o, states, events, actions, files, n);
        },
    }
}

/// A restore is recorded as landed only where its target was not there before.
proof fn lemma_recorded(
    o: Objects,
    states: Seq<Restore>,
    events: Seq<RestoreEvent>,
    actions: Seq<RestoreAction>,
    files: Seq<Files>,
    n: int,
)
    requires
        true_run(o, states, events, actions, files),
        0 < n < states.len(),
        states[n].stage is Recording,
    ensures
        states[n].stage matches RestoreStage::Recording { commit, .. } && files[0] != o.files_of(
            commit@,
        ),
{
    let i = n - 1;
    lemma_stands(o, states, events, actions, files, i);
    assert(restore_goes(states[i], events[i], states[i + 1].stage, actions[i]));
    match states[i].stage {
        RestoreStage::Applying { plan, .. } => {
            lemma_lands(o, plan@, files[0]);
        },
        _ => {},
    }
}

/// A restore can be undone: restoring the checkpoint that it took brings back
/// exactly the files that were there before it, whatever they were.
pub proof fn law_a_restore_is_undone_by_its_checkpoint(
    o: Objects,
    states: Seq<Restore>,
    events: Seq<RestoreEvent>,
    actions: Seq<RestoreAction>,
    files: Seq<Files>,
    n: int,
    done: Restored,
    turn: Turn,
    back_states: Seq<Restore>,
    back_events: Seq<RestoreEvent>,
    back_actions: Seq<RestoreAction>,
    back_files: Seq<Files>,
    m: int,
    back: Restored,
)
    requires
        true_run(o, states, events, actions, files),
        0 <= n < actions.len(),
        actions[n] == RestoreAction::Done(Ok(done)),
        done.checkpoint == Some(turn),
        true_run(o, back_states, back_events, back_actions, back_files),
        0 <= m < back_actions.len(),
        back_actions[m] == RestoreAction::Done(Ok(back)),
        back.commit@ == turn.commit@,
    ensures
        back_files[m + 1] == files[0],
{
    law_a_restore_that_is_done_left_the_target(o, states, events, actions, files, n, done);
    law_a_restore_that_is_done_left_the_target(
        o,
        back_states,
        back_events,
        back_actions,
        back_files,
        m,
        back,
    );
}

/// A restore that failed and is reported as recovered left the files as they
/// were before it.
pub proof fn law_a_recovered_restore_left_everything_as_it_was(
    o: Objects,
    states: Seq<Restore>,
    events: Seq<RestoreEvent>,
    actions: Seq<RestoreAction>,
    files: Seq<Files>,
    n: int,
)
    requires
        true_run(o, states, events, actions, files),
        0 <= n < actions.len(),
        actions[n] matches RestoreAction::Done(Err(Failure::Restore(f))) && f.recovered,
    ensures
        files[n + 1] == files[0],
{
    lemma_stands(o, states, events, actions, files, n);
    assert(restore_goes(states[n], events[n], states[n + 1].stage, actions[n]));
    assert(is_true(o, asked_before(actions, n), events[n], files[n], files[n + 1]));
    match asked_before(actions, n) {
        Some(RestoreAction::Apply(p)) => {
            if states[n].stage is Reapplying {
                lemma_lands(o, p@, files[n]);
            }
        },
        _ => {},
    }
}

proof fn lemma_found(turns: Seq<TurnModel>, k: int)
    requires
        numbered(turns),
        0 <= k < turns.len(),
    ensures
        turn_with(turns, turns[k].seq) == Some(turns[k]),
    decreases turns.len(),
{
    if k > 0 {
        let rest = turns.drop_first();
        assert(turns[0].seq < turns[k].seq);
        assert forall|i: int, j: int| 0 <= i < j < rest.len() implies (#[trigger] rest[i]).seq < (
        #[trigger] rest[j]).seq by {
            assert(rest[i] == turns[i + 1]);
            assert(rest[j] == turns[j + 1]);
        }
        assert(rest[k - 1] == turns[k]);
        lemma_found(rest, k - 1);
    }
}

/// A turn that stands in the log is what its number leads to, with or without a
/// `#` in front.
pub proof fn law_a_turn_in_the_log_is_found_by_its_number(log: Seq<TurnModel>, k: int)
    requires
        numbered(log),
        0 <= k < log.len(),
    ensures
        turn_with(log, log[k].seq) == Some(log[k]),
        target_of(dec(log[k].seq as nat)) == TargetModel::Turn(log[k].seq),
        target_of(seq!['#'] + dec(log[k].seq as nat)) == TargetModel::Turn(log[k].seq),
{
    let digits = dec(log[k].seq as nat);
    law_decimal_round_trip(log[k].seq as nat, u64::MAX as nat);
    assert(without_hash(digits) =~= digits);
    law_a_turn_is_named_with_or_without_a_hash(digits);
    lemma_found(log, k);
}

/// Whether every plan that a restore is given is this one.
pub open spec fn given(events: Seq<RestoreEvent>, planned: Planned) -> bool {
    forall|i: int|
        0 <= i < events.len() ==> match #[trigger] events[i] {
            RestoreEvent::Planned(Ok((commit, plan))) => commit == planned.commit && plan
                == planned.plan,
            _ => true,
        }
}

/// Whether no answer is a failure.
pub open spec fn unhindered(events: Seq<RestoreEvent>) -> bool {
    forall|i: int|
        0 <= i < events.len() ==> match #[trigger] events[i] {
            RestoreEvent::Locked(r) => r is Ok,
            RestoreEvent::Planned(r) => r is Ok,
            RestoreEvent::Snapped(r) => r is Ok,
            RestoreEvent::Applied(r) => r is Ok,
            RestoreEvent::Replanned(r) => r is Ok,
        }
}

/// The commit that a stage leads to, and that no failure has led it astray.
pub open spec fn leads_to(stage: RestoreStage, planned: Planned, failed: bool) -> bool {
    match stage {
        RestoreStage::Checkpointing { commit, .. } => commit == planned.commit,
        RestoreStage::Applying { commit, .. } => commit == planned.commit,
        RestoreStage::Recording { commit, .. } => commit == planned.commit,
        RestoreStage::Replanning { .. } => failed,
        RestoreStage::Reapplying { .. } => failed,
        _ => true,
    }
}

proof fn lemma_leads_to(
    states: Seq<Restore>,
    events: Seq<RestoreEvent>,
    actions: Seq<RestoreAction>,
    planned: Planned,
    n: int,
)
    requires
        restore_run(states, events, actions),
        given(events, planned),
        0 <= n < states.len(),
    ensures
        leads_to(states[n].stage, planned, !unhindered(events)),
        states[n].expect_tree == states[0].expect_tree,
    decreases n,
{
    if n > 0 {
        let i = n - 1;
        lemma_leads_to(states, events, actions, planned, i);
        assert(restore_goes(states[i], events[i], states[i + 1].stage, actions[i]));
        assert(states[i + 1].expect_tree == states[i].expect_tree);
        assert(match events[i] {
            RestoreEvent::Planned(Ok((commit, plan))) => commit == planned.commit && plan
                == planned.plan,
            _ => true,
        });
    }
}

/// A restore that is done went to the commit of the plan it was given. One that
/// was tied to no tree, and given no failure as an answer, never fails.
pub proof fn law_a_restore_goes_where_it_was_planned(
    states: Seq<Restore>,
    events: Seq<RestoreEvent>,
    actions: Seq<RestoreAction>,
    planned: Planned,
    n: int,
)
    requires
        restore_run(states, events, actions),
        given(events, planned),
        0 <= n < actions.len(),
    ensures
        actions[n] matches RestoreAction::Done(Ok(done)) ==> done.commit == planned.commit,
        unhindered(events) && states[0].expect_tree is None ==> !(
        actions[n] matches RestoreAction::Done(Err(_))),
{
    lemma_leads_to(states, events, actions, planned, n);
    assert(restore_goes(states[n], events[n], states[n + 1].stage, actions[n]));
    assert(match events[n] {
        RestoreEvent::Planned(Ok((commit, plan))) => commit == planned.commit && plan
            == planned.plan,
        _ => true,
    });
}

/// An undo can be undone by the number it reports: after a restore whose
/// checkpoint is `turn`, a restore to that turn's number, written with or
/// without a `#`, on a timeline that holds the turn, leaves exactly the files
/// that were there before the first restore. It fails only if a step of it
/// does.
pub proof fn law_a_restore_is_undone_by_the_number_of_its_checkpoint(
    o: Objects,
    states: Seq<Restore>,
    events: Seq<RestoreEvent>,
    actions: Seq<RestoreAction>,
    files: Seq<Files>,
    n: int,
    done: Restored,
    turn: Turn,
    log: Seq<TurnModel>,
    k: int,
    plan_states: Seq<Planning>,
    plan_events: Seq<PlanningEvent>,
    plan_actions: Seq<PlanningAction>,
    p: int,
    planned: Planned,
    back_states: Seq<Restore>,
    back_events: Seq<RestoreEvent>,
    back_actions: Seq<RestoreAction>,
    back_files: Seq<Files>,
    m: int,
)
    requires
        true_run(o, states, events, actions, files),
        0 <= n < actions.len(),
        actions[n] == RestoreAction::Done(Ok(done)),
        done.checkpoint == Some(turn),
        numbered(log),
        0 <= k < log.len(),
        log[k] == turn@,
        planning_run(plan_states, plan_events, plan_actions),
        plan_states[0].target@ == dec(turn.seq as nat) || plan_states[0].target@ == seq!['#'] + dec(
            turn.seq as nat,
        ),
        reads(plan_events, log),
        0 <= p < plan_actions.len(),
        plan_actions[p] == PlanningAction::Done(Ok(planned)),
        true_run(o, back_states, back_events, back_actions, back_files),
        given(back_events, planned),
        0 <= m < back_actions.len(),
        back_actions[m] is Done,
    ensures
        back_actions[m] matches RestoreAction::Done(Ok(_)) ==> back_files[m + 1] == files[0],
        unhindered(back_events) && back_states[0].expect_tree is None ==> (
        back_actions[m] matches RestoreAction::Done(Ok(_))),
{
    law_a_turn_in_the_log_is_found_by_its_number(log, k);
    law_a_number_leads_to_its_turn(plan_states, plan_events, plan_actions, log, turn@, p);
    law_a_restore_goes_where_it_was_planned(back_states, back_events, back_actions, planned, m);
    match back_actions[m] {
        RestoreAction::Done(Ok(back)) => {
            law_a_restore_is_undone_by_its_checkpoint(
                o,
                states,
                events,
                actions,
                files,
                n,
                done,
                turn,
                back_states,
                back_events,
                back_actions,
                back_files,
                m,
                back,
            );
        },
        _ => {},
    }
}

} // verus!
