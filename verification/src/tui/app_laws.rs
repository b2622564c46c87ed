//! What holds of the interface as a whole.
use crate::store::TurnModel;
use crate::tui::app::{
    lemma_position, position, AppModel, Key, Level, Mode, PatchStateModel, PlanStateModel,
};
use crate::tui::engine::{JobModel, ReplyModel};
use vstd::prelude::*;

verus! {

/// A key queues at most one job, and that job is a restore only if the key is
/// `shift+R`, pressed on a plan that is on screen and changes something while
/// nothing is being restored. The job carries the turn and the tree of exactly
/// that plan.
pub proof fn law_a_restore_needs_shift_r_on_a_plan_on_screen(a: AppModel, key: Key)
    ensures
        a.on_key(key).outbox == a.outbox || exists|j: JobModel|
            a.on_key(key).outbox == #[trigger] a.outbox.push(j),
        forall|j: JobModel|
            a.on_key(key).outbox == #[trigger] a.outbox.push(j) && j is Restore ==> {
                &&& key == Key::Char('R')
                &&& a.fatal is None
                &&& a.mode == Mode::Rewind
                &&& !a.restoring
                &&& a.plan matches PlanStateModel::Ready(plan) && plan.files.len() > 0
                    && j->Restore_seq == plan.seq && j->expect_tree == plan.current_tree
                &&& j->pane == a.agent_pane()
                &&& j->notify == a.notify
                &&& a.on_key(key).restoring
            },
{
    let after = a.on_key(key);
    let n = a.outbox.len() as int;
    if after.outbox.len() > n {
        assert(after.outbox =~= a.outbox.push(after.outbox[n]));
    } else {
        assert(after.outbox =~= a.outbox);
    }
    assert forall|j: JobModel|
        after.outbox == #[trigger] a.outbox.push(j) && j is Restore implies {
        &&& key == Key::Char('R')
        &&& a.fatal is None
        &&& a.mode == Mode::Rewind
        &&& !a.restoring
        &&& a.plan matches PlanStateModel::Ready(plan) && plan.files.len() > 0 && j->Restore_seq
            == plan.seq && j->expect_tree == plan.current_tree
        &&& j->pane == a.agent_pane()
        &&& j->notify == a.notify
        &&& a.on_key(key).restoring
    } by {
        assert(after.outbox[n] == j);
    }
}

/// While a restore is running no key queues work or changes what is on screen
/// beneath it; the only thing a key can do is ask to leave.
pub proof fn law_keys_are_ignored_while_restoring(a: AppModel, key: Key)
    requires
        a.restoring,
    ensures
        ({
            let b = a.on_key(key);
            &&& b.restoring
            &&& b.outbox == a.outbox
            &&& b.mode == a.mode
            &&& b.plan == a.plan
            &&& b.plan_sel == a.plan_sel
            &&& b.show_patch == a.show_patch
            &&& b.notify == a.notify
            &&& b.sel == a.sel
            &&& a.fatal is None && (key == Key::Char('q') || key == Key::Char('Q')) ==> b.quit
        }),
{
}

/// No answer from the worker ever starts a restore.
pub proof fn law_replies_never_start_a_restore(a: AppModel, reply: ReplyModel, i: int)
    requires
        a.outbox.len() <= i < a.apply(reply).outbox.len(),
    ensures
        !(a.apply(reply).outbox[i] is Restore),
        a.apply(reply).restoring ==> a.restoring,
{
}

/// A plan nobody asked for does not reach the screen, and neither does a patch.
pub proof fn law_only_the_latest_request_is_answered(a: AppModel, reply: ReplyModel)
    requires
        match reply {
            ReplyModel::Planned { req, .. } => req != a.plan_req,
            ReplyModel::PlanFailed { req, .. } => req != a.plan_req,
            ReplyModel::Patched { req, .. } => req != a.patch_req,
            ReplyModel::PatchFailed { req, .. } => req != a.patch_req,
            ReplyModel::Stale { req, .. } => req != a.restore_req,
            ReplyModel::Restored { req, .. } => req != a.restore_req,
            ReplyModel::RestoreFailed { req, .. } => req != a.restore_req,
            _ => false,
        },
    ensures
        a.apply(reply) == a,
{
}

/// When the tree moved under the plan, nothing is restored: the new plan takes
/// the screen with its first path selected, and a diff that is shown is asked
/// for again, against the trees of the new plan.
pub proof fn law_a_stale_plan_is_shown_again(a: AppModel, reply: ReplyModel)
    requires
        reply matches ReplyModel::Stale { req, .. } && req == a.restore_req,
    ensures
        ({
            let b = a.apply(reply);
            let plan = reply->Stale_plan;
            &&& !b.restoring
            &&& b.plan == PlanStateModel::Ready(plan)
            &&& b.plan_sel == 0
            &&& b.status matches Some(s) && s.level == Level::Bad
            &&& a.show_patch && plan.files.len() > 0 ==> {
                &&& b.patch == PatchStateModel::Loading(plan.files[0].1)
                &&& b.outbox == a.outbox.push(
                    JobModel::Patch {
                        req: b.patch_req,
                        path: plan.files[0].1,
                        current_tree: plan.current_tree,
                        target_tree: plan.target_tree,
                    },
                )
            }
            &&& !(a.show_patch && plan.files.len() > 0) ==> b.outbox == a.outbox
        }),
{
}

/// A tree left between two states is said to be so, offers no key that would
/// write again, and stays marked until a restore has put it right.
pub proof fn law_a_tree_between_two_states_stays_marked(
    a: AppModel,
    reply: ReplyModel,
    key: Key,
    later: ReplyModel,
)
    requires
        reply matches ReplyModel::RestoreFailed { req, tree_moved, .. } && req == a.restore_req
            && tree_moved,
    ensures
        ({
            let b = a.apply(reply);
            &&& b.uncertain == Some(reply->RestoreFailed_message)
            &&& !(b.plan is Ready)
            &&& b.on_key(Key::Char('R')).outbox == b.outbox
            &&& b.on_key(key).uncertain is Some
            &&& !(later is Restored) ==> b.apply(later).uncertain is Some
        }),
{
}

/// Only a restore that succeeded takes the mark away.
pub proof fn law_only_a_restore_clears_the_mark(a: AppModel, reply: ReplyModel, key: Key)
    requires
        a.uncertain is Some,
    ensures
        a.on_key(key).uncertain == a.uncertain,
        a.apply(reply).uncertain is None ==> reply is Restored,
        a.worker_lost().uncertain is Some,
{
}

/// A restore that failed and was undone leaves the plan on screen as it was and
/// nothing uncertain.
pub proof fn law_an_undone_failure_changes_nothing(a: AppModel, reply: ReplyModel)
    requires
        reply matches ReplyModel::RestoreFailed { req, tree_moved, .. } && req == a.restore_req
            && !tree_moved,
    ensures
        ({
            let b = a.apply(reply);
            &&& b.plan == a.plan
            &&& b.uncertain == a.uncertain
            &&& b.outbox == a.outbox
            &&& !b.restoring
        }),
{
}

/// The selection points at a turn whenever there is one, and knows its number.
pub open spec fn on_a_turn(a: AppModel) -> bool {
    if a.turns.len() == 0 {
        a.sel == 0
    } else {
        a.sel < a.turns.len() && a.sel_seq == Some(a.turns[a.sel as int].seq)
    }
}

/// No key and no answer makes the selection point at nothing.
pub proof fn law_the_selection_stays_on_a_turn(a: AppModel, key: Key, reply: ReplyModel)
    requires
        on_a_turn(a),
        a.turns.len() <= usize::MAX,
        reply matches ReplyModel::Loaded { turns, .. } ==> turns.len() <= usize::MAX,
        reply matches ReplyModel::Turns(turns) ==> turns.len() <= usize::MAX,
    ensures
        on_a_turn(a.on_key(key)),
        on_a_turn(a.apply(reply)),
{
    match reply {
        ReplyModel::Loaded { turns, .. } => {
            if let Some(seq) = a.sel_seq {
                lemma_position(turns, seq);
            }
        },
        ReplyModel::Turns(turns) => {
            if let Some(seq) = a.sel_seq {
                lemma_position(turns, seq);
            }
        },
        _ => {},
    }
}

/// New turns do not slide the cursor onto a different turn: the turn that was
/// selected stays selected as long as it is there.
pub proof fn law_the_cursor_follows_the_turn(a: AppModel, turns: Seq<TurnModel>, seq: u64, i: int)
    requires
        a.sel_seq == Some(seq),
        0 <= i < turns.len() <= usize::MAX,
        turns[i].seq == seq,
    ensures
        a.apply(ReplyModel::Turns(turns)).selected() matches Some(t) && t.seq == seq,
{
    lemma_position(turns, seq);
    if position(turns, seq) >= turns.len() {
        assert(turns[i].seq != seq);
    }
}

/// Asking for help and pressing any key but `q` goes back to where it was
/// asked.
pub proof fn law_help_goes_back(a: AppModel, key: Key)
    requires
        a.fatal is None,
        !a.restoring,
        a.mode != Mode::Help,
        key != Key::Char('q'),
    ensures
        a.on_key(Key::Char('?')).mode == Mode::Help,
        a.on_key(Key::Char('?')).on_key(key).mode == a.mode,
        a.on_key(Key::Char('?')).on_key(key).outbox == a.outbox,
{
}

/// Toggling the write-back twice leaves it as it was.
pub proof fn law_notify_toggles(a: AppModel)
    requires
        a.fatal is None,
        !a.restoring,
        a.mode != Mode::Help,
    ensures
        a.on_key(Key::Char('n')).notify == !a.notify,
        a.on_key(Key::Char('n')).on_key(Key::Char('n')).notify == a.notify,
{
}

} // verus!
