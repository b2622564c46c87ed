//! The numbers of a timeline's turns, over everything that is ever done to it.
use crate::store::{numbered, turns_view, Turn, TurnModel};
use crate::strings::texts;
use super::collect::{
    collect_expects, collect_goes, kept_of, law_kept_turns_keep_their_order,
    law_numbering_continues, law_the_newest_turn_is_kept, picks, relinked, Collect, CollectAction, CollectEvent,
    CollectStage, Retention,
};
use super::snap::{seq_after, snap_goes, snap_run, Snap, SnapAction, SnapEvent};
use vstd::prelude::*;

verus! {

/// One change of a timeline's log.
pub enum Change {
    /// A turn is recorded.
    Append(TurnModel),
    /// The timeline is shortened, and the kept turns get these commits.
    Collect { policy: Retention, now: u64, commits: Seq<Seq<char>> },
}

/// The log after one change.
pub open spec fn changed(log: Seq<TurnModel>, change: Change) -> Seq<TurnModel> {
    match change {
        Change::Append(turn) => log.push(turn),
        Change::Collect { policy, now, commits } => relinked(
            kept_of(policy, now, log, log.len()),
            commits,
        ),
    }
}

/// The log after a series of changes, from when it was empty.
pub open spec fn log_after(changes: Seq<Change>) -> Seq<TurnModel>
    decreases changes.len(),
{
    if changes.len() == 0 {
        Seq::empty()
    } else {
        changed(log_after(changes.drop_last()), changes.last())
    }
}

/// The number the next turn of a log gets.
pub open spec fn next_number(log: Seq<TurnModel>) -> int {
    if log.len() == 0 {
        1
    } else {
        log.last().seq + 1
    }
}

/// Whether a change is one that is made of this log: a turn is recorded under
/// the next number, and every kept turn gets a commit.
pub open spec fn fits(log: Seq<TurnModel>, change: Change) -> bool {
    match change {
        Change::Append(turn) => turn.seq == next_number(log),
        Change::Collect { policy, now, commits } => commits.len() == kept_of(
            policy,
            now,
            log,
            log.len(),
        ).len(),
    }
}

/// Whether these changes can be the history of a timeline.
pub open spec fn is_history(changes: Seq<Change>) -> bool
    decreases changes.len(),
{
    changes.len() > 0 ==> is_history(changes.drop_last()) && fits(
        log_after(changes.drop_last()),
        changes.last(),
    )
}

/// Every number that was ever given to a turn, in the order they were given.
pub open spec fn given(changes: Seq<Change>) -> Seq<u64>
    decreases changes.len(),
{
    if changes.len() == 0 {
        Seq::empty()
    } else {
        let before = given(changes.drop_last());
        match changes.last() {
            Change::Append(turn) => before.push(turn.seq),
            Change::Collect { .. } => before,
        }
    }
}

/// A collection does not change the number that the next turn gets.
pub proof fn law_a_collection_keeps_the_next_number(log: Seq<TurnModel>, change: Change)
    requires
        change is Collect,
        fits(log, change),
    ensures
        next_number(changed(log, change)) == next_number(log),
{
    match change {
        Change::Collect { policy, now, commits } => {
            if log.len() > 0 {
                law_the_newest_turn_is_kept(policy, now, log);
                law_numbering_continues(policy, now, log, commits);
            }
        },
        _ => {},
    }
}

proof fn lemma_changed_numbered(log: Seq<TurnModel>, change: Change)
    requires
        numbered(log),
        fits(log, change),
    ensures
        numbered(changed(log, change)),
{
    let out = changed(log, change);
    match change {
        Change::Append(turn) => {
            assert forall|i: int| 0 <= i < log.len() implies (#[trigger] log[i]).seq < next_number(
                log,
            ) by {
                if i < log.len() - 1 {
                    assert(log[i].seq < log[log.len() - 1].seq);
                }
            }
            assert forall|i: int, j: int| 0 <= i < j < out.len() implies (#[trigger] out[i]).seq < (
            #[trigger] out[j]).seq by {
                assert(out[i] == log[i]);
                if j < log.len() {
                    assert(out[j] == log[j]);
                }
            }
        },
        Change::Collect { policy, now, commits } => {
            let n = log.len();
            let kept = kept_of(policy, now, log, n);
            law_kept_turns_keep_their_order(policy, now, log, n);
            let at = choose|at: Seq<int>| #[trigger]
                picks(at, n) && kept == at.map_values(|i: int| log[i]);
            assert forall|i: int, j: int| 0 <= i < j < out.len() implies (#[trigger] out[i]).seq < (
            #[trigger] out[j]).seq by {
                assert(kept[i] == log[at[i]]);
                assert(kept[j] == log[at[j]]);
                assert(at[i] < at[j]);
            }
        },
    }
}

/// Over the whole history of a timeline, however often it was shortened, turns
/// are numbered from one on without a gap: the next number is past every number
/// that was ever given out, no number is given out twice, and the log is in the
/// order of its numbers.
pub proof fn law_no_number_is_given_out_twice(changes: Seq<Change>)
    requires
        is_history(changes),
    ensures
        next_number(log_after(changes)) == given(changes).len() + 1,
        forall|i: int| 0 <= i < given(changes).len() ==> #[trigger] given(changes)[i] == i + 1,
        forall|i: int|
            0 <= i < given(changes).len() ==> #[trigger] given(changes)[i] < next_number(
                log_after(changes),
            ),
        forall|i: int, j: int|
            0 <= i < j < given(changes).len() ==> #[trigger] given(changes)[i]
                != #[trigger] given(changes)[j],
        numbered(log_after(changes)),
        log_after(changes).len() == 0 ==> given(changes).len() == 0,
    decreases changes.len(),
{
    if changes.len() > 0 {
        let before = changes.drop_last();
        let log = log_after(before);
        law_no_number_is_given_out_twice(before);
        lemma_changed_numbered(log, changes.last());
        match changes.last() {
            Change::Append(_) => {},
            Change::Collect { policy, now, .. } => {
                law_a_collection_keeps_the_next_number(log, changes.last());
                if log.len() > 0 {
                    law_the_newest_turn_is_kept(policy, now, log);
                }
            },
        }
    }
}

/// The turn that a recording appends to the log has the next number of the log
/// whose last turn was read just before, so that it fits that log.
pub proof fn law_a_recording_fits_the_log(
    states: Seq<Snap>,
    events: Seq<SnapEvent>,
    actions: Seq<SnapAction>,
    n: int,
    turn: Turn,
    log: Seq<Turn>,
)
    requires
        snap_run(states, events, actions),
        0 <= n < actions.len(),
        actions[n] == SnapAction::Append(turn),
        forall|last: Option<Turn>| #[trigger]
            events.contains(SnapEvent::Last(Ok(last))) ==> last == (if log.len() == 0 {
                None
            } else {
                Some(log.last())
            }),
    ensures
        fits(turns_view(log), Change::Append(turn@)),
        n > 0,
        events[n - 1] matches SnapEvent::Last(Ok(last)) && turn.seq == seq_after(last),
{
    assert(snap_goes(states[n], events[n], states[n + 1].stage, actions[n]));
    assert(states[n].stage is Committing);
    let m = n - 1;
    assert(snap_goes(states[m], events[m], states[m + 1].stage, actions[m]));
    assert(states[m].stage is Numbering);
    match events[m] {
        SnapEvent::Last(Ok(last)) => {
            assert(events.contains(SnapEvent::Last(Ok(last))));
        },
        _ => {},
    }
}

/// What a collection writes as the new log is the log it read, changed by that
/// collection.
pub proof fn law_a_collection_fits_the_log(
    s: Collect,
    now: u64,
    t: Collect,
    made: Vec<String>,
    u: CollectStage,
    first: CollectAction,
    second: CollectAction,
    log: Vec<Turn>,
)
    requires
        s.stage matches CollectStage::Dating { turns, .. } && turns == log,
        collect_goes(s, CollectEvent::Now(now), t.stage, first),
        t.stage is Rebuilding,
        collect_expects(t.stage, CollectEvent::Rebuilt(Ok(made))),
        collect_goes(t, CollectEvent::Rebuilt(Ok(made)), u, second),
    ensures
        ({
            let change = Change::Collect { policy: s.policy, now, commits: texts(made@) };
            fits(turns_view(log@), change) && (second matches CollectAction::Rewrite(out)
                && turns_view(out@) == changed(turns_view(log@), change))
        }),
{
}

} // verus!
