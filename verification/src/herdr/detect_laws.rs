//! What holds of turn detection as a whole.
use crate::herdr::detect::{
    fired, first_seen, first_signals, has_moved, index_of, is_due, lemma_index_of, opened,
    repainted, seen_again, seen_signals, settled_in, strays, without_turn, CandidateModel,
    DetectorModel, PaneModel, SightingModel, SignalModel, Status, Tuning, Verdict, Withdrawn,
};
use vstd::prelude::*;

verus! {

/// A candidate opens if and only if the pane was working, its turn is in
/// flight, it has not moved, and it is now at rest. Then nothing else is
/// announced, and the quiet window closes after `settle`, or after `patience`
/// where that is less. A pane seen for the first time never has one.
pub proof fn law_a_candidate_opens_when_work_comes_to_rest(
    t: Tuning,
    now: u128,
    p: PaneModel,
    s: SightingModel,
)
    requires
        p.wf(),
        s.pane_id == p.id,
    ensures
        ({
            let opens = p.status == Status::Working && p.worked && !strays(p, s)
                && s.status.at_rest();
            let said = seen_signals(t, now, p, s);
            let q = seen_again(t, now, p, s);
            &&& said.contains(SignalModel::Candidate { pane_id: p.id }) <==> opens
            &&& opens ==> said == seq![SignalModel::Candidate { pane_id: p.id }] && q.candidate
                == Some(opened(t, now, settled_in(p, s)))
            &&& opens && now + t.settle <= u128::MAX && now + t.patience <= u128::MAX ==> (
            q.candidate matches Some(c) && c.armed && c.due == now + (if t.settle <= t.patience {
                t.settle
            } else {
                t.patience
            }) && c.deadline == now + t.patience)
            &&& p.candidate is None ==> (q.candidate is Some <==> opens)
            &&& !first_signals(s).contains(SignalModel::Candidate { pane_id: s.pane_id })
            &&& first_seen(s).candidate is None
        }),
{
    let said = seen_signals(t, now, p, s);
    let opens = p.status == Status::Working && p.worked && !strays(p, s) && s.status.at_rest();
    if opens {
        assert(said =~= seq![SignalModel::Candidate { pane_id: p.id }]);
        assert(said[0] == SignalModel::Candidate { pane_id: p.id });
    } else {
        assert forall|i: int| 0 <= i < said.len() implies !(#[trigger] said[i] is Candidate) by {}
    }
}

/// The same of the whole detector: what it says of a sighting holds a candidate
/// if and only if the pane is known, was working with its turn in flight, has
/// not moved, and is now at rest.
pub proof fn law_the_detector_opens_a_candidate_when_work_comes_to_rest(
    d: DetectorModel,
    now: u128,
    s: SightingModel,
)
    requires
        d.wf(),
    ensures
        ({
            let i = index_of(d.panes, s.pane_id);
            let opens = i < d.panes.len() && d.panes[i].status == Status::Working
                && d.panes[i].worked && !strays(d.panes[i], s) && s.status.at_rest();
            &&& d.observe_signals(now, s).contains(SignalModel::Candidate { pane_id: s.pane_id })
                <==> opens
            &&& opens ==> d.observe(now, s).panes[i].candidate is Some
        }),
{
    lemma_index_of(d.panes, s.pane_id);
    let i = index_of(d.panes, s.pane_id);
    if i < d.panes.len() {
        law_a_candidate_opens_when_work_comes_to_rest(d.tuning, now, d.panes[i], s);
    } else {
        let said = first_signals(s);
        assert forall|k: int| 0 <= k < said.len() implies !(#[trigger] said[k] is Candidate) by {}
    }
}

/// A pane that goes back to `working`, is blocked or is lost keeps no
/// candidate, and a candidate it had is taken back aloud.
pub proof fn law_a_false_done_is_withdrawn(t: Tuning, now: u128, p: PaneModel, s: SightingModel)
    requires
        p.wf(),
        !s.status.at_rest(),
    ensures
        seen_again(t, now, p, s).candidate is None,
        p.candidate is Some ==> seen_signals(t, now, p, s).len() > 0 && (seen_signals(
            t,
            now,
            p,
            s,
        )[0] matches SignalModel::Withdrawn { pane_id, .. } && pane_id == p.id),
{
}

/// A pane after a series of looks at it, each with the time it was taken.
pub open spec fn after_looks(t: Tuning, p: PaneModel, looks: Seq<(u128, SightingModel)>) -> PaneModel
    decreases looks.len(),
{
    if looks.len() == 0 {
        p
    } else {
        let (now, s) = looks.last();
        seen_again(t, now, after_looks(t, p, looks.drop_last()), s)
    }
}

/// A pane with nothing pending and no turn in flight, or one that is not
/// working, announces nothing and never has anything due, however often it is
/// seen, until it is seen `working`.
pub proof fn law_rest_alone_is_never_a_turn(
    t: Tuning,
    p: PaneModel,
    looks: Seq<(u128, SightingModel)>,
    later: u128,
)
    requires
        p.candidate is None,
        !p.worked || p.status != Status::Working,
        forall|i: int|
            0 <= i < looks.len() ==> (#[trigger] looks[i]).1.status != Status::Working,
    ensures
        after_looks(t, p, looks).candidate is None,
        !is_due(after_looks(t, p, looks), later),
        looks.len() > 0 ==> seen_signals(
            t,
            looks.last().0,
            after_looks(t, p, looks.drop_last()),
            looks.last().1,
        ) == Seq::<SignalModel>::empty(),
    decreases looks.len(),
{
    lemma_rest(t, p, looks);
    if looks.len() > 0 {
        lemma_rest(t, p, looks.drop_last());
        assert(looks[looks.len() - 1] == looks.last());
        let (now, s) = looks.last();
        assert(seen_signals(t, now, after_looks(t, p, looks.drop_last()), s) =~= Seq::<
            SignalModel,
        >::empty());
    }
}

proof fn lemma_rest(t: Tuning, p: PaneModel, looks: Seq<(u128, SightingModel)>)
    requires
        p.candidate is None,
        !p.worked || p.status != Status::Working,
        forall|i: int|
            0 <= i < looks.len() ==> (#[trigger] looks[i]).1.status != Status::Working,
    ensures
        after_looks(t, p, looks).candidate is None,
        !after_looks(t, p, looks).worked || after_looks(t, p, looks).status != Status::Working,
    decreases looks.len(),
{
    if looks.len() > 0 {
        assert(looks[looks.len() - 1] == looks.last());
        assert forall|i: int| 0 <= i < looks.drop_last().len() implies (
        #[trigger] looks.drop_last()[i]).1.status != Status::Working by {
            assert(looks.drop_last()[i] == looks[i]);
        }
        lemma_rest(t, p, looks.drop_last());
    }
}

/// Once a boundary is dealt with or dropped, the pane has no candidate and no
/// turn in flight, so that only new work can produce another.
pub proof fn law_an_answered_boundary_is_over(
    d: DetectorModel,
    now: u128,
    id: Seq<char>,
    verdict: Verdict,
)
    requires
        d.wf(),
        verdict != Verdict::Wait,
        index_of(d.panes, id) < d.panes.len(),
    ensures
        ({
            let p = d.resolve(now, id, verdict).panes[index_of(d.panes, id)];
            p.candidate is None && !p.worked && p.id == id
        }),
{
    lemma_index_of(d.panes, id);
}

/// A boundary that was reported is not reported again, whatever the time,
/// until the recorder has answered.
pub proof fn law_a_boundary_fires_once(d: DetectorModel, now: u128, later: u128, i: int)
    requires
        0 <= i < d.panes.len(),
        is_due(d.panes[i], now),
    ensures
        !is_due(d.tick(now).panes[i], later),
{
}

/// No step moves a candidate's deadline, and a window never outlasts it.
pub proof fn law_patience_is_a_ceiling(
    d: DetectorModel,
    now: u128,
    p: PaneModel,
    s: SightingModel,
    verdict: Verdict,
)
    requires
        p.wf(),
        p.candidate is Some,
        d.in_time(now),
    ensures
        seen_again(d.tuning, now, p, s).candidate matches Some(c) ==> c.deadline
            == p.candidate->0.deadline && c.due <= c.deadline,
        fired(p, now).candidate matches Some(c) ==> c.deadline == p.candidate->0.deadline,
        d.resolved(now, p, verdict).candidate matches Some(c) ==> c.deadline
            == p.candidate->0.deadline && c.due <= c.deadline && now < c.deadline,
{
}

/// Asking to wait once patience has run out ends the boundary.
pub proof fn law_waiting_past_patience_gives_up(d: DetectorModel, now: u128, id: Seq<char>)
    requires
        d.wf(),
        index_of(d.panes, id) < d.panes.len(),
        d.panes[index_of(d.panes, id)].candidate is Some,
        now >= d.panes[index_of(d.panes, id)].candidate->0.deadline,
    ensures
        d.resolve_signals(now, id, Verdict::Wait) == seq![
            SignalModel::Withdrawn { pane_id: id, why: Withdrawn::Uncorroborated },
        ],
        d.resolve(now, id, Verdict::Wait).panes[index_of(d.panes, id)] == without_turn(
            d.panes[index_of(d.panes, id)],
        ),
{
    lemma_index_of(d.panes, id);
}

/// From the moment a window opens, or restarts because the pane painted, the
/// boundary is not reported for a whole `settle`, unless patience ends first.
pub proof fn law_a_boundary_waits_for_quiet(
    t: Tuning,
    now: u128,
    p: PaneModel,
    c: CandidateModel,
    later: u128,
)
    requires
        now + t.settle <= u128::MAX,
        now + t.patience <= u128::MAX,
        later < now + t.settle,
        now < c.deadline,
        later < c.deadline,
        later < now + t.patience,
    ensures
        !is_due(PaneModel { candidate: Some(opened(t, now, p)), ..p }, later),
        !is_due(PaneModel { candidate: Some(repainted(t, now, c)), ..p }, later),
{
}

/// While one turn stays in flight its directory stays what it was when the
/// turn started, and what is reported at its end is that directory.
pub proof fn law_a_turn_keeps_its_directory(t: Tuning, now: u128, p: PaneModel, s: SightingModel)
    requires
        p.wf(),
        p.worked,
        p.origin is Some,
        !strays(p, s),
    ensures
        seen_again(t, now, p, s).worked ==> seen_again(t, now, p, s).origin == p.origin,
        seen_again(t, now, p, s).candidate matches Some(c) ==> c.cwd == p.origin,
{
}

/// A pane that leaves the directory its turn started in has nothing to report
/// of it, then or later, unless it starts to work anew.
pub proof fn law_a_moved_pane_abandons_its_turn(t: Tuning, now: u128, p: PaneModel, s: SightingModel)
    requires
        p.wf(),
        p.worked,
        has_moved(p.origin, s.cwd),
    ensures
        seen_again(t, now, p, s).candidate is None,
        p.status == Status::Working || s.status != Status::Working ==> !seen_again(
            t,
            now,
            p,
            s,
        ).worked,
        p.candidate is Some ==> seen_signals(t, now, p, s)[0] == (SignalModel::Withdrawn {
            pane_id: p.id,
            why: Withdrawn::MovedDirectory,
        }),
{
    assert(strays(p, s));
}

/// A sighting that carries no directory is never a move.
pub proof fn law_silence_is_not_a_move(p: PaneModel, s: SightingModel)
    requires
        p.wf(),
        s.cwd is None,
    ensures
        !strays(p, s),
        settled_in(p, s).worked == p.worked,
        settled_in(p, s).candidate == p.candidate,
{
}

/// Whatever happens to one pane leaves every other pane as it was.
pub proof fn law_panes_do_not_affect_each_other(
    d: DetectorModel,
    now: u128,
    s: SightingModel,
    id: Seq<char>,
    verdict: Verdict,
    j: int,
)
    requires
        d.wf(),
        0 <= j < d.panes.len(),
    ensures
        d.panes[j].id != s.pane_id ==> d.observe(now, s).panes[j] == d.panes[j],
        d.panes[j].id != id ==> d.resolve(now, id, verdict).panes[j] == d.panes[j],
        d.panes[j].id != id ==> d.forget(id).panes.contains(d.panes[j]),
{
    lemma_index_of(d.panes, s.pane_id);
    lemma_index_of(d.panes, id);
    let i = index_of(d.panes, id);
    if d.panes[j].id != id {
        if i < d.panes.len() {
            let k = if j < i {
                j
            } else {
                j - 1
            };
            assert(d.forget(id).panes[k] == d.panes[j]);
        } else {
            assert(d.forget(id).panes[j] == d.panes[j]);
        }
    }
}

} // verus!
