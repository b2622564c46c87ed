//! What each look at a pane, each passing of time and each answer does to the
//! turn in it.
use vstd::prelude::*;

use crate::herdr::detect::{
    first_seen, first_signals, fired, index_of, is_due, ripe, ripe_signals, seen_again,
    seen_signals, window_end, CandidateModel, DetectorModel, PaneModel, SightingModel,
    SignalModel, Status, Tuning, Verdict, Withdrawn,
};
use crate::herdr::recorder::{acts, Errand, LineBy, Recorder};
use crate::strings::opt_text;

verus! {

/// A pane is first known as it is first seen. Only one that is at work then is in
/// a turn, which started in the directory it is in, and is told of.
pub proof fn law_a_pane_is_first_known_as_it_is_seen(s: SightingModel)
    ensures
        ({
            let p = first_seen(s);
            &&& p.id == s.pane_id && p.agent == s.agent && p.cwd == s.cwd && p.status == s.status
                && p.revision == s.revision
            &&& p.worked <==> s.status == Status::Working
            &&& s.status == Status::Working ==> p.origin == s.cwd && first_signals(s) == seq![
                SignalModel::Started { pane_id: s.pane_id, agent: s.agent, cwd: s.cwd },
            ]
            &&& s.status != Status::Working ==> p.origin is None && first_signals(s).len() == 0
            &&& p.candidate is None && p.prompt is None && !p.astray
        }),
{
}

/// Each look brings what it says: the status always, the agent and the directory
/// where it knows them, the highest revision. What it does not know is kept.
pub proof fn law_a_look_brings_what_it_says(t: Tuning, now: u128, p: PaneModel, s: SightingModel)
    ensures
        ({
            let q = seen_again(t, now, p, s);
            &&& q.id == p.id
            &&& q.status == s.status
            &&& s.agent is Some ==> q.agent == s.agent
            &&& s.agent is None ==> q.agent == p.agent
            &&& s.cwd is Some ==> q.cwd == s.cwd
            &&& s.cwd is None ==> q.cwd == p.cwd
            &&& q.revision >= s.revision && q.revision >= p.revision && (q.revision == s.revision
                || q.revision == p.revision)
            &&& q.prompt == p.prompt
        }),
{
}

/// Work that begins is told once, with the agent and the directory of the pane
/// at that look; work that goes on is not told again.
pub proof fn law_a_start_is_told_once(t: Tuning, now: u128, p: PaneModel, s: SightingModel)
    requires
        p.wf(),
        s.pane_id == p.id,
    ensures
        ({
            let said = seen_signals(t, now, p, s);
            let q = seen_again(t, now, p, s);
            &&& s.status == Status::Working && p.status != Status::Working ==> said.len() > 0
                && said.last() == (SignalModel::Started {
                pane_id: p.id,
                agent: q.agent,
                cwd: q.cwd,
            }) && q.worked && !q.astray
            &&& !(s.status == Status::Working && p.status != Status::Working) ==> forall|i: int|
                0 <= i < said.len() ==> !((#[trigger] said[i]) is Started)
        }),
{
}

/// A boundary that is taken back says why: the agent went back to work, it waits
/// for the user, it is lost, or the pane is in another directory than the one the
/// turn began in.
pub proof fn law_a_boundary_taken_back_says_why(
    t: Tuning,
    now: u128,
    p: PaneModel,
    s: SightingModel,
)
    requires
        p.wf(),
        p.candidate is Some,
        s.pane_id == p.id,
    ensures
        ({
            let said = seen_signals(t, now, p, s);
            let elsewhere = p.origin is Some && s.cwd is Some && p.origin != s.cwd;
            let why = if elsewhere {
                Some(Withdrawn::MovedDirectory)
            } else {
                match s.status {
                    Status::Working => Some(Withdrawn::StillWorking),
                    Status::Blocked => Some(Withdrawn::Blocked),
                    Status::Unknown => Some(Withdrawn::LostAgent),
                    _ => None,
                }
            };
            &&& why matches Some(w) ==> said.len() > 0 && said[0] == (SignalModel::Withdrawn {
                pane_id: p.id,
                why: w,
            }) && seen_again(t, now, p, s).candidate is None
            &&& why is None ==> seen_again(t, now, p, s).candidate is Some && said.len() == 0
        }),
{
}

/// A pane that leaves the directory its turn began in loses that turn, whatever
/// its status; one that stays, or says nothing of its directory, keeps it until
/// herdr loses the agent.
pub proof fn law_a_turn_is_lost_only_by_moving_or_by_losing_the_agent(
    t: Tuning,
    now: u128,
    p: PaneModel,
    s: SightingModel,
)
    requires
        p.wf(),
        p.worked,
        s.pane_id == p.id,
    ensures
        ({
            let q = seen_again(t, now, p, s);
            let elsewhere = p.origin is Some && s.cwd is Some && p.origin != s.cwd;
            &&& !elsewhere && s.status != Status::Unknown ==> q.worked && (p.origin is Some
                ==> q.origin == p.origin)
            &&& s.status == Status::Unknown ==> !q.worked
            &&& elsewhere && s.status != Status::Working ==> !q.worked && q.astray
            &&& elsewhere && s.status == Status::Working && p.status == Status::Working
                ==> !q.worked && q.astray
        }),
{
}

/// Every repaint of a pane that waits starts the quiet anew, up to the end of
/// patience; past it the wait is only marked as never having been quiet. A look
/// that shows nothing new changes nothing of it.
pub proof fn law_a_repaint_starts_the_quiet_anew(
    t: Tuning,
    now: u128,
    p: PaneModel,
    s: SightingModel,
    c: CandidateModel,
)
    requires
        p.wf(),
        s.pane_id == p.id,
        p.candidate == Some(c),
        s.cwd is None || s.cwd == p.origin,
        s.status == Status::Idle || s.status == Status::Done,
        now + t.settle <= u128::MAX,
    ensures
        ({
            let after = seen_again(t, now, p, s).candidate;
            &&& s.revision <= p.revision ==> after == Some(c)
            &&& s.revision > p.revision && c.armed && now < c.deadline ==> (after matches Some(d)
                && d.due == (if now + t.settle <= c.deadline {
                now + t.settle
            } else {
                c.deadline as int
            }) && d.noisy == c.noisy && d.armed && d.deadline == c.deadline)
            &&& s.revision > p.revision && c.armed && now >= c.deadline ==> (after matches Some(d)
                && d.due == c.due && d.noisy && d.armed)
            &&& !c.armed ==> after == Some(c)
        }),
{
}

/// When the quiet is over, the boundary is reported with the agent and the
/// directory that the turn has, not with those of the pane by then; it was noisy
/// if it never went quiet or patience ran out.
pub proof fn law_a_ripe_boundary_is_reported_as_the_turn_was(
    p: PaneModel,
    now: u128,
    c: CandidateModel,
)
    requires
        p.candidate == Some(c),
    ensures
        is_due(p, now) <==> c.armed && c.due <= now,
        ripe(p, now) matches SignalModel::Ripe { pane_id, agent, cwd, noisy } && pane_id == p.id
            && agent == c.agent && cwd == c.cwd && (noisy <==> c.noisy || now >= c.deadline),
        c.armed ==> window_end(p) == Some(c.due),
        !c.armed ==> window_end(p) is None && fired(p, now) == p,
        c.armed && c.due <= now ==> (fired(p, now).candidate matches Some(d) && !d.armed && d.due
            == c.due && d.agent == c.agent && d.cwd == c.cwd && d.deadline == c.deadline)
            && fired(p, now).worked == p.worked && fired(p, now).id == p.id,
        c.armed && c.due > now ==> fired(p, now) == p,
{
}

/// Passing time reports every boundary whose quiet is over, and no other.
pub proof fn law_every_ripe_boundary_is_reported(panes: Seq<PaneModel>, now: u128, i: int)
    ensures
        0 <= i < panes.len() && (panes[i].candidate matches Some(c) && c.armed && c.due <= now)
            ==> ripe_signals(panes, now).contains(ripe(panes[i], now)),
        forall|k: int|
            0 <= k < ripe_signals(panes, now).len() ==> exists|j: int|
                0 <= j < panes.len() && (#[trigger] panes[j]).candidate is Some
                    && panes[j].candidate->0.armed && panes[j].candidate->0.due <= now
                    && #[trigger] ripe_signals(panes, now)[k] == ripe(panes[j], now),
    decreases panes.len(),
{
    if panes.len() > 0 {
        let rest = panes.drop_last();
        let before = ripe_signals(rest, now);
        let all = ripe_signals(panes, now);
        law_every_ripe_boundary_is_reported(rest, now, i);
        assert(panes.last() == panes[panes.len() - 1]);
        if 0 <= i < panes.len() && (panes[i].candidate matches Some(c) && c.armed && c.due <= now) {
            if i < rest.len() {
                assert(rest[i] == panes[i]);
                let k = choose|k: int| 0 <= k < before.len() && before[k] == ripe(panes[i], now);
                assert(all[k] == before[k]);
            } else {
                assert(all.last() == ripe(panes[i], now));
                assert(all[all.len() - 1] == ripe(panes[i], now));
            }
        }
        assert forall|k: int| 0 <= k < all.len() implies exists|j: int|
            0 <= j < panes.len() && (#[trigger] panes[j]).candidate is Some
                && panes[j].candidate->0.armed && panes[j].candidate->0.due <= now
                && #[trigger] all[k] == ripe(panes[j], now) by {
            if k < before.len() {
                assert(all[k] == before[k]);
                let j = choose|j: int|
                    0 <= j < rest.len() && (#[trigger] rest[j]).candidate is Some
                        && rest[j].candidate->0.armed && rest[j].candidate->0.due <= now
                        && before[k] == ripe(rest[j], now);
                assert(panes[j] == rest[j]);
            } else {
                assert(all[k] == ripe(panes[panes.len() - 1], now));
            }
        }
    }
}

/// An answer ends a turn, unless it is to wait: then the quiet starts anew, and
/// what was noisy is forgotten. A recorded turn takes its prompt with it, one
/// that was dropped leaves it.
pub proof fn law_an_answer_ends_or_extends_the_wait(
    d: DetectorModel,
    now: u128,
    p: PaneModel,
    c: CandidateModel,
)
    requires
        p.candidate == Some(c),
        now + d.tuning.settle <= u128::MAX,
    ensures
        ({
            let settled = d.resolved(now, p, Verdict::Settled);
            let dropped = d.resolved(now, p, Verdict::Drop);
            let waiting = d.resolved(now, p, Verdict::Wait);
            &&& settled.candidate is None && !settled.worked && settled.origin is None
                && settled.prompt is None
            &&& dropped.candidate is None && !dropped.worked && dropped.origin is None
                && dropped.prompt == p.prompt
            &&& settled.cwd == p.cwd && dropped.cwd == p.cwd && settled.status == p.status
                && dropped.status == p.status
            &&& now >= c.deadline ==> waiting.candidate is None && !waiting.worked
            &&& now < c.deadline ==> waiting.worked == p.worked && (waiting.candidate matches Some(w)
                && w.armed && !w.noisy && w.deadline == c.deadline && w.agent == c.agent && w.cwd
                == c.cwd && w.due == (if now + d.tuning.settle <= c.deadline {
                now + d.tuning.settle
            } else {
                c.deadline as int
            }))
        }),
{
}

/// A pane that is gone is no longer known, and a boundary that waited in it is
/// taken back for that.
pub proof fn law_a_pane_that_is_gone_takes_its_boundary_along(
    d: DetectorModel,
    id: Seq<char>,
    i: int,
)
    requires
        d.wf(),
        0 <= i < d.panes.len(),
        d.panes[i].id == id,
    ensures
        index_of(d.panes, id) == i,
        d.forget(id).panes.len() == d.panes.len() - 1,
        forall|j: int|
            0 <= j < d.forget(id).panes.len() ==> (#[trigger] d.forget(id).panes[j]).id != id,
        d.panes[i].candidate is Some ==> d.forget_signals(id) == seq![
            SignalModel::Withdrawn { pane_id: id, why: Withdrawn::PaneGone },
        ],
        d.panes[i].candidate is None ==> d.forget_signals(id).len() == 0,
{
    lemma_index(d.panes, id, i);
}

proof fn lemma_index(panes: Seq<PaneModel>, id: Seq<char>, i: int)
    requires
        0 <= i < panes.len(),
        panes[i].id == id,
        forall|a: int, b: int|
            0 <= a < b < panes.len() ==> (#[trigger] panes[a]).id != (#[trigger] panes[b]).id,
    ensures
        index_of(panes, id) == i,
    decreases panes.len(),
{
    if i > 0 {
        assert(panes[0].id != panes[i].id);
        let rest = panes.drop_first();
        assert(rest[i - 1] == panes[i]);
        assert forall|a: int, b: int| 0 <= a < b < rest.len() implies (#[trigger] rest[a]).id != (
        #[trigger] rest[b]).id by {
            assert(rest[a] == panes[a + 1] && rest[b] == panes[b + 1]);
        }
        lemma_index(rest, id, i - 1);
    }
}

/// Why a boundary was taken back is told in words of its own for each reason.
pub proof fn law_each_reason_has_its_words()
    ensures
        Withdrawn::StillWorking.reason() == "the pane went back to working — false done"@,
        Withdrawn::Blocked.reason() == "the agent is blocked on the user"@,
        Withdrawn::LostAgent.reason() == "herdr lost track of the agent"@,
        Withdrawn::PaneGone.reason() == "the pane is gone"@,
        Withdrawn::MovedDirectory.reason()
            == "the pane changed directory — the work was done somewhere else"@,
        Withdrawn::Uncorroborated.reason() == "it could not be corroborated within patience"@,
{
}

/// A ripe boundary is corroborated as the turn it was reported as: in its pane,
/// with its agent and its directory, on the timeline that the agent has, and
/// against what was seen of that very pane before.
pub proof fn law_a_ripe_boundary_is_corroborated_as_reported(
    r: Recorder,
    pane_id: Seq<char>,
    agent: Option<Seq<char>>,
    cwd: Option<Seq<char>>,
    noisy: bool,
    errand: Errand,
    remark: Option<crate::herdr::log::Remark>,
)
    requires
        acts(r, SignalModel::Ripe { pane_id, agent, cwd, noisy }, errand, remark),
    ensures
        errand matches Errand::Settle(s, _) && s.pane_id@ == pane_id && opt_text(s.agent) == agent
            && opt_text(s.cwd) == cwd && s.noisy == noisy && s.dry_run == r.config.dry_run && (
        agent matches Some(a) ==> (r.config.line_by == LineBy::Agent && a.len() > 0 ==> s.line@
            == a)) && (r.config.line_by == LineBy::Pane && pane_id.len() > 0 ==> s.line@ == pane_id)
            && (r.fingerprints@.dom().contains(pane_id) <==> s.before is Some) && (
        r.fingerprints@.dom().contains(pane_id) ==> (s.before matches Some(b) && b@
            == r.fingerprints@[pane_id]@)) && (r.began@.dom().contains(pane_id) <==> s.began is Some)
            && (r.began@.dom().contains(pane_id) ==> opt_text(s.began) == Some(
            r.began@[pane_id]@,
        )) && !s.recorded && s.seen is None,
{
}

} // verus!
