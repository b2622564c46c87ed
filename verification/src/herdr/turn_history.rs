//! A turn in flight, told from everything that happened to the detector.
use crate::herdr::detect::{
    index_of, lemma_index_of, lemma_index_unique, settled_in, strays, DetectorModel, PaneModel,
    SightingModel, SignalModel, Status, Tuning, Verdict,
};
use crate::herdr::detect_laws::law_the_detector_opens_a_candidate_when_work_comes_to_rest;
use vstd::prelude::*;

verus! {

/// One thing that happens to a detector.
pub enum Happening {
    /// A look at a pane.
    Seen(u128, SightingModel),
    /// Time passed.
    Ticked(u128),
    /// The recorder's answer to a pane's boundary.
    Answered(u128, Seq<char>, Verdict),
    /// The pane is gone.
    Gone(Seq<char>),
}

/// The detector after one happening.
pub open spec fn happened(d: DetectorModel, h: Happening) -> DetectorModel {
    match h {
        Happening::Seen(now, s) => d.observe(now, s),
        Happening::Ticked(now) => d.tick(now),
        Happening::Answered(now, id, verdict) => d.resolve(now, id, verdict),
        Happening::Gone(id) => d.forget(id),
    }
}

/// A new detector after a series of happenings.
pub open spec fn lived(t: Tuning, hs: Seq<Happening>) -> DetectorModel
    decreases hs.len(),
{
    if hs.len() == 0 {
        DetectorModel { tuning: t, panes: Seq::empty() }
    } else {
        happened(lived(t, hs.drop_last()), hs.last())
    }
}

/// What is remembered of a pane.
pub open spec fn pane_of(d: DetectorModel, id: Seq<char>) -> Option<PaneModel> {
    let i = index_of(d.panes, id);
    if i < d.panes.len() {
        Some(d.panes[i])
    } else {
        None
    }
}

/// The status that the pane was last seen with, if it was seen and is not gone.
pub open spec fn last_status(hs: Seq<Happening>, id: Seq<char>) -> Option<Status>
    decreases hs.len(),
{
    if hs.len() == 0 {
        None
    } else {
        match hs.last() {
            Happening::Seen(_, s) if s.pane_id == id => Some(s.status),
            Happening::Gone(which) if which == id => None,
            _ => last_status(hs.drop_last(), id),
        }
    }
}

/// The status that is remembered of a pane.
pub open spec fn status_of(d: DetectorModel, id: Seq<char>) -> Option<Status> {
    match pane_of(d, id) {
        Some(p) => Some(p.status),
        None => None,
    }
}

/// Whether the pane is known and has a turn in flight.
pub open spec fn at_work(d: DetectorModel, id: Seq<char>) -> bool {
    pane_of(d, id) matches Some(p) && p.worked
}

/// Whether the pane is seen `working`, and not merely still working after a
/// move that its last turn did not survive.
pub open spec fn begins(d: DetectorModel, h: Happening, id: Seq<char>) -> bool {
    h matches Happening::Seen(_, s) && s.pane_id == id && s.status == Status::Working && (
    pane_of(d, id) matches Some(p) ==> p.status != Status::Working || !settled_in(p, s).astray)
}

/// Whether the pane's agent is lost, the pane leaves the directory its turn
/// started in, its boundary is dealt with, dropped or waited for too long, or
/// it is gone.
pub open spec fn ends(d: DetectorModel, h: Happening, id: Seq<char>) -> bool {
    pane_of(d, id) matches Some(p) && match h {
        Happening::Seen(_, s) => s.pane_id == id && (s.status == Status::Unknown || strays(p, s)),
        Happening::Ticked(_) => false,
        Happening::Answered(now, which, verdict) => which == id && (verdict != Verdict::Wait || (
        p.candidate matches Some(c) && now >= c.deadline)),
        Happening::Gone(which) => which == id,
    }
}

/// Whether work on a pane began at index `k` and nothing ended it since.
pub open spec fn unended_since(t: Tuning, hs: Seq<Happening>, id: Seq<char>, k: int) -> bool {
    &&& 0 <= k < hs.len()
    &&& begins(lived(t, hs.take(k)), hs[k], id)
    &&& forall|j: int|
        k < j < hs.len() ==> !ends(lived(t, #[trigger] hs.take(j)), hs[j], id)
}

proof fn lemma_happened_wf(d: DetectorModel, h: Happening)
    requires
        d.wf(),
    ensures
        happened(d, h).wf(),
{
    let e = happened(d, h);
    match h {
        Happening::Seen(_, s) => {
            lemma_index_of(d.panes, s.pane_id);
        },
        Happening::Ticked(_) => {},
        Happening::Answered(_, id, _) => {
            lemma_index_of(d.panes, id);
        },
        Happening::Gone(id) => {
            lemma_index_of(d.panes, id);
        },
    }
}

proof fn lemma_happened_work(d: DetectorModel, h: Happening, id: Seq<char>)
    requires
        d.wf(),
    ensures
        at_work(happened(d, h), id) == (begins(d, h, id) || (at_work(d, id) && !ends(d, h, id))),
        status_of(happened(d, h), id) == match h {
            Happening::Seen(_, s) if s.pane_id == id => Some(s.status),
            Happening::Gone(which) if which == id => None,
            _ => status_of(d, id),
        },
{
    let e = happened(d, h);
    lemma_happened_wf(d, h);
    lemma_index_of(d.panes, id);
    lemma_index_of(e.panes, id);
    let i = index_of(d.panes, id);
    match h {
        Happening::Seen(_, s) => {
            lemma_index_of(d.panes, s.pane_id);
        },
        Happening::Ticked(_) => {},
        Happening::Answered(_, which, _) => {
            lemma_index_of(d.panes, which);
        },
        Happening::Gone(which) => {
            lemma_index_of(d.panes, which);
        },
    }
    if i < d.panes.len() {
        match h {
            Happening::Gone(which) if which != id => {
                let g = index_of(d.panes, which);
                let k = if i < g {
                    i
                } else {
                    i - 1
                };
                if g < d.panes.len() {
                    assert(e.panes[k] == d.panes[i]);
                    lemma_index_unique(e.panes, id, k);
                }
            },
            Happening::Gone(_) => {
                if index_of(e.panes, id) < e.panes.len() {
                    let k = index_of(e.panes, id);
                    assert(e.panes[k] == if k < i {
                        d.panes[k]
                    } else {
                        d.panes[k + 1]
                    });
                }
            },
            _ => {
                assert(e.panes[i].id == id);
                lemma_index_unique(e.panes, id, i);
            },
        }
    } else {
        let k = index_of(e.panes, id);
        match h {
            Happening::Seen(_, s) if s.pane_id == id => {
                lemma_index_unique(e.panes, id, i);
            },
            Happening::Seen(_, s) => {
                if k < d.panes.len() {
                    assert(e.panes[k].id == d.panes[k].id);
                }
            },
            Happening::Gone(which) => {
                let g = index_of(d.panes, which);
                if k < e.panes.len() && g < d.panes.len() {
                    assert(e.panes[k] == if k < g {
                        d.panes[k]
                    } else {
                        d.panes[k + 1]
                    });
                }
            },
            _ => {
                if k < e.panes.len() {
                    assert(e.panes[k].id == d.panes[k].id);
                }
            },
        }
    }
}

/// After any history, every pane is remembered consistently.
pub proof fn law_a_detector_stays_well_formed(t: Tuning, hs: Seq<Happening>)
    ensures
        lived(t, hs).wf(),
        lived(t, hs).tuning == t,
    decreases hs.len(),
{
    if hs.len() > 0 {
        law_a_detector_stays_well_formed(t, hs.drop_last());
        lemma_happened_wf(lived(t, hs.drop_last()), hs.last());
    }
}

/// After any history, the status remembered of a pane is the one it was last
/// seen with, and a pane that is gone is forgotten.
pub proof fn law_the_last_look_is_remembered(t: Tuning, hs: Seq<Happening>, id: Seq<char>)
    ensures
        status_of(lived(t, hs), id) == last_status(hs, id),
    decreases hs.len(),
{
    if hs.len() > 0 {
        law_a_detector_stays_well_formed(t, hs.drop_last());
        law_the_last_look_is_remembered(t, hs.drop_last(), id);
        lemma_happened_work(lived(t, hs.drop_last()), hs.last(), id);
    }
}

/// After any history, a pane has a turn in flight if and only if it was seen to
/// begin work and nothing has ended that since.
pub proof fn law_a_turn_is_in_flight_from_its_start_to_its_end(
    t: Tuning,
    hs: Seq<Happening>,
    id: Seq<char>,
)
    ensures
        at_work(lived(t, hs), id) <==> exists|k: int| #[trigger] unended_since(t, hs, id, k),
    decreases hs.len(),
{
    if hs.len() > 0 {
        let n = hs.len() - 1;
        let before = hs.drop_last();
        let d = lived(t, before);
        law_a_detector_stays_well_formed(t, before);
        law_a_turn_is_in_flight_from_its_start_to_its_end(t, before, id);
        lemma_happened_work(d, hs.last(), id);
        assert(hs.take(n) =~= before);
        assert forall|j: int| 0 <= j < n implies #[trigger] hs.take(j) == before.take(j) by {
            assert(hs.take(j) =~= before.take(j));
        }
        if begins(d, hs.last(), id) {
            assert(unended_since(t, hs, id, n));
        } else if at_work(d, id) && !ends(d, hs.last(), id) {
            let k = choose|k: int| #[trigger] unended_since(t, before, id, k);
            assert(unended_since(t, before, id, k));
            assert forall|j: int| k < j < hs.len() implies !ends(
                lived(t, #[trigger] hs.take(j)),
                hs[j],
                id,
            ) by {
                if j < n {
                    assert(!ends(lived(t, before.take(j)), before[j], id));
                }
            }
            assert(unended_since(t, hs, id, k));
        }
        if exists|k: int| #[trigger] unended_since(t, hs, id, k) {
            let k = choose|k: int| #[trigger] unended_since(t, hs, id, k);
            if k < n {
                assert(!ends(lived(t, hs.take(n)), hs[n], id));
                assert forall|j: int| k < j < before.len() implies !ends(
                    lived(t, #[trigger] before.take(j)),
                    before[j],
                    id,
                ) by {
                    assert(!ends(lived(t, hs.take(j)), hs[j], id));
                }
                assert(unended_since(t, before, id, k));
            }
        }
    }
}

/// After any history, a look at a pane opens a candidate if and only if the pane
/// was last seen `working`, its work began and was not ended since, the look
/// finds it in the same directory, and at rest.
pub proof fn law_a_boundary_is_work_that_came_to_rest(
    t: Tuning,
    hs: Seq<Happening>,
    now: u128,
    s: SightingModel,
)
    ensures
        lived(t, hs).observe_signals(now, s).contains(
            SignalModel::Candidate { pane_id: s.pane_id },
        ) <==> {
            &&& last_status(hs, s.pane_id) == Some(Status::Working)
            &&& exists|k: int| #[trigger] unended_since(t, hs, s.pane_id, k)
            &&& pane_of(lived(t, hs), s.pane_id) matches Some(p) && !strays(p, s)
            &&& s.status.at_rest()
        },
{
    law_a_detector_stays_well_formed(t, hs);
    law_the_last_look_is_remembered(t, hs, s.pane_id);
    law_a_turn_is_in_flight_from_its_start_to_its_end(t, hs, s.pane_id);
    law_the_detector_opens_a_candidate_when_work_comes_to_rest(lived(t, hs), now, s);
}

/// Once a pane's boundary is dealt with, dropped or waited for too long, no look
/// opens another until the pane is seen `working` again.
pub proof fn law_an_answered_pane_is_quiet_until_it_works(
    t: Tuning,
    hs: Seq<Happening>,
    id: Seq<char>,
    k: int,
    now: u128,
    s: SightingModel,
)
    requires
        0 <= k < hs.len(),
        hs[k] is Answered,
        ends(lived(t, hs.take(k)), hs[k], id),
        forall|j: int|
            k < j < hs.len() ==> !((#[trigger] hs[j]) matches Happening::Seen(_, look)
                && look.pane_id == id && look.status == Status::Working),
        s.pane_id == id,
    ensures
        !at_work(lived(t, hs), id),
        !lived(t, hs).observe_signals(now, s).contains(SignalModel::Candidate { pane_id: id }),
{
    law_a_boundary_is_work_that_came_to_rest(t, hs, now, s);
    law_a_turn_is_in_flight_from_its_start_to_its_end(t, hs, id);
    assert forall|b: int| !#[trigger] unended_since(t, hs, id, b) by {
        if unended_since(t, hs, id, b) {
            if b < k {
                assert(!ends(lived(t, hs.take(k)), hs[k], id));
            } else {
                assert(begins(lived(t, hs.take(b)), hs[b], id));
            }
        }
    }
}

} // verus!
