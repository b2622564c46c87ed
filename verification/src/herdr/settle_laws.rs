//! What becomes of a boundary, from what herdr, the kernel and git say.
use crate::herdr::detect::{Sighting, Status, Verdict};
use crate::herdr::log::Remark;
use crate::herdr::session::Processes;
use crate::herdr::settle::{
    settle_goes, Settle, SettleAction, SettleEvent, SettleStage,
};
use crate::repo::Worktree;
use crate::store::Turn;
use crate::strings::{dec, lemma_says, opt_text, says};
use vstd::prelude::*;

verus! {

/// Whether two looks at a pane found the same leader and the same pids, in
/// whatever order.
pub open spec fn unchanged_group(a: Processes, b: Processes) -> bool {
    &&& a.leader == b.leader
    &&& a.running@.map_values(|p: (u32, String)| p.0).to_multiset() == b.running@.map_values(
        |p: (u32, String)| p.0,
    ).to_multiset()
}

/// Whether something that is no shell runs in a pane, and leads its foreground.
pub open spec fn busy_with_an_agent(p: Processes) -> bool {
    p.leader != p.shell_pid && exists|i: int|
        0 <= i < p.running@.len() && !crate::herdr::session::names_shell(
            (#[trigger] p.running@[i]).1@,
        )
}

proof fn lemma_looks(a: Processes, b: Processes)
    ensures
        busy_with_an_agent(a) == a@.agent_runs(),
        a.running@.map_values(|p: (u32, String)| p.0) == a@.pid_list(),
        b.running@.map_values(|p: (u32, String)| p.0) == b@.pid_list(),
{
    assert(a.running@.map_values(|p: (u32, String)| p.0) =~= a@.pid_list());
    assert(b.running@.map_values(|p: (u32, String)| p.0) =~= b@.pid_list());
    if busy_with_an_agent(a) {
        let i = choose|i: int|
            0 <= i < a.running@.len() && !crate::herdr::session::names_shell(
                (#[trigger] a.running@[i]).1@,
            );
        assert(!crate::herdr::session::names_shell(a@.running[i].1));
    }
    if a@.agent_runs() {
        let i = choose|i: int|
            0 <= i < a@.running.len() && !#[trigger] crate::herdr::session::names_shell(
                a@.running[i].1,
            );
        assert(a@.running[i].1 == a.running@[i].1@);
    }
}

/// A turn that both herdr and the kernel say has ended is recorded: where the
/// pane is `idle` or `done` in the turn's directory, an agent still leads its
/// foreground, nothing started or finished there since the boundary was first
/// considered, and the worktree found is the one the turn began in, or where it
/// began is not known, the worktree is recorded, that very one, whatever its git
/// dir is, on the timeline of the turn and with its agent, pane and prompt.
pub proof fn law_a_finished_turn_is_recorded(
    a: Settle,
    fresh: Sighting,
    b: Settle,
    first: (SettleAction, Option<Remark>),
    p: Processes,
    c: Settle,
    second: (SettleAction, Option<Remark>),
    wt: Worktree,
    d: Settle,
    third: (SettleAction, Option<Remark>),
)
    requires
        a.stage is Asking,
        a.cwd is Some,
        !a.dry_run,
        settle_goes(a, SettleEvent::Pane(Ok(Some(fresh))), b, first.0, first.1),
        fresh.status == Status::Idle || fresh.status == Status::Done,
        fresh.cwd is None || opt_text(fresh.cwd) == opt_text(a.cwd),
        settle_goes(b, SettleEvent::Processes(Ok(Some(p))), c, second.0, second.1),
        busy_with_an_agent(p),
        a.before matches Some(before) ==> unchanged_group(before, p),
        settle_goes(c, SettleEvent::Worktree(Some(wt)), d, third.0, third.1),
        a.began is None || opt_text(a.began) == Some(wt.root@),
    ensures
        first.0 is Processes,
        second.0 matches SettleAction::Worktree(dir) && Some(dir@) == opt_text(a.cwd),
        third.0 matches SettleAction::Snap { worktree, line, meta } && worktree == wt && line@
            == a.line@ && meta.agent == a.agent && opt_text(meta.pane_id) == Some(a.pane_id@)
            && meta.prompt == a.prompt && meta.note is None,
        d.stage matches SettleStage::Recording { root } && root@ == wt.root@,
{
    lemma_looks(p, p);
    if let Some(before) = a.before {
        lemma_looks(before, p);
    }
}

/// The number of a turn that was recorded is told to herdr, and the boundary is
/// settled whether herdr took it or not. A tree without a change makes no turn,
/// and settles the boundary too.
pub proof fn law_a_recorded_turn_settles_its_boundary(
    a: Settle,
    made: Option<Turn>,
    b: Settle,
    first: (SettleAction, Option<Remark>),
    told: Result<(), String>,
    c: Settle,
    second: (SettleAction, Option<Remark>),
)
    requires
        a.stage is Recording,
        !a.recorded,
        settle_goes(a, SettleEvent::Snapped(Ok(made)), b, first.0, first.1),
    ensures
        made matches Some(turn) ==> first.0 == SettleAction::Report(turn.seq) && b.recorded,
        made is None ==> first.0 == SettleAction::Done(Verdict::Settled) && !b.recorded,
        made is Some && settle_goes(b, SettleEvent::Reported(told), c, second.0, second.1)
            ==> second.0 == SettleAction::Done(Verdict::Settled) && c.recorded,
{
}

/// What herdr says of a pane that is asked about again: a pane that is not there
/// is dropped, one that is neither `idle` nor `done` is dropped, one in another
/// directory is dropped, and nothing else is.
pub proof fn law_what_herdr_says_decides(
    a: Settle,
    answer: Result<Option<Sighting>, String>,
    b: Settle,
    action: SettleAction,
    remark: Option<Remark>,
)
    requires
        a.stage is Asking,
        settle_goes(a, SettleEvent::Pane(answer), b, action, remark),
    ensures
        action == SettleAction::Done(Verdict::Wait) <==> answer is Err,
        action == SettleAction::Done(Verdict::Drop) <==> (answer matches Ok(o) && (match o {
            None => true,
            Some(fresh) => (fresh.status != Status::Idle && fresh.status != Status::Done) || (
            fresh.cwd is Some && opt_text(fresh.cwd) != opt_text(a.cwd)),
        })),
        action is Done || (action is Processes && b.stage is Looking),
        action != SettleAction::Done(Verdict::Settled),
{
}

/// What the kernel says of a pane: one that has no process information, no agent
/// or another leader is dropped, one whose processes changed is waited for, and
/// nothing else is.
pub proof fn law_what_the_kernel_says_decides(
    a: Settle,
    answer: Result<Option<Processes>, String>,
    b: Settle,
    action: SettleAction,
    remark: Option<Remark>,
)
    requires
        a.stage is Looking,
        a.cwd is Some,
        settle_goes(a, SettleEvent::Processes(answer), b, action, remark),
    ensures
        match answer {
            Err(_) => action == SettleAction::Done(Verdict::Wait),
            Ok(None) => action == SettleAction::Done(Verdict::Drop),
            Ok(Some(p)) => if !busy_with_an_agent(p) || (a.before matches Some(was) && was.leader
                != p.leader) {
                action == SettleAction::Done(Verdict::Drop)
            } else if a.before matches Some(was) && !unchanged_group(was, p) {
                action == SettleAction::Done(Verdict::Wait)
            } else {
                b.stage is Placing && (action matches SettleAction::Worktree(dir) && Some(dir@)
                    == opt_text(a.cwd))
            },
        },
{
    if let Ok(Some(p)) = answer {
        lemma_looks(p, p);
        if let Some(was) = a.before {
            lemma_looks(was, p);
        }
    }
}

/// Where the turn's directory has no worktree, or another than the one the turn
/// began in, the boundary is dropped; a dry run settles it without recording;
/// and in every other case the worktree that was found is recorded.
pub proof fn law_where_a_turn_is_decides(
    a: Settle,
    found: Option<Worktree>,
    b: Settle,
    action: SettleAction,
    remark: Option<Remark>,
)
    requires
        a.stage is Placing,
        settle_goes(a, SettleEvent::Worktree(found), b, action, remark),
    ensures
        action == SettleAction::Done(Verdict::Drop) <==> (match found {
            None => true,
            Some(wt) => a.began is Some && opt_text(a.began) != Some(wt.root@),
        }),
        action == SettleAction::Done(Verdict::Settled) <==> a.dry_run && (found matches Some(wt) && (
        a.began is None || opt_text(a.began) == Some(wt.root@))),
        !(action is Done) <==> !a.dry_run && (found matches Some(wt) && (a.began is None || opt_text(
            a.began,
        ) == Some(wt.root@))),
        !(action is Done) ==> (action matches SettleAction::Snap { worktree, .. } && found == Some(
            worktree,
        )),
{
}

/// What is said of a recorded turn counts the added lines before the deleted
/// ones, and names the pane, the turn, the timeline and the worktree.
pub proof fn law_a_recorded_turn_is_told_with_its_counts(
    a: Settle,
    turn: Turn,
    b: Settle,
    action: SettleAction,
    remark: Option<Remark>,
)
    requires
        a.stage is Recording,
        settle_goes(a, SettleEvent::Snapped(Ok(Some(turn))), b, action, remark),
    ensures
        remark is Some,
        says(
            (remark->0).text@,
            dec(turn.files as nat) + " file(s) +"@ + dec(turn.insertions as nat) + " -"@ + dec(
                turn.deletions as nat,
            ) + " in "@,
        ),
        (a.pane_id@ + ": recorded #"@ + dec(turn.seq as nat) + " on "@ + a.line@).is_prefix_of(
            (remark->0).text@,
        ),
{
    let before = a.pane_id@ + ": recorded #"@ + dec(turn.seq as nat) + " on "@ + a.line@ + " — "@;
    let root = match a.stage {
        SettleStage::Recording { root } => root@,
        _ => Seq::empty(),
    };
    let after = root + crate::herdr::settle::noise(a.noisy);
    let text = (remark->0).text@;
    lemma_says(
        text,
        before,
        dec(turn.files as nat) + " file(s) +"@ + dec(turn.insertions as nat) + " -"@ + dec(
            turn.deletions as nat,
        ) + " in "@,
        after,
    );
    let head = a.pane_id@ + ": recorded #"@ + dec(turn.seq as nat) + " on "@ + a.line@;
    assert(text.take(head.len() as int) =~= head);
}

/// What a dry run says of a boundary names its pane, its timeline and its
/// worktree, how many processes run there, and whether it was ever quiet.
pub proof fn law_a_dry_run_says_what_it_would_record(s: Settle, root: Seq<char>, p: Processes)
    ensures
        ({
            let text = crate::herdr::settle::boundary_text(s, root, p@);
            &&& says(text, "  line="@ + s.line@ + "  worktree="@ + root + "  procs="@)
            &&& says(text, "("@ + dec(p.running@.len()) + ")"@)
            &&& s.noisy ==> says(text, "(never went quiet)"@)
            &&& ("boundary  "@ + s.pane_id@ + "  "@).is_prefix_of(text)
        }),
        crate::herdr::settle::noise(false).len() == 0,
{
    let agent = match opt_text(s.agent) {
        Some(a) => a,
        None => "-"@,
    };
    let prompt = match opt_text(s.prompt) {
        Some(t) => crate::herdr::settle::quoted(t),
        None => "-"@,
    };
    let text = crate::herdr::settle::boundary_text(s, root, p@);
    let head = "boundary  "@ + s.pane_id@ + "  "@;
    let place = "  line="@ + s.line@ + "  worktree="@ + root + "  procs="@;
    let count = "("@ + dec(p.running@.len()) + ")"@;
    let noise = crate::herdr::settle::noise(s.noisy);
    let end = "  prompt="@ + prompt;
    let lead = p@.leading(0);
    assert(p@.running.len() == p.running@.len());
    assert(text =~= head + agent + place + lead + count + noise + end);
    assert(text =~= (head + agent) + place + (lead + count + noise + end));
    lemma_says(text, head + agent, place, lead + count + noise + end);
    assert(text =~= (head + agent + place + lead) + count + (noise + end));
    lemma_says(text, head + agent + place + lead, count, noise + end);
    assert(text.take(head.len() as int) =~= head);
    reveal_strlit("");
    if s.noisy {
        reveal_strlit("  (never went quiet)");
        reveal_strlit("  ");
        reveal_strlit("(never went quiet)");
        assert("  (never went quiet)"@ =~= "  "@ + "(never went quiet)"@);
        let before = head + agent + place + lead + count + "  "@;
        assert(text =~= before + "(never went quiet)"@ + end);
        lemma_says(text, before, "(never went quiet)"@, end);
    }
}

} // verus!
