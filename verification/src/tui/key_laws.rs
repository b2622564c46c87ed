//! What the keys do on each screen, and what each answer changes, said of what
//! is on screen before and after.
use vstd::prelude::*;

use crate::store::TurnModel;
use crate::strings::{dec, lemma_says, says};
use crate::tui::app::{
    first_pane, restored_text, AppModel, Key, Level, Mode, PatchStateModel, PlanStateModel,
};
use crate::tui::engine::{
    rewind_text, JobModel, NoticeModel, OutcomeModel, PlanModel, ReplyModel,
};

verus! {

/// The timeline is on screen, and keys are listened to.
pub open spec fn at_the_timeline(a: AppModel) -> bool {
    a.fatal is None && !a.restoring && a.mode == Mode::Dock
}

/// A plan is on screen, or on its way, and keys are listened to.
pub open spec fn at_a_plan(a: AppModel) -> bool {
    a.fatal is None && !a.restoring && a.mode == Mode::Rewind
}

/// In the timeline the arrows and the letters for them go up and down by one
/// turn, a page is five turns, and the ends are the newest and the oldest turn.
/// The cursor stops at the ends and nothing else changes.
pub proof fn law_the_timeline_is_walked_turn_by_turn(a: AppModel, at: usize, key: Key)
    requires
        at_the_timeline(a),
        0 < a.turns.len() <= usize::MAX,
        a.sel < a.turns.len(),
        match key {
            Key::Down => at == a.sel + 1 || (at == a.sel && a.sel + 1 == a.turns.len()),
            Key::Char('j') => at == a.sel + 1 || (at == a.sel && a.sel + 1 == a.turns.len()),
            Key::Up => at == a.sel - 1 || (at == 0 && a.sel == 0),
            Key::Char('k') => at == a.sel - 1 || (at == 0 && a.sel == 0),
            Key::PageDown => at == a.sel + 5 || (at == a.turns.len() - 1 && a.sel + 5
                > a.turns.len() - 1),
            Key::PageUp => at == a.sel - 5 || (at == 0 && a.sel < 5),
            Key::Home => at == 0,
            Key::Char('g') => at == 0,
            Key::End => at == a.turns.len() - 1,
            Key::Char('G') => at == a.turns.len() - 1,
            _ => false,
        },
        at < a.turns.len(),
    ensures
        a.on_key(key) == (AppModel { sel: at, sel_seq: Some(a.turns[at as int].seq), ..a }),
{
}

/// Enter, and the keys to the right, ask for the plan of the turn under the
/// cursor, under a number of its own. Nothing of an earlier plan is left on
/// screen.
pub proof fn law_enter_asks_for_the_plan_of_the_turn_under_the_cursor(a: AppModel, key: Key)
    requires
        at_the_timeline(a),
        key == Key::Enter || key == Key::Right || key == Key::Char('l'),
    ensures
        ({
            let b = a.on_key(key);
            &&& a.turns.len() > 0 && a.sel < a.turns.len() && a.blockers.len() == 0 ==> {
                &&& b.mode == Mode::Rewind
                &&& b.plan == PlanStateModel::Loading(a.turns[a.sel as int].seq)
                &&& b.patch is Idle
                &&& b.plan_sel == 0
                &&& b.patch_scroll == 0
                &&& b.cache == Map::<Seq<char>, Seq<char>>::empty()
                &&& b.outbox == a.outbox.push(
                    JobModel::Plan { req: b.plan_req, seq: a.turns[a.sel as int].seq },
                )
                &&& a.req < u64::MAX ==> b.plan_req == a.req + 1
                &&& b.req == b.plan_req
                &&& b.turns == a.turns && b.sel == a.sel && b.sel_seq == a.sel_seq
            }
            &&& a.turns.len() > 0 && a.blockers.len() > 0 ==> {
                &&& b.mode == Mode::Dock
                &&& b.outbox == a.outbox
                &&& b.status matches Some(s) && s.level == Level::Bad && s.lines.contains(
                    a.blockers[0],
                )
            }
            &&& a.turns.len() == 0 ==> b.mode == Mode::Dock && b.outbox == a.outbox
                && (b.status matches Some(s) && s.level == Level::Info)
        }),
{
    let b = a.on_key(key);
    if a.turns.len() > 0 && a.blockers.len() > 0 {
        let s = b.status->0;
        assert(s.lines[1] == a.blockers[0]);
    }
}

/// In the timeline `r` asks for everything again and says so on screen; the
/// letters `q` and `Q` leave, from the timeline and from a plan.
pub proof fn law_refresh_and_quit(a: AppModel)
    requires
        at_the_timeline(a) || at_a_plan(a),
    ensures
        at_the_timeline(a) ==> a.on_key(Key::Char('r')) == (AppModel {
            loading: true,
            outbox: a.outbox.push(JobModel::Reload),
            ..a
        }),
        at_a_plan(a) ==> a.on_key(Key::Char('r')).outbox == a.outbox && !a.on_key(
            Key::Char('r'),
        ).restoring,
        a.on_key(Key::Char('q')) == (AppModel { quit: true, ..a }),
        a.on_key(Key::Char('Q')) == (AppModel { quit: true, ..a }),
        forall|key: Key|
            #![trigger a.on_key(key)]
            a.on_key(key).quit && !a.quit ==> key == Key::Char('q') || key == Key::Char('Q'),
{
}

/// A start that failed for good leaves on `q`, `Q` or escape, and hears nothing
/// else.
pub proof fn law_a_fatal_screen_is_only_left(a: AppModel, key: Key)
    requires
        a.fatal is Some,
    ensures
        a.on_key(key) == (AppModel {
            quit: a.quit || key == Key::Char('q') || key == Key::Char('Q') || key == Key::Esc,
            ..a
        }),
{
}

/// The file under the cursor of a plan is walked like the turns of the timeline,
/// by one file or by ten, and only among the files of the plan. The preview
/// starts at its top again.
pub proof fn law_the_files_of_a_plan_are_walked(a: AppModel, plan: PlanModel, at: usize, key: Key)
    requires
        at_a_plan(a),
        a.plan == PlanStateModel::Ready(plan),
        0 < plan.files.len() <= usize::MAX,
        a.plan_sel < plan.files.len(),
        match key {
            Key::Down => at == a.plan_sel + 1 || (at == a.plan_sel && a.plan_sel + 1
                == plan.files.len()),
            Key::Char('j') => at == a.plan_sel + 1 || (at == a.plan_sel && a.plan_sel + 1
                == plan.files.len()),
            Key::Up => at == a.plan_sel - 1 || (at == 0 && a.plan_sel == 0),
            Key::Char('k') => at == a.plan_sel - 1 || (at == 0 && a.plan_sel == 0),
            Key::PageDown => at == a.plan_sel + 10 || (at == plan.files.len() - 1 && a.plan_sel + 10
                > plan.files.len() - 1),
            Key::PageUp => at == a.plan_sel - 10 || (at == 0 && a.plan_sel < 10),
            Key::Home => at == 0,
            Key::End => at == plan.files.len() - 1,
            _ => false,
        },
        at < plan.files.len(),
    ensures
        a.on_key(key).plan_sel == at,
        a.on_key(key).patch_scroll == 0,
        a.on_key(key).plan == a.plan,
        a.on_key(key).mode == a.mode,
        a.show_patch ==> shows_the_change(a, a.on_key(key), plan, at as int),
        !a.show_patch ==> a.on_key(key).outbox == a.outbox && a.on_key(key).patch == a.patch,
{
}

/// What one file's change is shown from: what was read of it before, or else one
/// request for that file between the two trees of the plan, from the tree that
/// is there to the tree that will be.
pub open spec fn shows_the_change(a: AppModel, b: AppModel, plan: PlanModel, at: int) -> bool {
    let path = plan.files[at].1;
    if a.cache.contains_key(path) {
        b.patch == (PatchStateModel::Ready { path, body: a.cache[path] }) && b.outbox == a.outbox
    } else {
        &&& b.patch == PatchStateModel::Loading(path)
        &&& b.outbox == a.outbox.push(
            JobModel::Patch {
                req: b.patch_req,
                path,
                current_tree: plan.current_tree,
                target_tree: plan.target_tree,
            },
        )
        &&& a.req < u64::MAX ==> b.patch_req == a.req + 1
        &&& b.req == b.patch_req
    }
}

/// `d` and enter show the change of the file under the cursor, and hide it
/// again.
pub proof fn law_the_preview_opens_and_closes(a: AppModel, plan: PlanModel, key: Key)
    requires
        at_a_plan(a),
        a.plan == PlanStateModel::Ready(plan),
        a.plan_sel < plan.files.len(),
        key == Key::Char('d') || key == Key::Enter,
    ensures
        a.on_key(key).show_patch == !a.show_patch,
        a.on_key(key).patch_scroll == 0,
        a.on_key(key).plan_sel == a.plan_sel,
        !a.show_patch ==> shows_the_change(a, a.on_key(key), plan, a.plan_sel as int),
        a.show_patch ==> a.on_key(key).outbox == a.outbox,
{
}

/// `J` and `K` scroll the preview by four lines, never above its top, and only
/// while it is open.
pub proof fn law_the_preview_scrolls(a: AppModel)
    requires
        at_a_plan(a),
    ensures
        a.show_patch && a.patch_scroll + 4 <= u16::MAX ==> a.on_key(Key::Char('J')) == (AppModel {
            patch_scroll: (a.patch_scroll + 4) as u16,
            ..a
        }),
        a.show_patch && a.patch_scroll >= 4 ==> a.on_key(Key::Char('K')) == (AppModel {
            patch_scroll: (a.patch_scroll - 4) as u16,
            ..a
        }),
        a.show_patch && a.patch_scroll < 4 ==> a.on_key(Key::Char('K')) == (AppModel {
            patch_scroll: 0,
            ..a
        }),
        !a.show_patch ==> a.on_key(Key::Char('J')) == a && a.on_key(Key::Char('K')) == a,
{
}

/// Escape, and the keys to the left, go back to the timeline and forget the
/// plan; the cursor is where it was.
pub proof fn law_escape_goes_back_to_the_timeline(a: AppModel, key: Key)
    requires
        at_a_plan(a),
        key == Key::Esc || key == Key::Left || key == Key::Char('h'),
    ensures
        ({
            let b = a.on_key(key);
            &&& b.mode == Mode::Dock
            &&& b.plan is Idle
            &&& b.patch is Idle
            &&& b.cache == Map::<Seq<char>, Seq<char>>::empty()
            &&& b.sel == a.sel && b.sel_seq == a.sel_seq && b.turns == a.turns
            &&& b.outbox == a.outbox
            &&& b.quit == a.quit && b.uncertain == a.uncertain
        }),
{
}

/// Shift-R on a plan that changes something starts exactly that restore, once: it
/// names the turn of the plan, the tree it was made against, the pane to tell and
/// whether to tell it. On a plan that changes nothing, or none, it starts nothing.
pub proof fn law_shift_r_restores_the_plan_on_screen(a: AppModel)
    requires
        at_a_plan(a),
    ensures
        ({
            let b = a.on_key(Key::Char('R'));
            match a.plan {
                PlanStateModel::Ready(plan) if plan.files.len() > 0 => {
                    &&& b.restoring
                    &&& b.outbox == a.outbox.push(
                        JobModel::Restore {
                            req: b.restore_req,
                            seq: plan.seq,
                            expect_tree: plan.current_tree,
                            pane: a.agent_pane(),
                            notify: a.notify,
                        },
                    )
                    &&& a.req < u64::MAX ==> b.restore_req == a.req + 1
                    &&& b.plan == a.plan
                    &&& b.on_key(Key::Char('R')).outbox == b.outbox
                },
                _ => !b.restoring && b.outbox == a.outbox && b.plan == a.plan,
            }
        }),
{
}

/// The pane that is told is the one of the turn under the cursor; where that
/// turn has none, the newest pane that the timeline knows of, if it knows any.
pub proof fn law_the_agent_told_is_the_one_of_the_turn(a: AppModel)
    ensures
        a.sel < a.turns.len() && a.turns[a.sel as int].pane_id is Some ==> a.agent_pane()
            == a.turns[a.sel as int].pane_id,
        !(a.sel < a.turns.len() && a.turns[a.sel as int].pane_id is Some) ==> {
            ||| a.agent_pane() is None && forall|i: int|
                0 <= i < a.turns.len() ==> (#[trigger] a.turns[i]).pane_id is None
            ||| exists|i: int|
                0 <= i < a.turns.len() && a.agent_pane() == (#[trigger] a.turns[i]).pane_id
                    && a.turns[i].pane_id is Some && forall|j: int|
                    0 <= j < i ==> (#[trigger] a.turns[j]).pane_id is None
        },
{
    lemma_first_pane(a.turns);
}

proof fn lemma_first_pane(turns: Seq<TurnModel>)
    ensures
        first_pane(turns) is None ==> forall|i: int|
            0 <= i < turns.len() ==> (#[trigger] turns[i]).pane_id is None,
        first_pane(turns) is Some ==> exists|i: int|
            0 <= i < turns.len() && first_pane(turns) == (#[trigger] turns[i]).pane_id
                && turns[i].pane_id is Some && forall|j: int|
                0 <= j < i ==> (#[trigger] turns[j]).pane_id is None,
    decreases turns.len(),
{
    if turns.len() > 0 {
        if turns[0].pane_id is None {
            let rest = turns.drop_first();
            lemma_first_pane(rest);
            if first_pane(rest) is None {
                assert forall|i: int| 0 <= i < turns.len() implies (
                #[trigger] turns[i]).pane_id is None by {
                    if i > 0 {
                        assert(rest[i - 1] == turns[i]);
                    }
                }
            } else {
                let k = choose|i: int|
                    0 <= i < rest.len() && first_pane(rest) == (#[trigger] rest[i]).pane_id
                        && rest[i].pane_id is Some && forall|j: int|
                        0 <= j < i ==> (#[trigger] rest[j]).pane_id is None;
                assert(turns[k + 1] == rest[k]);
                assert forall|j: int| 0 <= j < k + 1 implies (
                #[trigger] turns[j]).pane_id is None by {
                    if j > 0 {
                        assert(rest[j - 1] == turns[j]);
                    }
                }
            }
        } else {
            assert(turns[0].pane_id is Some);
        }
    }
}

/// What is loaded is what is shown: the turns, what is in the way, the warnings
/// and the other timelines, each as it was read. A poll brings turns and leaves
/// the rest.
pub proof fn law_what_is_loaded_is_shown(
    a: AppModel,
    turns: Seq<TurnModel>,
    blockers: Seq<Seq<char>>,
    warnings: Seq<Seq<char>>,
    others: Seq<Seq<char>>,
)
    ensures
        ({
            let b = a.apply(ReplyModel::Loaded { turns, blockers, warnings, others });
            let c = a.apply(ReplyModel::Turns(turns));
            &&& b.turns == turns && b.blockers == blockers && b.warnings == warnings && b.others
                == others
            &&& !b.loading && b.mode == a.mode && b.plan == a.plan && b.outbox == a.outbox
                && b.status == a.status
            &&& c.turns == turns && c.blockers == a.blockers && c.warnings == a.warnings
                && c.others == a.others
            &&& !c.loading && c.mode == a.mode && c.plan == a.plan && c.outbox == a.outbox
                && c.status == a.status
        }),
{
}

/// A plan that arrives is shown from its first file, and its preview is of that
/// file; one that failed says why, under the turn that it was for.
pub proof fn law_a_plan_that_arrives_is_shown(
    a: AppModel,
    plan: PlanModel,
    seq: u64,
    message: Seq<char>,
)
    ensures
        ({
            let b = a.apply(ReplyModel::Planned { req: a.plan_req, plan });
            let c = a.apply(ReplyModel::PlanFailed { req: a.plan_req, seq, message });
            let fresh = AppModel { cache: Map::empty(), ..a };
            &&& b.plan == PlanStateModel::Ready(plan)
            &&& b.plan_sel == 0
            &&& b.mode == a.mode && b.restoring == a.restoring
            &&& a.show_patch && plan.files.len() > 0 ==> shows_the_change(fresh, b, plan, 0)
            &&& !a.show_patch ==> b.outbox == a.outbox
            &&& c == (AppModel { plan: PlanStateModel::Failed { seq, message }, ..a })
        }),
{
}

/// A change that was read is shown and kept for its path, so that coming back to
/// the file asks for nothing; one that could not be read says why.
pub proof fn law_a_change_is_read_once(
    a: AppModel,
    path: Seq<char>,
    body: Seq<char>,
    message: Seq<char>,
)
    ensures
        ({
            let b = a.apply(ReplyModel::Patched { req: a.patch_req, path, body });
            let c = a.apply(ReplyModel::PatchFailed { req: a.patch_req, path, message });
            &&& b.patch == (PatchStateModel::Ready { path, body })
            &&& b.cache.contains_key(path) && b.cache[path] == body
            &&& forall|p: Seq<char>|
                p != path && #[trigger] a.cache.contains_key(p) ==> b.cache.contains_key(p)
                    && b.cache[p] == a.cache[p]
            &&& b.outbox == a.outbox && b.plan == a.plan
            &&& c == (AppModel { patch: PatchStateModel::Failed { path, message }, ..a })
        }),
{
}

/// A restore that was made goes back to the timeline, says what it did as good
/// news, and asks for the timeline again: there are new turns on it.
pub proof fn law_a_restore_that_was_made_is_told(a: AppModel, outcome: OutcomeModel)
    ensures
        ({
            let b = a.apply(ReplyModel::Restored { req: a.restore_req, outcome });
            &&& !b.restoring
            &&& b.uncertain is None
            &&& b.mode == Mode::Dock
            &&& b.plan is Idle && b.patch is Idle
            &&& b.loading
            &&& b.outbox == a.outbox.push(JobModel::Reload)
            &&& b.status matches Some(s) && s.level == Level::Good && s.lines.len() == 3 && says(
                s.lines[0],
                "#"@ + dec(outcome.seq as nat) + " · "@ + dec(outcome.written as nat)
                    + " files written, "@ + dec(outcome.removed as nat) + " removed"@,
            )
        }),
{
    let b = a.apply(ReplyModel::Restored { req: a.restore_req, outcome });
    lemma_restored_first(
        dec(outcome.seq as nat),
        dec(outcome.written as nat),
        dec(outcome.removed as nat),
    );
}

proof fn lemma_restored_first(seq: Seq<char>, written: Seq<char>, removed: Seq<char>)
    ensures
        says(
            "restored to #"@ + seq + " · "@ + written + " files written, "@ + removed
                + " removed"@,
            "#"@ + seq + " · "@ + written + " files written, "@ + removed + " removed"@,
        ),
{
    reveal_strlit("restored to #");
    reveal_strlit("restored to ");
    reveal_strlit("#");
    let text = "restored to #"@ + seq + " · "@ + written + " files written, "@ + removed
        + " removed"@;
    let piece = "#"@ + seq + " · "@ + written + " files written, "@ + removed + " removed"@;
    assert("restored to #"@ =~= "restored to "@ + "#"@);
    assert(text =~= "restored to "@ + piece + Seq::<char>::empty());
    lemma_says(text, "restored to "@, piece, Seq::empty());
}

/// What is said of a restore names the turn to go to for undoing it, and says of
/// the agent exactly what happened: told in its pane, not told because telling is
/// off, not told and why, or not reached and why.
pub proof fn law_what_is_said_of_a_restore(o: OutcomeModel)
    ensures
        restored_text(o).len() == 3,
        o.checkpoint matches Some(cp) ==> says(
            restored_text(o)[1],
            "turn #"@ + dec(cp as nat) + " "@,
        ) && says(restored_text(o)[1], "`sheep restore #"@ + dec(cp as nat) + " --yes`"@),
        o.notice matches NoticeModel::Sent(pane) ==> says(restored_text(o)[2], pane),
        o.notice is Off ==> restored_text(o)[2]
            == "the agent was not told (notify is off — press n)"@,
        o.notice matches NoticeModel::Skipped(why) ==> restored_text(o)[2]
            == "the agent was not told: "@ + why,
        o.notice matches NoticeModel::Failed(why) ==> restored_text(o)[2]
            == "could not tell the agent: "@ + why,
{
    if let Some(cp) = o.checkpoint {
        lemma_undo_line(dec(cp as nat));
    }
    if let NoticeModel::Sent(pane) = o.notice {
        lemma_says(
            restored_text(o)[2],
            "the agent in pane "@,
            pane,
            " was told what was taken back"@,
        );
    }
}

proof fn lemma_undo_line(n: Seq<char>)
    ensures
        says(
            "the tree you had is turn #"@ + n + " — press enter on it, or `sheep restore #"@ + n
                + " --yes`"@,
            "turn #"@ + n + " "@,
        ),
        says(
            "the tree you had is turn #"@ + n + " — press enter on it, or `sheep restore #"@ + n
                + " --yes`"@,
            "`sheep restore #"@ + n + " --yes`"@,
        ),
{
    reveal_strlit("the tree you had is turn #");
    reveal_strlit("the tree you had is ");
    reveal_strlit("turn #");
    reveal_strlit(" ");
    reveal_strlit(" — press enter on it, or `sheep restore #");
    reveal_strlit(" — press enter on it, or ");
    reveal_strlit("— press enter on it, or `sheep restore #");
    reveal_strlit("`sheep restore #");
    let text = "the tree you had is turn #"@ + n + " — press enter on it, or `sheep restore #"@ + n
        + " --yes`"@;
    assert("the tree you had is turn #"@ =~= "the tree you had is "@ + "turn #"@);
    assert(" — press enter on it, or `sheep restore #"@ =~= " — press enter on it, or "@
        + "`sheep restore #"@);
    assert(" — press enter on it, or `sheep restore #"@ =~= " "@
        + "— press enter on it, or `sheep restore #"@);
    let first = "turn #"@ + n + " "@;
    let after = "— press enter on it, or `sheep restore #"@ + n + " --yes`"@;
    assert(text =~= "the tree you had is "@ + first + after);
    lemma_says(text, "the tree you had is "@, first, after);
    let second = "`sheep restore #"@ + n + " --yes`"@;
    let before = "the tree you had is turn #"@ + n + " — press enter on it, or "@;
    assert(text =~= before + second + Seq::<char>::empty());
    lemma_says(text, before, second, Seq::empty());
}

/// What broke off says which of two things holds: the files are as they were, or
/// they are between two states. Either way the reason is on screen, as bad news.
pub proof fn law_a_restore_that_failed_is_told(a: AppModel, message: Seq<char>, tree_moved: bool)
    ensures
        ({
            let b = a.apply(
                ReplyModel::RestoreFailed { req: a.restore_req, message, tree_moved },
            );
            &&& b.status matches Some(s) && s.level == Level::Bad && s.lines == seq![
                if tree_moved {
                    "the restore stopped partway — your files are between two states"@
                } else {
                    "the restore did not happen — your files are as they were"@
                },
                message,
            ]
            &&& tree_moved ==> b.loading && b.outbox == a.outbox.push(JobModel::Reload)
            &&& !tree_moved ==> b.loading == a.loading
            &&& b.mode == a.mode
        }),
{
}

/// A worker that ends in the middle of a restore leaves the tree uncertain; one
/// that ends at rest does not. Nothing goes on waiting for it.
pub proof fn law_a_worker_that_ends(a: AppModel)
    ensures
        ({
            let b = a.worker_lost();
            &&& !b.restoring && !b.loading
            &&& a.restoring ==> b.uncertain is Some
            &&& !a.restoring ==> b.uncertain == a.uncertain
            &&& !(b.plan is Loading) && !(b.plan is Ready)
            &&& a.plan is Idle <==> b.plan is Idle
            &&& b.status matches Some(s) && s.level == Level::Bad && s.lines.len() == 1
                && s.lines[0] == a.lost_text()
            &&& a.plan matches PlanStateModel::Ready(plan) ==> b.plan == (PlanStateModel::Failed {
                seq: plan.seq,
                message: a.lost_text(),
            })
            &&& b.outbox == a.outbox && b.turns == a.turns && b.quit == a.quit
        }),
{
}

/// The clock moves the time on screen and the spinner, and nothing else.
pub proof fn law_the_clock_only_ticks(a: AppModel, now: u64)
    ensures
        a.tick(now).now == now,
        a.spinner < usize::MAX ==> a.tick(now) == (AppModel {
            now,
            spinner: (a.spinner + 1) as usize,
            ..a
        }),
{
}

/// The message to an agent says where its tree went, how much changed on disk
/// and in which way, and how to come back.
pub proof fn law_the_agent_is_told_what_changed(
    seq: u64,
    commit: Seq<char>,
    written: nat,
    removed: nat,
    checkpoint: Option<u64>,
)
    ensures
        says(
            rewind_text(seq, commit, written, removed, checkpoint),
            "rewound to turn #"@ + dec(seq as nat) + " ("@,
        ),
        says(
            rewind_text(seq, commit, written, removed, checkpoint),
            dec(written + removed) + " path(s) changed on disk: "@ + dec(written) + " rewritten, "@
                + dec(removed) + " deleted"@,
        ),
        checkpoint matches Some(cp) ==> says(
            rewind_text(seq, commit, written, removed, checkpoint),
            "`sheep restore #"@ + dec(cp as nat) + " --yes` puts it back"@,
        ),
{
    let tail = match checkpoint {
        Some(cp) => " The state from just before the rewind was kept as turn #"@ + dec(cp as nat)
            + "; `sheep restore #"@ + dec(cp as nat) + " --yes` puts it back."@,
        None => ""@,
    };
    lemma_rewound(
        dec(seq as nat),
        crate::strings::within(commit, 12),
        dec(written + removed),
        dec(written),
        dec(removed),
        tail,
    );
    if let Some(cp) = checkpoint {
        let n = dec(cp as nat);
        let head = "[sheep] Your working tree was rewound to turn #"@ + dec(seq as nat) + " ("@
            + crate::strings::within(commit, 12) + "). "@ + dec(written + removed)
            + " path(s) changed on disk: "@ + dec(written) + " rewritten, "@ + dec(removed)
            + " deleted. Anything you wrote after turn #"@ + dec(seq as nat)
            + " is no longer on disk — re-read any file before you edit it, and do not re-apply the reverted changes unless you are asked to."@;
        lemma_rewound_back(head, n);
    }
}

proof fn lemma_rewound(
    n: Seq<char>,
    commit: Seq<char>,
    all: Seq<char>,
    written: Seq<char>,
    removed: Seq<char>,
    tail: Seq<char>,
)
    ensures
        ({
            let text = "[sheep] Your working tree was rewound to turn #"@ + n + " ("@ + commit
                + "). "@ + all + " path(s) changed on disk: "@ + written + " rewritten, "@ + removed
                + " deleted. Anything you wrote after turn #"@ + n
                + " is no longer on disk — re-read any file before you edit it, and do not re-apply the reverted changes unless you are asked to."@
                + tail;
            &&& says(text, "rewound to turn #"@ + n + " ("@)
            &&& says(
                text,
                all + " path(s) changed on disk: "@ + written + " rewritten, "@ + removed
                    + " deleted"@,
            )
        }),
{
    reveal_strlit("[sheep] Your working tree was rewound to turn #");
    reveal_strlit("[sheep] Your working tree was ");
    reveal_strlit("rewound to turn #");
    reveal_strlit(" deleted. Anything you wrote after turn #");
    reveal_strlit(" deleted");
    reveal_strlit(". Anything you wrote after turn #");
    assert("[sheep] Your working tree was rewound to turn #"@ =~= "[sheep] Your working tree was "@
        + "rewound to turn #"@);
    assert(" deleted. Anything you wrote after turn #"@ =~= " deleted"@
        + ". Anything you wrote after turn #"@);
    let close = " is no longer on disk — re-read any file before you edit it, and do not re-apply the reverted changes unless you are asked to."@;
    let text = "[sheep] Your working tree was rewound to turn #"@ + n + " ("@ + commit + "). "@
        + all + " path(s) changed on disk: "@ + written + " rewritten, "@ + removed
        + " deleted. Anything you wrote after turn #"@ + n + close + tail;
    let second = all + " path(s) changed on disk: "@ + written + " rewritten, "@ + removed
        + " deleted"@;
    let before = "[sheep] Your working tree was rewound to turn #"@ + n + " ("@ + commit + "). "@;
    let after = ". Anything you wrote after turn #"@ + n + close + tail;
    assert(text =~= before + second + after);
    lemma_says(text, before, second, after);
    let first = "rewound to turn #"@ + n + " ("@;
    let rest = commit + "). "@ + second + after;
    assert(text =~= "[sheep] Your working tree was "@ + first + rest);
    lemma_says(text, "[sheep] Your working tree was "@, first, rest);
}

proof fn lemma_rewound_back(head: Seq<char>, n: Seq<char>)
    ensures
        says(
            head + (" The state from just before the rewind was kept as turn #"@ + n
                + "; `sheep restore #"@ + n + " --yes` puts it back."@),
            "`sheep restore #"@ + n + " --yes` puts it back"@,
        ),
{
    reveal_strlit("; `sheep restore #");
    reveal_strlit("; ");
    reveal_strlit("`sheep restore #");
    reveal_strlit(" --yes` puts it back.");
    reveal_strlit(" --yes` puts it back");
    reveal_strlit(".");
    assert("; `sheep restore #"@ =~= "; "@ + "`sheep restore #"@);
    assert(" --yes` puts it back."@ =~= " --yes` puts it back"@ + "."@);
    let text = head + (" The state from just before the rewind was kept as turn #"@ + n
        + "; `sheep restore #"@ + n + " --yes` puts it back."@);
    let before = head + " The state from just before the rewind was kept as turn #"@ + n + "; "@;
    let piece = "`sheep restore #"@ + n + " --yes` puts it back"@;
    assert(text =~= before + piece + "."@);
    lemma_says(text, before, piece, "."@);
}

} // verus!
