//! What holds of every frame.
use crate::tui::app::{AppModel, PlanStateModel, StatusModel};
use crate::tui::dock::status_of;
use crate::tui::engine::PlanModel;
use crate::tui::render::promise;
use crate::tui::rewind::{
    entries, footer_of, notice_of, offer, path_of, ready_of, selected_entry, sentence,
};
use crate::tui::rows::{cost, fitting, hinted, keyed, led_row, pinned, ruled};
use crate::tui::scene::{bare, cells, lemma_cells_add, less, run, SpanModel};
use crate::tui::text::{repeated, wrapped};
use crate::tui::theme::{faint, label, shade, Color, Style};
use vstd::prelude::*;
use vstd::string::*;

verus! {

// ---------------------------------------------------------------------- widths

/// Content pinned to both edges fills the row exactly, where it fits at all.
pub proof fn law_a_pinned_row_fills_its_width(
    width: nat,
    left: Seq<SpanModel>,
    right: Seq<SpanModel>,
)
    requires
        cells(left) + cells(right) <= width,
    ensures
        cells(pinned(width, left, right)) == width,
{
    let gap = bare(repeated(' ', (width - cells(left) - cells(right)) as nat));
    let start = left.push(gap);
    assert(start.drop_last() =~= left);
    lemma_cells_add(start, right);
}

proof fn lemma_keyed_cells(pairs: Seq<(Seq<char>, Seq<char>)>)
    ensures
        cells(keyed(pairs)) == cost(pairs),
    decreases pairs.len(),
{
    if pairs.len() > 0 {
        let shorter = pairs.drop_last();
        lemma_keyed_cells(shorter);
        reveal_strlit(" · ");
        reveal_strlit(" ");
        let before = if pairs.len() > 1 {
            keyed(shorter).push(run(" · "@, faint()))
        } else {
            keyed(shorter)
        };
        assert(pairs.len() > 1 ==> before.drop_last() =~= keyed(shorter));
        let one = before.push(run(pairs.last().0, shade(None, true)));
        assert(one.drop_last() =~= before);
        let two = one.push(run(" "@ + pairs.last().1, faint()));
        assert(two.drop_last() =~= one);
        assert(keyed(pairs) == two);
        assert(cells(before) == cells(keyed(shorter)) + if pairs.len() > 1 {
            3nat
        } else {
            0
        });
        assert(cells(one) == cells(before) + pairs.last().0.len());
        assert((" "@ + pairs.last().1).len() == 1 + pairs.last().1.len());
        assert(cells(two) == cells(one) + 1 + pairs.last().1.len());
    }
}

proof fn lemma_fitting_fits(width: nat, pairs: Seq<(Seq<char>, Seq<char>)>)
    ensures
        fitting(width, pairs) <= pairs.len(),
        cost(pairs.take(fitting(width, pairs) as int)) <= width,
    decreases pairs.len(),
{
    let n = fitting(width, pairs);
    if pairs.len() == 0 {
        assert(pairs.take(0) =~= pairs);
    } else {
        let shorter = pairs.drop_last();
        lemma_fitting_fits(width, shorter);
        if n == pairs.len() {
            assert(pairs.take(n as int) =~= pairs);
        } else {
            assert(pairs.take(n as int) =~= shorter.take(n as int));
        }
    }
}

/// A row of keys is never wider than the room it was given.
pub proof fn law_hints_never_overflow(width: nat, pairs: Seq<(Seq<char>, Seq<char>)>)
    ensures
        cells(hinted(width, pairs)) <= width,
{
    lemma_fitting_fits(width, pairs);
    lemma_keyed_cells(pairs.take(fitting(width, pairs) as int));
}

/// A status never takes more than nine rows, so that it cannot push the
/// timeline off the screen.
pub proof fn law_a_status_is_short(status: Option<StatusModel>, width: nat)
    ensures
        status_of(status, width).len() <= 9,
{
}

// ------------------------------------------------------------------ the promises

/// Whether a row has a badge on it.
pub open spec fn has_badge(row: Seq<SpanModel>) -> bool {
    exists|k: int| 0 <= k < row.len() && (#[trigger] row[k]).style == label()
}

/// Whether a block has a badge on any of its rows.
pub open spec fn badged(rows: Seq<Seq<SpanModel>>) -> bool {
    exists|i: int| 0 <= i < rows.len() && has_badge(#[trigger] rows[i])
}

proof fn lemma_unbadged_add(a: Seq<Seq<SpanModel>>, b: Seq<Seq<SpanModel>>)
    requires
        !badged(a),
        !badged(b),
    ensures
        !badged(a + b),
{
    assert forall|i: int| 0 <= i < (a + b).len() implies !has_badge(#[trigger] (a + b)[i]) by {
        if i < a.len() {
            assert((a + b)[i] == a[i]);
        } else {
            assert((a + b)[i] == b[i - a.len()]);
        }
    }
}

proof fn lemma_sentence_unbadged(said: Seq<char>, style: Style, width: nat)
    requires
        style != label(),
    ensures
        !badged(sentence(said, style, width)),
{
    let chunks = wrapped(said, less(width as int, 1) as nat);
    let rows = sentence(said, style, width);
    assert forall|i: int| 0 <= i < rows.len() implies !has_badge(#[trigger] rows[i]) by {
        assert(rows[i] == led_row(chunks[i], None, " "@, style));
    }
}

proof fn lemma_keyed_unbadged(pairs: Seq<(Seq<char>, Seq<char>)>)
    ensures
        !has_badge(keyed(pairs)),
    decreases pairs.len(),
{
    if pairs.len() > 0 {
        lemma_keyed_unbadged(pairs.drop_last());
        let row = keyed(pairs);
        let before = keyed(pairs.drop_last());
        assert forall|k: int| 0 <= k < row.len() implies (#[trigger] row[k]).style != label() by {
            if k < before.len() {
                assert(row[k] == before[k]);
            }
        }
    }
}

/// The restore key is offered exactly where a plan that would change something
/// is on screen and nothing is being restored: the badge that carries it is in
/// the footer then, and in no other footer.
pub proof fn law_the_restore_key_needs_a_plan(a: AppModel, width: nat)
    ensures
        badged(footer_of(a, width)) <==> !a.restoring && (a.plan matches PlanStateModel::Ready(plan)
            && plan.files.len() > 0),
{
    let rule = seq![ruled(width)];
    assert forall|i: int| 0 <= i < rule.len() implies !has_badge(#[trigger] rule[i]) by {}
    if a.restoring {
        let first = sentence(
            crate::tui::rows::spinning(a.spinner)
                + " checkpointing the tree you have, then restoring…"@,
            shade(Some(Color::Cyan), true),
            width,
        );
        lemma_sentence_unbadged(
            crate::tui::rows::spinning(a.spinner)
                + " checkpointing the tree you have, then restoring…"@,
            shade(Some(Color::Cyan), true),
            width,
        );
        lemma_unbadged_add(rule, first);
        if a.quit {
            let said =
                "finishing this before quitting — killing the window now would leave a tree that is neither state."@;
            lemma_sentence_unbadged(said, shade(Some(Color::Red), true), width);
            lemma_unbadged_add(rule + first, sentence(said, shade(Some(Color::Red), true), width));
        } else {
            let said = "keys are ignored until it finishes."@;
            lemma_sentence_unbadged(said, faint(), width);
            lemma_unbadged_add(rule + first, sentence(said, faint(), width));
        }
    } else {
        match a.plan {
            PlanStateModel::Ready(plan) if plan.files.len() > 0 => {
                let rows = ready_of(a, plan, width);
                let last = rows.last();
                assert(last == offer(width));
                assert(last[0].style == label());
                assert(has_badge(rows[rows.len() - 1]));
            },
            _ => {
                let pairs = seq![("esc"@, "back"@), ("j/k"@, "move"@), ("q"@, "quit"@)];
                lemma_keyed_unbadged(pairs.take(fitting(width, pairs) as int));
                let rows = footer_of(a, width);
                assert forall|i: int| 0 <= i < rows.len() implies !has_badge(#[trigger] rows[i]) by {
                    if i == 0 {
                        assert(rows[0] == rule[0]);
                    } else {
                        assert(rows[1] == hinted(width, pairs));
                    }
                }
            },
        }
    }
}

/// The footer promises that the agent will be told only where telling is on,
/// there is a session to reach it through, and its pane is known; and it warns
/// in every other case.
pub proof fn law_the_promise_to_tell_is_true(notify: bool, inside: bool, pane: Option<Seq<char>>)
    ensures
        notice_of(notify, inside, pane).1 == shade(Some(Color::Cyan), false) <==> notify && inside
            && pane is Some,
        notice_of(notify, inside, pane).1 == shade(Some(Color::Yellow), false) <==> !(notify
            && inside && pane is Some),
{
}

/// The border promises a dry run only while nothing is being written and no
/// write was left half done.
pub proof fn law_the_border_never_lies(a: AppModel)
    ensures
        promise(a) == run(" dry run — nothing is written yet "@, faint()) <==> !a.restoring
            && a.uncertain is None,
{
}

// ----------------------------------------------------------------- the file list

proof fn lemma_entries_grow(plan: PlanModel, sel: usize, room: nat, m: nat, n: nat)
    requires
        m <= n,
    ensures
        entries(plan, sel, room, m).len() <= entries(plan, sel, room, n).len(),
        entries(plan, sel, room, m).is_prefix_of(entries(plan, sel, room, n)),
    decreases n,
{
    if m < n {
        lemma_entries_grow(plan, sel, room, m, (n - 1) as nat);
        let before = entries(plan, sel, room, (n - 1) as nat);
        let after = entries(plan, sel, room, n);
        assert(before =~= after.take(before.len() as int));
        assert(entries(plan, sel, room, m) =~= after.take(
            entries(plan, sel, room, m).len() as int,
        ));
    }
}

/// Every path that a restore would touch is on the list before anything is
/// written, marked with what would happen to it.
pub proof fn law_every_path_is_listed(plan: PlanModel, sel: usize, room: nat, i: int)
    requires
        0 <= i < plan.files.len(),
    ensures
        entries(plan, sel, room, plan.files.len()).contains(
            path_of(plan.files[i], i == sel, room),
        ),
{
    let upto = entries(plan, sel, room, (i + 1) as nat);
    let all = entries(plan, sel, room, plan.files.len());
    lemma_entries_grow(plan, sel, room, (i + 1) as nat, plan.files.len());
    let k = upto.len() - 1;
    assert(upto[k] == path_of(plan.files[i], i == sel, room));
    assert(all[k] == upto[k]);
}

/// The entry that is kept in sight is that of the selected path.
pub proof fn law_the_selected_path_is_in_sight(plan: PlanModel, sel: usize, room: nat)
    requires
        sel < plan.files.len(),
    ensures
        selected_entry(plan, sel, room) < entries(plan, sel, room, plan.files.len()).len(),
        entries(plan, sel, room, plan.files.len())[selected_entry(plan, sel, room) as int]
            == path_of(plan.files[sel as int], true, room),
{
    let upto = entries(plan, sel, room, (sel + 1) as nat);
    lemma_entries_grow(plan, sel, room, (sel + 1) as nat, plan.files.len());
    assert(upto.last() == path_of(plan.files[sel as int], true, room));
    assert(entries(plan, sel, room, plan.files.len())[upto.len() - 1] == upto[upto.len() - 1]);
}

} // verus!
