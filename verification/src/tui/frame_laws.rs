//! What a whole frame is made of, and what stands in each of its parts.
use vstd::prelude::*;

use crate::store::TurnModel;
use crate::strings::{dec, join, within};
use crate::tui::app::{AppModel, Key, Mode, PatchStateModel, PlanStateModel};
use crate::tui::dock::{asked, banner_of, fitting_facts, header_of, status_of, timeline_of};
use crate::tui::engine::{others_of, signed, PlanModel};
use crate::tui::render::{
    dock_of, dock_parts_of, frame_of, halves, help_of, middle_of, rewind_of,
    rewind_parts_of,
};
use crate::tui::rewind::{
    counts_of, file_list_of, footer_of, headline_of, id_of, overlay, patch_body, patch_of,
    patch_style, patch_title, plan_body_of, question_of, side_by_side, subtitle_of,
};
use crate::tui::rows::spinning;
use crate::tui::scene::{cells, PaintModel, Part, Rect};
use crate::tui::text::{age_of, padded, truncated, wrapped};

verus! {

/// A frame is the timeline, and over it the plan or the keys where they are
/// open; a start that failed is all there is.
pub proof fn law_a_frame_is_the_screen_that_is_open(
    a: AppModel,
    area: Rect,
    dock: Seq<Rect>,
    parts: Seq<Rect>,
    both: Seq<Rect>,
    bars: Seq<(usize, usize)>,
)
    ensures
        ({
            let frame = frame_of(a, area, dock, parts, both, bars);
            let under = dock_of(a, area, dock, bars);
            &&& a.fatal is Some ==> frame.len() == 1 && (frame[0] matches PaintModel::Text {
                area: on,
                ..
            } && on == area)
            &&& a.fatal is None && a.mode == Mode::Dock ==> frame == under
            &&& a.fatal is None && a.mode == Mode::Rewind ==> frame == under + rewind_of(
                a,
                area,
                parts,
                both,
            )
            &&& a.fatal is None && a.mode == Mode::Help ==> frame == under + help_of(area)
        }),
{
    let under = dock_of(a, area, dock, bars);
    assert(under + Seq::<PaintModel>::empty() =~= under);
}

/// The timeline screen is cut into a head of two rows, the warning, the
/// timeline with what room is left, the last word, and one row of keys; warning
/// and last word have just the rows they need.
pub proof fn law_the_timeline_screen_has_five_parts(a: AppModel, width: u16)
    ensures
        ({
            let parts = dock_parts_of(a, width);
            let room: nat = if width <= 2 {
                0
            } else {
                (width - 2) as nat
            };
            &&& parts.len() == 5
            &&& parts[0] == Part::Length(2)
            &&& parts[1] == Part::Length(banner_of(a, room).len() as u16)
            &&& parts[2] is Min
            &&& parts[3] == Part::Length(status_of(a.status, room).len() as u16)
            &&& parts[4] == Part::Length(1)
        }),
{
}

/// Each part of the timeline screen is painted into its own area: the head
/// first, the keys last, the warning and the last word only where there are any.
pub proof fn law_each_part_is_painted_in_its_place(
    a: AppModel,
    area: Rect,
    parts: Seq<Rect>,
    bars: Seq<(usize, usize)>,
)
    requires
        parts.len() == 5,
    ensures
        ({
            let painted = dock_of(a, area, parts, bars);
            let room: nat = if area.width <= 2 {
                0
            } else {
                (area.width - 2) as nat
            };
            let warned = banner_of(a, room).len() > 0;
            let noted = status_of(a.status, room).len() > 0;
            let at: int = if warned {
                2
            } else {
                1
            };
            &&& painted.len() == 4 + (if warned {
                1int
            } else {
                0
            }) + (if noted {
                1int
            } else {
                0
            })
            &&& painted[0] matches PaintModel::Text { area: on, rows, .. } && on == parts[0] && rows
                == header_of(a, parts[0].width as nat)
            &&& warned ==> (painted[1] matches PaintModel::Text { area: on, rows, .. } && on
                == parts[1] && rows == banner_of(a, room))
            &&& painted.subrange(at, at + 2) == timeline_of(a, parts[2], bars)
            &&& noted ==> (painted[at + 2] matches PaintModel::Text { area: on, rows, .. } && on
                == parts[3] && rows == status_of(a.status, room))
            &&& painted.last() matches PaintModel::Text { area: on, .. } && on == parts[4]
        }),
{
    let painted = dock_of(a, area, parts, bars);
    let room: nat = if area.width <= 2 {
        0
    } else {
        (area.width - 2) as nat
    };
    let at: int = if banner_of(a, room).len() > 0 {
        2
    } else {
        1
    };
    let line = timeline_of(a, parts[2], bars);
    assert(line.len() == 2);
    assert(painted.subrange(at, at + 2) =~= line);
}

/// The head names the repository and the state it is in, and below it as many
/// facts as fit, the first of them always.
pub proof fn law_the_head_keeps_the_first_fact(facts: Seq<Seq<char>>, width: nat)
    requires
        facts.len() > 0,
    ensures
        fitting_facts(facts, width).len() > 0,
        fitting_facts(facts, width).is_prefix_of(facts),
        fitting_facts(facts, width).len() > 1 ==> join(fitting_facts(facts, width), " · "@).len()
            <= width,
        join(facts, " · "@).len() <= width ==> fitting_facts(facts, width) == facts,
    decreases facts.len(),
{
    if facts.len() > 1 && join(facts, " · "@).len() > width {
        law_the_head_keeps_the_first_fact(facts.drop_last(), width);
        let kept = fitting_facts(facts, width);
        assert(kept =~= facts.drop_last().take(kept.len() as int));
        assert(kept =~= facts.take(kept.len() as int));
    } else {
        assert(facts.take(facts.len() as int) =~= facts);
    }
}

/// The head of the timeline screen holds the name of the repository, whole where
/// there is room for it.
pub proof fn law_the_head_names_the_repository(a: AppModel, width: nat)
    ensures
        header_of(a, width).len() == 2,
        header_of(a, width)[0].len() > 3,
        header_of(a, width)[0][2].text == truncated(
            a.repo,
            if width <= 11 + cells(crate::tui::dock::health_of(a)) {
                0
            } else {
                (width - 11 - cells(crate::tui::dock::health_of(a))) as nat
            },
        ),
        header_of(a, width)[0][2].style.bold,
{
}

/// A plan is drawn over what it covers: the area is cleared first, and the
/// border, the headline, the files and the question of what to do follow.
pub proof fn law_a_plan_covers_what_is_under_it(
    a: AppModel,
    area: Rect,
    parts: Seq<Rect>,
    both: Seq<Rect>,
)
    requires
        parts.len() == 3,
    ensures
        ({
            let painted = rewind_of(a, area, parts, both);
            let rect = overlay(area);
            &&& painted.len() >= 4
            &&& painted[0] == PaintModel::Clear(rect)
            &&& painted[1] matches PaintModel::Border { area: on, .. } && on == rect
            &&& painted[2] matches PaintModel::Text { area: on, rows, .. } && on == parts[0] && rows
                == headline_of(a, rect.within_border().width as nat)
            &&& painted.last() matches PaintModel::Text { area: on, rows, .. } && on == parts[2]
                && rows == footer_of(a, rect.within_border().width as nat)
            &&& painted.subrange(3, painted.len() - 1) == middle_of(
                a,
                parts[1],
                rect.within_border().width as nat,
                both,
            )
        }),
{
    let painted = rewind_of(a, area, parts, both);
    let middle = middle_of(a, parts[1], overlay(area).within_border().width as nat, both);
    assert(painted.subrange(3, painted.len() - 1) =~= middle);
}

/// The plan screen is cut so that its headline and its question have the rows
/// they need, and the files the rest; where the change is beside the files, they
/// share the width forty-two to fifty-eight.
pub proof fn law_the_plan_screen_has_three_parts(a: AppModel, width: u16)
    ensures
        rewind_parts_of(a, width).len() == 3,
        rewind_parts_of(a, width)[0] == Part::Length(headline_of(a, width as nat).len() as u16),
        rewind_parts_of(a, width)[1] is Min,
        rewind_parts_of(a, width)[2] == Part::Length(footer_of(a, width as nat).len() as u16),
        halves() == seq![Part::Percentage(42), Part::Percentage(58)],
{
}

/// The middle of a plan is what there is of it: the files of one that is ready,
/// the reason of one that failed, a word of patience for one on its way, and
/// nothing for none.
pub proof fn law_the_middle_shows_what_became_of_the_plan(
    a: AppModel,
    area: Rect,
    width: nat,
    both: Seq<Rect>,
)
    requires
        both.len() == 2,
    ensures
        a.plan is Idle <==> middle_of(a, area, width, both).len() == 0,
        a.plan matches PlanStateModel::Ready(plan) ==> middle_of(a, area, width, both)
            == plan_body_of(a, plan, area, both),
        a.plan matches PlanStateModel::Failed { message, .. } ==> (middle_of(a, area, width, both)[0]
            matches PaintModel::Text { area: on, rows, .. } && on == area && rows.len() == 1
            + wrapped(
            message,
            if width <= 2 {
                0
            } else {
                (width - 2) as nat
            },
        ).len()),
{
}

/// A ready plan lists its files; with the change open, the change stands beside
/// them where there is room for both, and in their place where there is not.
pub proof fn law_the_change_stands_beside_the_files(
    a: AppModel,
    plan: PlanModel,
    area: Rect,
    both: Seq<Rect>,
)
    requires
        both.len() == 2,
        plan.files.len() > 0,
    ensures
        side_by_side(a, area) <==> a.show_patch && area.width >= 88,
        !a.show_patch ==> plan_body_of(a, plan, area, both) == seq![file_list_of(a, plan, area)],
        a.show_patch && area.width >= 88 ==> plan_body_of(a, plan, area, both).len() == 3
            && plan_body_of(a, plan, area, both)[0] == file_list_of(a, plan, both[0])
            && plan_body_of(a, plan, area, both).skip(1) == patch_of(a, both[1]),
        a.show_patch && area.width < 88 ==> plan_body_of(a, plan, area, both) == patch_of(a, area),
{
    if a.show_patch && area.width >= 88 {
        assert(plan_body_of(a, plan, area, both).skip(1) =~= patch_of(a, both[1]));
    }
}

/// The change is headed by the path it is of, scrolled to where it was scrolled
/// to, and its rows are its lines, each in the colour of what happened to it.
pub proof fn law_the_change_is_shown_line_by_line(a: AppModel, area: Rect, i: int)
    ensures
        patch_of(a, area).len() == 2,
        patch_of(a, area)[0] matches PaintModel::Border { area: on, .. } && on == area,
        patch_of(a, area)[1] matches PaintModel::Text { rows, scroll, .. } && scroll
            == a.patch_scroll && rows == patch_body(a, area.width as nat),
        a.patch matches PatchStateModel::Ready { path, body } ==> patch_title(a.patch) == path
            && patch_body(a, area.width as nat).len() == crate::strings::lines(body).len() && (0
            <= i < crate::strings::lines(body).len() ==> patch_body(a, area.width as nat)[i].len()
            == 1 && patch_body(a, area.width as nat)[i][0].text == crate::strings::lines(body)[i]
            && patch_body(a, area.width as nat)[i][0].style == patch_style(
            crate::strings::lines(body)[i],
        )),
        a.patch matches PatchStateModel::Loading(path) ==> patch_title(a.patch) == path,
        a.patch matches PatchStateModel::Failed { path, .. } ==> patch_title(a.patch) == path,
{
}

/// The headline of a plan says how old its turn is, whose it is and of what
/// kind, and under it what was asked, or else what was noted.
pub proof fn law_the_headline_is_the_turns(a: AppModel, t: TurnModel, width: nat)
    requires
        a.selected() == Some(t),
    ensures
        subtitle_of(a) == join(
            match t.agent {
                Some(agent) => seq![
                    age_of(a.now, t.at),
                    agent,
                    crate::tui::rows::kind_name(t.kind, false),
                ],
                None => seq![age_of(a.now, t.at), crate::tui::rows::kind_name(t.kind, false)],
            },
            " · "@,
        ),
        asked(t) matches Some(p) ==> question_of(Some(t), width).len() == 1 && question_of(
            Some(t),
            width,
        )[0][0].text == truncated("“"@ + p + "”"@, width),
        asked(t) is None ==> (t.note matches Some(n) ==> question_of(Some(t), width).len() == 1
            && question_of(Some(t), width)[0][0].text == truncated(n, width)),
        asked(t) is None && t.note is None ==> question_of(Some(t), width).len() == 0,
        headline_of(a, width).len() >= 2,
        headline_of(a, width)[0][0].text == "back to #"@ + dec(t.seq as nat) + "  "@,
        width >= 58 && !(a.plan is Ready) ==> id_of(a, width) == within(t.commit, 12),
        a.plan matches PlanStateModel::Ready(plan) ==> (width >= 58 ==> id_of(a, width) == within(
            plan.commit,
            12,
        )),
        width < 58 ==> id_of(a, width).len() == 0,
        headline_of(a, width)[1 + question_of(Some(t), width).len() as int] == counts_of(a.plan, width),
{
    match t.agent {
        Some(agent) => {
            assert(seq![age_of(a.now, t.at), agent].push(crate::tui::rows::kind_name(t.kind, false))
                =~= seq![age_of(a.now, t.at), agent, crate::tui::rows::kind_name(t.kind, false)]);
        },
        None => {
            assert(seq![age_of(a.now, t.at)].push(crate::tui::rows::kind_name(t.kind, false))
                =~= seq![age_of(a.now, t.at), crate::tui::rows::kind_name(t.kind, false)]);
        },
    }
}

/// The other timelines of a worktree are all but the one that is open.
pub proof fn law_the_other_timelines_are_all_but_this(
    lines: Seq<Seq<char>>,
    own: Seq<char>,
    l: Seq<char>,
)
    ensures
        others_of(lines, own).contains(l) <==> lines.contains(l) && l != own,
    decreases lines.len(),
{
    reveal(Seq::filter);
    if lines.len() > 0 {
        let before = lines.drop_last();
        law_the_other_timelines_are_all_but_this(before, own, l);
        let kept = others_of(before, own);
        let all = others_of(lines, own);
        assert(all == if lines.last() != own {
            kept.push(lines.last())
        } else {
            kept
        });
        if kept.contains(l) {
            let k = choose|k: int| 0 <= k < kept.len() && kept[k] == l;
            assert(all[k] == l);
        }
        if before.contains(l) {
            let k = choose|k: int| 0 <= k < before.len() && before[k] == l;
            assert(lines[k] == l);
        }
        if lines.contains(l) {
            let k = choose|k: int| 0 <= k < lines.len() && lines[k] == l;
            if k < before.len() {
                assert(before[k] == l);
            } else if l != own {
                assert(all[all.len() - 1] == l);
            }
        }
        if all.contains(l) {
            let k = choose|k: int| 0 <= k < all.len() && all[k] == l;
            if k < kept.len() {
                assert(kept[k] == l);
            } else {
                assert(lines[lines.len() - 1] == l);
            }
        }
    }
}

/// A timeline has news when it has another number of turns or another newest
/// commit than when it was last looked at.
pub proof fn law_news_are_another_length_or_another_newest(
    a: Seq<TurnModel>,
    b: Seq<TurnModel>,
)
    requires
        a.len() > 0,
        b.len() > 0,
    ensures
        signed(a) == signed(b) <==> a.len() == b.len() && a[0].commit == b[0].commit,
{
}

/// The spinner has four faces, one after the other.
pub proof fn law_the_spinner_goes_round(step: usize)
    requires
        step < usize::MAX - 4,
    ensures
        spinning((step + 4) as usize) == spinning(step),
        spinning((step + 1) as usize) != spinning(step),
        spinning((step + 2) as usize) != spinning(step),
{
    reveal_strlit("⠋");
    reveal_strlit("⠙");
    reveal_strlit("⠹");
    reveal_strlit("⠸");
    assert("⠋"@[0] == '⠋' && "⠙"@[0] == '⠙' && "⠹"@[0] == '⠹' && "⠸"@[0] == '⠸');
}

/// The keys that a screen offers are keys that it has: what they say is what
/// they do there.
pub proof fn law_the_keys_that_are_offered_work(a: AppModel, width: nat)
    requires
        a.fatal is None,
        !a.restoring,
        a.mode == Mode::Dock,
    ensures
        ({
            let offered = crate::tui::render::dock_keys();
            &&& offered.len() == 6
            &&& offered[0] == ("j/k"@, "move"@)
            &&& offered[1] == ("enter"@, "rewind"@)
            &&& offered[2] == ("?"@, "keys"@) && a.on_key(Key::Char('?')).mode == Mode::Help
            &&& offered[3] == ("q"@, "quit"@) && a.on_key(Key::Char('q')).quit
            &&& offered[4] == ("n"@, "notify"@) && a.on_key(Key::Char('n')).notify == !a.notify
            &&& offered[5] == ("r"@, "refresh"@) && a.on_key(Key::Char('r')).loading
        }),
        crate::tui::render::help_rows(width).len() >= 11,
        crate::tui::render::help_rows(width)[5][1].text == padded("shift+R"@, 9),
        crate::tui::render::help_rows(width)[5][2].text == "restore — only from a plan on screen"@,
        crate::tui::render::help_rows(width)[8][1].text == padded("esc"@, 9),
        crate::tui::render::help_rows(width)[9][1].text == padded("q"@, 9),
{
}

/// What a key that does nothing yet says, and that telling was turned on or off.
pub proof fn law_a_key_without_effect_says_why(a: AppModel, key: Key)
    requires
        a.fatal is None,
    ensures
        a.restoring && key != Key::Char('q') && key != Key::Char('Q') ==> a.on_key(key) == a.told(
            "keys are ignored until the restore finishes"@,
        ),
        !a.restoring && a.mode == Mode::Rewind && (a.plan matches PlanStateModel::Ready(plan)
            && plan.files.len() == 0) ==> a.on_key(Key::Char('R')) == a.told(
            "the working tree already matches this turn — nothing to do"@,
        ),
        !a.restoring && a.mode == Mode::Rewind && !(a.plan is Ready) ==> a.on_key(Key::Char('R'))
            == a.told("wait for the plan before restoring"@),
        !a.restoring && a.mode == Mode::Rewind ==> a.on_key(Key::Char('r')) == a.told(
            "press shift+R to restore — lower-case r is refresh"@,
        ),
        !a.restoring && a.mode != Mode::Help && a.notify ==> a.on_key(Key::Char('n')).status
            == a.told("the agent will not be told about a rewind"@).status,
        !a.restoring && a.mode != Mode::Help && !a.notify ==> a.on_key(Key::Char('n')).status
            == a.told("the agent will be told what a rewind took back"@).status,
{
}

} // verus!
