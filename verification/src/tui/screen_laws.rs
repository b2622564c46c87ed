//! What each part of the screen tells of what it is drawn from.
use vstd::prelude::*;

use crate::store::{TurnKind, TurnModel};
use crate::strings::{dec, dec_wide, lemma_says, says, within};
use crate::tui::app::{AppModel, FatalModel, Level, PlanStateModel, StatusModel};
use crate::tui::dock::{
    banner_of, busiest, change_of, changed, facts_of, health_of, identity_of, slots_in, status_of,
    status_rows, timeline_of, turn_of,
};
use crate::tui::engine::{Action, PlanModel};
use crate::tui::render::{fatal_rows, help_area, promise, rewind_title};
use crate::tui::rewind::{counts_of, entries, notice_of, overlay, patch_style, path_of};
use crate::tui::rows::{counted, kind_name};
use crate::tui::scene::{PaintModel, Rect, SpanModel};
use crate::tui::text::{
    age_of, padded, short_age_of, split_blocks, stamp_of, tail_of, truncated, wrapped,
};
use crate::tui::theme::{Color, Style};

verus! {

/// Green, or another colour, and perhaps bold, and nothing else.
pub open spec fn in_colour(style: Style, colour: Color) -> bool {
    style.fg == Some(colour) && !style.dim && !style.italic && !style.reversed
}

/// The word at the top says whether the worktree is safe: red where it is not,
/// green only where nothing is in the way, known or unknown.
pub proof fn law_the_state_at_the_top_is_true(a: AppModel)
    ensures
        health_of(a).len() > 0,
        a.uncertain is Some ==> health_of(a)[0].text == "unsafe"@ && in_colour(
            health_of(a)[0].style,
            Color::Red,
        ),
        a.uncertain is None && !a.loading && a.blockers.len() > 0 ==> health_of(a)[0].text
            == "blocked"@ && in_colour(health_of(a)[0].style, Color::Red),
        in_colour(health_of(a)[0].style, Color::Green) <==> a.uncertain is None && !a.loading
            && a.blockers.len() == 0,
        a.uncertain is None && !a.loading && a.blockers.len() == 0 ==> health_of(a)[0].text
            == "ready"@ && (health_of(a).len() == 2 <==> a.warnings.len() > 0),
{
}

/// The line under it names the timeline, counts its turns, and says whether the
/// agent will be told.
pub proof fn law_the_facts_are_the_timelines(a: AppModel, width: nat)
    ensures
        ({
            let facts = facts_of(a, width);
            &&& facts.len() == if a.turns.len() > 0 {
                4nat
            } else {
                3nat
            }
            &&& facts[0] == "timeline "@ + a.line
            &&& facts[1] == if a.turns.len() == 1 {
                "1 turn"@
            } else {
                dec(a.turns.len()) + " turns"@
            }
            &&& !a.inside_herdr ==> facts.last() == "standalone"@
            &&& a.inside_herdr && a.notify ==> facts.last() == "notify on"@
            &&& a.inside_herdr && !a.notify ==> facts.last() == "notify off"@
        }),
{
    law_counting_words(a.turns.len());
}

/// One of a thing is one; of none or many the word has an `s`.
pub proof fn law_counting_words(n: nat)
    ensures
        counted(1, "turn"@) == "1 turn"@,
        counted(1, "file"@) == "1 file"@,
        n != 1 ==> counted(n, "turn"@) == dec(n) + " turns"@,
        n != 1 ==> counted(n, "file"@) == dec(n) + " files"@,
{
    reveal_strlit("1 ");
    reveal_strlit("turn");
    reveal_strlit("1 turn");
    reveal_strlit("file");
    reveal_strlit("1 file");
    reveal_strlit(" ");
    reveal_strlit("s");
    reveal_strlit(" turns");
    reveal_strlit(" files");
    assert("1 "@ + "turn"@ =~= "1 turn"@);
    assert("1 "@ + "file"@ =~= "1 file"@);
    assert(" "@ + "turn"@ + "s"@ =~= " turns"@);
    assert(" "@ + "file"@ + "s"@ =~= " files"@);
    assert(dec(n) + " "@ + "turn"@ + "s"@ =~= dec(n) + (" "@ + "turn"@ + "s"@));
    assert(dec(n) + " "@ + "file"@ + "s"@ =~= dec(n) + (" "@ + "file"@ + "s"@));
}

/// The warning above the timeline stands exactly where the tree is between two
/// states or something is in the way, in red; a tree between two states comes
/// first, and the reason is under it.
pub proof fn law_the_warning_stands_where_it_must(a: AppModel, width: nat)
    ensures
        banner_of(a, width).len() > 0 <==> a.uncertain is Some || a.blockers.len() > 0,
        banner_of(a, width).len() <= 5,
        a.uncertain is Some ==> says(
            banner_of(a, width)[0][1].text,
            "this worktree is between two states"@,
        ),
        a.uncertain is None && a.blockers.len() > 0 ==> says(
            banner_of(a, width)[0][1].text,
            "cannot record or restore"@,
        ),
        banner_of(a, width).len() > 0 ==> in_colour(banner_of(a, width)[0][1].style, Color::Red),
        a.uncertain matches Some(why) ==> forall|i: int|
            #![trigger banner_of(a, width)[i]]
            1 <= i < banner_of(a, width).len() ==> banner_of(a, width)[i][1].text == " "@ + wrapped(
                why,
                if width <= 2 {
                    0
                } else {
                    (width - 2) as nat
                },
            )[i - 1],
        a.uncertain is None && a.blockers.len() > 0 ==> forall|i: int|
            #![trigger banner_of(a, width)[i]]
            1 <= i < banner_of(a, width).len() ==> banner_of(a, width)[i][1].text == " "@ + wrapped(
                a.blockers[0],
                if width <= 2 {
                    0
                } else {
                    (width - 2) as nat
                },
            )[i - 1],
{
    let b = banner_of(a, width);
    if a.uncertain is Some || a.blockers.len() > 0 {
        assert(b.len() > 0);
        let heading = if a.uncertain is Some {
            "this worktree is between two states"@
        } else {
            "cannot record or restore"@
        };
        assert(b[0][1].text == " "@ + heading + " "@);
        lemma_says(b[0][1].text, " "@, heading, " "@);
    }
}

/// What happened last is said in its own colour: green for good, red for bad,
/// with room for more of what is bad.
pub proof fn law_the_last_word_has_its_colour(s: StatusModel, width: nat)
    ensures
        status_of(None, width).len() == 0,
        forall|i: int|
            #![trigger status_of(Some(s), width)[i]]
            0 <= i < status_of(Some(s), width).len() ==> {
                let style = status_of(Some(s), width)[i][0].style;
                &&& s.level == Level::Good ==> in_colour(style, Color::Green)
                &&& s.level == Level::Bad ==> in_colour(style, Color::Red)
                &&& s.level == Level::Info ==> in_colour(style, Color::Cyan)
            },
        s.level == Level::Bad ==> status_of(Some(s), width).len() <= 9,
        s.level != Level::Bad ==> status_of(Some(s), width).len() <= 3,
        s.lines.len() == 1 && width > 2 && wrapped(s.lines[0], (width - 2) as nat).len() == 1 ==> {
            &&& status_of(Some(s), width).len() == 1
            &&& status_of(Some(s), width)[0][1].text == " "@ + wrapped(
                s.lines[0],
                (width - 2) as nat,
            )[0]
        },
{
    let bar = match s.level {
        Level::Good => crate::tui::theme::shade(Some(Color::Green), true),
        Level::Bad => crate::tui::theme::shade(Some(Color::Red), true),
        Level::Info => crate::tui::theme::shade(Some(Color::Cyan), false),
    };
    let first = if s.level == Level::Info {
        crate::tui::theme::shade(None, false)
    } else {
        bar
    };
    lemma_barred(s.lines, width, bar, first);
    if s.lines.len() == 1 && width > 2 && wrapped(s.lines[0], (width - 2) as nat).len() == 1 {
        assert(s.lines.drop_last() =~= Seq::<Seq<char>>::empty());
        assert(status_rows(s.lines.drop_last(), width, bar, first) =~= Seq::<Seq<SpanModel>>::empty());
    }
}

proof fn lemma_barred(lines: Seq<Seq<char>>, width: nat, bar: Style, first: Style)
    ensures
        forall|i: int|
            #![trigger status_rows(lines, width, bar, first)[i]]
            0 <= i < status_rows(lines, width, bar, first).len() ==> status_rows(
                lines,
                width,
                bar,
                first,
            )[i][0].style == bar,
    decreases lines.len(),
{
    if lines.len() > 0 {
        lemma_barred(lines.drop_last(), width, bar, first);
    }
}

/// The bar of a turn is measured against the busiest turn: the most lines added
/// and removed together, of any turn that is shown.
pub proof fn law_the_busiest_turn_is_the_measure(turns: Seq<TurnModel>)
    requires
        turns.len() > 0,
        forall|i: int|
            0 <= i < turns.len() ==> (#[trigger] turns[i]).insertions + turns[i].deletions
                <= u64::MAX,
    ensures
        forall|i: int|
            0 <= i < turns.len() ==> (#[trigger] turns[i]).insertions + turns[i].deletions
                <= busiest(turns),
        exists|i: int|
            0 <= i < turns.len() && (#[trigger] turns[i]).insertions + turns[i].deletions == busiest(
                turns,
            ),
    decreases turns.len(),
{
    let rest = turns.drop_last();
    assert(turns.last() == turns[turns.len() - 1]);
    assert(changed(turns.last()) == turns.last().insertions + turns.last().deletions);
    if rest.len() > 0 {
        assert forall|i: int| 0 <= i < rest.len() implies (#[trigger] rest[i]).insertions
            + rest[i].deletions <= u64::MAX by {
            assert(rest[i] == turns[i]);
        }
        law_the_busiest_turn_is_the_measure(rest);
        assert forall|i: int| 0 <= i < turns.len() implies (#[trigger] turns[i]).insertions
            + turns[i].deletions <= busiest(turns) by {
            if i < rest.len() {
                assert(rest[i] == turns[i]);
            }
        }
        if changed(turns.last()) <= busiest(rest) {
            let k = choose|i: int|
                0 <= i < rest.len() && (#[trigger] rest[i]).insertions + rest[i].deletions
                    == busiest(rest);
            assert(turns[k] == rest[k]);
        }
    } else {
        assert(turns.len() == 1);
        assert(busiest(rest) == 0);
    }
}

/// A wider timeline has a longer bar; a narrow one has none.
pub proof fn law_bars_grow_with_the_room(a: nat, b: nat)
    requires
        a <= b,
    ensures
        slots_in(a) <= slots_in(b),
        slots_in(a) <= 12,
        a < 30 <==> slots_in(a) == 0,
        30 <= a < 40 <==> slots_in(a) == 5,
        40 <= a < 52 <==> slots_in(a) == 8,
        a >= 52 <==> slots_in(a) == 12,
{
}

/// The first row of a turn gives its number, what kind of turn it is in the
/// colour of that kind, its agent, and how long ago it was.
pub proof fn law_a_turn_is_told_by_its_first_row(
    t: TurnModel,
    selected: bool,
    now: u64,
    avail: nat,
)
    ensures
        ({
            let row = identity_of(t, selected, now, avail);
            let name = if avail < 46 {
                match t.kind {
                    TurnKind::Turn => "turn"@,
                    TurnKind::Checkpoint => "ckpt"@,
                    TurnKind::Manual => "man"@,
                }
            } else {
                match t.kind {
                    TurnKind::Turn => "turn"@,
                    TurnKind::Checkpoint => "checkpoint"@,
                    TurnKind::Manual => "manual"@,
                }
            };
            &&& row.len() == 5
            &&& row[0].text == padded(
                "#"@ + dec(t.seq as nat),
                if avail < 46 {
                    4
                } else {
                    5
                },
            )
            &&& row[1].text == padded(
                name,
                if avail < 46 {
                    5
                } else {
                    11
                },
            )
            &&& in_colour(
                row[1].style,
                match t.kind {
                    TurnKind::Turn => Color::Cyan,
                    TurnKind::Checkpoint => Color::Yellow,
                    TurnKind::Manual => Color::Blue,
                },
            )
            &&& row[2].style.bold == selected
            &&& avail < 46 ==> row[4].text == short_age_of(now, t.at)
            &&& 46 <= avail < 62 ==> row[4].text == age_of(now, t.at)
            &&& avail >= 62 && t.commit.len() >= 8 ==> row[4].text == t.commit.take(8) + " · "@
                + age_of(now, t.at)
            &&& t.agent is None ==> row[2].text.len() == 0
            &&& t.agent matches Some(agent) ==> (agent.len() + 1 + row[0].text.len()
                + row[1].text.len() + row[4].text.len() <= avail ==> row[2].text == agent)
        }),
{
    crate::tui::text::law_padding_is_exact(
        "#"@ + dec(t.seq as nat),
        if avail < 46 {
            4
        } else {
            5
        },
    );
    crate::tui::text::law_padding_is_exact(
        kind_name(t.kind, avail < 46),
        if avail < 46 {
            5
        } else {
            11
        },
    );
    if t.commit.len() == 8 {
        assert(t.commit.take(8) =~= t.commit);
    }
}

/// The second row counts files, and what was added in green and what was
/// removed in red, each behind its sign; the first turn of a timeline says that
/// it is the start, and one without a change says so.
pub proof fn law_a_turn_counts_its_change(t: TurnModel, avail: nat, bar: (usize, usize))
    ensures
        ({
            let row = change_of(t, avail, bar);
            &&& t.parent is Some && t.files > 0 ==> {
                &&& row.len() == 9
                &&& row[1].text == counted(t.files as nat, "file"@)
                &&& row[3].text == "+"@ + dec(t.insertions as nat)
                &&& in_colour(row[3].style, Color::Green)
                &&& row[5].text == "−"@ + dec(t.deletions as nat)
                &&& in_colour(row[5].style, Color::Red)
                &&& row[7].text.len() == bar.0 && in_colour(row[7].style, Color::Green)
                &&& row[8].text.len() == bar.1 && in_colour(row[8].style, Color::Red)
            }
            &&& t.parent is None ==> row.len() == 2 && row[1].text == truncated(
                counted(t.files as nat, "file"@) + " captured — the starting point"@,
                if avail <= 2 {
                    0
                } else {
                    (avail - 2) as nat
                },
            )
            &&& t.parent is Some && t.files == 0 ==> row.len() == 2 && row[1].text == truncated(
                "no change since the previous turn"@,
                if avail <= 2 {
                    0
                } else {
                    (avail - 2) as nat
                },
            )
        }),
{
}

/// Only the turn under the cursor has the mark in front of its rows, and only it
/// tells its commit and its date. A prompt is shown in quotes, and the note of a
/// turn only where there is no prompt.
pub proof fn law_the_turn_under_the_cursor_is_marked(
    t: TurnModel,
    selected: bool,
    now: u64,
    width: nat,
    bar: (usize, usize),
)
    ensures
        ({
            let rows = turn_of(t, selected, now, width, bar);
            let room: nat = if width <= 1 {
                0
            } else {
                (width - 1) as nat
            };
            &&& rows.len() >= 2
            &&& forall|i: int|
                #![trigger rows[i]]
                0 <= i < rows.len() ==> rows[i][0].text == if selected {
                    "▌"@
                } else {
                    " "@
                }
            &&& selected ==> rows.last()[1].text == truncated(
                "  "@ + within(t.commit, 12) + " · "@ + stamp_of(t.at),
                room,
            )
            &&& crate::tui::dock::asked(t) matches Some(p) ==> rows.len() > 2 && rows[2][1].text
                == truncated("  “"@ + p + "”"@, room)
            &&& crate::tui::dock::asked(t) is None ==> (t.note matches Some(n) ==> rows.len() > 2
                && rows[2][1].text == truncated("  "@ + n, room))
            &&& crate::tui::dock::asked(t) is None && t.note is None ==> rows.len() == if selected {
                3nat
            } else {
                2nat
            }
        }),
{
}

/// The timeline shows every turn, the one under the cursor as such, and which of
/// how many it is.
pub proof fn law_the_timeline_shows_every_turn(
    a: AppModel,
    area: Rect,
    bars: Seq<(usize, usize)>,
)
    requires
        a.turns.len() > 0,
        bars.len() == a.turns.len(),
    ensures
        ({
            let painted = timeline_of(a, area, bars);
            &&& painted.len() == 2
            &&& painted[1] matches PaintModel::List { items, selected, .. } && selected == a.sel
                && items.len() == a.turns.len() && forall|i: int|
                #![trigger items[i]]
                0 <= i < items.len() ==> items[i] == turn_of(
                    a.turns[i],
                    i == a.sel,
                    a.now,
                    if area.width <= 2 {
                        0
                    } else {
                        (area.width - 2) as nat
                    },
                    bars[i],
                )
            &&& painted[0] matches PaintModel::Border { bottom, .. } && bottom matches Some(b)
                && b.text == " "@ + dec((a.sel + 1) as nat) + "/"@ + dec(a.turns.len()) + " "@
        }),
{
}

/// An age is told in the largest unit that fits, in whole ones: seconds below a
/// minute, then minutes, hours, days and weeks.
pub proof fn law_an_age_is_in_whole_units(now: u64, at: u64, n: nat)
    requires
        at <= now,
    ensures
        now - at < 5 ==> age_of(now, at) == "just now"@ && short_age_of(now, at) == "now"@,
        5 <= now - at < 60 ==> short_age_of(now, at) == dec((now - at) as nat) + "s"@,
        60 <= now - at < 60 * 60 && n * 60 <= now - at < (n + 1) * 60 ==> short_age_of(now, at)
            == dec(n) + "m"@,
        60 * 60 <= now - at < 24 * 60 * 60 && n * 3_600 <= now - at < (n + 1) * 3_600
            ==> short_age_of(now, at) == dec(n) + "h"@,
        24 * 60 * 60 <= now - at < 7 * 24 * 60 * 60 && n * 86_400 <= now - at < (n + 1) * 86_400
            ==> short_age_of(now, at) == dec(n) + "d"@,
        7 * 24 * 60 * 60 <= now - at && n * 604_800 <= now - at < (n + 1) * 604_800
            ==> short_age_of(now, at) == dec(n) + "w"@,
        now - at >= 5 ==> age_of(now, at) == short_age_of(now, at) + " ago"@,
        age_of(at, now) == if now == at {
            age_of(at, at)
        } else {
            "just now"@
        },
{
}

/// A moment is told to the minute, in hours of a day of twenty-four, behind its
/// date.
pub proof fn law_a_moment_is_told_to_the_minute(day: u64, hour: u64, minute: u64, second: u64)
    requires
        day <= 0x7fff_ffff,
        hour < 24,
        minute < 60,
        second < 60,
    ensures
        ({
            let at = day * 86_400 + hour * 3_600 + minute * 60 + second;
            let (y, m, d) = crate::calendar::date_at(day as nat);
            stamp_of(at as u64) == dec_wide(y, 4) + "-"@ + dec_wide(m, 2) + "-"@ + dec_wide(d, 2)
                + " "@ + dec_wide(hour as nat, 2) + ":"@ + dec_wide(minute as nat, 2) + " UTC"@
        }),
{
    let at = (day * 86_400 + hour * 3_600 + minute * 60 + second) as u64;
    let secs = (hour * 3_600 + minute * 60 + second) as nat;
    assert(at / 86_400 == day && at % 86_400 == secs) by (nonlinear_arith)
        requires
            at == day * 86_400 + secs,
            secs < 86_400,
            0 <= day,
    ;
    assert(secs / 3_600 == hour && (secs % 3_600) / 60 == minute) by (nonlinear_arith)
        requires
            secs == hour * 3_600 + minute * 60 + second,
            minute < 60,
            second < 60,
    ;
}

/// What is too long is cut at its end and says so with one mark; a path is cut
/// at its front, so that its end is always there. Padding only adds blanks
/// behind.
pub proof fn law_what_is_cut_says_so(s: Seq<char>, max: nat)
    requires
        max > 0,
    ensures
        s.len() > max ==> truncated(s, max).len() == max && truncated(s, max).last() == '…' && s.take(
            max - 1,
        ) == truncated(s, max).drop_last(),
        s.len() > max ==> tail_of(s, max).len() == max && tail_of(s, max)[0] == '…' && tail_of(
            s,
            max,
        ).drop_first() == s.skip(s.len() - max + 1),
        s.len() <= max ==> s.is_prefix_of(padded(s, max)) && forall|i: int|
            s.len() <= i < max ==> padded(s, max)[i] == ' ',
{
    reveal_strlit("…");
    if s.len() > max {
        assert(truncated(s, max).drop_last() =~= s.take(max - 1));
        assert(tail_of(s, max).drop_first() =~= s.skip(s.len() - max + 1));
    } else {
        assert(padded(s, max).take(s.len() as int) =~= s);
    }
}

/// The green part of a bar is the share that was worked out for it, unless one
/// side of the change would then not be seen at all; a bar of one block is green.
pub proof fn law_the_green_part_is_its_share(
    insertions: nat,
    deletions: nat,
    filled: nat,
    share: nat,
)
    requires
        insertions > 0,
        deletions > 0,
        0 < filled,
    ensures
        0 < share < filled ==> split_blocks(insertions, deletions, filled, share) == (
            share,
            (filled - share) as nat,
        ),
        share == 0 ==> split_blocks(insertions, deletions, filled, share) == (
            1nat,
            (filled - 1) as nat,
        ),
        share >= filled && filled > 1 ==> split_blocks(insertions, deletions, filled, share) == (
            (filled - 1) as nat,
            1nat,
        ),
        filled == 1 ==> split_blocks(insertions, deletions, filled, share) == (1nat, 0nat),
{
}

/// A plan counts its files, those that are written in green and those that are
/// removed in red.
pub proof fn law_a_plan_counts_both_ways(plan: PlanModel, width: nat)
    requires
        plan.files.len() > 0,
    ensures
        ({
            let row = counts_of(PlanStateModel::Ready(plan), width);
            let k: int = if width >= 46 {
                2
            } else {
                1
            };
            &&& row.len() == k + 3
            &&& says(row[0].text, dec(plan.files.len()) + " path"@)
            &&& says(row[k].text, dec(plan.written as nat) + " writ"@)
            &&& in_colour(row[k].style, Color::Green)
            &&& says(row[k + 2].text, dec(plan.removed as nat) + " remove"@)
            &&& in_colour(row[k + 2].style, Color::Red)
        }),
{
    reveal_strlit(" path");
    reveal_strlit(" paths change");
    reveal_strlit("s change");
    reveal_strlit(" paths  ");
    reveal_strlit("s  ");
    reveal_strlit(" writ");
    reveal_strlit(" written");
    reveal_strlit("ten");
    reveal_strlit(" write");
    reveal_strlit("e");
    reveal_strlit(" remove");
    reveal_strlit(" removed");
    reveal_strlit("d");
    assert(" paths change"@ =~= " path"@ + "s change"@);
    assert(" paths  "@ =~= " path"@ + "s  "@);
    assert(" written"@ =~= " writ"@ + "ten"@);
    assert(" write"@ =~= " writ"@ + "e"@);
    assert(" removed"@ =~= " remove"@ + "d"@);
    let row = counts_of(PlanStateModel::Ready(plan), width);
    let none = Seq::<char>::empty();
    let n = dec(plan.files.len());
    let w = dec(plan.written as nat);
    let r = dec(plan.removed as nat);
    if width >= 46 {
        assert(n + " paths change"@ =~= none + (n + " path"@) + "s change"@);
        lemma_says(row[0].text, none, n + " path"@, "s change"@);
        assert(w + " written"@ =~= none + (w + " writ"@) + "ten"@);
        lemma_says(row[2].text, none, w + " writ"@, "ten"@);
        assert(r + " removed"@ =~= none + (r + " remove"@) + "d"@);
        lemma_says(row[4].text, none, r + " remove"@, "d"@);
    } else {
        assert(n + " paths  "@ =~= none + (n + " path"@) + "s  "@);
        lemma_says(row[0].text, none, n + " path"@, "s  "@);
        assert(w + " write"@ =~= none + (w + " writ"@) + "e"@);
        lemma_says(row[1].text, none, w + " writ"@, "e"@);
        assert(r + " remove"@ =~= none + (r + " remove"@) + none);
        lemma_says(row[3].text, none, r + " remove"@, none);
    }
}

/// A file of a plan stands behind a green plus where it will be written, and
/// behind a red minus where it will be removed; the end of its path is shown.
pub proof fn law_a_path_shows_what_becomes_of_it(path: Seq<char>, on: bool, room: nat)
    ensures
        ({
            let written = path_of((Action::Write, path), on, room)[0];
            let removed = path_of((Action::Remove, path), on, room)[0];
            &&& written[1].text == "+ "@ && in_colour(written[1].style, Color::Green)
            &&& removed[1].text == "− "@ && in_colour(removed[1].style, Color::Red)
            &&& path.len() <= room && room > 0 ==> written[2].text == path && removed[2].text
                == path
            &&& on ==> written[0].text == "▌"@ && removed[0].text == "▌"@
            &&& !on ==> written[0].text == " "@ && removed[0].text == " "@
        }),
{
}

/// The files that will be written stand under a heading that counts them.
pub proof fn law_what_is_written_is_headed(plan: PlanModel, sel: usize, room: nat, n: nat)
    requires
        plan.written > 0,
        n <= plan.files.len(),
    ensures
        entries(plan, sel, room, n).len() > 0,
        entries(plan, sel, room, n)[0].len() == 1,
        entries(plan, sel, room, n)[0][0][1].text == "will be written ("@ + dec(plan.written as nat)
            + ")"@,
    decreases n,
{
    reveal_strlit("will be written (");
    reveal_strlit("will be written");
    reveal_strlit(" (");
    assert("will be written"@ + " ("@ =~= "will be written ("@);
    assert("will be written"@ + " ("@ + dec(plan.written as nat) + ")"@ =~= "will be written ("@
        + dec(plan.written as nat) + ")"@);
    if n > 0 {
        law_what_is_written_is_headed(plan, sel, room, (n - 1) as nat);
    }
}

/// The files that will be removed stand under a heading that counts them,
/// directly in front of the first of them.
pub proof fn law_what_is_removed_is_headed(plan: PlanModel, sel: usize, room: nat)
    requires
        plan.written < plan.files.len(),
        plan.files[plan.written as int].0 == Action::Remove,
    ensures
        ({
            let shown = entries(plan, sel, room, (plan.written + 1) as nat);
            &&& shown.len() >= 2
            &&& shown[shown.len() - 2][0][1].text == "will be removed ("@ + dec(
                plan.removed as nat,
            ) + ")"@
            &&& shown.last() == path_of(
                plan.files[plan.written as int],
                plan.written == sel,
                room,
            )
        }),
{
    reveal_strlit("will be removed (");
    reveal_strlit("will be removed");
    reveal_strlit(" (");
    assert("will be removed"@ + " ("@ + dec(plan.removed as nat) + ")"@ =~= "will be removed ("@
        + dec(plan.removed as nat) + ")"@);
}

/// A line of a change is green where it was added, red where it was removed and
/// cyan where a hunk begins; the rest of a file is plain.
pub proof fn law_a_changed_line_has_its_colour(line: Seq<char>)
    requires
        line.len() > 1,
    ensures
        line[0] == '+' && line[1] != '+' ==> in_colour(patch_style(line), Color::Green),
        line[0] == '-' && line[1] != '-' ==> in_colour(patch_style(line), Color::Red),
        line[0] == '@' && line[1] == '@' ==> in_colour(patch_style(line), Color::Cyan),
        line[0] == ' ' ==> patch_style(line).fg is None && !patch_style(line).dim,
{
    reveal_strlit("@@");
    reveal_strlit("+++");
    reveal_strlit("---");
    reveal_strlit("diff ");
    reveal_strlit("index ");
    reveal_strlit("new file");
    reveal_strlit("deleted file");
    reveal_strlit("similarity");
    reveal_strlit("+");
    reveal_strlit("-");
    assert("@@"@[0] == '@' && "+++"@[0] == '+' && "+++"@[1] == '+' && "---"@[0] == '-' && "---"@[1]
        == '-');
    assert("diff "@[0] == 'd' && "index "@[0] == 'i' && "new file"@[0] == 'n' && "deleted file"@[0]
        == 'd' && "similarity"@[0] == 's');
    assert("+"@[0] == '+' && "-"@[0] == '-');
    assert(line[0] == '+' ==> line.take(1) =~= "+"@);
    assert(line[0] == '-' ==> line.take(1) =~= "-"@);
    assert(line[0] == '@' && line[1] == '@' ==> line.take(2) =~= "@@"@);
    assert("+"@.is_prefix_of(line) <==> line[0] == '+');
    assert("-"@.is_prefix_of(line) <==> line[0] == '-');
}

/// Before a restore is confirmed, the screen names the pane of the agent that
/// will be told.
pub proof fn law_the_pane_to_be_told_is_named(pane: Seq<char>)
    ensures
        says(notice_of(true, true, Some(pane)).0, pane),
        says(notice_of(true, true, Some(pane)).0, " will be told"@),
        says(notice_of(false, true, Some(pane)).0, "will NOT be told"@),
{
    reveal_strlit(" will be told what was taken back.");
    reveal_strlit(" will be told");
    reveal_strlit(" what was taken back.");
    reveal_strlit("the agent will NOT be told what changed (n turns this back on).");
    reveal_strlit("the agent ");
    reveal_strlit("will NOT be told");
    reveal_strlit(" what changed (n turns this back on).");
    let text = notice_of(true, true, Some(pane)).0;
    lemma_says(text, "the agent in pane "@, pane, " will be told what was taken back."@);
    assert(" will be told what was taken back."@ =~= " will be told"@ + " what was taken back."@);
    assert(text =~= ("the agent in pane "@ + pane) + " will be told"@ + " what was taken back."@);
    lemma_says(text, "the agent in pane "@ + pane, " will be told"@, " what was taken back."@);
    let off = notice_of(false, true, Some(pane)).0;
    assert(off =~= "the agent "@ + "will NOT be told"@ + " what changed (n turns this back on)."@);
    lemma_says(off, "the agent "@, "will NOT be told"@, " what changed (n turns this back on)."@);
}

/// The title of a plan is the number of the turn that it is for, whatever has
/// become of it.
pub proof fn law_the_title_names_the_turn(plan: PlanModel, seq: u64, message: Seq<char>)
    ensures
        says(rewind_title(PlanStateModel::Ready(plan)), "#"@ + dec(plan.seq as nat) + " "@),
        says(rewind_title(PlanStateModel::Loading(seq)), "#"@ + dec(seq as nat) + " "@),
        says(
            rewind_title(PlanStateModel::Failed { seq, message }),
            "#"@ + dec(seq as nat) + " "@,
        ),
{
    lemma_titled(dec(plan.seq as nat));
    lemma_titled(dec(seq as nat));
}

proof fn lemma_titled(n: Seq<char>)
    ensures
        says(" rewind to #"@ + n + " "@, "#"@ + n + " "@),
{
    reveal_strlit(" rewind to #");
    reveal_strlit(" rewind to ");
    reveal_strlit("#");
    assert(" rewind to #"@ =~= " rewind to "@ + "#"@);
    let text = " rewind to #"@ + n + " "@;
    let piece = "#"@ + n + " "@;
    assert(text =~= " rewind to "@ + piece + Seq::<char>::empty());
    lemma_says(text, " rewind to "@, piece, Seq::empty());
}

/// The border of a plan is red and says so while files are being written, and
/// where they are between two states.
pub proof fn law_the_border_warns(a: AppModel)
    ensures
        a.restoring ==> promise(a).text == " writing — do not interrupt "@ && in_colour(
            promise(a).style,
            Color::Red,
        ),
        !a.restoring && a.uncertain is Some ==> promise(a).text
            == " this worktree is between two states "@ && in_colour(promise(a).style, Color::Red),
{
}

/// The plan and the keys are drawn inside the screen.
pub proof fn law_overlays_stay_on_screen(area: Rect)
    requires
        area.fits(),
    ensures
        overlay(area).x == area.x && overlay(area).width == area.width,
        area.y <= overlay(area).y,
        overlay(area).y + overlay(area).height == area.y + area.height,
        area.height >= 14 ==> overlay(area).y == area.y + 2,
        area.height < 14 ==> overlay(area) == area,
        area.x <= help_area(area).x,
        help_area(area).x + help_area(area).width <= area.x + area.width,
        area.y <= help_area(area).y,
        help_area(area).y + help_area(area).height <= area.y + area.height,
        0 <= (area.width - help_area(area).width) - 2 * (help_area(area).x - area.x) <= 1,
        0 <= (area.height - help_area(area).height) - 2 * (help_area(area).y - area.y) <= 1,
        help_area(area).width <= 62,
        help_area(area).height <= 20,
        area.width < 56 ==> help_area(area).width == area.width,
        area.width >= 74 ==> help_area(area).width == 62,
        area.height >= 22 ==> help_area(area).height == 20,
{
}

/// A start that failed says what, why, and each thing to do about it.
pub proof fn law_a_failed_start_says_what_to_do(fatal: FatalModel, width: nat)
    ensures
        fatal_rows(fatal, width).len() >= 6,
        fatal_rows(fatal, width)[2][0].text == " "@ + fatal.headline,
        in_colour(fatal_rows(fatal, width)[2][0].style, Color::Red),
        forall|i: int|
            #![trigger wrapped(fatal.detail, width)[i]]
            0 <= i < wrapped(fatal.detail, width).len() ==> fatal_rows(fatal, width)[4 + i][0].text
                == " "@ + wrapped(fatal.detail, width)[i],
{
}

} // verus!
