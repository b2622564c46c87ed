//! The rewind view: the plan, the evidence for it, and what the next keystroke
//! does.
use crate::ops::short;
use crate::store::TurnModel;
use crate::strings::{
    dec, dec_of, join, join_with, lemma_texts_empty, lemma_texts_push, lines, lines_of, opt_text,
    owned, push_dec, starts_with, texts, within,
};
use crate::tui::app::{App, AppModel, PatchState, PatchStateModel, PlanState, PlanStateModel};
use crate::tui::dock::{asked, prompt, status_block, status_of};
use crate::tui::engine::{Action, PlanModel, PlanView};
use crate::tui::rows::{
    blank, blank_row, counted, edges, files, hinted, hints, kind_label, kind_name, led, led_rows,
    pairs_view, pinned, rule, ruled, spinner, spinning,
};
use crate::tui::scene::{
    bare, less, plain_text, run, Items, Line, Paint, PaintModel, Rect, Rows, Scene, Span,
    SpanModel,
};
use crate::tui::text::{self, age_of, tail_of, truncated, wrapped};
use crate::tui::theme::{self, faint, label, quoted, shade, Color, Style};
use vstd::prelude::*;
use vstd::string::*;

verus! {

/// Where the rewind view goes: the whole width, under the dock's header where
/// there is room for both.
pub open spec fn overlay(area: Rect) -> Rect {
    if area.height >= 14 {
        Rect { y: (area.y + 2) as u16, height: (area.height - 2) as u16, ..area }
    } else {
        area
    }
}

/// Where the rewind view goes. Keeping the header visible is enough to say
/// "still inside sheep"; an inset would leave slivers of the timeline.
pub fn overlay_rect(area: Rect) -> (r: Rect)
    requires
        area.fits(),
    ensures
        r == overlay(area),
{
    if area.height >= 14 {
        Rect { x: area.x, y: area.y + 2, width: area.width, height: area.height - 2 }
    } else {
        area
    }
}

/// When the turn happened, who produced it and what it is, in the order of what
/// survives being cut.
pub open spec fn subtitle_of(a: AppModel) -> Seq<char> {
    match a.selected() {
        None => Seq::empty(),
        Some(t) => join(
            (match t.agent {
                Some(agent) => seq![age_of(a.now, t.at), agent],
                None => seq![age_of(a.now, t.at)],
            }).push(kind_name(t.kind, false)),
            " · "@,
        ),
    }
}

fn subtitle(app: &App) -> (r: String)
    ensures
        r@ == subtitle_of(app@),
{
    broadcast use lemma_texts_push;

    match app.selected() {
        None => {
            let none: String = String::new();
            proof {
                assert(none@ =~= Seq::<char>::empty());
            }
            none
        },
        Some(t) => {
            let mut parts: Vec<String> = Vec::new();
            proof {
                lemma_texts_empty(parts@);
            }
            parts.push(text::age(app.now, t.at));
            if let Some(agent) = &t.agent {
                parts.push(agent.clone());
            }
            parts.push(owned(kind_label(t.kind, false)));
            proof {
                assert(app@.selected() == Some(t@));
                assert(texts(parts@) =~= (match t@.agent {
                    Some(agent) => seq![age_of(app.now, t.at), agent],
                    None => seq![age_of(app.now, t.at)],
                }).push(kind_name(t.kind, false)));
            }
            join_with(&parts, " · ")
        },
    }
}

/// The snapshot id, where there is room for it: of the plan on screen, or of
/// the selected turn.
pub open spec fn id_of(a: AppModel, width: nat) -> Seq<char> {
    if width < 58 {
        Seq::empty()
    } else {
        match a.plan {
            PlanStateModel::Ready(plan) => within(plan.commit, 12),
            _ => match a.selected() {
                Some(t) => within(t.commit, 12),
                None => Seq::empty(),
            },
        }
    }
}

fn id(app: &App, width: usize) -> (r: String)
    ensures
        r@ == id_of(app@, width as nat),
{
    let none: String = String::new();
    proof {
        assert(none@ =~= Seq::<char>::empty());
    }
    if width < 58 {
        return none;
    }
    match &app.plan {
        PlanState::Ready(plan) => short(plan.commit.as_str()),
        _ => match app.selected() {
            Some(t) => short(t.commit.as_str()),
            None => none,
        },
    }
}

/// How much a restore would change.
pub open spec fn counts_of(plan: PlanStateModel, width: nat) -> Seq<SpanModel> {
    match plan {
        PlanStateModel::Ready(p) => if p.files.len() == 0 {
            seq![
                run(
                    "the working tree already matches this turn"@,
                    shade(Some(Color::Yellow), false),
                ),
            ]
        } else if width >= 46 {
            seq![
                run(dec(p.files.len()) + " paths change"@, shade(None, true)),
                run("  —  "@, faint()),
                run(dec(p.written as nat) + " written"@, shade(Some(Color::Green), false)),
                run(" · "@, faint()),
                run(dec(p.removed as nat) + " removed"@, shade(Some(Color::Red), false)),
            ]
        } else {
            seq![
                run(dec(p.files.len()) + " paths  "@, shade(None, true)),
                run(dec(p.written as nat) + " write"@, shade(Some(Color::Green), false)),
                run(" · "@, faint()),
                run(dec(p.removed as nat) + " remove"@, shade(Some(Color::Red), false)),
            ]
        },
        PlanStateModel::Loading(_) => seq![run("planning…"@, faint())],
        PlanStateModel::Failed { .. } => seq![
            run("this turn cannot be restored"@, shade(Some(Color::Red), true)),
        ],
        PlanStateModel::Idle => blank(),
    }
}

/// A number and what it counts.
fn number(n: usize, noun: &str) -> (r: String)
    ensures
        r@ == dec(n as nat) + noun@,
{
    let mut t: String = dec_of(n as u64);
    t.append(noun);
    t
}

fn counts(plan: &PlanState, width: usize) -> (r: Line)
    ensures
        r@ == counts_of(plan@, width as nat),
{
    match plan {
        PlanState::Ready(p) => {
            if p.is_noop() {
                Line::of(Span::of("the working tree already matches this turn", theme::warn()))
            } else if width >= 46 {
                let mut line: Line = Line::of(
                    Span::styled(number(p.touched(), " paths change"), theme::strong()),
                );
                line.push(Span::of("  —  ", theme::dim()));
                line.push(Span::styled(number(p.written, " written"), theme::added()));
                line.push(Span::of(" · ", theme::dim()));
                line.push(Span::styled(number(p.removed, " removed"), theme::removed()));
                line
            } else {
                let mut line: Line = Line::of(
                    Span::styled(number(p.touched(), " paths  "), theme::strong()),
                );
                line.push(Span::styled(number(p.written, " write"), theme::added()));
                line.push(Span::of(" · ", theme::dim()));
                line.push(Span::styled(number(p.removed, " remove"), theme::removed()));
                line
            }
        },
        PlanState::Loading(_) => Line::of(Span::of("planning…", theme::dim())),
        PlanState::Failed { .. } => {
            Line::of(Span::of("this turn cannot be restored", theme::danger()))
        },
        PlanState::Idle => blank_row(),
    }
}

/// What the agent was asked, on the screen where it is decided whether to take
/// it back.
pub open spec fn question_of(t: Option<TurnModel>, width: nat) -> Seq<Seq<SpanModel>> {
    match t {
        None => Seq::empty(),
        Some(t) => match asked(t) {
            Some(p) => seq![seq![run(truncated("“"@ + p + "”"@, width), quoted())]],
            None => match t.note {
                Some(n) => seq![seq![run(truncated(n, width), faint())]],
                None => Seq::empty(),
            },
        },
    }
}

fn question(app: &App, width: usize) -> (r: Rows)
    ensures
        r@ == question_of(app@.selected(), width as nat),
{
    let mut rows: Rows = Rows::new();
    if let Some(t) = app.selected() {
        match prompt(t) {
            Some(p) => {
                let mut said: String = owned("“");
                said.append(p.as_str());
                said.append("”");
                rows.push(
                    Line::of(
                        Span::styled(text::truncate(said.as_str(), width), theme::quiet_italic()),
                    ),
                );
            },
            None => {
                if let Some(n) = &t.note {
                    rows.push(
                        Line::of(Span::styled(text::truncate(n.as_str(), width), theme::dim())),
                    );
                }
            },
        }
    }
    rows
}

/// The number of the selected turn.
pub open spec fn selected_seq(a: AppModel) -> u64 {
    match a.selected() {
        Some(t) => t.seq,
        None => 0,
    }
}

/// The rows above the file list.
pub open spec fn headline_of(a: AppModel, width: nat) -> Seq<Seq<SpanModel>> {
    let anchor = "back to #"@ + dec(selected_seq(a) as nat) + "  "@;
    let id = id_of(a, width);
    let room = less(width as int, (anchor.len() + id.len() + 2) as int) as nat;
    (seq![
        pinned(
            width,
            seq![
                run(anchor, shade(Some(Color::Cyan), true)),
                run(truncated(subtitle_of(a), room), faint()),
            ],
            seq![run(id, faint())],
        ),
    ] + question_of(a.selected(), width)).push(counts_of(a.plan, width)) + status_of(
        a.status,
        width,
    ) + seq![ruled(width)]
}

/// The rows above the file list: which turn, what was asked, how much changes,
/// and the last thing that happened. The overlay covers the dock's own status,
/// so a refusal has to be told here.
pub fn headline(app: &App, width: usize) -> (r: Rows)
    ensures
        r@ == headline_of(app@, width as nat),
{
    let seq: u64 = match app.selected() {
        Some(t) => t.seq,
        None => 0,
    };
    let mut anchor: String = owned("back to #");
    push_dec(&mut anchor, seq);
    anchor.append("  ");
    let id: String = id(app, width);
    let taken: usize = text::width(anchor.as_str()).saturating_add(
        text::width(id.as_str()),
    ).saturating_add(2);
    let about: String = text::truncate(subtitle(app).as_str(), width.saturating_sub(taken));
    let mut left: Line = Line::of(Span::styled(anchor, theme::accent_strong()));
    left.push(Span::styled(about, theme::dim()));
    let right: Line = Line::of(Span::styled(id, theme::dim()));
    proof {
        assert(left@ =~= seq![
            run(anchor@, shade(Some(Color::Cyan), true)),
            run(about@, faint()),
        ]);
        assert(right@ =~= seq![run(id@, faint())]);
    }
    let mut rows: Rows = Rows::new();
    rows.push(edges(width, left, right));
    rows.append(question(app, width));
    rows.push(counts(&app.plan, width));
    rows.append(status_block(app, width));
    let mut last: Rows = Rows::new();
    last.push(rule(width));
    rows.append(last);
    rows
}

/// The heading of a part of the file list.
pub open spec fn section_of(what: Seq<char>, count: usize, style: Style) -> Seq<Seq<SpanModel>> {
    seq![seq![bare(" "@), run(what + " ("@ + dec(count as nat) + ")"@, style)]]
}

fn section(what: &str, count: usize, style: Style) -> (r: Rows)
    ensures
        r@ == section_of(what@, count, style),
{
    let mut t: String = owned(what);
    t.append(" (");
    push_dec(&mut t, count as u64);
    t.append(")");
    let mut line: Line = Line::of(Span::raw(" "));
    line.push(Span::styled(t, style));
    proof {
        assert(line@ =~= seq![bare(" "@), run(what@ + " ("@ + dec(count as nat) + ")"@, style)]);
    }
    let mut rows: Rows = Rows::new();
    rows.push(line);
    rows
}

/// One path of the file list.
pub open spec fn path_of(file: (Action, Seq<char>), on: bool, room: nat) -> Seq<Seq<SpanModel>> {
    seq![
        seq![
            run(
                if on {
                    "▌"@
                } else {
                    " "@
                },
                shade(Some(Color::Cyan), true),
            ),
            match file.0 {
                Action::Write => run("+ "@, shade(Some(Color::Green), false)),
                Action::Remove => run("− "@, shade(Some(Color::Red), false)),
            },
            run(tail_of(file.1, room), shade(None, on)),
        ],
    ]
}

fn path_row(action: Action, path: &str, on: bool, room: usize) -> (r: Rows)
    ensures
        r@ == path_of((action, path@), on, room as nat),
{
    let mut line: Line = Line::of(
        Span::of(
            if on {
                theme::CURSOR
            } else {
                theme::GUTTER
            },
            theme::cursor_style(),
        ),
    );
    line.push(
        match action {
            Action::Write => Span::of("+ ", theme::added()),
            Action::Remove => Span::of("− ", theme::removed()),
        },
    );
    line.push(
        Span::styled(
            text::truncate_left(path, room),
            if on {
                theme::strong()
            } else {
                theme::plain()
            },
        ),
    );
    proof {
        assert(line@ =~= path_of((action, path@), on, room as nat)[0]);
    }
    let mut rows: Rows = Rows::new();
    rows.push(line);
    rows
}

/// Whether the part about removals begins at this path.
pub open spec fn removals_begin(plan: PlanModel, i: int) -> bool {
    plan.files[i].0 == Action::Remove && i == plan.written
}

/// The entries of the file list, as far as the first `n` paths.
pub open spec fn entries(plan: PlanModel, sel: usize, room: nat, n: nat) -> Seq<Seq<Seq<SpanModel>>>
    decreases n,
{
    if n == 0 {
        if plan.written > 0 {
            seq![section_of("will be written"@, plan.written, shade(Some(Color::Green), false))]
        } else {
            Seq::empty()
        }
    } else {
        let i = n - 1;
        let before = entries(plan, sel, room, i as nat);
        (if removals_begin(plan, i) {
            before.push(
                section_of("will be removed"@, plan.removed, shade(Some(Color::Red), false)),
            )
        } else {
            before
        }).push(path_of(plan.files[i], i == sel, room))
    }
}

/// Which entry of the file list is that of the selected path.
pub open spec fn selected_entry(plan: PlanModel, sel: usize, room: nat) -> nat {
    if sel < plan.files.len() {
        (entries(plan, sel, room, (sel + 1) as nat).len() - 1) as nat
    } else {
        0
    }
}

/// Every path that a restore would write or remove.
pub open spec fn file_list_of(a: AppModel, plan: PlanModel, area: Rect) -> PaintModel {
    let room = less(area.width as int, 3) as nat;
    PaintModel::List {
        area,
        items: entries(plan, a.plan_sel, room, plan.files.len()),
        selected: selected_entry(plan, a.plan_sel, room) as usize,
    }
}

/// Every path that a restore would write or remove.
pub fn draw_file_list(app: &App, plan: &PlanView, area: Rect) -> (r: Paint)
    ensures
        r@ == file_list_of(app@, plan@, area),
{
    let room: usize = area.width.saturating_sub(3) as usize;
    let mut items: Items = Items::new();
    let mut selected: usize = 0;
    if plan.written > 0 {
        items.push(section("will be written", plan.written, theme::added()));
    }
    let mut i: usize = 0;
    while i < plan.files.len()
        invariant
            i <= plan.files@.len(),
            items@ == entries(plan@, app@.plan_sel, room as nat, i as nat),
            selected == if app.plan_sel < i {
                selected_entry(plan@, app@.plan_sel, room as nat)
            } else {
                0
            },
        decreases plan.files@.len() - i,
    {
        let ghost n = (i + 1) as nat;
        proof {
            assert(plan@.files[i as int] == (plan.files@[i as int].0, plan.files@[i as int].1@));
            assert(entries(plan@, app@.plan_sel, room as nat, n).len() > 0);
        }
        let action: Action = plan.files[i].0;
        if action == Action::Remove && i == plan.written {
            items.push(section("will be removed", plan.removed, theme::removed()));
        }
        if i == app.plan_sel {
            selected = items.len();
        }
        items.push(path_row(action, plan.files[i].1.as_str(), i == app.plan_sel, room));
        i += 1;
    }
    proof {
        assert(plan@.files.len() == plan.files@.len());
    }
    Paint::List { area, items, selected }
}

/// How a line of a patch looks.
pub open spec fn patch_style(line: Seq<char>) -> Style {
    if "@@"@.is_prefix_of(line) {
        shade(Some(Color::Cyan), false)
    } else if "+++"@.is_prefix_of(line) || "---"@.is_prefix_of(line) || "diff "@.is_prefix_of(line)
        || "index "@.is_prefix_of(line) || "new file"@.is_prefix_of(line)
        || "deleted file"@.is_prefix_of(line) || "similarity"@.is_prefix_of(line) {
        faint()
    } else if "+"@.is_prefix_of(line) {
        shade(Some(Color::Green), false)
    } else if "-"@.is_prefix_of(line) {
        shade(Some(Color::Red), false)
    } else {
        shade(None, false)
    }
}

/// One line of a patch.
pub fn patch_span(line: &str) -> (r: Span)
    ensures
        r@ == run(line@, patch_style(line@)),
{
    let style: Style = if starts_with(line, "@@") {
        theme::accent()
    } else if starts_with(line, "+++") || starts_with(line, "---") || starts_with(line, "diff ")
        || starts_with(line, "index ") || starts_with(line, "new file") || starts_with(
        line,
        "deleted file",
    ) || starts_with(line, "similarity") {
        theme::dim()
    } else if starts_with(line, "+") {
        theme::added()
    } else if starts_with(line, "-") {
        theme::removed()
    } else {
        theme::plain()
    };
    Span::of(line, style)
}

/// The lines of a patch.
pub open spec fn patch_rows(body: Seq<char>) -> Seq<Seq<SpanModel>> {
    lines(body).map_values(|l: Seq<char>| seq![run(l, patch_style(l))])
}

fn patch_lines(body: &str) -> (r: Rows)
    ensures
        r@ == patch_rows(body@),
{
    let all: Vec<String> = lines_of(body);
    let ghost want = patch_rows(body@);
    let mut rows: Rows = Rows::new();
    let mut i: usize = 0;
    proof {
        assert(texts(all@).len() == all@.len());
        assert(want.take(0) =~= Seq::<Seq<SpanModel>>::empty());
    }
    while i < all.len()
        invariant
            i <= all@.len(),
            want == patch_rows(body@),
            texts(all@) == lines(body@),
            want.len() == all@.len(),
            rows@ == want.take(i as int),
        decreases all@.len() - i,
    {
        proof {
            assert(want.take(i + 1) =~= want.take(i as int).push(want[i as int]));
            assert(lines(body@)[i as int] == all@[i as int]@);
        }
        rows.push(Line::of(patch_span(all[i].as_str())));
        i += 1;
    }
    proof {
        assert(want.take(i as int) =~= want);
    }
    rows
}

/// What the patch pane is about.
pub open spec fn patch_title(patch: PatchStateModel) -> Seq<char> {
    match patch {
        PatchStateModel::Ready { path, .. } => path,
        PatchStateModel::Loading(path) => path,
        PatchStateModel::Failed { path, .. } => path,
        PatchStateModel::Idle => "diff"@,
    }
}

/// What the patch pane says.
pub open spec fn patch_body(a: AppModel, width: nat) -> Seq<Seq<SpanModel>> {
    match a.patch {
        PatchStateModel::Ready { body, .. } => patch_rows(body),
        PatchStateModel::Loading(_) => seq![
            seq![run(" "@ + spinning(a.spinner) + " reading…"@, faint())],
        ],
        PatchStateModel::Failed { message, .. } => led(
            wrapped(message, less(width as int, 3) as nat),
            None,
            ""@,
            shade(Some(Color::Red), true),
        ),
        PatchStateModel::Idle => seq![
            seq![
                run(
                    " select a file — this pane shows what the restore would change in it"@,
                    faint(),
                ),
            ],
        ],
    }
}

/// The patch pane.
pub open spec fn patch_of(a: AppModel, area: Rect) -> Seq<PaintModel> {
    seq![
        PaintModel::Border {
            area,
            style: faint(),
            title: run(
                " "@ + tail_of(patch_title(a.patch), less(area.width as int, 4) as nat) + " "@,
                shade(Some(Color::Cyan), false),
            ),
            bottom: None,
        },
        PaintModel::Text {
            area: area.within_border(),
            rows: patch_body(a, area.width as nat),
            wrap: false,
            scroll: a.patch_scroll,
        },
    ]
}

/// The patch pane.
pub fn draw_patch(app: &App, area: Rect) -> (r: Scene)
    ensures
        r@ == patch_of(app@, area),
{
    let mut rows: Rows = Rows::new();
    let title: &str = match &app.patch {
        PatchState::Ready { path, .. } => path.as_str(),
        PatchState::Loading(path) => path.as_str(),
        PatchState::Failed { path, .. } => path.as_str(),
        PatchState::Idle => "diff",
    };
    match &app.patch {
        PatchState::Ready { body, .. } => {
            rows = patch_lines(body.as_str());
        },
        PatchState::Loading(_) => {
            let mut t: String = owned(" ");
            t.append(spinner(app));
            t.append(" reading…");
            rows.push(Line::of(Span::styled(t, theme::dim())));
        },
        PatchState::Failed { message, .. } => {
            let chunks: Vec<String> = text::wrap(
                message.as_str(),
                area.width.saturating_sub(3) as usize,
            );
            rows = led_rows(&chunks, None, "", theme::danger());
        },
        PatchState::Idle => {
            rows.push(
                Line::of(
                    Span::of(
                        " select a file — this pane shows what the restore would change in it",
                        theme::dim(),
                    ),
                ),
            );
        },
    }
    let mut name: String = owned(" ");
    name.append(text::truncate_left(title, area.width.saturating_sub(4) as usize).as_str());
    name.append(" ");
    let mut scene: Scene = Scene::new();
    scene.push(
        Paint::Border {
            area,
            style: theme::dim(),
            title: Span::styled(name, theme::accent()),
            bottom: None,
        },
    );
    scene.push(
        Paint::Text { area: area.inner(), rows, wrap: false, scroll: app.patch_scroll },
    );
    scene
}

/// Whether there is room for the file list and the patch side by side.
pub open spec fn side_by_side(a: AppModel, area: Rect) -> bool {
    a.show_patch && area.width >= 88
}

/// The plan, and the evidence for it. `halves` are the two parts of the area
/// where both are shown.
pub open spec fn plan_body_of(
    a: AppModel,
    plan: PlanModel,
    area: Rect,
    halves: Seq<Rect>,
) -> Seq<PaintModel> {
    if plan.files.len() == 0 {
        seq![
            plain_text(
                area,
                seq![
                    blank(),
                    seq![
                        run(
                            " every tracked file already matches turn #"@ + dec(plan.seq as nat),
                            faint(),
                        ),
                    ],
                    seq![run(" there is nothing for a restore to do."@, faint())],
                ],
            ),
        ]
    } else if side_by_side(a, area) {
        seq![file_list_of(a, plan, halves[0])] + patch_of(a, halves[1])
    } else if a.show_patch {
        patch_of(a, area)
    } else {
        seq![file_list_of(a, plan, area)]
    }
}

/// The plan, and the evidence for it.
pub fn draw_plan_body(app: &App, plan: &PlanView, area: Rect, halves: &Vec<Rect>) -> (r: Scene)
    requires
        halves@.len() == 2,
    ensures
        r@ == plan_body_of(app@, plan@, area, halves@),
{
    let mut scene: Scene = Scene::new();
    if plan.is_noop() {
        let mut t: String = owned(" every tracked file already matches turn #");
        push_dec(&mut t, plan.seq);
        let mut rows: Rows = Rows::new();
        rows.push(blank_row());
        rows.push(Line::of(Span::styled(t, theme::dim())));
        rows.push(Line::of(Span::of(" there is nothing for a restore to do.", theme::dim())));
        proof {
            assert(rows@ =~= seq![
                blank(),
                seq![
                    run(
                        " every tracked file already matches turn #"@ + dec(plan.seq as nat),
                        faint(),
                    ),
                ],
                seq![run(" there is nothing for a restore to do."@, faint())],
            ]);
        }
        scene.text(area, rows);
    } else if app.show_patch && area.width >= 88 {
        scene.push(draw_file_list(app, plan, halves[0]));
        scene.append(draw_patch(app, halves[1]));
    } else if app.show_patch {
        scene = draw_patch(app, area);
    } else {
        scene.push(draw_file_list(app, plan, area));
    }
    scene
}

/// A sentence of the footer.
pub open spec fn sentence(said: Seq<char>, style: Style, width: nat) -> Seq<Seq<SpanModel>> {
    led(wrapped(said, less(width as int, 1) as nat), None, " "@, style)
}

fn say(rows: &mut Rows, said: &str, style: Style, width: usize)
    ensures
        final(rows)@ == old(rows)@ + sentence(said@, style, width as nat),
{
    let chunks: Vec<String> = text::wrap(said, width.saturating_sub(1));
    rows.append(led_rows(&chunks, None, " ", style));
}

/// Who will be told. The promise is only made where telling is on, there is a
/// session, and a pane is known.
pub open spec fn notice_of(notify: bool, inside: bool, pane: Option<Seq<char>>) -> (
    Seq<char>,
    Style,
) {
    if !notify {
        (
            "the agent will NOT be told what changed (n turns this back on)."@,
            shade(Some(Color::Yellow), false),
        )
    } else if !inside {
        (
            "not running inside herdr — there is no agent to tell."@,
            shade(Some(Color::Yellow), false),
        )
    } else {
        match pane {
            Some(pane) => (
                "the agent in pane "@ + pane + " will be told what was taken back."@,
                shade(Some(Color::Cyan), false),
            ),
            None => (
                "no agent pane recorded on this timeline — nobody will be told."@,
                shade(Some(Color::Yellow), false),
            ),
        }
    }
}

/// Who will be told.
pub fn notice(notify: bool, inside: bool, pane: &Option<String>) -> (r: (String, Style))
    ensures
        (r.0@, r.1) == notice_of(notify, inside, opt_text(*pane)),
{
    if !notify {
        return (
            owned("the agent will NOT be told what changed (n turns this back on)."),
            theme::warn(),
        );
    }
    if !inside {
        return (
            owned("not running inside herdr — there is no agent to tell."),
            theme::warn(),
        );
    }
    match pane {
        Some(pane) => {
            let mut t: String = owned("the agent in pane ");
            t.append(pane.as_str());
            t.append(" will be told what was taken back.");
            (t, theme::accent())
        },
        None => (
            owned("no agent pane recorded on this timeline — nobody will be told."),
            theme::warn(),
        ),
    }
}

/// What the footer says while a restore runs.
pub open spec fn writing_of(a: AppModel, width: nat) -> Seq<Seq<SpanModel>> {
    seq![ruled(width)] + sentence(
        spinning(a.spinner) + " checkpointing the tree you have, then restoring…"@,
        shade(Some(Color::Cyan), true),
        width,
    ) + (if a.quit {
        sentence(
            "finishing this before quitting — killing the window now would leave a tree that is neither state."@,
            shade(Some(Color::Red), true),
            width,
        )
    } else {
        sentence("keys are ignored until it finishes."@, faint(), width)
    })
}

/// The keys offered with a plan.
pub open spec fn offer(width: nat) -> Seq<SpanModel> {
    seq![run(" shift+R "@, label()), run(" restore   "@, shade(None, true))] + hinted(
        less(width as int, 20) as nat,
        seq![
            ("esc"@, "back"@),
            ("d"@, "diff"@),
            ("J/K"@, "scroll"@),
            ("n"@, "notify"@),
            ("q"@, "quit"@),
        ],
    )
}

/// What the footer says of a plan that would change something.
pub open spec fn ready_of(a: AppModel, plan: PlanModel, width: nat) -> Seq<Seq<SpanModel>> {
    let notice = notice_of(a.notify, a.inside_herdr, a.agent_pane());
    (seq![ruled(width)] + sentence(
        "restoring rewrites "@ + counted(plan.written as nat, "file"@) + " and deletes "@ + counted(
            plan.removed as nat,
            "file"@,
        ) + " under "@ + a.repo + "/."@,
        shade(None, true),
        width,
    ) + sentence(
        "the tree you have now is snapshotted first as a new turn, so this is undoable."@,
        faint(),
        width,
    ) + sentence(notice.0, notice.1, width)).push(offer(width))
}

/// The footer of the rewind view.
pub open spec fn footer_of(a: AppModel, width: nat) -> Seq<Seq<SpanModel>> {
    if a.restoring {
        writing_of(a, width)
    } else {
        match a.plan {
            PlanStateModel::Ready(plan) if plan.files.len() > 0 => ready_of(a, plan, width),
            _ => seq![
                ruled(width),
                hinted(width, seq![("esc"@, "back"@), ("j/k"@, "move"@), ("q"@, "quit"@)]),
            ],
        }
    }
}

fn ready(app: &App, plan: &PlanView, width: usize) -> (r: Rows)
    ensures
        r@ == ready_of(app@, plan@, width as nat),
{
    let mut rows: Rows = Rows::new();
    rows.push(rule(width));
    let mut t: String = owned("restoring rewrites ");
    t.append(files(plan.written).as_str());
    t.append(" and deletes ");
    t.append(files(plan.removed).as_str());
    t.append(" under ");
    t.append(app.repo.as_str());
    t.append("/.");
    say(&mut rows, t.as_str(), theme::strong(), width);
    say(
        &mut rows,
        "the tree you have now is snapshotted first as a new turn, so this is undoable.",
        theme::dim(),
        width,
    );
    let told: (String, Style) = notice(app.notify, app.inside_herdr, &app.agent_pane());
    say(&mut rows, told.0.as_str(), told.1, width);
    let mut keys: Line = Line::of(Span::of(" shift+R ", theme::badge()));
    keys.push(Span::of(" restore   ", theme::strong()));
    let pairs: Vec<(&str, &str)> = vec![
        ("esc", "back"),
        ("d", "diff"),
        ("J/K", "scroll"),
        ("n", "notify"),
        ("q", "quit"),
    ];
    proof {
        assert(pairs_view(pairs@) =~= seq![
            ("esc"@, "back"@),
            ("d"@, "diff"@),
            ("J/K"@, "scroll"@),
            ("n"@, "notify"@),
            ("q"@, "quit"@),
        ]);
    }
    keys.append(hints(width.saturating_sub(20), &pairs));
    proof {
        assert(keys@ =~= offer(width as nat));
    }
    rows.push(keys);
    rows
}

/// The sentence that has to be true: everything above it is evidence, this says
/// what the next keystroke does.
pub fn footer(app: &App, width: usize) -> (r: Rows)
    ensures
        r@ == footer_of(app@, width as nat),
{
    let mut rows: Rows = Rows::new();
    if app.restoring {
        rows.push(rule(width));
        let mut t: String = owned(spinner(app));
        t.append(" checkpointing the tree you have, then restoring…");
        say(&mut rows, t.as_str(), theme::accent_strong(), width);
        if app.quit {
            say(
                &mut rows,
                "finishing this before quitting — killing the window now would leave a tree that is neither state.",
                theme::danger(),
                width,
            );
        } else {
            say(&mut rows, "keys are ignored until it finishes.", theme::dim(), width);
        }
        return rows;
    }
    if let PlanState::Ready(plan) = &app.plan {
        if !plan.is_noop() {
            return ready(app, plan, width);
        }
    }
    let pairs: Vec<(&str, &str)> = vec![("esc", "back"), ("j/k", "move"), ("q", "quit")];
    proof {
        assert(pairs_view(pairs@) =~= seq![("esc"@, "back"@), ("j/k"@, "move"@), ("q"@, "quit"@)]);
    }
    rows.push(rule(width));
    rows.push(hints(width, &pairs));
    rows
}

} // verus!
