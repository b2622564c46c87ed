//! Drawing: what the interface knows, as a frame.
//!
//! Two rules shape everything here. Forty columns is a real width: every row is
//! composed against the width it was given and drops detail rather than
//! overflowing. And the plan is the product: the rewind view spends its space
//! on the file list and on a footer that says, in words, what the next
//! keystroke will do to the disk.
use crate::strings::{dec, owned, push_dec, texts};
use crate::tui::app::{
    App, AppModel, Fatal, FatalModel, Mode, PlanState, PlanStateModel,
};
use crate::tui::dock::{
    banner, banner_of, draw_timeline, header, header_of, status_block, status_of, timeline_of,
};
use crate::tui::rewind::{
    draw_plan_body, footer, footer_of, headline, headline_of, overlay, overlay_rect, plan_body_of,
};
use crate::tui::rows::{
    blank, blank_row, hinted, hints, led, led_rows, pairs_view, spinner, spinning,
};
use crate::tui::scene::{
    bare, laid_out, less, plain_text, run, split, Axis, Line, Paint, PaintModel, Part, Rect, Rows,
    Scene, Span, SpanModel,
};
use crate::tui::text::{self, padded, wrapped};
use crate::tui::theme::{self, faint, label, shade, Color};
use vstd::prelude::*;
use vstd::string::*;

verus! {

// -------------------------------------------------------------------- the dock

/// The keys of the dock.
pub open spec fn dock_keys() -> Seq<(Seq<char>, Seq<char>)> {
    seq![
        ("j/k"@, "move"@),
        ("enter"@, "rewind"@),
        ("?"@, "keys"@),
        ("q"@, "quit"@),
        ("n"@, "notify"@),
        ("r"@, "refresh"@),
    ]
}

/// How the dock is split: the header, the band, the timeline, the last thing
/// that happened, and the keys.
pub open spec fn dock_parts_of(a: AppModel, width: u16) -> Seq<Part> {
    let room = less(width as int, 2) as nat;
    seq![
        Part::Length(2),
        Part::Length(banner_of(a, room).len() as u16),
        Part::Min(3),
        Part::Length(status_of(a.status, room).len() as u16),
        Part::Length(1),
    ]
}

/// How the dock is split.
pub fn dock_parts(app: &App, width: u16) -> (r: Vec<Part>)
    ensures
        r@ == dock_parts_of(app@, width),
{
    let room: usize = width.saturating_sub(2) as usize;
    let mut parts: Vec<Part> = Vec::new();
    parts.push(Part::Length(2));
    parts.push(Part::Length(banner(app, room).len() as u16));
    parts.push(Part::Min(3));
    parts.push(Part::Length(status_block(app, room).len() as u16));
    parts.push(Part::Length(1));
    parts
}

/// The dock, on the five parts of its area.
pub open spec fn dock_of(
    a: AppModel,
    area: Rect,
    parts: Seq<Rect>,
    bars: Seq<(usize, usize)>,
) -> Seq<PaintModel> {
    let room = less(area.width as int, 2) as nat;
    let warn = banner_of(a, room);
    let note = status_of(a.status, room);
    let head = seq![plain_text(parts[0], header_of(a, parts[0].width as nat))];
    let warned = if warn.len() > 0 {
        head.push(plain_text(parts[1], warn))
    } else {
        head
    };
    let timed = warned + timeline_of(a, parts[2], bars);
    let noted = if note.len() > 0 {
        timed.push(plain_text(parts[3], note))
    } else {
        timed
    };
    noted.push(plain_text(parts[4], seq![hinted(parts[4].width as nat, dock_keys())]))
}

/// The dock, on the five parts of its area.
pub fn draw_dock(app: &App, area: Rect, parts: &Vec<Rect>, bars: &Vec<(usize, usize)>) -> (r: Scene)
    requires
        parts@.len() == 5,
        app@.turns.len() > 0 ==> app@.sel < usize::MAX,
        bars@.len() == app@.turns.len(),
    ensures
        r@ == dock_of(app@, area, parts@, bars@),
{
    let room: usize = area.width.saturating_sub(2) as usize;
    let warn: Rows = banner(app, room);
    let note: Rows = status_block(app, room);
    let mut scene: Scene = Scene::new();
    scene.text(parts[0], header(app, parts[0].width as usize));
    if warn.len() > 0 {
        scene.text(parts[1], warn);
    }
    scene.append(draw_timeline(app, parts[2], bars));
    if note.len() > 0 {
        scene.text(parts[3], note);
    }
    let pairs: Vec<(&str, &str)> = vec![
        ("j/k", "move"),
        ("enter", "rewind"),
        ("?", "keys"),
        ("q", "quit"),
        ("n", "notify"),
        ("r", "refresh"),
    ];
    let mut rows: Rows = Rows::new();
    proof {
        assert(pairs_view(pairs@) =~= dock_keys());
    }
    rows.push(hints(parts[4].width as usize, &pairs));
    proof {
        assert(rows@ =~= seq![hinted(parts@[4].width as nat, dock_keys())]);
    }
    scene.text(parts[4], rows);
    scene
}

// ------------------------------------------------------------------ the rewind

/// What the border of the rewind view is called.
pub open spec fn rewind_title(plan: PlanStateModel) -> Seq<char> {
    match plan {
        PlanStateModel::Ready(plan) => " rewind to #"@ + dec(plan.seq as nat) + " "@,
        PlanStateModel::Loading(seq) => " rewind to #"@ + dec(seq as nat) + " "@,
        PlanStateModel::Failed { seq, .. } => " rewind to #"@ + dec(seq as nat) + " "@,
        PlanStateModel::Idle => " rewind "@,
    }
}

/// What the border of the rewind view promises. It never promises a dry run
/// while something is written, or after a write half-happened.
pub open spec fn promise(a: AppModel) -> SpanModel {
    if a.restoring {
        run(" writing — do not interrupt "@, shade(Some(Color::Red), true))
    } else if a.uncertain is Some {
        run(" this worktree is between two states "@, shade(Some(Color::Red), true))
    } else {
        run(" dry run — nothing is written yet "@, faint())
    }
}

/// How the rewind view is split: what is above the plan, the plan, and what is
/// under it.
pub open spec fn rewind_parts_of(a: AppModel, width: u16) -> Seq<Part> {
    seq![
        Part::Length(headline_of(a, width as nat).len() as u16),
        Part::Min(2),
        Part::Length(footer_of(a, width as nat).len() as u16),
    ]
}

/// How the rewind view is split.
pub fn rewind_parts(app: &App, width: u16) -> (r: Vec<Part>)
    ensures
        r@ == rewind_parts_of(app@, width),
{
    let mut parts: Vec<Part> = Vec::new();
    parts.push(Part::Length(headline(app, width as usize).len() as u16));
    parts.push(Part::Min(2));
    parts.push(Part::Length(footer(app, width as usize).len() as u16));
    parts
}

/// How the file list and the patch share an area.
pub open spec fn halves() -> Seq<Part> {
    seq![Part::Percentage(42), Part::Percentage(58)]
}

fn half_parts() -> (r: Vec<Part>)
    ensures
        r@ == halves(),
{
    let mut parts: Vec<Part> = Vec::new();
    parts.push(Part::Percentage(42));
    parts.push(Part::Percentage(58));
    parts
}

/// The middle of the rewind view.
pub open spec fn middle_of(a: AppModel, area: Rect, width: nat, halves: Seq<Rect>) -> Seq<PaintModel> {
    match a.plan {
        PlanStateModel::Ready(plan) => plan_body_of(a, plan, area, halves),
        PlanStateModel::Loading(_) => seq![
            plain_text(
                area,
                seq![
                    seq![
                        run(" "@ + spinning(a.spinner) + " working out what would change…"@, faint()),
                    ],
                ],
            ),
        ],
        PlanStateModel::Failed { message, .. } => seq![
            plain_text(
                area,
                seq![blank()] + led(
                    wrapped(message, less(width as int, 2) as nat),
                    Some(shade(Some(Color::Red), true)),
                    " "@,
                    shade(None, false),
                ),
            ),
        ],
        PlanStateModel::Idle => Seq::empty(),
    }
}

fn middle(app: &App, area: Rect, width: usize, halves: &Vec<Rect>) -> (r: Scene)
    requires
        halves@.len() == 2,
    ensures
        r@ == middle_of(app@, area, width as nat, halves@),
{
    let mut scene: Scene = Scene::new();
    match &app.plan {
        PlanState::Ready(plan) => {
            scene = draw_plan_body(app, plan, area, halves);
        },
        PlanState::Loading(_) => {
            let mut t: String = owned(" ");
            t.append(spinner(app));
            t.append(" working out what would change…");
            let mut rows: Rows = Rows::new();
            rows.push(Line::of(Span::styled(t, theme::dim())));
            proof {
                assert(rows@ =~= seq![
                    seq![
                        run(
                            " "@ + spinning(app@.spinner) + " working out what would change…"@,
                            faint(),
                        ),
                    ],
                ]);
            }
            scene.text(area, rows);
        },
        PlanState::Failed { message, .. } => {
            let chunks: Vec<String> = text::wrap(message.as_str(), width.saturating_sub(2));
            let mut rows: Rows = Rows::new();
            rows.push(blank_row());
            rows.append(led_rows(&chunks, Some(theme::danger()), " ", theme::plain()));
            proof {
                assert(rows@ =~= seq![blank()] + led(
                    texts(chunks@),
                    Some(shade(Some(Color::Red), true)),
                    " "@,
                    shade(None, false),
                ));
            }
            scene.text(area, rows);
        },
        PlanState::Idle => {},
    }
    scene
}

/// The rewind view over the dock, on the three parts of its inside and the two
/// halves of the middle one.
pub open spec fn rewind_of(
    a: AppModel,
    area: Rect,
    parts: Seq<Rect>,
    halves: Seq<Rect>,
) -> Seq<PaintModel> {
    let rect = overlay(area);
    let width = rect.within_border().width as nat;
    (seq![
        PaintModel::Clear(rect),
        PaintModel::Border {
            area: rect,
            style: shade(Some(Color::Cyan), false),
            title: run(rewind_title(a.plan), shade(Some(Color::Cyan), true)),
            bottom: Some(promise(a)),
        },
        plain_text(parts[0], headline_of(a, width)),
    ] + middle_of(a, parts[1], width, halves)).push(plain_text(parts[2], footer_of(a, width)))
}

/// The rewind view over the dock, on the three parts of its inside and the two
/// halves of the middle one.
pub fn draw_rewind(app: &App, area: Rect, parts: &Vec<Rect>, halves: &Vec<Rect>) -> (r: Scene)
    requires
        area.fits(),
        parts@.len() == 3,
        halves@.len() == 2,
    ensures
        r@ == rewind_of(app@, area, parts@, halves@),
{
    let rect: Rect = overlay_rect(area);
    let width: usize = rect.inner().width as usize;
    let mut title: String = owned(" rewind to #");
    match &app.plan {
        PlanState::Ready(plan) => {
            push_dec(&mut title, plan.seq);
            title.append(" ");
        },
        PlanState::Loading(seq) => {
            push_dec(&mut title, *seq);
            title.append(" ");
        },
        PlanState::Failed { seq, .. } => {
            push_dec(&mut title, *seq);
            title.append(" ");
        },
        PlanState::Idle => {
            title = owned(" rewind ");
        },
    }
    let bottom: Span = if app.restoring {
        Span::of(" writing — do not interrupt ", theme::danger())
    } else if app.uncertain.is_some() {
        Span::of(" this worktree is between two states ", theme::danger())
    } else {
        Span::of(" dry run — nothing is written yet ", theme::dim())
    };
    let mut scene: Scene = Scene::new();
    scene.push(Paint::Clear(rect));
    scene.push(
        Paint::Border {
            area: rect,
            style: theme::accent(),
            title: Span::styled(title, theme::accent_strong()),
            bottom: Some(bottom),
        },
    );
    scene.text(parts[0], headline(app, width));
    scene.append(middle(app, parts[1], width, halves));
    scene.text(parts[2], footer(app, width));
    scene
}

/// Whether these are the areas of the rewind view: the parts of its inside, and
/// the halves of the middle one.
pub open spec fn rewind_areas(a: AppModel, area: Rect, parts: Seq<Rect>, both: Seq<Rect>) -> bool {
    let inside = overlay(area).within_border();
    &&& laid_out(Axis::Down, rewind_parts_of(a, inside.width), parts, inside)
    &&& laid_out(Axis::Across, halves(), both, parts[1])
}

// ---------------------------------------------------------------------- the help

/// Where the help goes: in the middle, and the whole width where what would
/// show around it is too narrow to read as background.
pub open spec fn help_area(area: Rect) -> Rect {
    let width = if area.width < 56 {
        area.width as int
    } else if area.width - 12 > 62 {
        62
    } else {
        area.width - 12
    };
    let height = if less(area.height as int, 2) > 20 {
        20
    } else {
        less(area.height as int, 2)
    };
    Rect {
        x: (area.x + (area.width - width) / 2) as u16,
        y: (area.y + (area.height - height) / 2) as u16,
        width: width as u16,
        height: height as u16,
    }
}

fn help_rect(area: Rect) -> (r: Rect)
    requires
        area.fits(),
    ensures
        r == help_area(area),
{
    let width: u16 = if area.width < 56 {
        area.width
    } else if area.width - 12 > 62 {
        62
    } else {
        area.width - 12
    };
    let height: u16 = if area.height.saturating_sub(2) > 20 {
        20
    } else {
        area.height.saturating_sub(2)
    };
    Rect {
        x: area.x + (area.width - width) / 2,
        y: area.y + (area.height - height) / 2,
        width,
        height,
    }
}

/// A key and what it does.
pub open spec fn key_of(key: Seq<char>, what: Seq<char>) -> Seq<SpanModel> {
    seq![
        bare(" "@),
        run(padded(key, 9), shade(Some(Color::Cyan), false)),
        run(what, shade(None, false)),
    ]
}

fn key_row(key: &str, what: &str) -> (r: Line)
    ensures
        r@ == key_of(key@, what@),
{
    let mut line: Line = Line::of(Span::raw(" "));
    line.push(Span::styled(text::pad(key, 9), theme::accent()));
    line.push(Span::of(what, theme::plain()));
    line
}

/// What the help says.
pub open spec fn help_rows(width: nat) -> Seq<Seq<SpanModel>> {
    seq![
        key_of("j k ↑ ↓"@, "move"@),
        key_of("g G"@, "first / last turn"@),
        key_of("enter"@, "open the rewind plan"@),
        key_of("d"@, "show the patch for a file"@),
        key_of("J K"@, "scroll the patch"@),
        key_of("shift+R"@, "restore — only from a plan on screen"@),
        key_of("n"@, "tell the agent, or don't"@),
        key_of("r"@, "refresh"@),
        key_of("esc"@, "back"@),
        key_of("q"@, "quit"@),
        blank(),
    ] + led(
        wrapped(
            "Sheep never restores from anything but a plan you have seen. The dry run is the product."@,
            less(width as int, 2) as nat,
        ),
        None,
        " "@,
        faint(),
    )
}

/// The help, over whatever is on screen.
pub open spec fn help_of(area: Rect) -> Seq<PaintModel> {
    let rect = help_area(area);
    let inner = rect.within_border();
    seq![
        PaintModel::Clear(rect),
        PaintModel::Border {
            area: rect,
            style: shade(Some(Color::Cyan), false),
            title: run(" keys "@, shade(Some(Color::Cyan), true)),
            bottom: None,
        },
        plain_text(inner, help_rows(inner.width as nat)),
    ]
}

/// The help, over whatever is on screen.
pub fn draw_help(area: Rect) -> (r: Scene)
    requires
        area.fits(),
    ensures
        r@ == help_of(area),
{
    let rect: Rect = help_rect(area);
    let inner: Rect = rect.inner();
    let mut rows: Rows = Rows::new();
    rows.push(key_row("j k ↑ ↓", "move"));
    rows.push(key_row("g G", "first / last turn"));
    rows.push(key_row("enter", "open the rewind plan"));
    rows.push(key_row("d", "show the patch for a file"));
    rows.push(key_row("J K", "scroll the patch"));
    rows.push(key_row("shift+R", "restore — only from a plan on screen"));
    rows.push(key_row("n", "tell the agent, or don't"));
    rows.push(key_row("r", "refresh"));
    rows.push(key_row("esc", "back"));
    rows.push(key_row("q", "quit"));
    rows.push(blank_row());
    let chunks: Vec<String> = text::wrap(
        "Sheep never restores from anything but a plan you have seen. The dry run is the product.",
        inner.width.saturating_sub(2) as usize,
    );
    rows.append(led_rows(&chunks, None, " ", theme::dim()));
    proof {
        assert(rows@ =~= help_rows(inner.width as nat));
    }
    let mut scene: Scene = Scene::new();
    scene.push(Paint::Clear(rect));
    scene.push(
        Paint::Border {
            area: rect,
            style: theme::accent(),
            title: Span::of(" keys ", theme::accent_strong()),
            bottom: None,
        },
    );
    scene.text(inner, rows);
    scene
}

// --------------------------------------------------------------------- the fatal

/// The steps out of a state the interface cannot work in.
pub open spec fn steps_of(remedy: Seq<Seq<char>>, width: nat) -> Seq<Seq<SpanModel>>
    decreases remedy.len(),
{
    if remedy.len() == 0 {
        Seq::empty()
    } else {
        steps_of(remedy.drop_last(), width) + led(
            wrapped(remedy.last(), less(width as int, 2) as nat),
            None,
            "   "@,
            shade(Some(Color::Cyan), false),
        )
    }
}

/// Why the interface cannot do its job, and what to do about it.
pub open spec fn fatal_rows(fatal: FatalModel, width: nat) -> Seq<Seq<SpanModel>> {
    let said = seq![
        seq![run(" sheep "@, label())],
        blank(),
        seq![run(" "@ + fatal.headline, shade(Some(Color::Red), true))],
        blank(),
    ] + led(wrapped(fatal.detail, width), None, " "@, shade(None, false));
    let told = if fatal.remedy.len() > 0 {
        said.push(blank()) + steps_of(fatal.remedy, width)
    } else {
        said
    };
    told.push(blank()).push(hinted(width, seq![("q"@, "quit"@)]))
}

/// Why the interface cannot do its job, and what to do about it.
pub fn draw_fatal(area: Rect, fatal: &Fatal) -> (r: Scene)
    ensures
        r@ == seq![plain_text(area, fatal_rows(fatal@, less(area.width as int, 2) as nat))],
{
    let width: usize = area.width.saturating_sub(2) as usize;
    let mut rows: Rows = Rows::new();
    rows.push(Line::of(Span::of(" sheep ", theme::badge())));
    rows.push(blank_row());
    let mut t: String = owned(" ");
    t.append(fatal.headline.as_str());
    rows.push(Line::of(Span::styled(t, theme::danger())));
    rows.push(blank_row());
    let chunks: Vec<String> = text::wrap(fatal.detail.as_str(), width);
    rows.append(led_rows(&chunks, None, " ", theme::plain()));
    if fatal.remedy.len() > 0 {
        rows.push(blank_row());
        let ghost said = rows@;
        let ghost all = texts(fatal.remedy@);
        let mut i: usize = 0;
        proof {
            assert(all.take(0) =~= Seq::<Seq<char>>::empty());
            assert(said + steps_of(all.take(0), width as nat) =~= said);
        }
        while i < fatal.remedy.len()
            invariant
                i <= fatal.remedy@.len(),
                all == texts(fatal.remedy@),
                rows@ == said + steps_of(all.take(i as int), width as nat),
            decreases fatal.remedy@.len() - i,
        {
            proof {
                let now = all.take(i + 1);
                assert(now.drop_last() =~= all.take(i as int));
                assert(now.last() == fatal.remedy@[i as int]@);
            }
            let chunks: Vec<String> = text::wrap(
                fatal.remedy[i].as_str(),
                width.saturating_sub(2),
            );
            let ghost step = led(
                texts(chunks@),
                None,
                "   "@,
                shade(Some(Color::Cyan), false),
            );
            let ghost before = steps_of(all.take(i as int), width as nat);
            rows.append(led_rows(&chunks, None, "   ", theme::accent()));
            proof {
                assert((said + before) + step =~= said + (before + step));
            }
            i += 1;
        }
        proof {
            assert(all.take(i as int) =~= all);
        }
    }
    let pairs: Vec<(&str, &str)> = vec![("q", "quit")];
    proof {
        assert(pairs_view(pairs@) =~= seq![("q"@, "quit"@)]);
    }
    rows.push(blank_row());
    rows.push(hints(width, &pairs));
    proof {
        assert(rows@ =~= fatal_rows(fatal@, width as nat));
    }
    let mut scene: Scene = Scene::new();
    scene.text(area, rows);
    scene
}

// ---------------------------------------------------------------------- the frame

/// A whole frame: the dock, and over it whatever the mode asks for; or only the
/// reason why there is nothing to show.
pub open spec fn frame_of(
    a: AppModel,
    area: Rect,
    dock: Seq<Rect>,
    parts: Seq<Rect>,
    halves: Seq<Rect>,
    bars: Seq<(usize, usize)>,
) -> Seq<PaintModel> {
    match a.fatal {
        Some(fatal) => seq![
            plain_text(area, fatal_rows(fatal, less(area.width as int, 2) as nat)),
        ],
        None => dock_of(a, area, dock, bars) + (match a.mode {
            Mode::Dock => Seq::empty(),
            Mode::Rewind => rewind_of(a, area, parts, halves),
            Mode::Help => help_of(area),
        }),
    }
}

/// A whole frame. `bars` holds for each turn how many blocks of its bar are
/// insertions and how many are deletions.
pub fn draw(app: &App, area: Rect, bars: &Vec<(usize, usize)>) -> (r: Scene)
    requires
        area.fits(),
        app@.turns.len() > 0 ==> app@.sel < usize::MAX,
        bars@.len() == app@.turns.len(),
    ensures
        exists|dock: Seq<Rect>, parts: Seq<Rect>, halves: Seq<Rect>|
            #![trigger frame_of(app@, area, dock, parts, halves, bars@)]
            laid_out(Axis::Down, dock_parts_of(app@, area.width), dock, area) && rewind_areas(
                app@,
                area,
                parts,
                halves,
            ) && r@ == frame_of(app@, area, dock, parts, halves, bars@),
{
    let inner: Rect = overlay_rect(area).inner();
    let dock: Vec<Rect> = split(Axis::Down, &dock_parts(app, area.width), area);
    let parts: Vec<Rect> = split(Axis::Down, &rewind_parts(app, inner.width), inner);
    let halves: Vec<Rect> = split(Axis::Across, &half_parts(), parts[1]);
    proof {
        assert(rewind_areas(app@, area, parts@, halves@));
    }
    frame_on(app, area, &dock, &parts, &halves, bars)
}

/// A whole frame, on areas that are already known.
pub fn frame_on(
    app: &App,
    area: Rect,
    dock: &Vec<Rect>,
    parts: &Vec<Rect>,
    halves: &Vec<Rect>,
    bars: &Vec<(usize, usize)>,
) -> (r: Scene)
    requires
        area.fits(),
        dock@.len() == 5,
        parts@.len() == 3,
        halves@.len() == 2,
        app@.turns.len() > 0 ==> app@.sel < usize::MAX,
        bars@.len() == app@.turns.len(),
    ensures
        r@ == frame_of(app@, area, dock@, parts@, halves@, bars@),
{
    if let Some(fatal) = &app.fatal {
        return draw_fatal(area, fatal);
    }
    let mut scene: Scene = draw_dock(app, area, dock, bars);
    match app.mode {
        Mode::Dock => {},
        Mode::Rewind => {
            scene.append(draw_rewind(app, area, parts, halves));
        },
        Mode::Help => {
            scene.append(draw_help(area));
        },
    }
    scene
}

} // verus!
