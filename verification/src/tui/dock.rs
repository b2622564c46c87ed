//! The dock: the timeline, what is wrong, and what just happened.
use crate::ops::short;
use crate::store::{turns_view, Turn, TurnModel};
use crate::strings::{
    dec, join, join_with, lemma_texts_empty, lemma_texts_push, opt_text, owned, push_dec, texts,
    within,
};
use crate::tui::app::{App, AppModel, Level, StatusModel};
use crate::tui::rows::{
    ago, ago_text, blank, blank_row, counted, edges, files, guttered, kind_label, kind_name, led,
    led_rows, pinned, plural, prefix, spinner, spinning,
};
use crate::tui::scene::{
    bare, cells, less, run, Items, Line, Paint, PaintModel, Rect, Rows, Scene, Span, SpanModel,
};
use crate::tui::text::{
    self, cleaned, padded, repeated, stamp_of, truncated, wrapped,
};
use crate::tui::theme::{self, faint, hue, label, quoted, shade, Color, Style};
use vstd::prelude::*;
use vstd::string::*;

verus! {

/// How the worktree is doing, in a word. A tree nobody can vouch for outranks
/// "busy".
pub open spec fn health_of(a: AppModel) -> Seq<SpanModel> {
    if a.uncertain is Some {
        seq![run("unsafe"@, shade(Some(Color::Red), true))]
    } else if a.loading {
        seq![run(spinning(a.spinner) + " reading"@, faint())]
    } else if a.blockers.len() > 0 {
        seq![run("blocked"@, shade(Some(Color::Red), true))]
    } else if a.warnings.len() > 0 {
        seq![
            run("ready"@, shade(Some(Color::Green), true)),
            run(" · notes"@, shade(Some(Color::Yellow), false)),
        ]
    } else {
        seq![run("ready"@, shade(Some(Color::Green), true))]
    }
}

fn health(app: &App) -> (r: Line)
    ensures
        r@ == health_of(app@),
{
    if app.uncertain.is_some() {
        Line::of(Span::of("unsafe", theme::danger()))
    } else if app.loading {
        let mut t: String = owned(spinner(app));
        t.append(" reading");
        Line::of(Span::styled(t, theme::dim()))
    } else if app.blockers.len() > 0 {
        Line::of(Span::of("blocked", theme::danger()))
    } else if app.warnings.len() > 0 {
        let mut line: Line = Line::of(Span::of("ready", theme::ok()));
        line.push(Span::of(" · notes", theme::warn()));
        line
    } else {
        Line::of(Span::of("ready", theme::ok()))
    }
}

/// What the dock says of the timeline, in the order of how much it matters.
pub open spec fn facts_of(a: AppModel, width: nat) -> Seq<Seq<char>> {
    let first = seq!["timeline "@ + a.line, counted(a.turns.len(), "turn"@)];
    let aged = if a.turns.len() > 0 {
        first.push("newest "@ + ago(width < 56, a.now, a.turns[0].at))
    } else {
        first
    };
    aged.push(
        if !a.inside_herdr {
            "standalone"@
        } else if a.notify {
            "notify on"@
        } else {
            "notify off"@
        },
    )
}

/// As many whole facts as fit, but never none.
pub open spec fn fitting_facts(facts: Seq<Seq<char>>, width: nat) -> Seq<Seq<char>>
    decreases facts.len(),
{
    if facts.len() > 1 && join(facts, " · "@).len() > width {
        fitting_facts(facts.drop_last(), width)
    } else {
        facts
    }
}

fn facts(app: &App, width: usize) -> (r: Vec<String>)
    ensures
        texts(r@) == facts_of(app@, width as nat),
{
    broadcast use lemma_texts_push;

    let mut facts: Vec<String> = Vec::new();
    proof {
        lemma_texts_empty(facts@);
    }
    let mut first: String = owned("timeline ");
    first.append(app.line.as_str());
    facts.push(first);
    facts.push(plural(app.turns.len(), "turn"));
    if app.turns.len() > 0 {
        let mut newest: String = owned("newest ");
        newest.append(ago_text(width < 56, app.now, app.turns[0].at).as_str());
        proof {
            assert(app@.turns[0] == app.turns@[0]@);
        }
        facts.push(newest);
    }
    facts.push(
        owned(
            if !app.inside_herdr {
                "standalone"
            } else if app.notify {
                "notify on"
            } else {
                "notify off"
            },
        ),
    );
    facts
}

/// The two rows at the top of the dock.
pub open spec fn header_of(a: AppModel, width: nat) -> Seq<Seq<SpanModel>> {
    let health = health_of(a);
    seq![
        pinned(
            width,
            seq![
                run(" sheep "@, label()),
                bare(" "@),
                run(
                    truncated(a.repo, less(width as int, (11 + cells(health)) as int) as nat),
                    shade(None, true),
                ),
            ],
            health,
        ),
        seq![
            run(truncated(join(fitting_facts(facts_of(a, width), width), " · "@), width), faint()),
        ],
    ]
}

/// The two rows at the top of the dock: what is watched and how it is doing,
/// then the facts about the timeline, dropped from the right when they do not
/// fit.
pub fn header(app: &App, width: usize) -> (r: Rows)
    ensures
        r@ == header_of(app@, width as nat),
{
    let health: Line = health(app);
    let taken: usize = health.width().saturating_add(11);
    let mut title: Line = Line::of(Span::of(" sheep ", theme::badge()));
    title.push(Span::raw(" "));
    title.push(
        Span::styled(
            text::truncate(app.repo.as_str(), width.saturating_sub(taken)),
            theme::strong(),
        ),
    );
    let mut facts: Vec<String> = facts(app, width);
    let ghost all = texts(facts@);
    let mut told: String = join_with(&facts, " · ");
    while facts.len() > 1 && text::width(told.as_str()) > width
        invariant
            all == facts_of(app@, width as nat),
            told@ == join(texts(facts@), " · "@),
            fitting_facts(texts(facts@), width as nat) == fitting_facts(all, width as nat),
        decreases facts@.len(),
    {
        let ghost was = facts@;
        facts.pop();
        proof {
            assert(texts(facts@) =~= texts(was).drop_last());
        }
        told = join_with(&facts, " · ");
    }
    proof {
        assert(texts(facts@).len() == facts@.len());
        assert(texts(facts@) == fitting_facts(all, width as nat));
        assert(title@ == seq![run(" sheep "@, label()), bare(" "@), run(
                    truncated(app@.repo, less(width as int, (11 + cells(health@)) as int) as nat),
                    shade(None, true),
                )]);
    }
    let mut rows: Rows = Rows::new();
    rows.push(edges(width, title, health));
    rows.push(Line::of(Span::styled(text::truncate(told.as_str(), width), theme::dim())));
    rows
}

/// The band above the timeline. A tree between two states outranks anything
/// else there is to say.
pub open spec fn banner_of(a: AppModel, width: nat) -> Seq<Seq<SpanModel>> {
    if a.uncertain is None && a.blockers.len() == 0 {
        Seq::empty()
    } else {
        let heading = if a.uncertain is Some {
            "this worktree is between two states"@
        } else {
            "cannot record or restore"@
        };
        let detail = match a.uncertain {
            Some(why) => why,
            None => a.blockers[0],
        };
        let red = shade(Some(Color::Red), true);
        let rows = led(
            wrapped(detail, less(width as int, 2) as nat),
            Some(red),
            " "@,
            shade(None, false),
        );
        seq![seq![run("▌"@, red), run(" "@ + heading + " "@, red)]] + (if rows.len() <= 4 {
            rows
        } else {
            rows.take(4)
        })
    }
}

/// A blocker is the difference between "idle" and "cannot run": it gets its own
/// band above the timeline.
pub fn banner(app: &App, width: usize) -> (r: Rows)
    ensures
        r@ == banner_of(app@, width as nat),
{
    if app.uncertain.is_none() && app.blockers.len() == 0 {
        return Rows::new();
    }
    let heading: &str = if app.uncertain.is_some() {
        "this worktree is between two states"
    } else {
        "cannot record or restore"
    };
    let chunks: Vec<String> = match &app.uncertain {
        Some(why) => text::wrap(why.as_str(), width.saturating_sub(2)),
        None => text::wrap(app.blockers[0].as_str(), width.saturating_sub(2)),
    };
    let mut head: Line = Line::of(Span::of("▌", theme::danger()));
    let mut t: String = owned(" ");
    t.append(heading);
    t.append(" ");
    head.push(Span::styled(t, theme::danger()));
    let mut body: Rows = led_rows(&chunks, Some(theme::danger()), " ", theme::plain());
    body.cap(4);
    proof {
        assert(app@.blockers.len() == app.blockers@.len());
        assert(app@.uncertain is None ==> app@.blockers[0] == app.blockers@[0]@);
        let red = shade(Some(Color::Red), true);
        assert(head@ == seq![run("▌"@, red), run(" "@ + heading@ + " "@, red)]);
    }
    let mut rows: Rows = Rows::new();
    rows.push(head);
    rows.append(body);
    rows
}

/// The rows of a status, before they are cut: the first line in its own style,
/// the rest faint.
pub open spec fn status_rows(
    lines: Seq<Seq<char>>,
    width: nat,
    bar: Style,
    first: Style,
) -> Seq<Seq<SpanModel>>
    decreases lines.len(),
{
    if lines.len() == 0 {
        Seq::empty()
    } else {
        status_rows(lines.drop_last(), width, bar, first) + led(
            wrapped(lines.last(), less(width as int, 2) as nat),
            Some(bar),
            " "@,
            if lines.len() == 1 {
                first
            } else {
                faint()
            },
        )
    }
}

/// What the dock says about the last thing that happened. A failure gets the
/// room to finish its sentence.
pub open spec fn status_of(status: Option<StatusModel>, width: nat) -> Seq<Seq<SpanModel>> {
    match status {
        None => Seq::empty(),
        Some(s) => {
            let bar = match s.level {
                Level::Good => shade(Some(Color::Green), true),
                Level::Bad => shade(Some(Color::Red), true),
                Level::Info => shade(Some(Color::Cyan), false),
            };
            let first = if s.level == Level::Info {
                shade(None, false)
            } else {
                bar
            };
            let most: int = if s.level == Level::Bad {
                9
            } else {
                3
            };
            let rows = status_rows(s.lines, width, bar, first);
            if rows.len() <= most {
                rows
            } else {
                rows.take(most)
            }
        },
    }
}

/// What the dock says about the last thing that happened.
pub fn status_block(app: &App, width: usize) -> (r: Rows)
    ensures
        r@ == status_of(app@.status, width as nat),
{
    let mut out: Rows = Rows::new();
    match &app.status {
        None => {},
        Some(status) => {
            let bar: Style = match status.level {
                Level::Good => theme::ok(),
                Level::Bad => theme::danger(),
                Level::Info => theme::accent(),
            };
            let first: Style = match status.level {
                Level::Good => theme::ok(),
                Level::Bad => theme::danger(),
                Level::Info => theme::plain(),
            };
            let most: usize = match status.level {
                Level::Bad => 9,
                _ => 3,
            };
            let mut i: usize = 0;
            let ghost all = texts(status.lines@);
            proof {
                assert(all.take(0) =~= Seq::<Seq<char>>::empty());
            }
            while i < status.lines.len()
                invariant
                    i <= status.lines@.len(),
                    all == texts(status.lines@),
                    out@ == status_rows(all.take(i as int), width as nat, bar, first),
                decreases status.lines@.len() - i,
            {
                proof {
                    let now = all.take(i + 1);
                    assert(now.drop_last() =~= all.take(i as int));
                    assert(now.last() == status.lines@[i as int]@);
                }
                let style: Style = if i == 0 {
                    first
                } else {
                    theme::dim()
                };
                let chunks: Vec<String> = text::wrap(
                    status.lines[i].as_str(),
                    width.saturating_sub(2),
                );
                out.append(led_rows(&chunks, Some(bar), " ", style));
                i += 1;
            }
            proof {
                assert(all.take(i as int) =~= all);
            }
            out.cap(most);
        },
    }
    out
}

// ---------------------------------------------------------------- the timeline

/// How many blocks the bar of a row has, by the room there is for the row.
pub open spec fn slots_in(avail: nat) -> nat {
    if avail <= 29 {
        0
    } else if avail <= 39 {
        5
    } else if avail <= 51 {
        8
    } else {
        12
    }
}

/// How many blocks the bars of a timeline have on a screen of this width: two
/// cells go to the border and one to the gutter.
pub fn slots(screen: u16) -> (r: usize)
    ensures
        r == slots_in(less(screen as int, 3) as nat),
{
    let avail: u16 = screen.saturating_sub(3);
    if avail <= 29 {
        0
    } else if avail <= 39 {
        5
    } else if avail <= 51 {
        8
    } else {
        12
    }
}

/// How many lines a turn changed.
pub open spec fn changed(t: TurnModel) -> nat {
    (if t.insertions + t.deletions <= u64::MAX {
        t.insertions + t.deletions
    } else {
        u64::MAX as int
    }) as nat
}

/// The most lines that any turn changed.
pub open spec fn busiest(turns: Seq<TurnModel>) -> nat
    decreases turns.len(),
{
    if turns.len() == 0 {
        0
    } else if changed(turns.last()) > busiest(turns.drop_last()) {
        changed(turns.last())
    } else {
        busiest(turns.drop_last())
    }
}

/// The most lines that any turn on the timeline changed: what its bars are
/// measured against.
pub fn peak(turns: &Vec<Turn>) -> (r: u64)
    ensures
        r == busiest(turns_view(turns@)),
{
    let ghost all = turns_view(turns@);
    let mut most: u64 = 0;
    let mut i: usize = 0;
    proof {
        assert(all.take(0) =~= Seq::<TurnModel>::empty());
    }
    while i < turns.len()
        invariant
            i <= turns@.len(),
            all == turns_view(turns@),
            most == busiest(all.take(i as int)),
        decreases turns@.len() - i,
    {
        proof {
            let now = all.take(i + 1);
            assert(now.drop_last() =~= all.take(i as int));
            assert(now.last() == turns@[i as int]@);
        }
        let total: u64 = turns[i].insertions.saturating_add(turns[i].deletions);
        if total > most {
            most = total;
        }
        i += 1;
    }
    proof {
        assert(all.take(i as int) =~= all);
    }
    most
}

/// The mark at the left of a turn's rows.
pub open spec fn gutter_of(selected: bool) -> SpanModel {
    if selected {
        run("▌"@, shade(Some(Color::Cyan), true))
    } else {
        bare(" "@)
    }
}

/// Which turn it is. On a wide dock the snapshot id fills the gap the age
/// leaves; on a narrow one it is the first thing dropped.
pub open spec fn identity_of(t: TurnModel, selected: bool, now: u64, avail: nat) -> Seq<SpanModel> {
    let compact = avail < 46;
    let body = shade(None, selected);
    let number: nat = if compact {
        4
    } else {
        5
    };
    let kind: nat = if compact {
        5
    } else {
        11
    };
    let age = ago(compact, now, t.at);
    let tail = if avail >= 62 {
        (if t.commit.len() <= 8 {
            t.commit
        } else {
            t.commit.take(8)
        }) + " · "@ + age
    } else {
        age
    };
    let agent = match t.agent {
        Some(a) => a,
        None => Seq::empty(),
    };
    pinned(
        avail,
        seq![
            run(
                padded("#"@ + dec(t.seq as nat), number),
                shade(Some(Color::Cyan), true).patched(body),
            ),
            run(padded(kind_name(t.kind, compact), kind), shade(Some(hue(t.kind)), false)),
            run(
                truncated(
                    agent,
                    less(avail as int, (number + kind + tail.len() + 1) as int) as nat,
                ),
                body,
            ),
        ],
        seq![run(tail, faint())],
    )
}

fn identity(turn: &Turn, selected: bool, now: u64, avail: usize) -> (r: Line)
    ensures
        r@ == identity_of(turn@, selected, now, avail as nat),
{
    let compact: bool = avail < 46;
    let body: Style = if selected {
        theme::strong()
    } else {
        theme::plain()
    };
    let number: usize = if compact {
        4
    } else {
        5
    };
    let kind: usize = if compact {
        5
    } else {
        11
    };
    let age: String = ago_text(compact, now, turn.at);
    let tail: String = if avail >= 62 {
        let mut t: String = text::abbrev(turn.commit.as_str(), 8);
        t.append(" · ");
        t.append(age.as_str());
        t
    } else {
        age
    };
    let taken: usize = (number + kind + 1).saturating_add(text::width(tail.as_str()));
    let agent: String = match &turn.agent {
        Some(a) => text::truncate(a.as_str(), avail.saturating_sub(taken)),
        None => text::truncate("", avail.saturating_sub(taken)),
    };
    proof {
        reveal_strlit("");
        assert(""@ =~= Seq::<char>::empty());
    }
    let mut tag: String = owned("#");
    push_dec(&mut tag, turn.seq);
    let mut left: Line = Line::new();
    left.push(
        Span::styled(text::pad(tag.as_str(), number), theme::accent_strong().patch(body)),
    );
    left.push(
        Span::styled(
            text::pad(kind_label(turn.kind, compact), kind),
            theme::kind(turn.kind),
        ),
    );
    left.push(Span::styled(agent, body));
    let right: Line = Line::of(Span::styled(tail, theme::dim()));
    proof {
        assert(body == shade(None, selected));
        let who = match turn@.agent {
            Some(a) => a,
            None => Seq::empty(),
        };
        let room = less(avail as int, (number + kind + tail@.len() + 1) as int) as nat;
        assert(agent@ == truncated(who, room));
        assert(right@ == seq![run(tail@, faint())]);
        assert(left@ == seq![
            run(
                padded("#"@ + dec(turn.seq as nat), number as nat),
                shade(Some(Color::Cyan), true).patched(body),
            ),
            run(padded(kind_name(turn.kind, compact), kind as nat), shade(Some(hue(turn.kind)), false)),
            run(agent@, body),
        ]);
    }
    edges(avail, left, right)
}

/// The shape of a change, as numbers and as a bar. The first turn has nothing
/// to compare with, so it is not described as an empty change.
pub open spec fn change_of(t: TurnModel, avail: nat, bar: (usize, usize)) -> Seq<SpanModel> {
    let room = less(avail as int, 2) as nat;
    if t.parent is None {
        seq![
            bare("  "@),
            run(
                truncated(counted(t.files as nat, "file"@) + " captured — the starting point"@, room),
                faint(),
            ),
        ]
    } else if t.files == 0 {
        seq![bare("  "@), run(truncated("no change since the previous turn"@, room), faint())]
    } else {
        seq![
            bare("  "@),
            run(counted(t.files as nat, "file"@), faint()),
            bare("   "@),
            run("+"@ + dec(t.insertions as nat), shade(Some(Color::Green), false)),
            bare(" "@),
            run("−"@ + dec(t.deletions as nat), shade(Some(Color::Red), false)),
            bare("   "@),
            run(repeated('█', bar.0 as nat), shade(Some(Color::Green), false)),
            run(repeated('█', bar.1 as nat), shade(Some(Color::Red), false)),
        ]
    }
}

fn change(turn: &Turn, avail: usize, bar: (usize, usize)) -> (r: Line)
    ensures
        r@ == change_of(turn@, avail as nat, bar),
{
    let room: usize = avail.saturating_sub(2);
    let mut line: Line = Line::of(Span::raw("  "));
    if turn.parent.is_none() {
        let mut t: String = files(turn.files);
        t.append(" captured — the starting point");
        line.push(Span::styled(text::truncate(t.as_str(), room), theme::dim()));
    } else if turn.files == 0 {
        line.push(
            Span::styled(text::truncate("no change since the previous turn", room), theme::dim()),
        );
    } else {
        let mut plus: String = owned("+");
        push_dec(&mut plus, turn.insertions);
        let mut minus: String = owned("−");
        push_dec(&mut minus, turn.deletions);
        line.push(Span::styled(files(turn.files), theme::dim()));
        line.push(Span::raw("   "));
        line.push(Span::styled(plus, theme::added()));
        line.push(Span::raw(" "));
        line.push(Span::styled(minus, theme::removed()));
        line.push(Span::raw("   "));
        line.push(Span::styled(text::repeat('█', bar.0), theme::added()));
        line.push(Span::styled(text::repeat('█', bar.1), theme::removed()));
    }
    line
}

/// The prompt of a turn, on one line, if there is anything to read in it.
pub open spec fn asked(t: TurnModel) -> Option<Seq<char>> {
    match t.prompt {
        Some(p) => if cleaned(p).len() > 0 {
            Some(cleaned(p))
        } else {
            None
        },
        None => None,
    }
}

pub fn prompt(turn: &Turn) -> (r: Option<String>)
    ensures
        opt_text(r) == asked(turn@),
{
    match &turn.prompt {
        Some(p) => {
            let said: String = text::clean(p.as_str());
            if text::width(said.as_str()) > 0 {
                Some(said)
            } else {
                None
            }
        },
        None => None,
    }
}

/// What the agent was asked, or what the turn notes of itself.
pub open spec fn words_of(t: TurnModel, selected: bool, avail: nat) -> Seq<Seq<SpanModel>> {
    match asked(t) {
        Some(p) => {
            let said = seq![run(truncated("  “"@ + p + "”"@, avail), quoted())];
            if selected {
                seq![
                    guttered(gutter_of(selected), said),
                    guttered(
                        gutter_of(selected),
                        seq![
                            run(
                                truncated("    read off the pane — not authoritative"@, avail),
                                faint(),
                            ),
                        ],
                    ),
                ]
            } else {
                seq![guttered(gutter_of(selected), said)]
            }
        },
        None => match t.note {
            Some(n) => seq![
                guttered(
                    gutter_of(selected),
                    seq![run(truncated("  "@ + n, avail), faint())],
                ),
            ],
            None => Seq::empty(),
        },
    }
}

fn words(turn: &Turn, selected: bool, gutter: &Span, avail: usize) -> (r: Rows)
    requires
        gutter@ == gutter_of(selected),
    ensures
        r@ == words_of(turn@, selected, avail as nat),
{
    let mut rows: Rows = Rows::new();
    match prompt(turn) {
        Some(p) => {
            let mut t: String = owned("  “");
            t.append(p.as_str());
            t.append("”");
            rows.push(
                prefix(
                    gutter,
                    Line::of(
                        Span::styled(text::truncate(t.as_str(), avail), theme::quiet_italic()),
                    ),
                ),
            );
            if selected {
                let caveat: String = text::truncate(
                    "    read off the pane — not authoritative",
                    avail,
                );
                rows.push(prefix(gutter, Line::of(Span::styled(caveat, theme::dim()))));
            }
        },
        None => {
            if let Some(n) = &turn.note {
                let mut t: String = owned("  ");
                t.append(n.as_str());
                rows.push(
                    prefix(
                        gutter,
                        Line::of(Span::styled(text::truncate(t.as_str(), avail), theme::dim())),
                    ),
                );
            }
        },
    }
    rows
}

/// One turn, as two to five rows: which turn it is, what it changed, what was
/// asked, and on the selected one which snapshot it is and when it was taken.
pub open spec fn turn_of(
    t: TurnModel,
    selected: bool,
    now: u64,
    width: nat,
    bar: (usize, usize),
) -> Seq<Seq<SpanModel>> {
    let avail = less(width as int, 1) as nat;
    let gutter = gutter_of(selected);
    let rows = seq![
        guttered(gutter, identity_of(t, selected, now, avail)),
        guttered(gutter, change_of(t, avail, bar)),
    ] + words_of(t, selected, avail);
    if selected {
        rows.push(
            guttered(
                gutter,
                seq![
                    run(
                        truncated(
                            "  "@ + within(t.commit, 12) + " · "@ + stamp_of(t.at),
                            avail,
                        ),
                        faint(),
                    ),
                ],
            ),
        )
    } else {
        rows
    }
}

/// One turn, as two to five rows depending on what it knows and whether it is
/// the row the user is on. `bar` is how many blocks of its bar are insertions
/// and how many are deletions.
pub fn turn_rows(turn: &Turn, selected: bool, now: u64, width: usize, bar: (usize, usize)) -> (r:
    Rows)
    ensures
        r@ == turn_of(turn@, selected, now, width as nat, bar),
{
    let avail: usize = width.saturating_sub(1);
    let gutter: Span = if selected {
        Span::of(theme::CURSOR, theme::cursor_style())
    } else {
        Span::raw(theme::GUTTER)
    };
    let mut rows: Rows = Rows::new();
    rows.push(prefix(&gutter, identity(turn, selected, now, avail)));
    rows.push(prefix(&gutter, change(turn, avail, bar)));
    rows.append(words(turn, selected, &gutter, avail));
    if selected {
        let mut t: String = owned("  ");
        t.append(short(turn.commit.as_str()).as_str());
        t.append(" · ");
        t.append(text::stamp(turn.at).as_str());
        rows.push(
            prefix(
                &gutter,
                Line::of(Span::styled(text::truncate(t.as_str(), avail), theme::dim())),
            ),
        );
    }
    rows
}

/// One command and what it does.
pub open spec fn command(name: Seq<char>, what: Seq<char>, width: nat) -> Seq<SpanModel> {
    seq![
        bare(" "@),
        run(padded(name, 13), shade(Some(Color::Cyan), false)),
        run(truncated(what, less(width as int, 15) as nat), faint()),
    ]
}

fn command_row(name: &str, what: &str, width: usize) -> (r: Line)
    ensures
        r@ == command(name@, what@, width as nat),
{
    let mut line: Line = Line::of(Span::raw(" "));
    line.push(Span::styled(text::pad(name, 13), theme::accent()));
    line.push(Span::styled(text::truncate(what, width.saturating_sub(15)), theme::dim()));
    line
}

/// What an empty timeline says: what to run, and which other timelines there
/// are.
pub open spec fn empty_of(a: AppModel, width: nat) -> Seq<Seq<SpanModel>> {
    if a.loading {
        seq![
            blank(),
            seq![run(" "@ + spinning(a.spinner) + " reading the timeline…"@, faint())],
        ]
    } else {
        let room = less(width as int, 2) as nat;
        let rows = seq![
            blank(),
            seq![
                run(
                    truncated(" nothing recorded on `"@ + a.line + "` yet"@, width),
                    shade(None, true),
                ),
            ],
            blank(),
            command("sheep snap"@, "record the tree as it is now"@, width),
            command("sheep watch"@, "record every agent turn"@, width),
            blank(),
        ] + led(
            wrapped(
                "Sheep records nothing until one of those runs — it never watches your files behind your back."@,
                room,
            ),
            None,
            " "@,
            faint(),
        );
        if a.others.len() > 0 {
            rows.push(blank()) + led(
                wrapped("other timelines here: "@ + join(a.others, ", "@), room),
                None,
                " "@,
                faint(),
            )
        } else {
            rows
        }
    }
}

/// What an empty timeline says.
pub fn empty_state(app: &App, width: usize) -> (r: Rows)
    ensures
        r@ == empty_of(app@, width as nat),
{
    let mut rows: Rows = Rows::new();
    rows.push(blank_row());
    if app.loading {
        let mut t: String = owned(" ");
        t.append(spinner(app));
        t.append(" reading the timeline…");
        rows.push(Line::of(Span::styled(t, theme::dim())));
        return rows;
    }
    let room: usize = width.saturating_sub(2);
    let mut t: String = owned(" nothing recorded on `");
    t.append(app.line.as_str());
    t.append("` yet");
    rows.push(Line::of(Span::styled(text::truncate(t.as_str(), width), theme::strong())));
    rows.push(blank_row());
    rows.push(command_row("sheep snap", "record the tree as it is now", width));
    rows.push(command_row("sheep watch", "record every agent turn", width));
    rows.push(blank_row());
    let promise: Vec<String> = text::wrap(
        "Sheep records nothing until one of those runs — it never watches your files behind your back.",
        room,
    );
    rows.append(led_rows(&promise, None, " ", theme::dim()));
    if app.others.len() > 0 {
        let mut told: String = owned("other timelines here: ");
        told.append(join_with(&app.others, ", ").as_str());
        let chunks: Vec<String> = text::wrap(told.as_str(), room);
        rows.push(blank_row());
        rows.append(led_rows(&chunks, None, " ", theme::dim()));
    }
    rows
}

/// Every turn of a timeline, as far as the first `n`.
pub open spec fn turns_of(
    turns: Seq<TurnModel>,
    bars: Seq<(usize, usize)>,
    sel: usize,
    now: u64,
    width: nat,
) -> Seq<Seq<Seq<SpanModel>>> {
    Seq::new(
        turns.len(),
        |i: int| turn_of(turns[i], i == sel, now, width, bars[i]),
    )
}

/// The timeline, in its frame.
pub open spec fn timeline_of(a: AppModel, area: Rect, bars: Seq<(usize, usize)>) -> Seq<PaintModel> {
    let inner = area.within_border();
    let width = inner.width as nat;
    let border = PaintModel::Border {
        area,
        style: faint(),
        title: run(" timeline "@, shade(Some(Color::Cyan), false)),
        bottom: Some(
            run(
                if a.turns.len() == 0 {
                    Seq::empty()
                } else {
                    " "@ + dec((a.sel + 1) as nat) + "/"@ + dec(a.turns.len()) + " "@
                },
                faint(),
            ),
        ),
    };
    if a.turns.len() == 0 {
        seq![
            border,
            PaintModel::Text { area: inner, rows: empty_of(a, width), wrap: true, scroll: 0 },
        ]
    } else {
        seq![
            border,
            PaintModel::List {
                area: inner,
                items: turns_of(a.turns, bars, a.sel, a.now, width),
                selected: a.sel,
            },
        ]
    }
}

/// The timeline, in its frame.
pub fn draw_timeline(app: &App, area: Rect, bars: &Vec<(usize, usize)>) -> (r: Scene)
    requires
        app@.turns.len() > 0 ==> app@.sel < usize::MAX,
        bars@.len() == app@.turns.len(),
    ensures
        r@ == timeline_of(app@, area, bars@),
{
    let inner: Rect = area.inner();
    let width: usize = inner.width as usize;
    let mut scene: Scene = Scene::new();
    let mut position: String = String::new();
    proof {
        assert(position@ =~= Seq::<char>::empty());
        assert(app@.turns.len() == app.turns@.len());
    }
    if app.turns.len() > 0 {
        position = owned(" ");
        push_dec(&mut position, (app.sel + 1) as u64);
        position.append("/");
        push_dec(&mut position, app.turns.len() as u64);
        position.append(" ");
    }
    scene.push(
        Paint::Border {
            area,
            style: theme::dim(),
            title: Span::of(" timeline ", theme::accent()),
            bottom: Some(Span::styled(position, theme::dim())),
        },
    );
    if app.turns.len() == 0 {
        scene.push(
            Paint::Text { area: inner, rows: empty_state(app, width), wrap: true, scroll: 0 },
        );
        return scene;
    }
    let mut items: Items = Items::new();
    let mut i: usize = 0;
    let ghost all = turns_of(app@.turns, bars@, app@.sel, app@.now, width as nat);
    proof {
        assert(all.take(0) =~= Seq::<Seq<Seq<SpanModel>>>::empty());
    }
    while i < app.turns.len()
        invariant
            i <= app.turns@.len(),
            bars@.len() == app@.turns.len(),
            app@.turns.len() == app.turns@.len(),
            all == turns_of(app@.turns, bars@, app@.sel, app@.now, width as nat),
            items@ == all.take(i as int),
        decreases app.turns@.len() - i,
    {
        proof {
            assert(all.take(i + 1) =~= all.take(i as int).push(all[i as int]));
            assert(app@.turns[i as int] == app.turns@[i as int]@);
        }
        items.push(turn_rows(&app.turns[i], i == app.sel, app.now, width, bars[i]));
        i += 1;
    }
    proof {
        assert(all.take(i as int) =~= all);
    }
    scene.push(Paint::List { area: inner, items, selected: app.sel });
    scene
}

} // verus!
