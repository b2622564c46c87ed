//! Rows of text, composed against the width they are given.
use crate::store::TurnKind;
use crate::strings::{dec, dec_of, owned, texts};
use crate::tui::app::App;
use crate::tui::scene::{bare, cells, less, run, Line, Rows, Span, SpanModel};
use crate::tui::text::{self, age_of, repeated, short_age_of};
use crate::tui::theme::{self, faint, shade, Style};
use vstd::prelude::*;
use vstd::string::*;

verus! {

/// One row with content pinned to both edges.
pub open spec fn pinned(
    width: nat,
    left: Seq<SpanModel>,
    right: Seq<SpanModel>,
) -> Seq<SpanModel> {
    left.push(bare(repeated(' ', less(width as int, (cells(left) + cells(right)) as int) as nat)))
        + right
}

/// One row with content pinned to both edges.
pub fn edges(width: usize, left: Line, right: Line) -> (r: Line)
    ensures
        r@ == pinned(width as nat, left@, right@),
{
    let used: usize = left.width().saturating_add(right.width());
    let gap: String = text::repeat(' ', width.saturating_sub(used));
    let mut spans: Line = left;
    spans.push(Span::raw(gap.as_str()));
    spans.append(right);
    spans
}

/// A list of keys and what each does.
pub open spec fn pairs_view(v: Seq<(&str, &str)>) -> Seq<(Seq<char>, Seq<char>)> {
    v.map_values(|p: (&str, &str)| (p.0@, p.1@))
}

/// How many cells a list of keys takes on one row.
pub open spec fn cost(pairs: Seq<(Seq<char>, Seq<char>)>) -> nat
    decreases pairs.len(),
{
    if pairs.len() == 0 {
        0
    } else {
        cost(pairs.drop_last()) + (if pairs.len() > 1 {
            3nat
        } else {
            0
        }) + pairs.last().0.len() + 1 + pairs.last().1.len()
    }
}

/// How many keys fit on a row, counted from the left.
pub open spec fn fitting(width: nat, pairs: Seq<(Seq<char>, Seq<char>)>) -> nat
    decreases pairs.len(),
{
    if pairs.len() == 0 || (fitting(width, pairs.drop_last()) == pairs.len() - 1 && cost(pairs)
        <= width) {
        pairs.len()
    } else {
        fitting(width, pairs.drop_last())
    }
}

/// Keys on a row, with what each does.
pub open spec fn keyed(pairs: Seq<(Seq<char>, Seq<char>)>) -> Seq<SpanModel>
    decreases pairs.len(),
{
    if pairs.len() == 0 {
        Seq::empty()
    } else {
        (if pairs.len() > 1 {
            keyed(pairs.drop_last()).push(run(" · "@, faint()))
        } else {
            keyed(pairs.drop_last())
        }).push(run(pairs.last().0, shade(None, true))).push(
            run(" "@ + pairs.last().1, faint()),
        )
    }
}

/// As many keys as fit, dropped from the right when they do not.
pub open spec fn hinted(width: nat, pairs: Seq<(Seq<char>, Seq<char>)>) -> Seq<SpanModel> {
    keyed(pairs.take(fitting(width, pairs) as int))
}

/// Once one key does not fit, none after it is shown.
proof fn lemma_fitting_stops(width: nat, pairs: Seq<(Seq<char>, Seq<char>)>, n: int)
    requires
        0 <= n < pairs.len(),
        cost(pairs.take(n + 1)) > width,
        fitting(width, pairs.take(n)) == n,
    ensures
        fitting(width, pairs) == n,
    decreases pairs.len(),
{
    let shorter = pairs.drop_last();
    if n + 1 == pairs.len() {
        assert(pairs.take(n + 1) =~= pairs);
        assert(pairs.take(n) =~= shorter);
    } else {
        assert(shorter.take(n + 1) =~= pairs.take(n + 1));
        assert(shorter.take(n) =~= pairs.take(n));
        lemma_fitting_stops(width, shorter, n);
    }
}

/// As many `key label` pairs as fit, dropped from the right when they do not.
pub fn hints(width: usize, pairs: &Vec<(&str, &str)>) -> (r: Line)
    ensures
        r@ == hinted(width as nat, pairs_view(pairs@)),
{
    let ghost all = pairs_view(pairs@);
    let mut spans: Line = Line::new();
    let mut used: usize = 0;
    let mut i: usize = 0;
    proof {
        assert(all.take(0) =~= Seq::<(Seq<char>, Seq<char>)>::empty());
    }
    while i < pairs.len()
        invariant
            i <= pairs@.len(),
            all == pairs_view(pairs@),
            used <= width,
            used == cost(all.take(i as int)),
            fitting(width as nat, all.take(i as int)) == i,
            spans@ == keyed(all.take(i as int)),
        decreases pairs@.len() - i,
    {
        proof {
            let now = all.take(i + 1);
            assert(now.drop_last() =~= all.take(i as int));
            assert(now.last() == (pairs@[i as int].0@, pairs@[i as int].1@));
        }
        let sep: u128 = if i == 0 {
            0
        } else {
            3
        };
        let key: &str = pairs[i].0;
        let what: &str = pairs[i].1;
        let taken: u128 = sep + text::width(key) as u128 + 1 + text::width(what) as u128;
        if taken > (width - used) as u128 {
            proof {
                lemma_fitting_stops(width as nat, all, i as int);
            }
            return spans;
        }
        if i > 0 {
            spans.push(Span::of(" · ", theme::dim()));
        }
        spans.push(Span::of(key, theme::strong()));
        let mut told: String = owned(" ");
        told.append(what);
        spans.push(Span::styled(told, theme::dim()));
        used = used + taken as usize;
        i += 1;
    }
    proof {
        assert(all.take(i as int) =~= all);
    }
    spans
}

/// The spinner, at each of its four steps.
pub open spec fn spinning(step: usize) -> Seq<char> {
    if step % 4 == 0 {
        "⠋"@
    } else if step % 4 == 1 {
        "⠙"@
    } else if step % 4 == 2 {
        "⠹"@
    } else {
        "⠸"@
    }
}

pub fn spinner(app: &App) -> (r: &'static str)
    ensures
        r@ == spinning(app@.spinner),
{
    let step: usize = app.spinner % 4;
    if step == 0 {
        "⠋"
    } else if step == 1 {
        "⠙"
    } else if step == 2 {
        "⠹"
    } else {
        "⠸"
    }
}

/// A line across the whole width.
pub open spec fn ruled(width: nat) -> Seq<SpanModel> {
    seq![run(repeated('─', width), faint())]
}

pub fn rule(width: usize) -> (r: Line)
    ensures
        r@ == ruled(width as nat),
{
    Line::of(Span::styled(text::repeat('─', width), theme::dim()))
}

/// What a kind of turn is called.
pub open spec fn kind_name(kind: TurnKind, compact: bool) -> Seq<char> {
    match kind {
        TurnKind::Turn => "turn"@,
        TurnKind::Checkpoint => if compact {
            "ckpt"@
        } else {
            "checkpoint"@
        },
        TurnKind::Manual => if compact {
            "man"@
        } else {
            "manual"@
        },
    }
}

pub fn kind_label(kind: TurnKind, compact: bool) -> (r: &'static str)
    ensures
        r@ == kind_name(kind, compact),
{
    match kind {
        TurnKind::Turn => "turn",
        TurnKind::Checkpoint => if compact {
            "ckpt"
        } else {
            "checkpoint"
        },
        TurnKind::Manual => if compact {
            "man"
        } else {
            "manual"
        },
    }
}

/// `1 turn`, `4 turns`.
pub open spec fn counted(n: nat, noun: Seq<char>) -> Seq<char> {
    if n == 1 {
        "1 "@ + noun
    } else {
        dec(n) + " "@ + noun + "s"@
    }
}

/// `1 turn`, `4 turns`. A dock that says "1 turns" reads as unfinished.
pub fn plural(n: usize, noun: &str) -> (r: String)
    ensures
        r@ == counted(n as nat, noun@),
{
    if n == 1 {
        let mut t: String = owned("1 ");
        t.append(noun);
        t
    } else {
        let mut t: String = dec_of(n as u64);
        t.append(" ");
        t.append(noun);
        t.append("s");
        t
    }
}

pub fn files(n: usize) -> (r: String)
    ensures
        r@ == counted(n as nat, "file"@),
{
    plural(n, "file")
}

/// Rows of text, each behind the same lead, and behind a bar where there is
/// one.
pub open spec fn led(
    chunks: Seq<Seq<char>>,
    bar: Option<Style>,
    lead: Seq<char>,
    style: Style,
) -> Seq<Seq<SpanModel>> {
    chunks.map_values(|c: Seq<char>| led_row(c, bar, lead, style))
}

pub open spec fn led_row(chunk: Seq<char>, bar: Option<Style>, lead: Seq<char>, style: Style) -> Seq<
    SpanModel,
> {
    match bar {
        Some(b) => seq![run("▌"@, b), run(lead + chunk, style)],
        None => seq![run(lead + chunk, style)],
    }
}

/// Rows of text, each behind the same lead, and behind a bar where there is
/// one.
pub fn led_rows(chunks: &Vec<String>, bar: Option<Style>, lead: &str, style: Style) -> (r: Rows)
    ensures
        r@ == led(texts(chunks@), bar, lead@, style),
{
    let mut rows: Rows = Rows::new();
    let mut i: usize = 0;
    proof {
        assert(led(texts(chunks@), bar, lead@, style).take(0) =~= Seq::<Seq<SpanModel>>::empty());
    }
    while i < chunks.len()
        invariant
            i <= chunks@.len(),
            rows@ == led(texts(chunks@), bar, lead@, style).take(i as int),
        decreases chunks@.len() - i,
    {
        proof {
            let all = led(texts(chunks@), bar, lead@, style);
            assert(all.take(i + 1) =~= all.take(i as int).push(all[i as int]));
            assert(all[i as int] == led_row(chunks@[i as int]@, bar, lead@, style));
        }
        let mut said: String = owned(lead);
        said.append(chunks[i].as_str());
        let mut line: Line = Line::new();
        if let Some(b) = bar {
            line.push(Span::of("▌", b));
        }
        line.push(Span::styled(said, style));
        proof {
            assert(line@ =~= led_row(chunks@[i as int]@, bar, lead@, style));
        }
        rows.push(line);
        i += 1;
    }
    proof {
        let all = led(texts(chunks@), bar, lead@, style);
        assert(all.take(i as int) =~= all);
    }
    rows
}

/// A row with a gutter before it.
pub open spec fn guttered(gutter: SpanModel, line: Seq<SpanModel>) -> Seq<SpanModel> {
    seq![gutter] + line
}

pub fn prefix(gutter: &Span, line: Line) -> (r: Line)
    ensures
        r@ == guttered(gutter@, line@),
{
    let mut spans: Line = Line::of(gutter.clone());
    spans.append(line);
    spans
}

/// How long ago, in as many words as the width has room for.
pub open spec fn ago(short: bool, now: u64, then: u64) -> Seq<char> {
    if short {
        short_age_of(now, then)
    } else {
        age_of(now, then)
    }
}

pub fn ago_text(brief: bool, now: u64, then: u64) -> (r: String)
    ensures
        r@ == ago(brief, now, then),
{
    if brief {
        text::age_short(now, then)
    } else {
        text::age(now, then)
    }
}

/// A row with nothing on it.
pub open spec fn blank() -> Seq<SpanModel> {
    seq![bare(""@)]
}

pub fn blank_row() -> (r: Line)
    ensures
        r@ == blank(),
{
    Line::of(Span::raw(""))
}

} // verus!
