//! What a frame is made of: styled text, areas, and the things painted in them.
use crate::strings::owned;
use crate::tui::theme::{self, Style};
use ratatui::layout::{Constraint, Direction, Layout};
use vstd::prelude::*;
use vstd::string::*;

verus! {

/// A run of text in one style.
#[derive(Debug)]
pub struct Span {
    pub text: String,
    pub style: Style,
}

#[verifier::ext_equal]
pub struct SpanModel {
    pub text: Seq<char>,
    pub style: Style,
}

impl View for Span {
    type V = SpanModel;

    open spec fn view(&self) -> SpanModel {
        SpanModel { text: self.text@, style: self.style }
    }
}

/// A run of text in one style.
pub open spec fn run(text: Seq<char>, style: Style) -> SpanModel {
    SpanModel { text, style }
}

/// A run of ordinary text.
pub open spec fn bare(text: Seq<char>) -> SpanModel {
    run(text, theme::shade(None, false))
}

impl Span {
    pub fn styled(text: String, style: Style) -> (r: Self)
        ensures
            r@ == run(text@, style),
    {
        Span { text, style }
    }

    pub fn raw(text: &str) -> (r: Self)
        ensures
            r@ == bare(text@),
    {
        Span { text: owned(text), style: theme::plain() }
    }

    pub fn of(text: &str, style: Style) -> (r: Self)
        ensures
            r@ == run(text@, style),
    {
        Span { text: owned(text), style }
    }
}

impl Clone for Span {
    fn clone(&self) -> (r: Self)
        ensures
            r == *self,
    {
        Span { text: self.text.clone(), style: self.style }
    }
}

pub open spec fn spans_view(v: Seq<Span>) -> Seq<SpanModel> {
    v.map_values(|s: Span| s@)
}

/// One row of text.
#[derive(Debug)]
pub struct Line {
    pub spans: Vec<Span>,
}

impl View for Line {
    type V = Seq<SpanModel>;

    open spec fn view(&self) -> Seq<SpanModel> {
        spans_view(self.spans@)
    }
}

/// How many cells a row of text takes.
pub open spec fn cells(spans: Seq<SpanModel>) -> nat
    decreases spans.len(),
{
    if spans.len() == 0 {
        0
    } else {
        cells(spans.drop_last()) + spans.last().text.len()
    }
}

pub proof fn lemma_cells_add(a: Seq<SpanModel>, b: Seq<SpanModel>)
    ensures
        cells(a + b) == cells(a) + cells(b),
    decreases b.len(),
{
    if b.len() == 0 {
        assert(a + b =~= a);
    } else {
        assert((a + b).drop_last() =~= a + b.drop_last());
        lemma_cells_add(a, b.drop_last());
    }
}

impl Line {
    pub fn new() -> (r: Self)
        ensures
            r@ == Seq::<SpanModel>::empty(),
    {
        let spans: Vec<Span> = Vec::new();
        proof {
            assert(spans_view(spans@) =~= Seq::<SpanModel>::empty());
        }
        Line { spans }
    }

    pub fn of(span: Span) -> (r: Self)
        ensures
            r@ == seq![span@],
    {
        let mut line: Line = Line::new();
        line.push(span);
        line
    }

    pub fn push(&mut self, span: Span)
        ensures
            final(self)@ == old(self)@.push(span@),
    {
        let ghost was = self.spans@;
        self.spans.push(span);
        proof {
            assert(spans_view(self.spans@) =~= spans_view(was).push(span@));
        }
    }

    pub fn append(&mut self, other: Line)
        ensures
            final(self)@ == old(self)@ + other@,
    {
        let mut rest: Vec<Span> = other.spans;
        let ghost was = self.spans@;
        let ghost more = rest@;
        self.spans.append(&mut rest);
        proof {
            assert(spans_view(self.spans@) =~= spans_view(was) + spans_view(more));
        }
    }

    /// How many cells the row takes, as far as that can be counted.
    pub fn width(&self) -> (r: usize)
        ensures
            r == if cells(self@) <= usize::MAX {
                cells(self@)
            } else {
                usize::MAX as nat
            },
    {
        let mut used: usize = 0;
        let mut i: usize = 0;
        proof {
            assert(self@.take(0) =~= Seq::<SpanModel>::empty());
        }
        while i < self.spans.len()
            invariant
                i <= self.spans@.len(),
                used == if cells(self@.take(i as int)) <= usize::MAX {
                    cells(self@.take(i as int))
                } else {
                    usize::MAX as nat
                },
            decreases self.spans@.len() - i,
        {
            proof {
                let now = self@.take(i + 1);
                assert(now.drop_last() =~= self@.take(i as int));
                assert(now.last() == self.spans@[i as int]@);
            }
            used = used.saturating_add(crate::tui::text::width(self.spans[i].text.as_str()));
            i += 1;
        }
        proof {
            assert(self@.take(i as int) =~= self@);
        }
        used
    }
}

pub open spec fn lines_view(v: Seq<Line>) -> Seq<Seq<SpanModel>> {
    v.map_values(|l: Line| l@)
}

/// A block of rows.
#[derive(Debug)]
pub struct Rows {
    pub lines: Vec<Line>,
}

impl View for Rows {
    type V = Seq<Seq<SpanModel>>;

    open spec fn view(&self) -> Seq<Seq<SpanModel>> {
        lines_view(self.lines@)
    }
}

impl Rows {
    pub fn new() -> (r: Self)
        ensures
            r@ == Seq::<Seq<SpanModel>>::empty(),
    {
        let lines: Vec<Line> = Vec::new();
        proof {
            assert(lines_view(lines@) =~= Seq::<Seq<SpanModel>>::empty());
        }
        Rows { lines }
    }

    pub fn push(&mut self, line: Line)
        ensures
            final(self)@ == old(self)@.push(line@),
    {
        let ghost was = self.lines@;
        self.lines.push(line);
        proof {
            assert(lines_view(self.lines@) =~= lines_view(was).push(line@));
        }
    }

    pub fn append(&mut self, other: Rows)
        ensures
            final(self)@ == old(self)@ + other@,
    {
        let mut rest: Vec<Line> = other.lines;
        let ghost was = self.lines@;
        let ghost more = rest@;
        self.lines.append(&mut rest);
        proof {
            assert(lines_view(self.lines@) =~= lines_view(was) + lines_view(more));
        }
    }

    /// No more than this many rows.
    pub fn cap(&mut self, most: usize)
        ensures
            final(self)@ == if old(self)@.len() <= most {
                old(self)@
            } else {
                old(self)@.take(most as int)
            },
    {
        let ghost was = self.lines@;
        self.lines.truncate(most);
        proof {
            if was.len() > most {
                assert(lines_view(self.lines@) =~= lines_view(was).take(most as int));
            }
        }
    }

    pub fn len(&self) -> (r: usize)
        ensures
            r == self@.len(),
    {
        self.lines.len()
    }
}

pub open spec fn items_view(v: Seq<Rows>) -> Seq<Seq<Seq<SpanModel>>> {
    v.map_values(|r: Rows| r@)
}

/// The entries of a list, each a block of rows.
#[derive(Debug)]
pub struct Items {
    pub items: Vec<Rows>,
}

impl View for Items {
    type V = Seq<Seq<Seq<SpanModel>>>;

    open spec fn view(&self) -> Seq<Seq<Seq<SpanModel>>> {
        items_view(self.items@)
    }
}

impl Items {
    pub fn new() -> (r: Self)
        ensures
            r@ == Seq::<Seq<Seq<SpanModel>>>::empty(),
    {
        let items: Vec<Rows> = Vec::new();
        proof {
            assert(items_view(items@) =~= Seq::<Seq<Seq<SpanModel>>>::empty());
        }
        Items { items }
    }

    pub fn push(&mut self, rows: Rows)
        ensures
            final(self)@ == old(self)@.push(rows@),
    {
        let ghost was = self.items@;
        self.items.push(rows);
        proof {
            assert(items_view(self.items@) =~= items_view(was).push(rows@));
        }
    }

    pub fn len(&self) -> (r: usize)
        ensures
            r == self@.len(),
    {
        self.items.len()
    }
}

// ----------------------------------------------------------------------- areas

/// A part of the screen, in cells.
#[derive(Debug, Clone, Copy, PartialEq, Eq, Structural)]
pub struct Rect {
    pub x: u16,
    pub y: u16,
    pub width: u16,
    pub height: u16,
}

/// Which way an area is split.
#[derive(Debug, Clone, Copy, PartialEq, Eq, Structural)]
pub enum Axis {
    /// One part under the other.
    Down,
    /// One part beside the other.
    Across,
}

/// How much of a split goes to one part.
#[derive(Debug, Clone, Copy, PartialEq, Eq, Structural)]
pub enum Part {
    /// This many cells.
    Length(u16),
    /// At least this many cells.
    Min(u16),
    /// This share of the whole.
    Percentage(u16),
}

/// The smaller of two.
pub open spec fn least(a: int, b: int) -> int {
    if a <= b {
        a
    } else {
        b
    }
}

/// What is left of `a` after `b` is taken from it.
pub open spec fn less(a: int, b: int) -> int {
    if a <= b {
        0
    } else {
        a - b
    }
}

impl Rect {
    /// The area ends on the screen.
    pub open spec fn fits(self) -> bool {
        &&& self.x + self.width <= u16::MAX
        &&& self.y + self.height <= u16::MAX
    }

    /// The area is a band across another: as wide as it, and between its top and
    /// its bottom.
    pub open spec fn across(self, area: Rect) -> bool {
        &&& self.x == area.x
        &&& self.width == area.width
        &&& area.y <= self.y
        &&& self.y + self.height <= area.y + area.height
    }

    /// The area is a band down another: as tall as it, and between its left and
    /// its right edge.
    pub open spec fn down(self, area: Rect) -> bool {
        &&& self.y == area.y
        &&& self.height == area.height
        &&& area.x <= self.x
        &&& self.x + self.width <= area.x + area.width
    }

    /// What a border on every side leaves of the area.
    pub open spec fn within_border(self) -> Rect {
        Rect {
            x: least(least(self.x + 1, u16::MAX as int), least(self.x + self.width, u16::MAX as int))
                as u16,
            y: least(
                least(self.y + 1, u16::MAX as int),
                least(self.y + self.height, u16::MAX as int),
            ) as u16,
            width: less(self.width as int, 2) as u16,
            height: less(self.height as int, 2) as u16,
        }
    }

    /// What a border on every side leaves of the area.
    pub fn inner(self) -> (r: Rect)
        ensures
            r == self.within_border(),
    {
        let right: u16 = self.x.saturating_add(self.width);
        let bottom: u16 = self.y.saturating_add(self.height);
        let left: u16 = self.x.saturating_add(1);
        let top: u16 = self.y.saturating_add(1);
        Rect {
            x: if left <= right {
                left
            } else {
                right
            },
            y: if top <= bottom {
                top
            } else {
                bottom
            },
            width: self.width.saturating_sub(2),
            height: self.height.saturating_sub(2),
        }
    }
}

impl Rect {
    /// Where the area begins along an axis.
    pub open spec fn begins(self, axis: Axis) -> int {
        match axis {
            Axis::Down => self.y as int,
            Axis::Across => self.x as int,
        }
    }

    /// How far the area reaches along an axis.
    pub open spec fn reach(self, axis: Axis) -> int {
        match axis {
            Axis::Down => self.height as int,
            Axis::Across => self.width as int,
        }
    }

    /// The area is a band across or down another, whichever a split makes.
    pub open spec fn band(self, axis: Axis, area: Rect) -> bool {
        match axis {
            Axis::Down => self.across(area),
            Axis::Across => self.down(area),
        }
    }
}

/// What a part asks for at least.
pub open spec fn asks(part: Part) -> int {
    match part {
        Part::Length(n) => n as int,
        Part::Min(n) => n as int,
        Part::Percentage(_) => 0,
    }
}

/// What the first `n` parts ask for together.
pub open spec fn asked(parts: Seq<Part>, n: nat) -> int
    decreases n,
{
    if n == 0 {
        0
    } else {
        asked(parts, (n - 1) as nat) + asks(parts[n - 1])
    }
}

/// Whether part `m` is a minimum, one that is no larger than a signed number of
/// 16 bits, and every other part is a length.
pub open spec fn one_grows(parts: Seq<Part>, m: int) -> bool {
    &&& 0 <= m < parts.len()
    &&& parts[m] matches Part::Min(n)
    &&& n <= i16::MAX
    &&& forall|i: int| 0 <= i < parts.len() && i != m ==> (#[trigger] parts[i]) is Length
}

/// Whether there is room for all that lengths and one minimum ask for.
pub open spec fn roomy(parts: Seq<Part>, room: int) -> bool {
    &&& exists|m: int| #[trigger] one_grows(parts, m)
    &&& asked(parts, parts.len()) <= room
}

/// Whether the parts are two shares that make up the whole.
pub open spec fn shared(parts: Seq<Part>) -> bool {
    &&& parts.len() == 2
    &&& parts[0] matches Part::Percentage(p)
    &&& parts[1] matches Part::Percentage(q)
    &&& p + q == 100
}

/// A share of a whole in cells, rounded to the nearest, and up from the middle.
pub open spec fn share(percent: int, whole: int) -> int {
    (percent * whole + 50) / 100
}

/// Whether areas fill another without a gap: the first begins where it begins,
/// each of the others where the one before it ends, and the last ends where it
/// ends.
pub open spec fn gapless(axis: Axis, areas: Seq<Rect>, area: Rect) -> bool {
    &&& areas.len() > 0
    &&& areas[0].begins(axis) == area.begins(axis)
    &&& forall|i: int|
        0 < i < areas.len() ==> (#[trigger] areas[i]).begins(axis) == areas[i - 1].begins(axis)
            + areas[i - 1].reach(axis)
    &&& areas.last().begins(axis) + areas.last().reach(axis) == area.begins(axis) + area.reach(axis)
}

/// Whether an area has what its part asks for: a length exactly, and a minimum
/// at least.
pub open spec fn granted(part: Part, reach: int) -> bool {
    match part {
        Part::Length(n) => reach == n,
        Part::Min(n) => reach >= n,
        Part::Percentage(_) => true,
    }
}

/// Whether areas are those of the parts of a split: one for each part, each a
/// band of the whole. Where there is room for lengths and one minimum, or where
/// two shares make up the whole, the areas fill it without a gap, and each has
/// what its part asks for.
pub open spec fn laid_out(axis: Axis, parts: Seq<Part>, areas: Seq<Rect>, area: Rect) -> bool {
    &&& areas.len() == parts.len()
    &&& forall|i: int| 0 <= i < areas.len() ==> (#[trigger] areas[i]).band(axis, area)
    &&& area.fits() && roomy(parts, area.reach(axis)) ==> {
        &&& gapless(axis, areas, area)
        &&& forall|i: int|
            0 <= i < areas.len() ==> granted(parts[i], (#[trigger] areas[i]).reach(axis))
    }
    &&& area.fits() && shared(parts) ==> {
        &&& gapless(axis, areas, area)
        &&& parts[0] matches Part::Percentage(p) && areas[0].reach(axis) == share(
            p as int,
            area.reach(axis),
        )
    }
}

/// `ratatui::layout::Layout::new(direction, parts).split(area)`: one area for
/// each part, in order. Down the screen every area keeps the left edge and the
/// width of the whole, across it the top and the height; and along the axis
/// every area begins and ends inside the whole, which the solver is required to
/// keep.
///
/// Where the parts are lengths and one minimum, and there is room for them, the
/// solver's stronger wishes can all be met: no space in front and between,
/// which outranks the minimum, which outranks the lengths. What is left over
/// goes to the minimum, whose wish to grow outranks that of the space behind.
/// Where two percentages make up the whole, both can be met, and the edge
/// between them is rounded to the nearest cell.
///
/// Of other parts, and where there is no room, nothing is said of where in the
/// whole each area lies: wishes of the same strength are then weighed against
/// each other by a solver that walks hash maps. A minimum past the largest
/// `i16` is left out because it is cut to that type on the way.
#[verifier::external_body]
pub(crate) fn split(axis: Axis, parts: &Vec<Part>, area: Rect) -> (r: Vec<Rect>)
    ensures
        laid_out(axis, parts@, r@, area),
{
    let direction = match axis {
        Axis::Down => Direction::Vertical,
        Axis::Across => Direction::Horizontal,
    };
    let parts = parts.iter().map(|p| match *p {
        Part::Length(n) => Constraint::Length(n),
        Part::Min(n) => Constraint::Min(n),
        Part::Percentage(n) => Constraint::Percentage(n),
    });
    let whole = ratatui::layout::Rect { x: area.x, y: area.y, width: area.width, height: area.height };
    let areas = Layout::new(direction, parts).split(whole);
    areas.iter().map(|a| Rect { x: a.x, y: a.y, width: a.width, height: a.height }).collect()
}

/// How far the first `n` areas reach together.
pub open spec fn reached(axis: Axis, areas: Seq<Rect>, n: nat) -> int
    decreases n,
{
    if n == 0 {
        0
    } else {
        reached(axis, areas, (n - 1) as nat) + areas[n - 1].reach(axis)
    }
}

proof fn lemma_gapless_reached(axis: Axis, areas: Seq<Rect>, area: Rect, n: nat)
    requires
        gapless(axis, areas, area),
        n < areas.len(),
    ensures
        areas[n as int].begins(axis) == area.begins(axis) + reached(axis, areas, n),
    decreases n,
{
    if n > 0 {
        lemma_gapless_reached(axis, areas, area, (n - 1) as nat);
    }
}

/// What two lists reach together up to `n`, where they differ at most at `m`.
proof fn lemma_reached_but_one(axis: Axis, a: Seq<Rect>, b: Seq<Rect>, m: int, n: nat)
    requires
        a.len() == b.len(),
        n <= a.len(),
        0 <= m < a.len(),
        forall|i: int|
            0 <= i < a.len() && i != m ==> (#[trigger] a[i]).reach(axis) == b[i].reach(axis),
    ensures
        reached(axis, a, n) - reached(axis, b, n) == (if m < n {
            a[m].reach(axis) - b[m].reach(axis)
        } else {
            0
        }),
    decreases n,
{
    if n > 0 {
        lemma_reached_but_one(axis, a, b, m, (n - 1) as nat);
        let i = n - 1;
        if i != m {
            assert(a[i].reach(axis) == b[i].reach(axis));
        }
    }
}

/// Where there is room, or two shares make up the whole, the parts of a split
/// leave no choice: there is one way to lay them out.
pub proof fn law_room_leaves_one_layout(
    axis: Axis,
    parts: Seq<Part>,
    a: Seq<Rect>,
    b: Seq<Rect>,
    area: Rect,
)
    requires
        area.fits(),
        roomy(parts, area.reach(axis)) || shared(parts),
        laid_out(axis, parts, a, area),
        laid_out(axis, parts, b, area),
    ensures
        a == b,
{
    let last = (a.len() - 1) as nat;
    let m = if shared(parts) {
        1
    } else {
        choose|m: int| #[trigger] one_grows(parts, m)
    };
    assert(0 <= m < a.len());
    assert forall|i: int| 0 <= i < a.len() && i != m implies (#[trigger] a[i]).reach(axis)
        == b[i].reach(axis) by {
        if !shared(parts) {
            assert(parts[i] is Length);
            assert(granted(parts[i], a[i].reach(axis)));
            assert(granted(parts[i], b[i].reach(axis)));
        }
    }
    lemma_reached_but_one(axis, a, b, m, a.len());
    lemma_gapless_reached(axis, a, area, last);
    lemma_gapless_reached(axis, b, area, last);
    assert(a.last() == a[last as int] && b.last() == b[last as int]);
    assert(a[m].reach(axis) == b[m].reach(axis));
    assert forall|i: int| 0 <= i < a.len() implies a[i] == b[i] by {
        lemma_gapless_reached(axis, a, area, i as nat);
        lemma_gapless_reached(axis, b, area, i as nat);
        lemma_reached_but_one(axis, a, b, m, i as nat);
        assert(a[i].band(axis, area));
        assert(b[i].band(axis, area));
    }
    assert(a =~= b);
}

// --------------------------------------------------------------------- painting

/// One thing painted on the screen. What comes later covers what came earlier.
#[derive(Debug)]
pub enum Paint {
    /// Blank the area.
    Clear(Rect),
    /// A rounded border, with a title on its top edge and one at the right of
    /// its bottom edge.
    Border { area: Rect, style: Style, title: Span, bottom: Option<Span> },
    /// Rows of text, from the row `scroll` on. Rows that are too long are
    /// wrapped at words where `wrap` is set, and cut otherwise.
    Text { area: Rect, rows: Rows, wrap: bool, scroll: u16 },
    /// A list that keeps the selected entry in sight.
    List { area: Rect, items: Items, selected: usize },
}

pub enum PaintModel {
    Clear(Rect),
    Border { area: Rect, style: Style, title: SpanModel, bottom: Option<SpanModel> },
    Text { area: Rect, rows: Seq<Seq<SpanModel>>, wrap: bool, scroll: u16 },
    List { area: Rect, items: Seq<Seq<Seq<SpanModel>>>, selected: usize },
}

pub open spec fn opt_span(s: Option<Span>) -> Option<SpanModel> {
    match s {
        Some(s) => Some(s@),
        None => None,
    }
}

impl View for Paint {
    type V = PaintModel;

    open spec fn view(&self) -> PaintModel {
        match *self {
            Paint::Clear(area) => PaintModel::Clear(area),
            Paint::Border { area, style, title, bottom } => PaintModel::Border {
                area,
                style,
                title: title@,
                bottom: opt_span(bottom),
            },
            Paint::Text { area, rows, wrap, scroll } => PaintModel::Text {
                area,
                rows: rows@,
                wrap,
                scroll,
            },
            Paint::List { area, items, selected } => PaintModel::List {
                area,
                items: items@,
                selected,
            },
        }
    }
}

/// Rows of text painted from the first on, and cut where they are too long.
pub open spec fn plain_text(area: Rect, rows: Seq<Seq<SpanModel>>) -> PaintModel {
    PaintModel::Text { area, rows, wrap: false, scroll: 0 }
}

pub open spec fn paints_view(v: Seq<Paint>) -> Seq<PaintModel> {
    v.map_values(|p: Paint| p@)
}

/// A whole frame.
#[derive(Debug)]
pub struct Scene {
    pub paints: Vec<Paint>,
}

impl View for Scene {
    type V = Seq<PaintModel>;

    open spec fn view(&self) -> Seq<PaintModel> {
        paints_view(self.paints@)
    }
}

impl Scene {
    pub fn new() -> (r: Self)
        ensures
            r@ == Seq::<PaintModel>::empty(),
    {
        let paints: Vec<Paint> = Vec::new();
        proof {
            assert(paints_view(paints@) =~= Seq::<PaintModel>::empty());
        }
        Scene { paints }
    }

    pub fn push(&mut self, paint: Paint)
        ensures
            final(self)@ == old(self)@.push(paint@),
    {
        let ghost was = self.paints@;
        self.paints.push(paint);
        proof {
            assert(paints_view(self.paints@) =~= paints_view(was).push(paint@));
        }
    }

    pub fn text(&mut self, area: Rect, rows: Rows)
        ensures
            final(self)@ == old(self)@.push(plain_text(area, rows@)),
    {
        self.push(Paint::Text { area, rows, wrap: false, scroll: 0 });
    }

    pub fn append(&mut self, other: Scene)
        ensures
            final(self)@ == old(self)@ + other@,
    {
        let mut rest: Vec<Paint> = other.paints;
        let ghost was = self.paints@;
        let ghost more = rest@;
        self.paints.append(&mut rest);
        proof {
            assert(paints_view(self.paints@) =~= paints_view(was) + paints_view(more));
        }
    }
}

} // verus!
