//! Turning values into the short strings a narrow dock can show.
//!
//! Every helper takes the space it is allowed and never returns more than
//! that. Widths are counted in characters: the glyphs the interface uses
//! occupy one cell each.
use crate::calendar::{date_at, date_of};
use crate::paths::{file_name, file_name_of};
use crate::strings::{
    chars_of, control, dec, dec_wide, is_control, is_space, join, join_with, lemma_texts_empty,
    lemma_texts_push, lemma_words, owned, push_dec_wide, string_from, string_of, texts, words,
    words_of,
};
use vstd::prelude::*;
use vstd::string::*;

verus! {

/// Number of terminal cells `s` is expected to occupy.
pub fn width(s: &str) -> (r: usize)
    ensures
        r == s@.len(),
{
    s.unicode_len()
}

/// `s` cut to at most `max` cells, with an ellipsis when something was lost.
pub open spec fn truncated(s: Seq<char>, max: nat) -> Seq<char> {
    if max == 0 {
        Seq::empty()
    } else if s.len() <= max {
        s
    } else {
        s.take(max - 1).push('…')
    }
}

/// `s` cut to at most `max` cells, with an ellipsis when something was lost.
pub fn truncate(s: &str, max: usize) -> (r: String)
    ensures
        r@ == truncated(s@, max as nat),
{
    if max == 0 {
        return String::new();
    }
    let cs: Vec<char> = chars_of(s);
    if cs.len() <= max {
        return owned(s);
    }
    proof {
        assert(cs@.subrange(0, max - 1) =~= cs@.take(max - 1));
    }
    let mut out: String = string_of(&cs, 0, max - 1);
    out.push('…');
    out
}

/// What is cut fits, and what fits already is kept.
pub proof fn law_truncation_fits(s: Seq<char>, max: nat)
    ensures
        truncated(s, max).len() <= max,
        s.len() <= max ==> truncated(s, max) == s,
        truncated(truncated(s, max), max) == truncated(s, max),
{
    if s.len() <= max && max == 0 {
        assert(s =~= Seq::<char>::empty());
    }
}

/// The last `max` cells of `s`, with an ellipsis in front when something was
/// lost: the end of a path says more than its beginning.
pub open spec fn tail_of(s: Seq<char>, max: nat) -> Seq<char> {
    if max == 0 {
        Seq::empty()
    } else if s.len() <= max {
        s
    } else {
        "…"@ + s.skip(s.len() - (max - 1))
    }
}

/// The last `max` cells of `s`, with an ellipsis in front when something was
/// lost.
pub fn truncate_left(s: &str, max: usize) -> (r: String)
    ensures
        r@ == tail_of(s@, max as nat),
{
    if max == 0 {
        return String::new();
    }
    let cs: Vec<char> = chars_of(s);
    if cs.len() <= max {
        return owned(s);
    }
    let from: usize = cs.len() - (max - 1);
    proof {
        assert(cs@.subrange(from as int, cs@.len() as int) =~= cs@.skip(from as int));
    }
    let mut out: String = owned("…");
    out.append(string_of(&cs, from, cs.len()).as_str());
    out
}

/// What is cut on the left fits too.
pub proof fn law_left_truncation_fits(s: Seq<char>, max: nat)
    ensures
        tail_of(s, max).len() <= max,
        s.len() <= max ==> tail_of(s, max) == s,
{
    reveal_strlit("…");
    if s.len() <= max && max == 0 {
        assert(s =~= Seq::<char>::empty());
    }
}

/// `s` in exactly `to` cells: cut, or filled with spaces on the right.
pub open spec fn padded(s: Seq<char>, to: nat) -> Seq<char> {
    let cut = truncated(s, to);
    cut + blanks((to - cut.len()) as nat)
}

/// `n` spaces.
pub open spec fn blanks(n: nat) -> Seq<char> {
    Seq::new(n, |i: int| ' ')
}

/// `n` times the character `c`.
pub open spec fn repeated(c: char, n: nat) -> Seq<char> {
    Seq::new(n, |i: int| c)
}

/// `n` times the character `c`.
pub fn repeat(c: char, n: usize) -> (r: String)
    ensures
        r@ == repeated(c, n as nat),
{
    let mut out: String = String::new();
    let mut i: usize = 0;
    while i < n
        invariant
            i <= n,
            out@ =~= repeated(c, i as nat),
        decreases n - i,
    {
        out.push(c);
        i += 1;
    }
    out
}

/// `s` in exactly `to` cells.
pub fn pad(s: &str, to: usize) -> (r: String)
    ensures
        r@ == padded(s@, to as nat),
{
    let mut out: String = truncate(s, to);
    proof {
        law_truncation_fits(s@, to as nat);
        assert(repeated(' ', (to - out@.len()) as nat) =~= blanks((to - out@.len()) as nat));
    }
    let fill: usize = to - width(out.as_str());
    out.append(repeat(' ', fill).as_str());
    out
}

/// A padded string takes exactly the cells it was given.
pub proof fn law_padding_is_exact(s: Seq<char>, to: nat)
    ensures
        padded(s, to).len() == to,
{
    law_truncation_fits(s, to);
}

/// The first `n` characters of `s`.
pub fn abbrev(s: &str, n: usize) -> (r: String)
    ensures
        r@ == if s@.len() <= n {
            s@
        } else {
            s@.take(n as int)
        },
{
    let cs: Vec<char> = chars_of(s);
    if cs.len() <= n {
        return owned(s);
    }
    proof {
        assert(cs@.subrange(0, n as int) =~= cs@.take(n as int));
    }
    string_of(&cs, 0, n)
}

// ----------------------------------------------------------------- cleaning

/// `s` with every control character replaced by a space.
pub open spec fn blanked(s: Seq<char>) -> Seq<char> {
    s.map_values(
        |c: char|
            if is_control(c) {
                ' '
            } else {
                c
            },
    )
}

/// `s` as one printable line: its words with one space between each two, where
/// white space and control characters separate words.
pub open spec fn cleaned(s: Seq<char>) -> Seq<char> {
    join(words(blanked(s)), " "@)
}

/// `s` as one printable line.
pub fn clean(s: &str) -> (r: String)
    ensures
        r@ == cleaned(s@),
{
    let cs: Vec<char> = chars_of(s);
    let mut out: String = String::new();
    let mut i: usize = 0;
    while i < cs.len()
        invariant
            i <= cs@.len(),
            out@ =~= blanked(cs@.take(i as int)),
        decreases cs@.len() - i,
    {
        let c: char = cs[i];
        out.push(
            if control(c) {
                ' '
            } else {
                c
            },
        );
        i += 1;
    }
    proof {
        assert(cs@.take(cs@.len() as int) =~= cs@);
    }
    join_with(&words_of(out.as_str()), " ")
}

/// Words put together with single spaces come apart into the same words.
pub proof fn lemma_words_of_join(ws: Seq<Seq<char>>)
    requires
        forall|i: int| 0 <= i < ws.len() ==> (#[trigger] ws[i]).len() > 0,
        forall|i: int, j: int|
            0 <= i < ws.len() && 0 <= j < ws[i].len() ==> !is_space(#[trigger] ws[i][j]),
    ensures
        words(join(ws, " "@)) == ws,
    decreases ws.len(),
{
    reveal_strlit(" ");
    if ws.len() == 0 {
        assert(words(join(ws, " "@)) =~= ws);
    } else {
        let w = ws.last();
        assert(w == ws[ws.len() - 1]);
        assert forall|j: int| 0 <= j < w.len() implies !is_space(#[trigger] w[j]) by {
            assert(!is_space(ws[ws.len() - 1][j]));
        }
        if ws.len() == 1 {
            lemma_one_word(w);
            assert(ws =~= seq![w]);
        } else {
            let before = ws.drop_last();
            assert forall|i: int| 0 <= i < before.len() implies (#[trigger] before[i]).len()
                > 0 by {
                assert(before[i] == ws[i]);
            }
            assert forall|i: int, j: int|
                0 <= i < before.len() && 0 <= j < before[i].len() implies !is_space(
                #[trigger] before[i][j],
            ) by {
                assert(before[i] == ws[i]);
                assert(!is_space(ws[i][j]));
            }
            lemma_words_of_join(before);
            let a = join(before, " "@);
            lemma_word_behind(a, w);
            assert(a + " "@ + w =~= a.push(' ') + w);
            assert(ws =~= before.push(w));
        }
    }
}

proof fn lemma_one_word(w: Seq<char>)
    requires
        w.len() > 0,
        forall|j: int| 0 <= j < w.len() ==> !is_space(#[trigger] w[j]),
    ensures
        words(w) == seq![w],
    decreases w.len(),
{
    if w.len() == 1 {
        assert(w.drop_last() =~= Seq::<char>::empty());
        assert(seq![w.last()] =~= w);
        assert(words(w.drop_last()) =~= Seq::<Seq<char>>::empty());
        assert(words(w) =~= seq![w]);
    } else {
        assert forall|j: int| 0 <= j < w.drop_last().len() implies !is_space(
            #[trigger] w.drop_last()[j],
        ) by {
            assert(w.drop_last()[j] == w[j]);
        }
        lemma_one_word(w.drop_last());
        assert(w.drop_last().push(w.last()) =~= w);
        assert(words(w) =~= seq![w]);
    }
}

/// A word behind a space is a word of its own.
proof fn lemma_word_behind(a: Seq<char>, w: Seq<char>)
    requires
        w.len() > 0,
        forall|j: int| 0 <= j < w.len() ==> !is_space(#[trigger] w[j]),
    ensures
        words(a.push(' ') + w) == words(a).push(w),
    decreases w.len(),
{
    let s = a.push(' ') + w;
    assert(s.last() == w.last());
    assert(s.drop_last() =~= a.push(' ') + w.drop_last());
    if w.len() == 1 {
        assert(s.drop_last() =~= a.push(' '));
        assert(a.push(' ').drop_last() =~= a);
        assert(words(a.push(' ')) == words(a));
        assert(s[s.len() - 2] == ' ');
        assert(seq![w.last()] =~= w);
    } else {
        assert forall|j: int| 0 <= j < w.drop_last().len() implies !is_space(
            #[trigger] w.drop_last()[j],
        ) by {
            assert(w.drop_last()[j] == w[j]);
        }
        lemma_word_behind(a, w.drop_last());
        assert(s[s.len() - 2] == w[w.len() - 2]);
        assert(w.drop_last().push(w.last()) =~= w);
        assert(words(s) =~= words(a).push(w));
    }
}

/// Every character of a word comes from the string.
proof fn lemma_word_chars(s: Seq<char>, p: spec_fn(char) -> bool)
    requires
        forall|i: int| 0 <= i < s.len() ==> p(#[trigger] s[i]),
    ensures
        forall|i: int, j: int|
            0 <= i < words(s).len() && 0 <= j < words(s)[i].len() ==> p(#[trigger] words(s)[i][j]),
    decreases s.len(),
{
    if s.len() > 0 {
        assert forall|i: int| 0 <= i < s.drop_last().len() implies p(#[trigger] s.drop_last()[i]) by {
            assert(s.drop_last()[i] == s[i]);
        }
        lemma_word_chars(s.drop_last(), p);
        assert(p(s[s.len() - 1]));
        let before = words(s.drop_last());
        if s.len() >= 2 {
            lemma_words(s.drop_last());
            assert(s.drop_last().last() == s[s.len() - 2]);
        }
        assert forall|i: int, j: int|
            0 <= i < words(s).len() && 0 <= j < words(s)[i].len() implies p(
            #[trigger] words(s)[i][j],
        ) by {
            if i < before.len() && j < before[i].len() {
                assert(p(before[i][j]));
            }
        }
    }
}

/// Every character of a join comes from a part or from the separator.
proof fn lemma_join_chars(ws: Seq<Seq<char>>, sep: Seq<char>, p: spec_fn(char) -> bool)
    requires
        forall|i: int, j: int|
            0 <= i < ws.len() && 0 <= j < ws[i].len() ==> p(#[trigger] ws[i][j]),
        forall|j: int| 0 <= j < sep.len() ==> p(#[trigger] sep[j]),
    ensures
        forall|j: int| 0 <= j < join(ws, sep).len() ==> p(#[trigger] join(ws, sep)[j]),
    decreases ws.len(),
{
    if ws.len() == 1 {
        assert forall|j: int| 0 <= j < join(ws, sep).len() implies p(
            #[trigger] join(ws, sep)[j],
        ) by {
            assert(p(ws[0][j]));
        }
    } else if ws.len() > 1 {
        let before = ws.drop_last();
        assert forall|i: int, j: int| 0 <= i < before.len() && 0 <= j < before[i].len() implies p(
            #[trigger] before[i][j],
        ) by {
            assert(before[i] == ws[i]);
            assert(p(ws[i][j]));
        }
        lemma_join_chars(before, sep, p);
        let a = join(before, sep);
        let all = join(ws, sep);
        assert forall|j: int| 0 <= j < all.len() implies p(#[trigger] all[j]) by {
            if j < a.len() {
                assert(p(a[j]));
            } else if j < a.len() + sep.len() {
                assert(p(sep[j - a.len()]));
            } else {
                assert(p(ws[ws.len() - 1][j - a.len() - sep.len()]));
            }
        }
    }
}

/// A cleaned line holds no control character, and cleaning it again changes
/// nothing.
pub proof fn law_cleaning_is_final(s: Seq<char>)
    ensures
        forall|i: int| 0 <= i < cleaned(s).len() ==> !is_control(#[trigger] cleaned(s)[i]),
        cleaned(cleaned(s)) == cleaned(s),
{
    reveal_strlit(" ");
    let p = |c: char| !is_control(c);
    let b = blanked(s);
    let ws = words(b);
    lemma_word_chars(b, p);
    lemma_words(b);
    lemma_join_chars(ws, " "@, p);
    let c = cleaned(s);
    assert forall|i: int| 0 <= i < c.len() implies !is_control(#[trigger] c[i]) by {
        assert(p(join(ws, " "@)[i]));
    }
    assert(blanked(c) =~= c);
    lemma_words_of_join(ws);
}

// --------------------------------------------------------------------- time

/// How long ago, from `then` to `now`; nothing lies in the future.
pub open spec fn elapsed(now: u64, then: u64) -> nat {
    if now >= then {
        (now - then) as nat
    } else {
        0
    }
}

/// A count and its unit, for a span of at least five seconds.
pub open spec fn span(d: nat) -> Seq<char> {
    if d < 60 {
        dec(d) + "s"@
    } else if d < 3_600 {
        dec(d / 60) + "m"@
    } else if d < 86_400 {
        dec(d / 3_600) + "h"@
    } else if d < 604_800 {
        dec(d / 86_400) + "d"@
    } else {
        dec(d / 604_800) + "w"@
    }
}

pub open spec fn age_of(now: u64, then: u64) -> Seq<char> {
    let d = elapsed(now, then);
    if d < 5 {
        "just now"@
    } else {
        span(d) + " ago"@
    }
}

pub open spec fn short_age_of(now: u64, then: u64) -> Seq<char> {
    let d = elapsed(now, then);
    if d < 5 {
        "now"@
    } else {
        span(d)
    }
}

fn span_text(d: u64) -> (r: String)
    ensures
        r@ == span(d as nat),
{
    let (n, unit): (u64, &str) = if d < 60 {
        (d, "s")
    } else if d < 3_600 {
        (d / 60, "m")
    } else if d < 86_400 {
        (d / 3_600, "h")
    } else if d < 604_800 {
        (d / 86_400, "d")
    } else {
        (d / 604_800, "w")
    };
    let mut out: String = crate::strings::dec_of(n);
    out.append(unit);
    out
}

/// "2m ago". The dock's primary answer to "when did this happen".
pub fn age(now: u64, then: u64) -> (r: String)
    ensures
        r@ == age_of(now, then),
{
    let d: u64 = if now >= then {
        now - then
    } else {
        0
    };
    if d < 5 {
        return owned("just now");
    }
    let mut out: String = span_text(d);
    out.append(" ago");
    out
}

/// The same age with the "ago" dropped, for when the column is tight.
pub fn age_short(now: u64, then: u64) -> (r: String)
    ensures
        r@ == short_age_of(now, then),
{
    let d: u64 = if now >= then {
        now - then
    } else {
        0
    };
    if d < 5 {
        return owned("now");
    }
    span_text(d)
}

/// `2026-08-25 14:32 UTC`.
pub open spec fn stamp_of(at: u64) -> Seq<char> {
    let (y, m, d) = date_at((at / 86_400) as nat);
    let secs = (at % 86_400) as nat;
    dec_wide(y, 4) + "-"@ + dec_wide(m, 2) + "-"@ + dec_wide(d, 2) + " "@ + dec_wide(secs / 3_600, 2)
        + ":"@ + dec_wide((secs % 3_600) / 60, 2) + " UTC"@
}

/// `2026-08-25 14:32 UTC`, for a time in Unix seconds.
pub fn stamp(at: u64) -> (r: String)
    ensures
        r@ == stamp_of(at),
{
    let (y, m, d): (u64, u64, u64) = date_of(at / 86_400);
    let secs: u64 = at % 86_400;
    let mut out: String = String::new();
    push_dec_wide(&mut out, y, 4);
    proof {
        assert(Seq::<char>::empty() + dec_wide(y as nat, 4) =~= dec_wide(y as nat, 4));
    }
    out.append("-");
    push_dec_wide(&mut out, m, 2);
    out.append("-");
    push_dec_wide(&mut out, d, 2);
    out.append(" ");
    push_dec_wide(&mut out, secs / 3_600, 2);
    out.append(":");
    push_dec_wide(&mut out, (secs % 3_600) / 60, 2);
    out.append(" UTC");
    out
}

// ---------------------------------------------------------------- magnitude

/// How many of `slots` blocks a change fills, when `rounded` is its share of
/// the busiest change, in blocks and rounded: at least one block for any
/// change, and none without a change or a scale.
pub open spec fn blocks(total: nat, max_total: nat, slots: nat, rounded: nat) -> nat {
    if total == 0 || slots == 0 || max_total == 0 {
        0
    } else if rounded < 1 {
        1
    } else if rounded > slots {
        slots
    } else {
        rounded
    }
}

/// How many of `slots` blocks a change fills.
pub fn filled_blocks(
    insertions: u64,
    deletions: u64,
    max_total: u64,
    slots: usize,
    rounded: usize,
) -> (r: usize)
    ensures
        r == blocks((insertions + deletions) as nat, max_total as nat, slots as nat, rounded as nat),
{
    if (insertions == 0 && deletions == 0) || slots == 0 || max_total == 0 {
        0
    } else if rounded < 1 {
        1
    } else if rounded > slots {
        slots
    } else {
        rounded
    }
}

/// How `filled` blocks are split between insertions and deletions, when
/// `rounded` is the share of the insertions in blocks and rounded. What was
/// inserted shows at least one block, and so does what was deleted, as far as
/// there are blocks.
pub open spec fn split_blocks(
    insertions: nat,
    deletions: nat,
    filled: nat,
    rounded: nat,
) -> (nat, nat) {
    let adds = if rounded <= filled {
        rounded
    } else {
        filled
    };
    if filled == 0 {
        (0, 0)
    } else if insertions == 0 {
        (0, filled)
    } else if deletions == 0 {
        (filled, 0)
    } else if adds == 0 {
        (1, (filled - 1) as nat)
    } else if adds == filled && filled > 1 {
        ((filled - 1) as nat, 1)
    } else {
        (adds, (filled - adds) as nat)
    }
}

/// How `filled` blocks are split between insertions and deletions.
pub fn magnitude(insertions: u64, deletions: u64, filled: usize, rounded: usize) -> (r: (
    usize,
    usize,
))
    ensures
        (r.0 as nat, r.1 as nat) == split_blocks(
            insertions as nat,
            deletions as nat,
            filled as nat,
            rounded as nat,
        ),
{
    let adds: usize = if rounded <= filled {
        rounded
    } else {
        filled
    };
    if filled == 0 {
        (0, 0)
    } else if insertions == 0 {
        (0, filled)
    } else if deletions == 0 {
        (filled, 0)
    } else if adds == 0 {
        (1, filled - 1)
    } else if adds == filled && filled > 1 {
        (filled - 1, 1)
    } else {
        (adds, filled - adds)
    }
}

/// However the shares are rounded, the bar fits its slots, a change shows, and
/// both kinds of change show where there is room for two blocks.
pub proof fn law_the_bar_does_not_lie(
    insertions: nat,
    deletions: nat,
    max_total: nat,
    slots: nat,
    r1: nat,
    r2: nat,
)
    ensures
        ({
            let filled = blocks(insertions + deletions, max_total, slots, r1);
            let (adds, dels) = split_blocks(insertions, deletions, filled, r2);
            &&& adds + dels == filled
            &&& filled <= slots
            &&& insertions + deletions > 0 && slots > 0 && max_total > 0 ==> filled > 0
            &&& insertions == 0 ==> adds == 0
            &&& deletions == 0 ==> dels == 0
            &&& insertions > 0 && deletions > 0 && filled > 1 ==> adds > 0 && dels > 0
        }),
{
}

// --------------------------------------------------------------------- wrap

/// Put one more word behind what is wrapped so far: `done` are the full lines,
/// `current` the line being filled. A word longer than a line is split.
pub open spec fn wrap_word(
    done: Seq<Seq<char>>,
    current: Seq<char>,
    word: Seq<char>,
    width: nat,
) -> (Seq<Seq<char>>, Seq<char>)
    decreases word.len(),
{
    if width == 0 {
        (done, current)
    } else if word.len() > width {
        let full = if current.len() > 0 {
            done.push(current)
        } else {
            done
        };
        wrap_word(full.push(word.take(width as int)), Seq::empty(), word.skip(width as int), width)
    } else if current.len() == 0 {
        (done, word)
    } else if current.len() + 1 + word.len() <= width {
        (done, current + " "@ + word)
    } else {
        (done.push(current), word)
    }
}

/// All words, one after another.
pub open spec fn wrap_words(ws: Seq<Seq<char>>, width: nat) -> (Seq<Seq<char>>, Seq<char>)
    decreases ws.len(),
{
    if ws.len() == 0 {
        (Seq::empty(), Seq::empty())
    } else {
        let (done, current) = wrap_words(ws.drop_last(), width);
        wrap_word(done, current, ws.last(), width)
    }
}

/// The words of `s` in lines of at most `width` cells, as many on each line as
/// fit. There is always a line, unless no line can hold anything.
pub open spec fn wrapped(s: Seq<char>, width: nat) -> Seq<Seq<char>> {
    if width == 0 {
        Seq::empty()
    } else {
        let (done, current) = wrap_words(words(s), width);
        if current.len() > 0 {
            done.push(current)
        } else if done.len() == 0 {
            seq![Seq::empty()]
        } else {
            done
        }
    }
}

/// Greedy word wrap. Words longer than `width` are split rather than allowed to
/// overflow the panel they were measured for.
pub fn wrap(s: &str, width: usize) -> (r: Vec<String>)
    ensures
        texts(r@) == wrapped(s@, width as nat),
{
    broadcast use lemma_texts_push;

    let mut lines: Vec<String> = Vec::new();
    proof {
        lemma_texts_empty(lines@);
    }
    if width == 0 {
        return lines;
    }
    let ws: Vec<String> = words_of(s);
    let mut current: String = String::new();
    let mut i: usize = 0;
    proof {
        assert(texts(ws@).take(0) =~= Seq::<Seq<char>>::empty());
    }
    while i < ws.len()
        invariant
            i <= ws@.len(),
            width > 0,
            (texts(lines@), current@) == wrap_words(texts(ws@).take(i as int), width as nat),
        decreases ws@.len() - i,
    {
        broadcast use lemma_texts_push;

        proof {
            let now = texts(ws@).take(i + 1);
            assert(now.drop_last() =~= texts(ws@).take(i as int));
            assert(now.last() == ws@[i as int]@);
        }
        let mut word: Vec<char> = chars_of(ws[i].as_str());
        let ghost target = wrap_words(texts(ws@).take(i + 1), width as nat);
        while word.len() > width
            invariant
                width > 0,
                wrap_word(texts(lines@), current@, word@, width as nat) == target,
            decreases word@.len(),
        {
            broadcast use lemma_texts_push;

            if !current.as_str().is_empty() {
                lines.push(current);
                current = String::new();
            }
            proof {
                assert(current@ =~= Seq::<char>::empty());
                assert(word@.subrange(0, width as int) =~= word@.take(width as int));
                assert(word@.subrange(width as int, word@.len() as int) =~= word@.skip(
                    width as int,
                ));
            }
            lines.push(string_of(&word, 0, width));
            word = crate::strings::slice_of(&word, width, word.len());
        }
        let used: usize = self::width(current.as_str());
        if used == 0 {
            current = string_from(&word);
        } else if used < width && word.len() <= width - used - 1 {
            current.append(" ");
            current.append(string_from(&word).as_str());
        } else {
            lines.push(current);
            current = string_from(&word);
        }
        i += 1;
    }
    proof {
        assert(texts(ws@).take(ws@.len() as int) =~= texts(ws@));
    }
    if !current.as_str().is_empty() {
        lines.push(current);
    }
    if lines.is_empty() {
        lines.push(String::new());
        proof {
            assert(texts(lines@) =~= seq![Seq::<char>::empty()]);
        }
    }
    lines
}

/// No line of a wrapped text is wider than it may be.
pub proof fn law_wrapped_lines_fit(s: Seq<char>, width: nat)
    ensures
        forall|i: int|
            0 <= i < wrapped(s, width).len() ==> (#[trigger] wrapped(s, width)[i]).len() <= width,
{
    if width > 0 {
        reveal_strlit(" ");
        lemma_wrap_words_fit(words(s), width);
    }
}

spec fn all_fit(lines: Seq<Seq<char>>, width: nat) -> bool {
    forall|i: int| 0 <= i < lines.len() ==> (#[trigger] lines[i]).len() <= width
}

proof fn lemma_wrap_word_fit(
    done: Seq<Seq<char>>,
    current: Seq<char>,
    word: Seq<char>,
    width: nat,
)
    requires
        width > 0,
        all_fit(done, width),
        current.len() <= width,
    ensures
        all_fit(wrap_word(done, current, word, width).0, width),
        wrap_word(done, current, word, width).1.len() <= width,
    decreases word.len(),
{
    reveal_strlit(" ");
    if word.len() > width {
        let full = if current.len() > 0 {
            done.push(current)
        } else {
            done
        };
        lemma_wrap_word_fit(
            full.push(word.take(width as int)),
            Seq::empty(),
            word.skip(width as int),
            width,
        );
    }
}

proof fn lemma_wrap_words_fit(ws: Seq<Seq<char>>, width: nat)
    requires
        width > 0,
    ensures
        all_fit(wrap_words(ws, width).0, width),
        wrap_words(ws, width).1.len() <= width,
    decreases ws.len(),
{
    if ws.len() > 0 {
        lemma_wrap_words_fit(ws.drop_last(), width);
        let (done, current) = wrap_words(ws.drop_last(), width);
        lemma_wrap_word_fit(done, current, ws.last(), width);
    }
}

/// The characters of a list of strings that are not white space, in order.
pub open spec fn ink(lines: Seq<Seq<char>>) -> Seq<char>
    decreases lines.len(),
{
    if lines.len() == 0 {
        Seq::empty()
    } else {
        ink(lines.drop_last()) + lines.last().filter(|c: char| !is_space(c))
    }
}

/// Wrapping loses nothing: what is not white space comes out in full and in
/// order.
pub proof fn law_wrapping_keeps_every_character(s: Seq<char>, width: nat)
    requires
        width > 0,
    ensures
        ink(wrapped(s, width)) == s.filter(|c: char| !is_space(c)),
{
    let ws = words(s);
    lemma_wrap_words_ink(ws, width);
    lemma_words_ink(s);
    let (done, current) = wrap_words(ws, width);
    let dark = |c: char| !is_space(c);
    if current.len() > 0 {
        assert(done.push(current).drop_last() =~= done);
    } else {
        assert(current =~= Seq::<char>::empty());
        reveal(Seq::filter);
        assert(ink(done) + current.filter(dark) =~= ink(done));
        if done.len() == 0 {
            let one = seq![Seq::<char>::empty()];
            assert(one.drop_last() =~= Seq::<Seq<char>>::empty());
            assert(one.last() =~= current);
            assert(done =~= one.drop_last());
            assert(ink(one) =~= ink(done));
        }
    }
}

proof fn lemma_ink_push(lines: Seq<Seq<char>>, line: Seq<char>)
    ensures
        ink(lines.push(line)) == ink(lines) + line.filter(|c: char| !is_space(c)),
{
    assert(lines.push(line).drop_last() =~= lines);
}

proof fn lemma_wrap_word_ink(
    done: Seq<Seq<char>>,
    current: Seq<char>,
    word: Seq<char>,
    width: nat,
)
    requires
        width > 0,
    ensures
        ({
            let (d, c) = wrap_word(done, current, word, width);
            let dark = |c: char| !is_space(c);
            ink(d) + c.filter(dark) == ink(done) + current.filter(dark) + word.filter(dark)
        }),
    decreases word.len(),
{
    let dark = |c: char| !is_space(c);
    reveal_strlit(" ");
    if word.len() > width {
        let full = if current.len() > 0 {
            done.push(current)
        } else {
            done
        };
        let head = word.take(width as int);
        let rest = word.skip(width as int);
        lemma_wrap_word_ink(full.push(head), Seq::empty(), rest, width);
        lemma_ink_push(full, head);
        lemma_ink_push(done, current);
        assert(word =~= head + rest);
        Seq::filter_distributes_over_add(head, rest, dark);
        assert(Seq::<char>::empty().filter(dark) =~= Seq::<char>::empty()) by {
            reveal(Seq::filter);
        }
        if current.len() == 0 {
            assert(current =~= Seq::<char>::empty());
        }
        assert(ink(full) =~= ink(done) + current.filter(dark));
        assert(ink(full.push(head)) + Seq::<char>::empty() + rest.filter(dark) =~= ink(done)
            + current.filter(dark) + word.filter(dark));
    } else if current.len() == 0 {
        assert(current =~= Seq::<char>::empty());
        assert(Seq::<char>::empty().filter(dark) =~= Seq::<char>::empty()) by {
            reveal(Seq::filter);
        }
        assert(ink(done) + current.filter(dark) =~= ink(done));
    } else if current.len() + 1 + word.len() <= width {
        Seq::filter_distributes_over_add(current + " "@, word, dark);
        Seq::filter_distributes_over_add(current, " "@, dark);
        assert(" "@.filter(dark) =~= Seq::<char>::empty()) by {
            reveal(Seq::filter);
            reveal_with_fuel(Seq::filter, 3);
            assert(" "@.drop_last() =~= Seq::<char>::empty());
            assert(is_space(' '));
        }
        assert(current.filter(dark) + Seq::<char>::empty() =~= current.filter(dark));
        assert(ink(done) + (current.filter(dark) + word.filter(dark)) =~= ink(done)
            + current.filter(dark) + word.filter(dark));
    } else {
        lemma_ink_push(done, current);
    }
}

proof fn lemma_wrap_words_ink(ws: Seq<Seq<char>>, width: nat)
    requires
        width > 0,
    ensures
        ({
            let (d, c) = wrap_words(ws, width);
            ink(d) + c.filter(|c: char| !is_space(c)) == ink(ws)
        }),
    decreases ws.len(),
{
    let dark = |c: char| !is_space(c);
    if ws.len() > 0 {
        lemma_wrap_words_ink(ws.drop_last(), width);
        let (done, current) = wrap_words(ws.drop_last(), width);
        lemma_wrap_word_ink(done, current, ws.last(), width);
    } else {
        reveal(Seq::filter);
        assert(Seq::<char>::empty().filter(dark) =~= Seq::<char>::empty());
        assert(ink(ws) =~= Seq::<char>::empty() + Seq::<char>::empty());
    }
}

proof fn lemma_words_ink(s: Seq<char>)
    ensures
        ink(words(s)) == s.filter(|c: char| !is_space(c)),
    decreases s.len(),
{
    reveal(Seq::filter);
    let dark = |c: char| !is_space(c);
    if s.len() > 0 {
        lemma_words_ink(s.drop_last());
        let before = words(s.drop_last());
        let c = s.last();
        if !is_space(c) {
            if s.len() >= 2 && !is_space(s[s.len() - 2]) {
                lemma_words(s.drop_last());
                assert(s.drop_last().last() == s[s.len() - 2]);
                let w = before.last();
                assert(w.push(c).drop_last() =~= w);
                assert(w.push(c).filter(dark) =~= w.filter(dark).push(c));
                assert(words(s).drop_last() =~= before.drop_last());
                assert(ink(words(s)) =~= ink(before).push(c));
            } else {
                let one = seq![c];
                assert(one.drop_last() =~= Seq::<char>::empty());
                assert(one.filter(dark) =~= one) by {
                    reveal_with_fuel(Seq::filter, 3);
                }
                lemma_ink_push(before, one);
                assert(ink(words(s)) =~= ink(before).push(c));
            }
        }
    }
}

/// The last component of a path, for a title that has to fit; the path itself
/// when it has none.
pub fn basename(path: &str) -> (r: String)
    ensures
        r@ == match file_name(path@) {
            Some(name) => name,
            None => path@,
        },
{
    match file_name_of(path) {
        Some(name) => name,
        None => owned(path),
    }
}

} // verus!
