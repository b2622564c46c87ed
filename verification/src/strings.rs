//! Character-level operations on strings, each stated over the sequence of
//! characters the string holds.
use vstd::prelude::*;
use vstd::string::*;

verus! {

/// `String::push` appends one character at the end of the string and changes
/// nothing before it.
pub assume_specification[ String::push ](s: &mut String, c: char)
    ensures
        final(s)@ == old(s)@.push(c),
;

// ------------------------------------------------------------------ views

/// What a list of strings holds, string by string.
pub open spec fn texts(v: Seq<String>) -> Seq<Seq<char>> {
    v.map_values(|s: String| s@)
}

/// What an optional string holds.
pub open spec fn opt_text(o: Option<String>) -> Option<Seq<char>> {
    match o {
        Some(s) => Some(s@),
        None => None,
    }
}

/// What an optional borrowed string holds.
pub open spec fn opt_str(o: Option<&str>) -> Option<Seq<char>> {
    match o {
        Some(s) => Some(s@),
        None => None,
    }
}

pub broadcast proof fn lemma_texts_push(v: Seq<String>, s: String)
    ensures
        #[trigger] texts(v.push(s)) == texts(v).push(s@),
{
    assert(texts(v.push(s)) =~= texts(v).push(s@));
}

pub proof fn lemma_texts_empty(v: Seq<String>)
    requires
        v.len() == 0,
    ensures
        texts(v) == Seq::<Seq<char>>::empty(),
{
    assert(texts(v) =~= Seq::<Seq<char>>::empty());
}

/// What `f` makes of each string, without those it makes nothing of.
pub fn keep_some<F: Fn(&str) -> Option<String>>(
    v: &Vec<String>,
    f: F,
    Ghost(g): Ghost<spec_fn(Seq<char>) -> Option<Seq<char>>>,
) -> (r: Vec<String>)
    requires
        forall|s: &str| #[trigger] call_requires(f, (s,)),
        forall|s: &str, o: Option<String>| #[trigger] call_ensures(f, (s,), o) ==> opt_text(o) == g(s@),
    ensures
        texts(r@) == texts(v@).filter_map(g),
{
    broadcast use lemma_texts_push;

    let mut out: Vec<String> = Vec::new();
    let mut i: usize = 0;
    proof {
        lemma_texts_empty(out@);
        reveal(Seq::filter_map);
        assert(texts(v@).take(0) =~= Seq::<Seq<char>>::empty());
    }
    while i < v.len()
        invariant
            i <= v@.len(),
            forall|s: &str| #[trigger] call_requires(f, (s,)),
            forall|s: &str, o: Option<String>| #[trigger]
                call_ensures(f, (s,), o) ==> opt_text(o) == g(s@),
            texts(out@) == texts(v@).take(i as int).filter_map(g),
        decreases v@.len() - i,
    {
        broadcast use lemma_texts_push;

        proof {
            reveal(Seq::filter_map);
            let now = texts(v@).take(i + 1);
            assert(now.drop_last() =~= texts(v@).take(i as int));
            assert(now.last() == v@[i as int]@);
        }
        if let Some(made) = f(v[i].as_str()) {
            out.push(made);
        }
        proof {
            assert(texts(out@) =~= texts(v@).take(i + 1).filter_map(g));
        }
        i += 1;
    }
    proof {
        assert(texts(v@).take(v@.len() as int) =~= texts(v@));
    }
    out
}

// -------------------------------------------------------------- characters

/// Unicode's `White_Space` property.
pub open spec fn is_space(c: char) -> bool {
    let n = c as int;
    ||| 9 <= n <= 13
    ||| n == 0x20
    ||| n == 0x85
    ||| n == 0xa0
    ||| n == 0x1680
    ||| 0x2000 <= n <= 0x200a
    ||| n == 0x2028
    ||| n == 0x2029
    ||| n == 0x202f
    ||| n == 0x205f
    ||| n == 0x3000
}

/// Whether `c` is white space.
pub fn space(c: char) -> (r: bool)
    ensures
        r == is_space(c),
{
    let n: u32 = c as u32;
    (9 <= n && n <= 13) || n == 0x20 || n == 0x85 || n == 0xa0 || n == 0x1680 || (0x2000 <= n && n
        <= 0x200a) || n == 0x2028 || n == 0x2029 || n == 0x202f || n == 0x205f || n == 0x3000
}

/// Unicode's general category `Cc`.
pub open spec fn is_control(c: char) -> bool {
    let n = c as int;
    n <= 0x1f || 0x7f <= n <= 0x9f
}

/// Whether `c` is a control character.
pub fn control(c: char) -> (r: bool)
    ensures
        r == is_control(c),
{
    let n: u32 = c as u32;
    n <= 0x1f || (0x7f <= n && n <= 0x9f)
}

pub open spec fn is_digit(c: char) -> bool {
    '0' <= c <= '9'
}

pub open spec fn is_ascii_alnum(c: char) -> bool {
    is_digit(c) || 'a' <= c <= 'z' || 'A' <= c <= 'Z'
}

/// A character a timeline or worktree name may hold unchanged.
pub open spec fn is_name_char(c: char) -> bool {
    is_ascii_alnum(c) || c == '-' || c == '_'
}

/// Whether a timeline or worktree name may hold `c` unchanged.
pub fn name_char(c: char) -> (r: bool)
    ensures
        r == is_name_char(c),
{
    ('0' <= c && c <= '9') || ('a' <= c && c <= 'z') || ('A' <= c && c <= 'Z') || c == '-' || c
        == '_'
}

// -------------------------------------------------------------- conversions

/// The characters of `s`, in order.
pub fn chars_of(s: &str) -> (r: Vec<char>)
    ensures
        r@ == s@,
{
    let mut out: Vec<char> = Vec::new();
    for c in it: s.chars()
        invariant
            out@ == it.seq().take(it.index()),
            it.seq() == s@,
    {
        proof {
            assert(it.seq().take(it.index() + 1) =~= it.seq().take(it.index()).push(c));
        }
        out.push(c);
    }
    proof {
        assert(s@.take(s@.len() as int) =~= s@);
    }
    out
}

/// The string made of `cs[from..to]`.
pub fn string_of(cs: &Vec<char>, from: usize, to: usize) -> (r: String)
    requires
        from <= to <= cs@.len(),
    ensures
        r@ == cs@.subrange(from as int, to as int),
{
    let mut out: String = String::new();
    let mut i: usize = from;
    while i < to
        invariant
            from <= i <= to <= cs@.len(),
            out@ == cs@.subrange(from as int, i as int),
        decreases to - i,
    {
        proof {
            assert(cs@.subrange(from as int, i + 1) =~= cs@.subrange(from as int, i as int).push(
                cs@[i as int],
            ));
        }
        out.push(cs[i]);
        i += 1;
    }
    out
}

/// The string made of all of `cs`.
pub fn string_from(cs: &Vec<char>) -> (r: String)
    ensures
        r@ == cs@,
{
    proof {
        assert(cs@.subrange(0, cs@.len() as int) =~= cs@);
    }
    string_of(cs, 0, cs.len())
}

/// An owned copy of `s`.
pub fn owned(s: &str) -> (r: String)
    ensures
        r@ == s@,
{
    s.to_owned()
}

/// A copy of an optional string.
pub fn clone_opt(o: &Option<String>) -> (r: Option<String>)
    ensures
        r == *o,
{
    match o {
        Some(s) => Some(s.clone()),
        None => None,
    }
}

/// A copy of an optional borrowed string.
pub fn owned_opt(o: Option<&str>) -> (r: Option<String>)
    ensures
        opt_text(r) == opt_str(o),
{
    match o {
        Some(s) => Some(owned(s)),
        None => None,
    }
}

/// What a list of borrowed strings holds.
pub open spec fn strs(v: Seq<&str>) -> Seq<Seq<char>> {
    v.map_values(|s: &str| s@)
}

/// The same strings, owned.
pub fn owned_all(v: Vec<&str>) -> (r: Vec<String>)
    ensures
        texts(r@) == strs(v@),
{
    broadcast use lemma_texts_push;

    let mut out: Vec<String> = Vec::new();
    let mut i: usize = 0;
    proof {
        lemma_texts_empty(out@);
        assert(strs(v@).take(0) =~= Seq::<Seq<char>>::empty());
    }
    while i < v.len()
        invariant
            i <= v@.len(),
            texts(out@) == strs(v@).take(i as int),
        decreases v@.len() - i,
    {
        broadcast use lemma_texts_push;

        proof {
            assert(strs(v@).take(i + 1) =~= strs(v@).take(i as int).push(v@[i as int]@));
        }
        out.push(owned(v[i]));
        i += 1;
    }
    proof {
        assert(strs(v@).take(v@.len() as int) =~= strs(v@));
    }
    out
}

/// A copy of a list of strings.
pub fn clone_texts(v: &Vec<String>) -> (r: Vec<String>)
    ensures
        r@ == v@,
{
    let mut out: Vec<String> = Vec::new();
    let mut i: usize = 0;
    while i < v.len()
        invariant
            i <= v@.len(),
            out@ == v@.take(i as int),
        decreases v@.len() - i,
    {
        proof {
            assert(v@.take(i + 1) =~= v@.take(i as int).push(v@[i as int]));
        }
        out.push(v[i].clone());
        i += 1;
    }
    proof {
        assert(v@.take(i as int) =~= v@);
    }
    out
}

// -------------------------------------------------------------- comparisons

/// Whether two strings hold the same characters.
pub fn same(a: &str, b: &str) -> (r: bool)
    ensures
        r == (a@ == b@),
{
    let x: Vec<char> = chars_of(a);
    let y: Vec<char> = chars_of(b);
    if x.len() != y.len() {
        return false;
    }
    let mut i: usize = 0;
    while i < x.len()
        invariant
            i <= x@.len(),
            x@.len() == y@.len(),
            x@ == a@,
            y@ == b@,
            forall|j: int| 0 <= j < i ==> x@[j] == y@[j],
        decreases x@.len() - i,
    {
        if x[i] != y[i] {
            return false;
        }
        i += 1;
    }
    proof {
        assert(x@ =~= y@);
    }
    true
}

/// Whether two optional strings are both absent or hold the same characters.
pub fn same_opt(a: &Option<String>, b: &Option<String>) -> (r: bool)
    ensures
        r == (opt_text(*a) == opt_text(*b)),
{
    match (a, b) {
        (Some(x), Some(y)) => same(x.as_str(), y.as_str()),
        (None, None) => true,
        _ => false,
    }
}

/// Whether `s` begins with `p`.
pub fn starts_with(s: &str, p: &str) -> (r: bool)
    ensures
        r == p@.is_prefix_of(s@),
{
    let x: Vec<char> = chars_of(s);
    let y: Vec<char> = chars_of(p);
    if x.len() < y.len() {
        return false;
    }
    let mut i: usize = 0;
    while i < y.len()
        invariant
            i <= y@.len() <= x@.len(),
            x@ == s@,
            y@ == p@,
            forall|j: int| 0 <= j < i ==> x@[j] == y@[j],
        decreases y@.len() - i,
    {
        if x[i] != y[i] {
            proof {
                assert(x@.subrange(0, y@.len() as int)[i as int] == x@[i as int]);
            }
            return false;
        }
        i += 1;
    }
    proof {
        assert(y@ =~= x@.subrange(0, y@.len() as int));
    }
    true
}

/// Whether `s` ends with `p`.
pub fn ends_with(s: &str, p: &str) -> (r: bool)
    ensures
        r == p@.is_suffix_of(s@),
{
    let x: Vec<char> = chars_of(s);
    let y: Vec<char> = chars_of(p);
    if x.len() < y.len() {
        return false;
    }
    let skip: usize = x.len() - y.len();
    let mut i: usize = 0;
    while i < y.len()
        invariant
            i <= y@.len() <= x@.len(),
            skip + y.len() == x.len(),
            x@ == s@,
            y@ == p@,
            forall|j: int| 0 <= j < i ==> x@[skip + j] == y@[j],
        decreases y@.len() - i,
    {
        if x[skip + i] != y[i] {
            proof {
                assert(x@.subrange(skip as int, x@.len() as int)[i as int] == x@[skip + i]);
            }
            return false;
        }
        i += 1;
    }
    proof {
        assert(y@ =~= x@.subrange(skip as int, x@.len() as int));
    }
    true
}

// ----------------------------------------------------------------- trimming

/// `s` without its leading white space.
pub open spec fn trim_start(s: Seq<char>) -> Seq<char>
    decreases s.len(),
{
    if s.len() > 0 && is_space(s[0]) {
        trim_start(s.drop_first())
    } else {
        s
    }
}

/// `s` without its trailing white space.
pub open spec fn trim_end(s: Seq<char>) -> Seq<char>
    decreases s.len(),
{
    if s.len() > 0 && is_space(s.last()) {
        trim_end(s.drop_last())
    } else {
        s
    }
}

/// `s` without white space at either end.
pub open spec fn trim(s: Seq<char>) -> Seq<char> {
    trim_end(trim_start(s))
}

/// `cs` without white space at either end.
pub fn trimmed(cs: &Vec<char>) -> (r: Vec<char>)
    ensures
        r@ == trim(cs@),
{
    let mut from: usize = 0;
    proof {
        assert(cs@.skip(0) =~= cs@);
    }
    while from < cs.len() && space(cs[from])
        invariant
            from <= cs@.len(),
            trim_start(cs@) == trim_start(cs@.skip(from as int)),
        decreases cs@.len() - from,
    {
        proof {
            assert(cs@.skip(from as int).drop_first() =~= cs@.skip(from + 1));
            assert(cs@.skip(from as int)[0] == cs@[from as int]);
        }
        from += 1;
    }
    proof {
        if from < cs@.len() {
            assert(cs@.skip(from as int)[0] == cs@[from as int]);
        }
        assert(trim_start(cs@) == cs@.skip(from as int));
        assert(cs@.subrange(from as int, cs@.len() as int) =~= cs@.skip(from as int));
    }
    let mut to: usize = cs.len();
    while to > from && space(cs[to - 1])
        invariant
            from <= to <= cs@.len(),
            trim_end(cs@.skip(from as int)) == trim_end(cs@.subrange(from as int, to as int)),
        decreases to,
    {
        proof {
            let cut = cs@.subrange(from as int, to as int);
            assert(cut.drop_last() =~= cs@.subrange(from as int, to - 1));
            assert(cut.last() == cs@[to - 1]);
        }
        to -= 1;
    }
    proof {
        let cut = cs@.subrange(from as int, to as int);
        if to > from {
            assert(cut.last() == cs@[to - 1]);
        }
        assert(trim_end(cut) == cut);
    }
    slice_of(cs, from, to)
}

/// `cs[from..to]`.
pub fn slice_of(cs: &Vec<char>, from: usize, to: usize) -> (r: Vec<char>)
    requires
        from <= to <= cs@.len(),
    ensures
        r@ == cs@.subrange(from as int, to as int),
{
    let mut out: Vec<char> = Vec::new();
    let mut i: usize = from;
    while i < to
        invariant
            from <= i <= to <= cs@.len(),
            out@ == cs@.subrange(from as int, i as int),
        decreases to - i,
    {
        proof {
            assert(cs@.subrange(from as int, i + 1) =~= cs@.subrange(from as int, i as int).push(
                cs@[i as int],
            ));
        }
        out.push(cs[i]);
        i += 1;
    }
    out
}

/// `s` without white space at either end, as a string of its own.
pub fn trim_str(s: &str) -> (r: String)
    ensures
        r@ == trim(s@),
{
    let cs: Vec<char> = chars_of(s);
    string_from(&trimmed(&cs))
}

/// `s` without any leading `#`.
pub open spec fn without_hash(s: Seq<char>) -> Seq<char>
    decreases s.len(),
{
    if s.len() > 0 && s[0] == '#' {
        without_hash(s.drop_first())
    } else {
        s
    }
}

/// `s` without any leading `#`.
pub fn strip_hash(s: &str) -> (r: String)
    ensures
        r@ == without_hash(s@),
{
    let cs: Vec<char> = chars_of(s);
    let mut i: usize = 0;
    proof {
        assert(cs@.skip(0) =~= cs@);
    }
    while i < cs.len() && cs[i] == '#'
        invariant
            i <= cs@.len(),
            without_hash(cs@) == without_hash(cs@.skip(i as int)),
        decreases cs@.len() - i,
    {
        proof {
            assert(cs@.skip(i as int)[0] == cs@[i as int]);
            assert(cs@.skip(i as int).drop_first() =~= cs@.skip(i + 1));
        }
        i += 1;
    }
    proof {
        if i < cs@.len() {
            assert(cs@.skip(i as int)[0] == cs@[i as int]);
        }
        assert(cs@.subrange(i as int, cs@.len() as int) =~= cs@.skip(i as int));
    }
    string_of(&cs, i, cs.len())
}

// ---------------------------------------------------------------- splitting

/// The pieces of `s` between occurrences of `at`: always at least one.
pub open spec fn split(s: Seq<char>, at: char) -> Seq<Seq<char>>
    decreases s.len(),
{
    if s.len() == 0 {
        seq![s]
    } else {
        let rest = split(s.drop_first(), at);
        if s[0] == at {
            seq![Seq::<char>::empty()] + rest
        } else {
            rest.update(0, seq![s[0]] + rest[0])
        }
    }
}

/// Splitting always leaves at least one piece.
pub proof fn lemma_split_nonempty(s: Seq<char>, at: char)
    ensures
        split(s, at).len() > 0,
    decreases s.len(),
{
    if s.len() > 0 {
        lemma_split_nonempty(s.drop_first(), at);
    }
}

/// Appending one character to a string extends its last piece, or opens a new
/// one when the character is the separator.
proof fn lemma_split_push(s: Seq<char>, c: char, at: char)
    ensures
        split(s.push(c), at) == if c == at {
            split(s, at).push(Seq::empty())
        } else {
            split(s, at).update(split(s, at).len() - 1, split(s, at).last().push(c))
        },
    decreases s.len(),
{
    lemma_split_nonempty(s, at);
    if s.len() == 0 {
        let t = s.push(c);
        assert(t.drop_first() =~= Seq::<char>::empty());
        assert(split(t.drop_first(), at) == seq![t.drop_first()]);
        assert(s =~= Seq::<char>::empty());
        if c == at {
            assert(split(t, at) =~= split(s, at).push(Seq::empty()));
        } else {
            assert(seq![c] + Seq::<char>::empty() =~= s.push(c));
            assert(split(t, at) =~= split(s, at).update(0, s.push(c)));
        }
    } else {
        let t = s.push(c);
        let rest = split(s.drop_first(), at);
        assert(t.drop_first() =~= s.drop_first().push(c));
        lemma_split_push(s.drop_first(), c, at);
        lemma_split_nonempty(s.drop_first(), at);
        let more = split(t.drop_first(), at);
        let last = rest.len() - 1;
        if s[0] == at {
            if c == at {
                assert(split(t, at) =~= split(s, at).push(Seq::empty()));
            } else {
                assert(split(t, at) =~= split(s, at).update(
                    split(s, at).len() - 1,
                    split(s, at).last().push(c),
                ));
            }
        } else {
            if c == at {
                assert(split(t, at) =~= split(s, at).push(Seq::empty()));
            } else {
                assert((seq![s[0]] + rest[0]).push(c) =~= seq![s[0]] + rest[0].push(c));
                assert(split(t, at) =~= split(s, at).update(
                    split(s, at).len() - 1,
                    split(s, at).last().push(c),
                ));
            }
        }
    }
}

/// A string with a separator in it splits into what stands before and after.
pub proof fn lemma_split_around(a: Seq<char>, at: char, b: Seq<char>)
    ensures
        split(a.push(at) + b, at) == split(a, at) + split(b, at),
    decreases a.len(),
{
    lemma_split_nonempty(b, at);
    if a.len() == 0 {
        let s = a.push(at) + b;
        assert(s.drop_first() =~= b);
        assert(a =~= Seq::<char>::empty());
        assert(split(s, at) =~= split(a, at) + split(b, at));
    } else {
        let s = a.push(at) + b;
        let rest = a.drop_first();
        lemma_split_around(rest, at, b);
        lemma_split_nonempty(rest, at);
        assert(s.drop_first() =~= rest.push(at) + b);
        assert(split(s, at) =~= split(a, at) + split(b, at));
    }
}

/// The pieces of `s` between occurrences of `at`.
pub fn split_on(s: &str, at: char) -> (r: Vec<String>)
    ensures
        texts(r@) == split(s@, at),
{
    broadcast use lemma_texts_push;

    let cs: Vec<char> = chars_of(s);
    let mut out: Vec<String> = Vec::new();
    let mut piece: String = String::new();
    let mut i: usize = 0;
    proof {
        lemma_texts_empty(out@);
        assert(cs@.take(0) =~= Seq::<char>::empty());
        assert(texts(out@).push(piece@) =~= split(cs@.take(0), at));
    }
    while i < cs.len()
        invariant
            i <= cs@.len(),
            texts(out@).push(piece@) == split(cs@.take(i as int), at),
        decreases cs@.len() - i,
    {
        let c: char = cs[i];
        proof {
            lemma_split_push(cs@.take(i as int), c, at);
            assert(cs@.take(i + 1) =~= cs@.take(i as int).push(c));
            let before = split(cs@.take(i as int), at);
            assert(before.last() == piece@);
            assert(texts(out@) =~= before.drop_last());
        }
        if c == at {
            out.push(piece);
            piece = String::new();
            proof {
                assert(texts(out@).push(piece@) =~= split(cs@.take(i + 1), at));
            }
        } else {
            let ghost was = piece@;
            piece.push(c);
            proof {
                assert(texts(out@).push(piece@) =~= split(cs@.take(i + 1), at));
            }
        }
        i += 1;
    }
    proof {
        assert(cs@.take(cs@.len() as int) =~= cs@);
    }
    out.push(piece);
    out
}

/// A line without the carriage return that ends it.
pub open spec fn chop_cr(s: Seq<char>) -> Seq<char> {
    if s.len() > 0 && s.last() == '\r' {
        s.drop_last()
    } else {
        s
    }
}

/// The lines of `s`. A line ends at a line feed, with or without a carriage
/// return before it; what follows the last line feed is a line if it is not
/// empty.
pub open spec fn lines(s: Seq<char>) -> Seq<Seq<char>> {
    let parts = split(s, '\n');
    let count = if parts.last().len() == 0 {
        (parts.len() - 1) as nat
    } else {
        parts.len()
    };
    Seq::new(
        count,
        |i: int|
            if i < parts.len() - 1 {
                chop_cr(parts[i])
            } else {
                parts[i]
            },
    )
}

/// What stands behind a line feed contributes the same lines, whatever stands
/// before it.
pub proof fn lemma_lines_after(a: Seq<char>, b: Seq<char>)
    ensures
        lines(a.push('\n') + b) == split(a, '\n').map_values(|l: Seq<char>| chop_cr(l)) + lines(b),
{
    lemma_split_around(a, '\n', b);
    lemma_split_nonempty(a, '\n');
    lemma_split_nonempty(b, '\n');
    let pa = split(a, '\n');
    let pb = split(b, '\n');
    let all = split(a.push('\n') + b, '\n');
    assert(all == pa + pb);
    assert(all.last() == pb.last());
    assert(lines(a.push('\n') + b) =~= pa.map_values(|l: Seq<char>| chop_cr(l)) + lines(b));
}

/// The lines of `s`.
pub fn lines_of(s: &str) -> (r: Vec<String>)
    ensures
        texts(r@) == lines(s@),
{
    broadcast use lemma_texts_push;

    let parts: Vec<String> = split_on(s, '\n');
    proof {
        lemma_split_nonempty(s@, '\n');
        assert(texts(parts@).len() == parts@.len());
    }
    let mut count: usize = parts.len();
    if parts[count - 1].as_str().is_empty() {
        count -= 1;
    }
    let mut out: Vec<String> = Vec::new();
    let mut i: usize = 0;
    proof {
        assert(texts(parts@).last() == parts@[parts@.len() - 1]@);
        lemma_texts_empty(out@);
        assert(texts(out@) =~= lines(s@).take(0));
    }
    while i < count
        invariant
            i <= count <= parts@.len(),
            parts@.len() > 0,
            texts(parts@) == split(s@, '\n'),
            count == lines(s@).len(),
            texts(out@) == lines(s@).take(i as int),
        decreases count - i,
    {
        broadcast use lemma_texts_push;

        let mut cs: Vec<char> = chars_of(parts[i].as_str());
        proof {
            assert(texts(parts@)[i as int] == parts@[i as int]@);
            assert(lines(s@).take(i + 1) =~= lines(s@).take(i as int).push(lines(s@)[i as int]));
        }
        if i + 1 < parts.len() && cs.len() > 0 && cs[cs.len() - 1] == '\r' {
            let end: usize = cs.len() - 1;
            proof {
                assert(cs@.subrange(0, end as int) =~= cs@.drop_last());
            }
            cs = slice_of(&cs, 0, end);
        }
        out.push(string_from(&cs));
        i += 1;
    }
    proof {
        assert(lines(s@).take(count as int) =~= lines(s@));
    }
    out
}

/// What stands before and after the first `at` in `s`, when there is one.
pub open spec fn cut(s: Seq<char>, at: char) -> Option<(Seq<char>, Seq<char>)>
    decreases s.len(),
{
    if s.len() == 0 {
        None
    } else if s[0] == at {
        Some((Seq::empty(), s.drop_first()))
    } else {
        match cut(s.drop_first(), at) {
            Some((a, b)) => Some((seq![s[0]] + a, b)),
            None => None,
        }
    }
}

/// What `cut` finds, read off the position of the first occurrence.
pub proof fn lemma_cut_at(s: Seq<char>, at: char, k: int)
    requires
        0 <= k <= s.len(),
        forall|j: int| 0 <= j < k ==> s[j] != at,
        k < s.len() ==> s[k] == at,
    ensures
        k < s.len() ==> cut(s, at) == Some((s.take(k), s.skip(k + 1))),
        k == s.len() ==> cut(s, at) is None,
    decreases s.len(),
{
    if s.len() > 0 {
        if k == 0 {
            assert(s.take(0) =~= Seq::<char>::empty());
            assert(s.skip(1) =~= s.drop_first());
        } else {
            let rest = s.drop_first();
            assert forall|j: int| 0 <= j < k - 1 implies rest[j] != at by {
                assert(rest[j] == s[j + 1]);
            }
            if k < s.len() {
                assert(rest[k - 1] == s[k]);
            }
            lemma_cut_at(rest, at, k - 1);
            if k < s.len() {
                assert(seq![s[0]] + rest.take(k - 1) =~= s.take(k));
                assert(rest.skip(k) =~= s.skip(k + 1));
            }
        }
    }
}

/// What stands before and after the first `at` in `s`, when there is one.
pub fn cut_at(s: &str, at: char) -> (r: Option<(String, String)>)
    ensures
        match r {
            Some((a, b)) => cut(s@, at) == Some((a@, b@)),
            None => cut(s@, at) is None,
        },
{
    let cs: Vec<char> = chars_of(s);
    let mut k: usize = 0;
    while k < cs.len() && cs[k] != at
        invariant
            k <= cs@.len(),
            forall|j: int| 0 <= j < k ==> cs@[j] != at,
        decreases cs@.len() - k,
    {
        k += 1;
    }
    proof {
        lemma_cut_at(cs@, at, k as int);
    }
    if k == cs.len() {
        return None;
    }
    proof {
        assert(cs@.subrange(0, k as int) =~= cs@.take(k as int));
        assert(cs@.subrange(k + 1, cs@.len() as int) =~= cs@.skip(k + 1));
    }
    Some((string_of(&cs, 0, k), string_of(&cs, k + 1, cs.len())))
}

// -------------------------------------------------------------------- words

/// The maximal runs of characters that are not white space.
pub open spec fn words(s: Seq<char>) -> Seq<Seq<char>>
    decreases s.len(),
{
    if s.len() == 0 {
        Seq::empty()
    } else {
        let before = words(s.drop_last());
        if is_space(s.last()) {
            before
        } else if s.len() >= 2 && !is_space(s[s.len() - 2]) {
            before.update(before.len() - 1, before.last().push(s.last()))
        } else {
            before.push(seq![s.last()])
        }
    }
}

/// A string that ends in a word has a last word, and no word is empty.
pub proof fn lemma_words(s: Seq<char>)
    ensures
        s.len() > 0 && !is_space(s.last()) ==> words(s).len() > 0,
        forall|i: int| 0 <= i < words(s).len() ==> (#[trigger] words(s)[i]).len() > 0,
        forall|i: int, j: int|
            0 <= i < words(s).len() && 0 <= j < words(s)[i].len() ==> !is_space(
                #[trigger] words(s)[i][j],
            ),
    decreases s.len(),
{
    if s.len() > 0 {
        lemma_words(s.drop_last());
        if s.len() >= 2 {
            assert(s.drop_last().last() == s[s.len() - 2]);
        }
    }
}

/// The maximal runs of characters that are not white space.
pub fn words_of(s: &str) -> (r: Vec<String>)
    ensures
        texts(r@) == words(s@),
{
    broadcast use lemma_texts_push;

    let cs: Vec<char> = chars_of(s);
    let mut out: Vec<String> = Vec::new();
    let mut word: String = String::new();
    let mut i: usize = 0;
    proof {
        lemma_texts_empty(out@);
        assert(cs@.take(0) =~= Seq::<char>::empty());
    }
    while i < cs.len()
        invariant
            i <= cs@.len(),
            word@.len() > 0 <==> (i > 0 && !is_space(cs@[i - 1])),
            words(cs@.take(i as int)) == if word@.len() > 0 {
                texts(out@).push(word@)
            } else {
                texts(out@)
            },
        decreases cs@.len() - i,
    {
        broadcast use lemma_texts_push;

        let c: char = cs[i];
        proof {
            let now = cs@.take(i + 1);
            assert(now.drop_last() =~= cs@.take(i as int));
            assert(now.last() == c);
            if i > 0 {
                assert(now[i - 1] == cs@[i - 1]);
            }
        }
        if space(c) {
            if !word.as_str().is_empty() {
                out.push(word);
                word = String::new();
            }
        } else {
            let ghost was = word@;
            word.push(c);
            proof {
                if was.len() > 0 {
                    assert(texts(out@).push(word@) =~= texts(out@).push(was).update(
                        texts(out@).len() as int,
                        was.push(c),
                    ));
                } else {
                    assert(was =~= Seq::<char>::empty());
                    assert(word@ =~= seq![c]);
                }
            }
        }
        i += 1;
    }
    proof {
        assert(cs@.take(cs@.len() as int) =~= cs@);
    }
    if !word.as_str().is_empty() {
        out.push(word);
    }
    out
}

/// The strings of `parts` one after another, with `sep` between each two.
pub open spec fn join(parts: Seq<Seq<char>>, sep: Seq<char>) -> Seq<char>
    decreases parts.len(),
{
    if parts.len() == 0 {
        Seq::empty()
    } else if parts.len() == 1 {
        parts[0]
    } else {
        join(parts.drop_last(), sep) + sep + parts.last()
    }
}

/// The strings of `parts` one after another, with `sep` between each two.
pub fn join_with(parts: &Vec<String>, sep: &str) -> (r: String)
    ensures
        r@ == join(texts(parts@), sep@),
{
    let mut out: String = String::new();
    let mut i: usize = 0;
    proof {
        assert(texts(parts@).take(0) =~= Seq::<Seq<char>>::empty());
    }
    while i < parts.len()
        invariant
            i <= parts@.len(),
            out@ == join(texts(parts@).take(i as int), sep@),
        decreases parts@.len() - i,
    {
        proof {
            let now = texts(parts@).take(i + 1);
            assert(now.drop_last() =~= texts(parts@).take(i as int));
            assert(now.last() == parts@[i as int]@);
            if i == 0 {
                assert(now[0] == parts@[0]@);
                assert(Seq::<char>::empty() + parts@[0]@ =~= parts@[0]@);
            }
        }
        if i > 0 {
            out.append(sep);
        }
        out.append(parts[i].as_str());
        i += 1;
    }
    proof {
        assert(texts(parts@).take(parts@.len() as int) =~= texts(parts@));
    }
    out
}

// ------------------------------------------------------------------ cutting

/// How many bytes a character takes in UTF-8.
pub open spec fn utf8_len(c: char) -> nat {
    let n = c as int;
    if n < 0x80 {
        1
    } else if n < 0x800 {
        2
    } else if n < 0x10000 {
        3
    } else {
        4
    }
}

fn utf8_size(c: char) -> (r: usize)
    ensures
        r == utf8_len(c),
{
    let n: u32 = c as u32;
    if n < 0x80 {
        1
    } else if n < 0x800 {
        2
    } else if n < 0x10000 {
        3
    } else {
        4
    }
}

/// The longest beginning of `s` that takes at most `bytes` bytes in UTF-8.
pub open spec fn within(s: Seq<char>, bytes: nat) -> Seq<char>
    decreases s.len(),
{
    if s.len() == 0 || utf8_len(s[0]) > bytes {
        Seq::empty()
    } else {
        seq![s[0]] + within(s.drop_first(), (bytes - utf8_len(s[0])) as nat)
    }
}

/// The longest beginning of `s` that takes at most `bytes` bytes in UTF-8.
pub fn head_of(s: &str, bytes: usize) -> (r: String)
    ensures
        r@ == within(s@, bytes as nat),
{
    let cs: Vec<char> = chars_of(s);
    let mut left: usize = bytes;
    let mut out: String = String::new();
    let mut i: usize = 0;
    proof {
        assert(cs@.skip(0) =~= cs@);
        assert(out@ + within(cs@, left as nat) =~= within(cs@, bytes as nat));
    }
    while i < cs.len()
        invariant
            i <= cs@.len(),
            cs@ == s@,
            within(cs@, bytes as nat) == out@ + within(cs@.skip(i as int), left as nat),
        decreases cs@.len() - i,
    {
        let c: char = cs[i];
        let size: usize = utf8_size(c);
        let ghost rest = cs@.skip(i as int);
        proof {
            assert(rest[0] == c);
            assert(rest.drop_first() =~= cs@.skip(i + 1));
        }
        if size > left {
            proof {
                assert(out@ + Seq::<char>::empty() =~= out@);
            }
            return out;
        }
        let ghost was = out@;
        out.push(c);
        left -= size;
        i += 1;
        proof {
            let more = within(cs@.skip(i as int), left as nat);
            assert(within(rest, (left + size) as nat) == seq![c] + more);
            assert(was + (seq![c] + more) =~= out@ + more);
        }
    }
    proof {
        assert(out@ + Seq::<char>::empty() =~= out@);
    }
    out
}

// ------------------------------------------------------------------ numbers

/// The decimal digit for a value below ten.
pub open spec fn digit(n: nat) -> char {
    if n == 0 {
        '0'
    } else if n == 1 {
        '1'
    } else if n == 2 {
        '2'
    } else if n == 3 {
        '3'
    } else if n == 4 {
        '4'
    } else if n == 5 {
        '5'
    } else if n == 6 {
        '6'
    } else if n == 7 {
        '7'
    } else if n == 8 {
        '8'
    } else {
        '9'
    }
}

fn digit_char(n: u64) -> (r: char)
    requires
        n < 10,
    ensures
        r == digit(n as nat),
{
    match n {
        0 => '0',
        1 => '1',
        2 => '2',
        3 => '3',
        4 => '4',
        5 => '5',
        6 => '6',
        7 => '7',
        8 => '8',
        _ => '9',
    }
}

/// `n` in decimal, without leading zeros.
pub open spec fn dec(n: nat) -> Seq<char>
    decreases n,
{
    if n < 10 {
        seq![digit(n)]
    } else {
        dec(n / 10).push(digit(n % 10))
    }
}

/// Append `n` in decimal.
pub fn push_dec(out: &mut String, n: u64)
    ensures
        final(out)@ == old(out)@ + dec(n as nat),
    decreases n,
{
    if n < 10 {
        out.push(digit_char(n));
        proof {
            assert(out@ =~= old(out)@ + dec(n as nat));
        }
    } else {
        push_dec(out, n / 10);
        out.push(digit_char(n % 10));
        proof {
            assert(out@ =~= old(out)@ + dec(n as nat));
        }
    }
}

/// `n` in decimal.
pub fn dec_of(n: u64) -> (r: String)
    ensures
        r@ == dec(n as nat),
{
    let mut out: String = String::new();
    push_dec(&mut out, n);
    proof {
        assert(Seq::<char>::empty() + dec(n as nat) =~= dec(n as nat));
    }
    out
}

/// `n` in decimal, filled on the left with zeros up to `wide` digits.
pub open spec fn dec_wide(n: nat, wide: nat) -> Seq<char> {
    let d = dec(n);
    Seq::new(
        if d.len() < wide {
            (wide - d.len()) as nat
        } else {
            0
        },
        |i: int| '0',
    ) + d
}

/// Append `n` in decimal, filled on the left with zeros up to `wide` digits.
pub fn push_dec_wide(out: &mut String, n: u64, wide: usize)
    ensures
        final(out)@ == old(out)@ + dec_wide(n as nat, wide as nat),
{
    let body: String = dec_of(n);
    let used: usize = body.as_str().unicode_len();
    let fill: usize = if used < wide {
        wide - used
    } else {
        0
    };
    let mut i: usize = 0;
    let ghost zeros = Seq::new(fill as nat, |i: int| '0');
    proof {
        assert(old(out)@ + zeros.take(0) =~= old(out)@);
    }
    while i < fill
        invariant
            i <= fill,
            zeros == Seq::new(fill as nat, |i: int| '0'),
            out@ == old(out)@ + zeros.take(i as int),
        decreases fill - i,
    {
        proof {
            assert(zeros.take(i + 1) =~= zeros.take(i as int).push('0'));
        }
        out.push('0');
        proof {
            assert(out@ =~= old(out)@ + zeros.take(i + 1));
        }
        i += 1;
    }
    out.append(body.as_str());
    proof {
        assert(zeros.take(fill as int) =~= zeros);
        assert(out@ =~= old(out)@ + dec_wide(n as nat, wide as nat));
    }
}

/// The value of a decimal digit.
pub open spec fn digit_value(c: char) -> nat {
    (c as int - '0' as int) as nat
}

/// The number a string of decimal digits stands for.
pub open spec fn digits_value(s: Seq<char>) -> nat
    decreases s.len(),
{
    if s.len() == 0 {
        0
    } else {
        digits_value(s.drop_last()) * 10 + digit_value(s.last())
    }
}

pub open spec fn all_digits(s: Seq<char>) -> bool {
    s.len() > 0 && forall|i: int| 0 <= i < s.len() ==> is_digit(#[trigger] s[i])
}

/// The unsigned number `s` spells, at most `max`: digits, with at most one
/// plus sign before them.
pub open spec fn number(s: Seq<char>, max: nat) -> Option<nat> {
    let body = if s.len() > 0 && s[0] == '+' {
        s.drop_first()
    } else {
        s
    };
    if all_digits(body) && digits_value(body) <= max {
        Some(digits_value(body))
    } else {
        None
    }
}

/// A longer string of digits stands for a number at least as large.
proof fn lemma_digits_grow(s: Seq<char>, k: int)
    requires
        0 <= k <= s.len(),
        forall|i: int| 0 <= i < s.len() ==> is_digit(#[trigger] s[i]),
    ensures
        digits_value(s.take(k)) <= digits_value(s),
    decreases s.len() - k,
{
    if k == s.len() {
        assert(s.take(k) =~= s);
    } else {
        lemma_digits_grow(s, k + 1);
        assert(s.take(k + 1).drop_last() =~= s.take(k));
    }
}

/// The unsigned number `s` spells, when it is at most `max`.
pub fn number_of(s: &str, max: u64) -> (r: Option<u64>)
    ensures
        match r {
            Some(n) => number(s@, max as nat) == Some(n as nat),
            None => number(s@, max as nat) is None,
        },
{
    let cs: Vec<char> = chars_of(s);
    let from: usize = if cs.len() > 0 && cs[0] == '+' {
        1
    } else {
        0
    };
    let ghost body = cs@.skip(from as int);
    proof {
        if cs@.len() > 0 {
            assert(cs@.skip(1) =~= cs@.drop_first());
        }
        assert(cs@.skip(0) =~= cs@);
    }
    if from == cs.len() {
        return None;
    }
    let mut n: u64 = 0;
    let mut i: usize = from;
    let mut over: bool = false;
    proof {
        assert(body.take(0) =~= Seq::<char>::empty());
    }
    while i < cs.len()
        invariant
            from <= i <= cs@.len(),
            body == cs@.skip(from as int),
            body == if s@.len() > 0 && s@[0] == '+' {
                s@.drop_first()
            } else {
                s@
            },
            forall|j: int| 0 <= j < i - from ==> is_digit(#[trigger] body[j]),
            !over ==> n == digits_value(body.take(i - from)) && n <= max,
            over ==> exists|k: int|
                0 <= k <= i - from && digits_value(#[trigger] body.take(k)) > max,
        decreases cs@.len() - i,
    {
        let c: char = cs[i];
        proof {
            assert(body[i - from] == c);
            assert(body.take(i - from + 1).drop_last() =~= body.take(i - from));
            assert(body.take(i - from + 1).last() == c);
        }
        if !('0' <= c && c <= '9') {
            proof {
                assert(!is_digit(body[i - from]));
            }
            return None;
        }
        if !over {
            let d: u64 = (c as u32 - '0' as u32) as u64;
            if n > max / 10 || (n == max / 10 && d > max % 10) {
                over = true;
                proof {
                    let k = i - from + 1;
                    assert(digits_value(body.take(k)) == n * 10 + d);
                    assert(digits_value(body.take(k)) > max);
                }
            } else {
                n = n * 10 + d;
            }
        }
        i += 1;
    }
    proof {
        assert(body.take(body.len() as int) =~= body);
        if over {
            let k = choose|k: int|
                0 <= k <= i - from && digits_value(#[trigger] body.take(k)) > max;
            lemma_digits_grow(body, k);
        }
    }
    if over {
        None
    } else {
        Some(n)
    }
}

/// Writing a number in decimal and reading it back gives the same number.
pub proof fn law_decimal_round_trip(n: nat, max: nat)
    requires
        n <= max,
    ensures
        number(dec(n), max) == Some(n),
{
    lemma_dec_digits(n);
}

pub proof fn lemma_dec_digits(n: nat)
    ensures
        all_digits(dec(n)),
        digits_value(dec(n)) == n,
    decreases n,
{
    if n < 10 {
        assert(dec(n).drop_last() =~= Seq::<char>::empty());
        assert(digits_value(dec(n).drop_last()) == 0);
        assert(digit_value(digit(n)) == n);
    } else {
        lemma_dec_digits(n / 10);
        assert(dec(n).drop_last() =~= dec(n / 10));
        assert(digit_value(digit(n % 10)) == n % 10);
        assert forall|i: int| 0 <= i < dec(n).len() implies is_digit(#[trigger] dec(n)[i]) by {
            if i < dec(n / 10).len() {
                assert(dec(n)[i] == dec(n / 10)[i]);
            }
        }
    }
}

/// Whether a text is these three, one after the other.
pub open spec fn is_made_of(
    text: Seq<char>,
    before: Seq<char>,
    piece: Seq<char>,
    after: Seq<char>,
) -> bool {
    text == before + piece + after
}

/// Whether a piece stands somewhere in a text.
pub open spec fn says(text: Seq<char>, piece: Seq<char>) -> bool {
    exists|before: Seq<char>, after: Seq<char>| #[trigger] is_made_of(text, before, piece, after)
}

/// A piece that stands in a text, with what stands before and behind it.
pub proof fn lemma_says(
    text: Seq<char>,
    before: Seq<char>,
    piece: Seq<char>,
    after: Seq<char>,
)
    requires
        text =~= before + piece + after,
    ensures
        says(text, piece),
{
    assert(is_made_of(text, before, piece, after));
}

} // verus!
