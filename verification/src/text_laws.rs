//! What the operations on text do, said of the text they are given.
use vstd::prelude::*;

use crate::digest::hex;
use crate::herdr::json::{json_escape, json_quoted};
use crate::strings::{
    cut, dec, dec_wide, is_control, is_space, join, lemma_split_nonempty, lines, split, trim,
    trim_end, trim_start, utf8_len, within, without_hash,
};

verus! {

/// Only white space is trimmed, at both ends, and all of it.
pub proof fn law_trimming_takes_white_space_only(s: Seq<char>)
    ensures
        trim(s).len() > 0 ==> !is_space(trim(s)[0]) && !is_space(trim(s).last()),
        exists|a: int, b: int|
            #![trigger s.subrange(a, b)]
            0 <= a <= b <= s.len() && trim(s) == s.subrange(a, b) && (forall|i: int|
                0 <= i < a ==> is_space(#[trigger] s[i])) && (forall|i: int|
                b <= i < s.len() ==> is_space(#[trigger] s[i])),
{
    lemma_trim_start(s);
    let t = trim_start(s);
    let a = s.len() - t.len();
    assert(t == s.skip(a));
    lemma_trim_end(t);
    let u = trim_end(t);
    assert(u == t.take(u.len() as int));
    let b = a + u.len();
    assert(u =~= s.subrange(a, b));
    assert forall|i: int| b <= i < s.len() implies is_space(#[trigger] s[i]) by {
        assert(t[i - a] == s[i]);
    }
}

proof fn lemma_trim_start(s: Seq<char>)
    ensures
        trim_start(s).len() <= s.len(),
        trim_start(s) == s.skip(s.len() - trim_start(s).len()),
        trim_start(s).len() > 0 ==> !is_space(trim_start(s)[0]),
        forall|i: int| 0 <= i < s.len() - trim_start(s).len() ==> is_space(#[trigger] s[i]),
    decreases s.len(),
{
    if s.len() > 0 && is_space(s[0]) {
        let r = s.drop_first();
        lemma_trim_start(r);
        let k = r.len() - trim_start(r).len();
        assert(s.skip(k + 1) =~= r.skip(k));
        assert forall|i: int| 0 <= i < k + 1 implies is_space(#[trigger] s[i]) by {
            if i > 0 {
                assert(r[i - 1] == s[i]);
            }
        }
    } else {
        assert(s.skip(0) =~= s);
    }
}

proof fn lemma_trim_end(s: Seq<char>)
    ensures
        trim_end(s).len() <= s.len(),
        trim_end(s) == s.take(trim_end(s).len() as int),
        trim_end(s).len() > 0 ==> !is_space(trim_end(s).last()),
        trim_end(s).len() > 0 ==> trim_end(s)[0] == s[0],
        forall|i: int| trim_end(s).len() <= i < s.len() ==> is_space(#[trigger] s[i]),
    decreases s.len(),
{
    if s.len() > 0 && is_space(s.last()) {
        let r = s.drop_last();
        lemma_trim_end(r);
        let k = trim_end(r).len() as int;
        assert(s.take(k) =~= r.take(k));
        assert forall|i: int| k <= i < s.len() implies is_space(#[trigger] s[i]) by {
            if i < s.len() - 1 {
                assert(r[i] == s[i]);
            }
        }
    } else {
        assert(s.take(s.len() as int) =~= s);
    }
}

/// The blank, the tab and the ends of lines are white space; letters, digits and
/// signs are not.
pub proof fn law_white_space_is_what_is_not_seen(c: char)
    ensures
        c == ' ' || c == '\t' || c == '\n' || c == '\r' ==> is_space(c),
        '!' <= c <= '~' ==> !is_space(c) && !is_control(c),
        (c as int) < 32 ==> is_control(c),
        c as int == 0x7f ==> is_control(c),
{
}

/// What is split at a character comes back when it is joined with it, and no
/// piece holds it.
pub proof fn law_splitting_is_undone_by_joining(s: Seq<char>, at: char, i: int)
    ensures
        join(split(s, at), seq![at]) == s,
        split(s, at).len() > 0,
        0 <= i < split(s, at).len() ==> !split(s, at)[i].contains(at),
    decreases s.len(),
{
    lemma_split_nonempty(s, at);
    if s.len() == 0 {
        assert(join(split(s, at), seq![at]) =~= s);
        assert(!s.contains(at));
    } else {
        let r = s.drop_first();
        let rest = split(r, at);
        lemma_split_nonempty(r, at);
        law_splitting_is_undone_by_joining(r, at, i);
        if s[0] == at {
            let empty = Seq::<char>::empty();
            lemma_join_front(empty, rest, seq![at]);
            assert(s =~= empty + seq![at] + r);
            if i > 0 {
                law_splitting_is_undone_by_joining(r, at, i - 1);
            }
            assert(!empty.contains(at));
        } else {
            let head = seq![s[0]] + rest[0];
            lemma_join_head(rest, seq![s[0]], seq![at]);
            assert(s =~= seq![s[0]] + r);
            law_splitting_is_undone_by_joining(r, at, 0);
            assert(!head.contains(at)) by {
                if head.contains(at) {
                    let k = choose|k: int| 0 <= k < head.len() && head[k] == at;
                    if k > 0 {
                        assert(rest[0][k - 1] == at);
                        assert(rest[0].contains(at));
                    }
                }
            }
        }
    }
}

proof fn lemma_join_front(first: Seq<char>, rest: Seq<Seq<char>>, sep: Seq<char>)
    requires
        rest.len() > 0,
    ensures
        join(seq![first] + rest, sep) == first + sep + join(rest, sep),
    decreases rest.len(),
{
    let all = seq![first] + rest;
    assert(all.last() == rest.last());
    if rest.len() == 1 {
        assert(all.drop_last() =~= seq![first]);
        assert(join(seq![first], sep) == first);
    } else {
        assert(all.drop_last() =~= seq![first] + rest.drop_last());
        lemma_join_front(first, rest.drop_last(), sep);
        assert(first + sep + join(rest.drop_last(), sep) + sep + rest.last() =~= first + sep + (join(
            rest.drop_last(),
            sep,
        ) + sep + rest.last()));
    }
}

proof fn lemma_join_head(parts: Seq<Seq<char>>, head: Seq<char>, sep: Seq<char>)
    requires
        parts.len() > 0,
    ensures
        join(parts.update(0, head + parts[0]), sep) == head + join(parts, sep),
    decreases parts.len(),
{
    let changed = parts.update(0, head + parts[0]);
    if parts.len() > 1 {
        lemma_join_head(parts.drop_last(), head, sep);
        assert(changed.drop_last() =~= parts.drop_last().update(0, head + parts.drop_last()[0]));
        assert(changed.last() == parts.last());
        assert(head + join(parts.drop_last(), sep) + sep + parts.last() =~= head + (join(
            parts.drop_last(),
            sep,
        ) + sep + parts.last()));
    }
}

/// A text is cut at the first place where the character stands, and not at all
/// where it stands nowhere.
pub proof fn law_a_text_is_cut_at_the_first_place(s: Seq<char>, at: char)
    ensures
        cut(s, at) is Some <==> s.contains(at),
        cut(s, at) matches Some((a, b)) ==> s == a.push(at) + b && !a.contains(at),
    decreases s.len(),
{
    if s.len() > 0 {
        let r = s.drop_first();
        if s[0] == at {
            assert(s.contains(at));
            assert(s =~= Seq::<char>::empty().push(at) + r);
        } else {
            law_a_text_is_cut_at_the_first_place(r, at);
            if r.contains(at) {
                let k = choose|k: int| 0 <= k < r.len() && r[k] == at;
                assert(s[k + 1] == at);
            }
            if s.contains(at) {
                let k = choose|k: int| 0 <= k < s.len() && s[k] == at;
                assert(r[k - 1] == at);
            }
            if let Some((a, b)) = cut(r, at) {
                let front = seq![s[0]] + a;
                assert(r == a.push(at) + b);
                assert(s =~= seq![s[0]] + r);
                assert(seq![s[0]] + (a.push(at) + b) =~= front.push(at) + b);
                assert(!front.contains(at)) by {
                    if front.contains(at) {
                        let k = choose|k: int| 0 <= k < front.len() && front[k] == at;
                        if k > 0 {
                            assert(a[k - 1] == at);
                            assert(a.contains(at));
                        }
                    }
                }
            }
        }
    }
}

/// The bytes that a text takes.
pub open spec fn bytes_of(s: Seq<char>) -> nat
    decreases s.len(),
{
    if s.len() == 0 {
        0
    } else {
        utf8_len(s[0]) + bytes_of(s.drop_first())
    }
}

/// A text that is limited to some bytes is the beginning of itself that fits,
/// and one more character would not have fitted.
pub proof fn law_a_limited_text_is_as_long_as_it_may_be(s: Seq<char>, bytes: nat)
    ensures
        within(s, bytes).is_prefix_of(s),
        bytes_of(within(s, bytes)) <= bytes,
        within(s, bytes).len() < s.len() ==> bytes_of(within(s, bytes)) + utf8_len(
            s[within(s, bytes).len() as int],
        ) > bytes,
        bytes_of(s) <= bytes ==> within(s, bytes) == s,
    decreases s.len(),
{
    if s.len() > 0 && utf8_len(s[0]) <= bytes {
        let r = s.drop_first();
        let left = (bytes - utf8_len(s[0])) as nat;
        law_a_limited_text_is_as_long_as_it_may_be(r, left);
        let w = within(s, bytes);
        assert(w.drop_first() =~= within(r, left));
        assert(w.is_prefix_of(s)) by {
            assert(within(r, left) =~= r.take(within(r, left).len() as int));
            assert(w =~= s.take(w.len() as int));
        }
        if w.len() < s.len() {
            assert(r[within(r, left).len() as int] == s[w.len() as int]);
        }
        if bytes_of(s) <= bytes {
            assert(w =~= s);
        }
    }
}

/// An ordinary letter takes one byte, and none takes more than four.
pub proof fn law_a_character_takes_one_to_four_bytes(c: char)
    ensures
        1 <= utf8_len(c) <= 4,
        (c as int) < 128 <==> utf8_len(c) == 1,
        128 <= c as int && (c as int) < 2048 <==> utf8_len(c) == 2,
        c as int >= 65536 <==> utf8_len(c) == 4,
{
}

/// A number of a fixed width is the number behind zeros.
pub proof fn law_a_wide_number_is_the_number(n: nat, wide: nat)
    ensures
        dec_wide(n, wide).len() >= wide,
        dec(n).len() <= wide ==> dec_wide(n, wide).len() == wide,
        dec(n).len() >= wide ==> dec_wide(n, wide) == dec(n),
        dec(n).is_suffix_of(dec_wide(n, wide)),
        forall|i: int| 0 <= i < dec_wide(n, wide).len() - dec(n).len() ==> dec_wide(n, wide)[i] == '0',
{
    let d = dec(n);
    let w = dec_wide(n, wide);
    assert(w.subrange(w.len() - d.len(), w.len() as int) =~= d);
    if d.len() >= wide {
        assert(w =~= d);
    }
}

/// A hash in front is not part of a name, however many there are.
pub proof fn law_a_hash_in_front_is_dropped(s: Seq<char>)
    ensures
        without_hash(seq!['#'] + s) == without_hash(s),
        s.len() > 0 && s[0] != '#' ==> without_hash(s) == s,
        without_hash(s).len() > 0 ==> without_hash(s)[0] != '#',
    decreases s.len(),
{
    assert((seq!['#'] + s).drop_first() =~= s);
    if s.len() > 0 && s[0] == '#' {
        let r = s.drop_first();
        law_a_hash_in_front_is_dropped(r);
    }
}

/// A text of lines, each ended, is those lines again.
pub proof fn law_ended_lines_are_read_back(first: Seq<char>, rest: Seq<char>)
    requires
        !first.contains('\n'),
    ensures
        lines(first.push('\n') + rest) == seq![
            if first.len() > 0 && first.last() == '\r' {
                first.drop_last()
            } else {
                first
            },
        ] + lines(rest),
        lines(Seq::empty()).len() == 0,
        first.len() > 0 ==> lines(first) == seq![first],
{
    crate::strings::lemma_lines_after(first, rest);
    crate::shadow::read::lemma_whole(first, '\n');
    let head = split(first, '\n').map_values(|l: Seq<char>| crate::strings::chop_cr(l));
    assert(head =~= seq![crate::strings::chop_cr(first)]);
    let none = Seq::<char>::empty();
    assert(split(none, '\n') == seq![none]);
}

/// Bytes in hexadecimal are two digits each, the high half first, and are those
/// bytes again when they are read.
pub proof fn law_hexadecimal_is_two_digits_a_byte(bytes: Seq<u8>, i: int)
    ensures
        hex(bytes).len() == 2 * bytes.len(),
        0 <= i < bytes.len() ==> hex(bytes)[2 * i] == "0123456789abcdef"@[bytes[i] as int / 16]
            && hex(bytes)[2 * i + 1] == "0123456789abcdef"@[bytes[i] as int % 16],
    decreases bytes.len(),
{
    if bytes.len() > 0 {
        let rest = bytes.drop_last();
        law_hexadecimal_is_two_digits_a_byte(rest, i);
        if 0 <= i < rest.len() {
            assert(rest[i] == bytes[i]);
        }
    }
}

/// Inside a string value no quote, no backslash and no control character stands
/// by itself, and what is harmless stands as it is.
pub proof fn law_a_string_value_is_escaped(c: char)
    ensures
        c == '"' ==> json_escape(c) == seq!['\\', '"'],
        c == '\\' ==> json_escape(c) == seq!['\\', '\\'],
        c == '\n' ==> json_escape(c) == seq!['\\', 'n'],
        c == '\t' ==> json_escape(c) == seq!['\\', 't'],
        c == '\r' ==> json_escape(c) == seq!['\\', 'r'],
        (c as int) < 32 ==> json_escape(c).len() > 1 && json_escape(c)[0] == '\\',
        c as int >= 32 && c != '"' && c != '\\' ==> json_escape(c) == seq![c],
{
}

/// A string value stands between quotes.
pub proof fn law_a_string_value_is_quoted(text: Seq<char>)
    ensures
        json_quoted(text).len() >= 2,
        json_quoted(text)[0] == '"',
        json_quoted(text).last() == '"',
{
}

} // verus!
