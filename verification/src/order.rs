//! Ordering: strings by their characters, numbers by their size.
use crate::strings::{chars_of, lemma_texts_empty, texts};
use vstd::prelude::*;

verus! {

/// `a` comes before `b`, or is the same: by the first character that differs,
/// a string before every longer string that begins with it.
pub open spec fn text_le(a: Seq<char>, b: Seq<char>) -> bool
    decreases a.len(),
{
    if a.len() == 0 {
        true
    } else if b.len() == 0 {
        false
    } else if a[0] != b[0] {
        a[0] < b[0]
    } else {
        text_le(a.drop_first(), b.drop_first())
    }
}

pub open spec fn text_lt(a: Seq<char>, b: Seq<char>) -> bool {
    text_le(a, b) && a != b
}

/// Of two strings, one comes before the other or they are the same.
pub proof fn lemma_text_total(a: Seq<char>, b: Seq<char>)
    ensures
        text_le(a, b) || text_le(b, a),
        text_le(a, b) && text_le(b, a) ==> a == b,
    decreases a.len(),
{
    if a.len() > 0 && b.len() > 0 {
        if a[0] == b[0] {
            lemma_text_total(a.drop_first(), b.drop_first());
            if text_le(a, b) && text_le(b, a) {
                assert(a =~= seq![a[0]] + a.drop_first());
                assert(b =~= seq![b[0]] + b.drop_first());
            }
        }
    } else {
        if text_le(a, b) && text_le(b, a) {
            assert(a =~= b);
        }
    }
}

pub proof fn lemma_text_transitive(a: Seq<char>, b: Seq<char>, c: Seq<char>)
    requires
        text_le(a, b),
        text_le(b, c),
    ensures
        text_le(a, c),
    decreases a.len(),
{
    if a.len() > 0 && b.len() > 0 && c.len() > 0 {
        if a[0] == b[0] && b[0] == c[0] {
            lemma_text_transitive(a.drop_first(), b.drop_first(), c.drop_first());
        }
    }
}

/// Whether `a` comes before `b`, or is the same.
pub fn at_most(a: &str, b: &str) -> (r: bool)
    ensures
        r == text_le(a@, b@),
{
    let x: Vec<char> = chars_of(a);
    let y: Vec<char> = chars_of(b);
    let mut i: usize = 0;
    proof {
        assert(x@.skip(0) =~= x@);
        assert(y@.skip(0) =~= y@);
    }
    while i < x.len() && i < y.len() && x[i] == y[i]
        invariant
            i <= x@.len(),
            i <= y@.len(),
            text_le(x@, y@) == text_le(x@.skip(i as int), y@.skip(i as int)),
        decreases x@.len() - i,
    {
        proof {
            assert(x@.skip(i as int).drop_first() =~= x@.skip(i + 1));
            assert(y@.skip(i as int).drop_first() =~= y@.skip(i + 1));
            assert(x@.skip(i as int)[0] == x@[i as int]);
            assert(y@.skip(i as int)[0] == y@[i as int]);
        }
        i += 1;
    }
    if i == x.len() {
        true
    } else if i == y.len() {
        false
    } else {
        proof {
            assert(x@.skip(i as int)[0] == x@[i as int]);
            assert(y@.skip(i as int)[0] == y@[i as int]);
        }
        x[i] < y[i]
    }
}

/// No string comes before one that stands ahead of it.
pub open spec fn sorted(v: Seq<Seq<char>>) -> bool {
    forall|i: int, j: int| 0 <= i < j < v.len() ==> text_le(#[trigger] v[i], #[trigger] v[j])
}

/// Sorted, and no string twice.
pub open spec fn strictly_sorted(v: Seq<Seq<char>>) -> bool {
    forall|i: int, j: int| 0 <= i < j < v.len() ==> text_lt(#[trigger] v[i], #[trigger] v[j])
}

/// Where `s` belongs in a sorted list: behind every string that comes before
/// it.
fn place(v: &Vec<String>, s: &str) -> (r: usize)
    requires
        sorted(texts(v@)),
    ensures
        r <= v@.len(),
        forall|i: int| 0 <= i < r ==> !text_le(s@, #[trigger] texts(v@)[i]),
        r < v@.len() ==> text_le(s@, texts(v@)[r as int]),
{
    let mut i: usize = 0;
    while i < v.len() && !at_most(s, v[i].as_str())
        invariant
            i <= v@.len(),
            forall|k: int| 0 <= k < i ==> !text_le(s@, #[trigger] texts(v@)[k]),
        decreases v@.len() - i,
    {
        i += 1;
    }
    i
}

proof fn lemma_texts_insert(v: Seq<String>, k: int, s: String)
    requires
        0 <= k <= v.len(),
    ensures
        texts(v.insert(k, s)) == texts(v).insert(k, s@),
{
    assert(texts(v.insert(k, s)) =~= texts(v).insert(k, s@));
}

proof fn lemma_insert_sorted(v: Seq<Seq<char>>, k: int, s: Seq<char>)
    requires
        sorted(v),
        0 <= k <= v.len(),
        forall|i: int| 0 <= i < k ==> !text_le(s, #[trigger] v[i]),
        k < v.len() ==> text_le(s, v[k]),
    ensures
        sorted(v.insert(k, s)),
        strictly_sorted(v) && (k < v.len() ==> v[k] != s) ==> strictly_sorted(v.insert(k, s)),
{
    let w = v.insert(k, s);
    assert forall|i: int, j: int| 0 <= i < j < w.len() implies text_le(
        #[trigger] w[i],
        #[trigger] w[j],
    ) && (strictly_sorted(v) && (k < v.len() ==> v[k] != s) ==> w[i] != w[j]) by {
        if j == k {
            assert(w[i] == v[i]);
            lemma_text_total(s, v[i]);
        } else if i == k {
            assert(w[j] == v[j - 1]);
            if j - 1 > k {
                assert(text_le(v[k], v[j - 1]));
                lemma_text_transitive(s, v[k], v[j - 1]);
                if strictly_sorted(v) && v[k] != s {
                    assert(text_lt(v[k], v[j - 1]));
                    if s == v[j - 1] {
                        lemma_text_total(v[k], v[j - 1]);
                    }
                }
            }
        } else {
            let a = if i < k {
                i
            } else {
                i - 1
            };
            let b = if j < k {
                j
            } else {
                j - 1
            };
            assert(w[i] == v[a]);
            assert(w[j] == v[b]);
            assert(text_le(v[a], v[b]));
        }
    }
}

/// The same strings, in order.
pub fn sort_texts(v: Vec<String>) -> (r: Vec<String>)
    ensures
        sorted(texts(r@)),
        texts(r@).to_multiset() == texts(v@).to_multiset(),
{
    broadcast use vstd::seq_lib::group_to_multiset_ensures;

    let mut out: Vec<String> = Vec::new();
    let mut i: usize = 0;
    proof {
        lemma_texts_empty(out@);
        assert(texts(v@).take(0) =~= Seq::<Seq<char>>::empty());
    }
    while i < v.len()
        invariant
            i <= v@.len(),
            sorted(texts(out@)),
            texts(out@).to_multiset() == texts(v@).take(i as int).to_multiset(),
        decreases v@.len() - i,
    {
        let k: usize = place(&out, v[i].as_str());
        let ghost was = out@;
        let s: String = v[i].clone();
        out.insert(k, s);
        proof {
            lemma_texts_insert(was, k as int, s);
            lemma_insert_sorted(texts(was), k as int, s@);
            vstd::seq_lib::to_multiset_insert(texts(was), k as int, s@);
            assert(texts(v@).take(i + 1) =~= texts(v@).take(i as int).push(s@));
            vstd::seq_lib::to_multiset_build(texts(v@).take(i as int), s@);
        }
        i += 1;
    }
    proof {
        assert(texts(v@).take(v@.len() as int) =~= texts(v@));
    }
    out
}

/// The same strings, in order and each of them once.
pub fn sort_unique(v: Vec<String>) -> (r: Vec<String>)
    ensures
        strictly_sorted(texts(r@)),
        forall|s: Seq<char>| texts(r@).contains(s) <==> texts(v@).contains(s),
{
    let mut out: Vec<String> = Vec::new();
    let mut i: usize = 0;
    proof {
        lemma_texts_empty(out@);
        assert(texts(v@).take(0) =~= Seq::<Seq<char>>::empty());
    }
    while i < v.len()
        invariant
            i <= v@.len(),
            strictly_sorted(texts(out@)),
            forall|s: Seq<char>|
                texts(out@).contains(s) <==> texts(v@).take(i as int).contains(s),
        decreases v@.len() - i,
    {
        proof {
            assert(sorted(texts(out@))) by {
                assert forall|a: int, b: int| 0 <= a < b < texts(out@).len() implies text_le(
                    #[trigger] texts(out@)[a],
                    #[trigger] texts(out@)[b],
                ) by {
                    assert(text_lt(texts(out@)[a], texts(out@)[b]));
                }
            }
        }
        let k: usize = place(&out, v[i].as_str());
        let ghost was = out@;
        let ghost s = v@[i as int]@;
        let ghost done = texts(v@).take(i as int);
        proof {
            assert(texts(v@).take(i + 1) =~= done.push(s));
        }
        if k < out.len() && at_most(out[k].as_str(), v[i].as_str()) {
            proof {
                lemma_text_total(s, texts(was)[k as int]);
                assert(texts(was)[k as int] == s);
                assert(texts(was).contains(s));
                assert forall|x: Seq<char>| texts(out@).contains(x) <==> done.push(s).contains(
                    x,
                ) by {
                    if done.push(s).contains(x) && x != s {
                        let q = choose|q: int| 0 <= q < done.push(s).len() && done.push(s)[q] == x;
                        assert(done[q] == x);
                        assert(done.contains(x));
                    }
                    if done.contains(x) {
                        let q = choose|q: int| 0 <= q < done.len() && done[q] == x;
                        assert(done.push(s)[q] == x);
                    }
                    if x == s {
                        assert(done.push(s)[done.len() as int] == s);
                    }
                }
            }
        } else {
            out.insert(k, v[i].clone());
            proof {
                lemma_texts_insert(was, k as int, v@[i as int]);
                if k < was.len() {
                    lemma_text_total(texts(was)[k as int], s);
                }
                lemma_insert_sorted(texts(was), k as int, s);
                let w = texts(out@);
                assert(w == texts(was).insert(k as int, s));
                assert forall|x: Seq<char>| w.contains(x) <==> done.push(s).contains(x) by {
                    if w.contains(x) {
                        let q = choose|q: int| 0 <= q < w.len() && w[q] == x;
                        if q == k {
                            assert(done.push(s)[done.len() as int] == s);
                        } else {
                            let a = if q < k {
                                q
                            } else {
                                q - 1
                            };
                            assert(texts(was)[a] == x);
                            assert(texts(was).contains(x));
                            let b = choose|b: int| 0 <= b < done.len() && done[b] == x;
                            assert(done.push(s)[b] == x);
                        }
                    }
                    if done.push(s).contains(x) {
                        let q = choose|q: int| 0 <= q < done.push(s).len() && done.push(s)[q] == x;
                        if q == done.len() {
                            assert(w[k as int] == s);
                        } else {
                            assert(done[q] == x);
                            assert(done.contains(x));
                            assert(texts(was).contains(x));
                            let a = choose|a: int| 0 <= a < texts(was).len() && texts(was)[a] == x;
                            if a < k {
                                assert(w[a] == x);
                            } else {
                                assert(w[a + 1] == x);
                            }
                        }
                    }
                }
            }
        }
        i += 1;
    }
    proof {
        assert(texts(v@).take(v@.len() as int) =~= texts(v@));
    }
    out
}

/// No number stands behind a larger one.
pub open spec fn ascending(v: Seq<u32>) -> bool {
    forall|i: int, j: int| 0 <= i < j < v.len() ==> #[trigger] v[i] <= #[trigger] v[j]
}

/// The same numbers, smallest first.
pub fn sort_numbers(v: &Vec<u32>) -> (r: Vec<u32>)
    ensures
        ascending(r@),
        r@.to_multiset() == v@.to_multiset(),
{
    broadcast use vstd::seq_lib::group_to_multiset_ensures;

    let mut out: Vec<u32> = Vec::new();
    let mut i: usize = 0;
    proof {
        assert(v@.take(0) =~= Seq::<u32>::empty());
    }
    while i < v.len()
        invariant
            i <= v@.len(),
            ascending(out@),
            out@.to_multiset() == v@.take(i as int).to_multiset(),
        decreases v@.len() - i,
    {
        let n: u32 = v[i];
        let mut k: usize = 0;
        while k < out.len() && out[k] < n
            invariant
                k <= out@.len(),
                forall|q: int| 0 <= q < k ==> #[trigger] out@[q] < n,
            decreases out@.len() - k,
        {
            k += 1;
        }
        let ghost was = out@;
        out.insert(k, n);
        proof {
            assert(ascending(out@)) by {
                assert forall|a: int, b: int| 0 <= a < b < out@.len() implies #[trigger] out@[a]
                    <= #[trigger] out@[b] by {
                    if a == k {
                        if b - 1 > k {
                            assert(was[k as int] <= was[b - 1]);
                        }
                    } else if b != k {
                        let x = if a < k {
                            a
                        } else {
                            a - 1
                        };
                        let y = if b < k {
                            b
                        } else {
                            b - 1
                        };
                        assert(was[x] <= was[y]);
                    }
                }
            }
            vstd::seq_lib::to_multiset_insert(was, k as int, n);
            assert(v@.take(i + 1) =~= v@.take(i as int).push(n));
            vstd::seq_lib::to_multiset_build(v@.take(i as int), n);
        }
        i += 1;
    }
    proof {
        assert(v@.take(v@.len() as int) =~= v@);
    }
    out
}

} // verus!
