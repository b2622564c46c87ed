//! Paths, as strings with `/` between their components.
use crate::strings::{chars_of, owned, split, split_on, texts, lemma_texts_push, lemma_texts_empty};
use vstd::prelude::*;
use vstd::string::*;

verus! {

/// `rel` below `base`; an absolute `rel` stands for itself.
pub open spec fn joined(base: Seq<char>, rel: Seq<char>) -> Seq<char> {
    if rel.len() > 0 && rel[0] == '/' {
        rel
    } else if base.len() == 0 || base.last() == '/' {
        base + rel
    } else {
        base + "/"@ + rel
    }
}

/// `rel` below `base`; an absolute `rel` stands for itself.
pub fn join(base: &str, rel: &str) -> (r: String)
    ensures
        r@ == joined(base@, rel@),
{
    let b: Vec<char> = chars_of(base);
    let c: Vec<char> = chars_of(rel);
    if c.len() > 0 && c[0] == '/' {
        return owned(rel);
    }
    let mut out: String = owned(base);
    if b.len() > 0 && b[b.len() - 1] != '/' {
        out.append("/");
    }
    out.append(rel);
    out
}

/// A component that names something: not empty, and not `.`.
pub open spec fn names_something(part: Seq<char>) -> bool {
    part.len() > 0 && !(part.len() == 1 && part[0] == '.')
}

/// The components of a path that name something, in order.
pub open spec fn components(path: Seq<char>) -> Seq<Seq<char>> {
    split(path, '/').filter(|part: Seq<char>| names_something(part))
}

/// The last component of a path, unless it is `..` or there is none.
pub open spec fn file_name(path: Seq<char>) -> Option<Seq<char>> {
    let parts = components(path);
    if parts.len() == 0 || (parts.last().len() == 2 && parts.last()[0] == '.' && parts.last()[1]
        == '.') {
        None
    } else {
        Some(parts.last())
    }
}

fn named(part: &str) -> (r: bool)
    ensures
        r == names_something(part@),
{
    let cs: Vec<char> = chars_of(part);
    cs.len() > 0 && !(cs.len() == 1 && cs[0] == '.')
}

/// The components of a path that name something, in order.
pub fn components_of(path: &str) -> (r: Vec<String>)
    ensures
        texts(r@) == components(path@),
{
    broadcast use lemma_texts_push;

    let parts: Vec<String> = split_on(path, '/');
    let mut out: Vec<String> = Vec::new();
    let mut i: usize = 0;
    let ghost keep = |part: Seq<char>| names_something(part);
    proof {
        lemma_texts_empty(out@);
        reveal(Seq::filter);
        assert(texts(parts@).take(0) =~= Seq::<Seq<char>>::empty());
        assert(texts(out@) =~= texts(parts@).take(0).filter(keep));
    }
    while i < parts.len()
        invariant
            i <= parts@.len(),
            keep == (|part: Seq<char>| names_something(part)),
            texts(out@) == texts(parts@).take(i as int).filter(keep),
        decreases parts@.len() - i,
    {
        broadcast use lemma_texts_push;

        proof {
            reveal(Seq::filter);
            let now = texts(parts@).take(i + 1);
            assert(now.drop_last() =~= texts(parts@).take(i as int));
            assert(now.last() == parts@[i as int]@);
        }
        if named(parts[i].as_str()) {
            out.push(parts[i].clone());
        }
        i += 1;
    }
    proof {
        assert(texts(parts@).take(parts@.len() as int) =~= texts(parts@));
    }
    out
}

/// The last component of a path, unless it is `..` or there is none.
pub fn file_name_of(path: &str) -> (r: Option<String>)
    ensures
        crate::strings::opt_text(r) == file_name(path@),
{
    let mut parts: Vec<String> = components_of(path);
    proof {
        assert(texts(parts@).len() == parts@.len());
        if parts@.len() > 0 {
            assert(texts(parts@).last() == parts@[parts@.len() - 1]@);
        }
    }
    match parts.pop() {
        None => None,
        Some(last) => {
            let cs: Vec<char> = chars_of(last.as_str());
            if cs.len() == 2 && cs[0] == '.' && cs[1] == '.' {
                None
            } else {
                Some(last)
            }
        },
    }
}

} // verus!
