//! Carrying out a plan: what is refused, and what is done in which order.
use crate::calls::Call;
use crate::git::Output;
use crate::order::{lemma_text_total, sort_unique, strictly_sorted, text_lt};
use crate::paths::{components, components_of, join, joined, names_something};
use crate::repo::holds;
use crate::strings::{
    chars_of, dec, join as glue, join_with, lemma_texts_empty, lemma_texts_push, owned, push_dec,
    lemma_split_nonempty, same, split, starts_with, texts, trim, trim_str,
};
use super::plan::{RestoreModel, RestorePlan};
use super::read::{nul_ended, nul_ended_list};
use super::Shadow;
use vstd::prelude::*;
use vstd::string::*;

verus! {

/// What is known just before a plan is carried out.
#[derive(Debug)]
pub struct Facts {
    /// The objects of the plan that cannot be read.
    pub missing: Vec<String>,
    /// The paths that the tree the plan was made against holds as files.
    pub held: Vec<String>,
    /// What is on disk at the paths to be written: the file there, every file
    /// below it where there is a directory, or the file that stands where a
    /// directory above it has to be.
    pub occupied: Vec<String>,
    /// The paths on disk that are directories.
    pub directories: Vec<String>,
}

/// One thing done to the working tree.
#[derive(Debug)]
pub enum Deed {
    /// Remove a file. One that is gone already is no failure.
    Remove(String),
    /// Remove a directory if it is empty. One that is not stays.
    Prune(String),
    /// Read a tree into a throwaway index, and write the listed paths out of
    /// it.
    Write { read: Call, write: Call, input: String },
}

pub enum DeedModel {
    Remove(Seq<char>),
    Prune(Seq<char>),
    Write { tree: Seq<char>, input: Seq<char> },
    Other,
}

impl View for Deed {
    type V = DeedModel;

    open spec fn view(&self) -> DeedModel {
        match *self {
            Deed::Remove(p) => DeedModel::Remove(p@),
            Deed::Prune(p) => DeedModel::Prune(p@),
            Deed::Write { read, write, input } => match (read, write) {
                (Call::ReadTree { tree }, Call::CheckoutListed) => DeedModel::Write {
                    tree: tree@,
                    input: input@,
                },
                _ => DeedModel::Other,
            },
        }
    }
}

pub open spec fn deeds(v: Seq<Deed>) -> Seq<DeedModel> {
    v.map_values(|d: Deed| d@)
}

// ----------------------------------------------------------------- refusals

/// The first path a predicate holds of, and how many more there are.
pub open spec fn found(paths: Seq<Seq<char>>, bad: spec_fn(Seq<char>) -> bool) -> Option<
    (Seq<char>, nat),
> {
    let all = paths.filter(bad);
    if all.len() == 0 {
        None
    } else {
        Some((all[0], (all.len() - 1) as nat))
    }
}

/// How a message says that there is more than one.
pub open spec fn and_more(count: nat) -> Seq<char> {
    if count > 0 {
        " (and "@ + dec(count) + " more)"@
    } else {
        Seq::empty()
    }
}

/// A path whose name was no text, and so is not the name of the file it stands
/// for.
pub open spec fn unnameable(path: Seq<char>) -> bool {
    path.contains('\u{FFFD}')
}

/// Whether what is on disk at `q` is in the way of a write to `p`: it is at the
/// path itself, or below it, or where a directory above it has to be.
pub open spec fn in_the_way(p: Seq<char>, q: Seq<char>) -> bool {
    q == p || (p + "/"@).is_prefix_of(q) || (q + "/"@).is_prefix_of(p)
}

/// Whether a write to `p` would replace anything that is not held.
pub open spec fn replaces(p: Seq<char>, occupied: Seq<Seq<char>>, held: Seq<Seq<char>>) -> bool {
    exists|i: int|
        0 <= i < occupied.len() && in_the_way(p, #[trigger] occupied[i]) && !held.contains(
            occupied[i],
        )
}

/// Why a plan is not carried out: an object that cannot be read, bytes on disk
/// that no snapshot holds, a path that cannot be named, or a removal that is a
/// directory, in this order.
pub open spec fn refusal(
    plan: RestoreModel,
    missing: Seq<Seq<char>>,
    held: Seq<Seq<char>>,
    occupied: Seq<Seq<char>>,
    directories: Seq<Seq<char>>,
) -> Option<Seq<char>> {
    let over = found(plan.write, |p: Seq<char>| replaces(p, occupied, held));
    let odd = found(plan.write + plan.remove, |p: Seq<char>| unnameable(p));
    let dirs = found(plan.remove, |p: Seq<char>| directories.contains(p));
    if missing.len() > 0 {
        Some(
            "snapshot is incomplete: object "@ + missing[0]
                + " is unreachable.\nThis happens if the repository was garbage-collected with --prune. Sheep will not restore a partial tree."@,
        )
    } else if over is Some {
        Some(
            "refusing to restore: what is at `"@ + (over->0).0 + "` is in no snapshot"@ + and_more(
                (over->0).1,
            )
                + ".\nWriting there would replace bytes Sheep never captured: a repository inside your worktree, a directory, or a file an ignore rule hides. Move or delete it yourself if that is what you want."@,
        )
    } else if odd is Some {
        Some(
            "refusing to restore: the name of `"@ + (odd->0).0
                + "` is not valid UTF-8, so Sheep cannot address the file."@,
        )
    } else if dirs is Some {
        Some(
            "refusing to restore: `"@ + (dirs->0).0 + "` is a directory whose contents Sheep never captured"@
                + and_more((dirs->0).1)
                + ".\nA git repository inside your worktree is recorded only as a pointer, so removing it here would delete files no snapshot holds — including anything ignored inside it. Move or delete it yourself if that is what you want."@,
        )
    } else {
        None
    }
}

fn push_more(s: &mut String, count: usize)
    ensures
        final(s)@ == old(s)@ + and_more(count as nat),
{
    if count > 0 {
        let ghost was = s@;
        s.append(" (and ");
        push_dec(s, count as u64);
        s.append(" more)");
        proof {
            assert(s@ =~= was + and_more(count as nat));
        }
    } else {
        proof {
            assert(s@ + and_more(0) =~= s@);
        }
    }
}

/// The paths of a list that are in `on`.
fn among(paths: &Vec<String>, on: &Vec<String>) -> (r: Vec<String>)
    ensures
        texts(r@) == texts(paths@).filter(|p: Seq<char>| texts(on@).contains(p)),
{
    broadcast use lemma_texts_push;

    let ghost keep = |p: Seq<char>| texts(on@).contains(p);
    let mut out: Vec<String> = Vec::new();
    let mut i: usize = 0;
    proof {
        reveal(Seq::filter);
        lemma_texts_empty(out@);
        assert(texts(paths@).take(0) =~= Seq::<Seq<char>>::empty());
    }
    while i < paths.len()
        invariant
            i <= paths@.len(),
            keep == (|p: Seq<char>| texts(on@).contains(p)),
            texts(out@) == texts(paths@).take(i as int).filter(keep),
        decreases paths@.len() - i,
    {
        broadcast use lemma_texts_push;

        proof {
            reveal(Seq::filter);
            let now = texts(paths@).take(i + 1);
            assert(now.drop_last() =~= texts(paths@).take(i as int));
            assert(now.last() == paths@[i as int]@);
        }
        if holds(on, paths[i].as_str()) {
            out.push(paths[i].clone());
        }
        i += 1;
    }
    proof {
        assert(texts(paths@).take(paths@.len() as int) =~= texts(paths@));
    }
    out
}

/// Whether a write to a path would replace anything that is not held.
fn would_replace(path: &str, occupied: &Vec<String>, held: &Vec<String>) -> (r: bool)
    ensures
        r == replaces(path@, texts(occupied@), texts(held@)),
{
    let mut below: String = owned(path);
    below.append("/");
    let mut i: usize = 0;
    while i < occupied.len()
        invariant
            i <= occupied@.len(),
            below@ == path@ + "/"@,
            forall|k: int|
                0 <= k < i ==> !(in_the_way(path@, #[trigger] texts(occupied@)[k]) && !texts(
                    held@,
                ).contains(texts(occupied@)[k])),
        decreases occupied@.len() - i,
    {
        let there: &str = occupied[i].as_str();
        proof {
            assert(texts(occupied@)[i as int] == there@);
        }
        let mut beyond: String = owned(there);
        beyond.append("/");
        if (same(there, path) || starts_with(there, below.as_str()) || starts_with(
            path,
            beyond.as_str(),
        )) && !holds(held, there) {
            proof {
                assert(in_the_way(path@, texts(occupied@)[i as int]));
            }
            return true;
        }
        i += 1;
    }
    false
}

/// The paths of a list at which a write would replace anything that is not
/// held.
fn overwritten(paths: &Vec<String>, occupied: &Vec<String>, held: &Vec<String>) -> (r: Vec<String>)
    ensures
        texts(r@) == texts(paths@).filter(
            |p: Seq<char>| replaces(p, texts(occupied@), texts(held@)),
        ),
{
    broadcast use lemma_texts_push;

    let ghost keep = |p: Seq<char>| replaces(p, texts(occupied@), texts(held@));
    let mut out: Vec<String> = Vec::new();
    let mut i: usize = 0;
    proof {
        reveal(Seq::filter);
        lemma_texts_empty(out@);
        assert(texts(paths@).take(0) =~= Seq::<Seq<char>>::empty());
    }
    while i < paths.len()
        invariant
            i <= paths@.len(),
            keep == (|p: Seq<char>| replaces(p, texts(occupied@), texts(held@))),
            texts(out@) == texts(paths@).take(i as int).filter(keep),
        decreases paths@.len() - i,
    {
        broadcast use lemma_texts_push;

        proof {
            reveal(Seq::filter);
            let now = texts(paths@).take(i + 1);
            assert(now.drop_last() =~= texts(paths@).take(i as int));
            assert(now.last() == paths@[i as int]@);
        }
        if would_replace(paths[i].as_str(), occupied, held) {
            out.push(paths[i].clone());
        }
        i += 1;
    }
    proof {
        assert(texts(paths@).take(paths@.len() as int) =~= texts(paths@));
    }
    out
}

fn is_unnameable(path: &str) -> (r: bool)
    ensures
        r == unnameable(path@),
{
    let cs: Vec<char> = chars_of(path);
    let mut i: usize = 0;
    while i < cs.len()
        invariant
            i <= cs@.len(),
            cs@ == path@,
            forall|k: int| 0 <= k < i ==> #[trigger] cs@[k] != '\u{FFFD}',
        decreases cs@.len() - i,
    {
        if cs[i] == '\u{FFFD}' {
            proof {
                assert(path@[i as int] == '\u{FFFD}');
            }
            return true;
        }
        i += 1;
    }
    false
}

/// The first path that cannot be named.
fn first_unnameable(paths: &Vec<String>) -> (r: Option<String>)
    ensures
        match r {
            Some(p) => texts(paths@).filter(|p: Seq<char>| unnameable(p)).len() > 0 && texts(
                paths@,
            ).filter(|p: Seq<char>| unnameable(p))[0] == p@,
            None => texts(paths@).filter(|p: Seq<char>| unnameable(p)).len() == 0,
        },
{
    let ghost bad = |p: Seq<char>| unnameable(p);
    let mut i: usize = 0;
    proof {
        reveal(Seq::filter);
        assert(texts(paths@).take(0) =~= Seq::<Seq<char>>::empty());
    }
    while i < paths.len()
        invariant
            i <= paths@.len(),
            bad == (|p: Seq<char>| unnameable(p)),
            texts(paths@).take(i as int).filter(bad) == Seq::<Seq<char>>::empty(),
        decreases paths@.len() - i,
    {
        proof {
            reveal(Seq::filter);
            let now = texts(paths@).take(i + 1);
            assert(now.drop_last() =~= texts(paths@).take(i as int));
            assert(now.last() == paths@[i as int]@);
        }
        if is_unnameable(paths[i].as_str()) {
            proof {
                let now = texts(paths@).take(i + 1);
                let rest = texts(paths@).skip(i + 1);
                assert(now.filter(bad) =~= seq![paths@[i as int]@]);
                assert(now + rest =~= texts(paths@));
                Seq::filter_distributes_over_add(now, rest, bad);
            }
            return Some(paths[i].clone());
        }
        i += 1;
    }
    proof {
        assert(texts(paths@).take(paths@.len() as int) =~= texts(paths@));
    }
    None
}

/// Why a plan may not be carried out.
fn refused(plan: &RestorePlan, facts: &Facts) -> (r: Option<String>)
    ensures
        crate::strings::opt_text(r) == refusal(
            plan@,
            texts(facts.missing@),
            texts(facts.held@),
            texts(facts.occupied@),
            texts(facts.directories@),
        ),
{
    proof {
        assert(texts(facts.missing@).len() == facts.missing@.len());
    }
    if facts.missing.len() > 0 {
        let mut e: String = owned("snapshot is incomplete: object ");
        e.append(facts.missing[0].as_str());
        e.append(
            " is unreachable.\nThis happens if the repository was garbage-collected with --prune. Sheep will not restore a partial tree.",
        );
        return Some(e);
    }
    let over: Vec<String> = overwritten(&plan.write, &facts.occupied, &facts.held);
    proof {
        assert(texts(over@).len() == over@.len());
    }
    if over.len() > 0 {
        let mut e: String = owned("refusing to restore: what is at `");
        e.append(over[0].as_str());
        e.append("` is in no snapshot");
        push_more(&mut e, over.len() - 1);
        e.append(
            ".\nWriting there would replace bytes Sheep never captured: a repository inside your worktree, a directory, or a file an ignore rule hides. Move or delete it yourself if that is what you want.",
        );
        return Some(e);
    }
    let ghost bad = |p: Seq<char>| unnameable(p);
    let in_write: Option<String> = first_unnameable(&plan.write);
    let in_remove: Option<String> = first_unnameable(&plan.remove);
    proof {
        Seq::filter_distributes_over_add(plan@.write, plan@.remove, bad);
    }
    let odd: Option<String> = match in_write {
        Some(p) => Some(p),
        None => in_remove,
    };
    if let Some(path) = odd {
        let mut e: String = owned("refusing to restore: the name of `");
        e.append(path.as_str());
        e.append("` is not valid UTF-8, so Sheep cannot address the file.");
        return Some(e);
    }
    let dirs: Vec<String> = among(&plan.remove, &facts.directories);
    proof {
        assert(texts(dirs@).len() == dirs@.len());
    }
    if dirs.len() > 0 {
        let mut e: String = owned("refusing to restore: `");
        e.append(dirs[0].as_str());
        e.append("` is a directory whose contents Sheep never captured");
        push_more(&mut e, dirs.len() - 1);
        e.append(
            ".\nA git repository inside your worktree is recorded only as a pointer, so removing it here would delete files no snapshot holds — including anything ignored inside it. Move or delete it yourself if that is what you want.",
        );
        return Some(e);
    }
    None
}

// -------------------------------------------------------------------- deeds

/// Whether `dir` is a directory above one of the paths, below the root.
pub open spec fn above(paths: Seq<Seq<char>>, dir: Seq<char>) -> bool {
    exists|i: int, k: int|
        0 <= i < paths.len() && #[trigger] is_ancestor(paths[i], k, dir)
}

/// Whether `dir` is the first `k` components of a path, and not all of it.
pub open spec fn is_ancestor(path: Seq<char>, k: int, dir: Seq<char>) -> bool {
    &&& !(path.len() > 0 && path[0] == '/')
    &&& 0 < k < components(path).len()
    &&& dir == glue(components(path).take(k), "/"@)
}

/// What carrying out a plan does, in order: every removal, then the
/// directories that may be empty now, `dirs` from its end to its beginning,
/// then one write of exactly the planned paths.
pub open spec fn deeds_for(root: Seq<char>, plan: RestoreModel, dirs: Seq<Seq<char>>) -> Seq<
    DeedModel,
> {
    plan.remove.map_values(|p: Seq<char>| DeedModel::Remove(joined(root, p))) + Seq::new(
        dirs.len(),
        |i: int| DeedModel::Prune(joined(root, dirs[dirs.len() - 1 - i])),
    ) + (if plan.write.len() == 0 {
        Seq::empty()
    } else {
        seq![DeedModel::Write { tree: plan.target_tree, input: nul_ended(plan.write) }]
    })
}

/// The directories above a path, below the root.
fn ancestors(path: &str, out: &mut Vec<String>)
    ensures
        forall|d: Seq<char>| #[trigger]
            texts(final(out)@).contains(d) <==> texts(old(out)@).contains(d) || exists|k: int|
                #[trigger] is_ancestor(path@, k, d),
{
    let cs: Vec<char> = chars_of(path);
    if cs.len() > 0 && cs[0] == '/' {
        return ;
    }
    let parts: Vec<String> = components_of(path);
    let ghost was = out@;
    let mut head: Vec<String> = Vec::new();
    let mut k: usize = 0;
    proof {
        lemma_texts_empty(head@);
        assert(components(path@).take(0) =~= Seq::<Seq<char>>::empty());
        assert(texts(parts@).len() == parts@.len());
    }
    let count: usize = parts.len();
    while k < count && count - k > 1
        invariant
            k <= count,
            count == parts@.len(),
            !(path@.len() > 0 && path@[0] == '/'),
            texts(parts@) == components(path@),
            parts@.len() == components(path@).len(),
            texts(head@) == components(path@).take(k as int),
            forall|d: Seq<char>| #[trigger]
                texts(out@).contains(d) <==> texts(was).contains(d) || exists|j: int|
                    j <= k && #[trigger] is_ancestor(path@, j, d),
        decreases parts@.len() - k,
    {
        broadcast use lemma_texts_push;

        let ghost before = out@;
        head.push(parts[k].clone());
        proof {
            assert(components(path@).take(k + 1) =~= components(path@).take(k as int).push(
                parts@[k as int]@,
            ));
        }
        k += 1;
        let dir: String = join_with(&head, "/");
        out.push(dir);
        proof {
            assert(is_ancestor(path@, k as int, dir@));
            lemma_push_contains(texts(before), dir@);
            assert forall|d: Seq<char>| #[trigger]
                texts(out@).contains(d) <==> texts(was).contains(d) || exists|j: int|
                    j <= k && #[trigger] is_ancestor(path@, j, d) by {
                if texts(before).contains(d) && !texts(was).contains(d) {
                    let j = choose|j: int| j <= k - 1 && #[trigger] is_ancestor(path@, j, d);
                    assert(j <= k && is_ancestor(path@, j, d));
                }
                if exists|j: int| j <= k && #[trigger] is_ancestor(path@, j, d) {
                    let j = choose|j: int| j <= k && #[trigger] is_ancestor(path@, j, d);
                    if j <= k - 1 {
                        assert(texts(before).contains(d));
                    }
                }
            }
        }
    }
}

proof fn lemma_push_contains(v: Seq<Seq<char>>, s: Seq<char>)
    ensures
        forall|d: Seq<char>| #[trigger] v.push(s).contains(d) <==> v.contains(d) || d == s,
{
    assert forall|d: Seq<char>| #[trigger] v.push(s).contains(d) <==> v.contains(d) || d == s by {
        if v.contains(d) {
            let i = choose|i: int| 0 <= i < v.len() && v[i] == d;
            assert(v.push(s)[i] == d);
        }
        if d == s {
            assert(v.push(s)[v.len() as int] == d);
        }
    }
}

/// The directories above the removed paths, each once, in order.
fn emptied(removed: &Vec<String>) -> (r: Vec<String>)
    ensures
        strictly_sorted(texts(r@)),
        forall|d: Seq<char>| #[trigger] texts(r@).contains(d) <==> above(texts(removed@), d),
{
    let mut all: Vec<String> = Vec::new();
    let mut i: usize = 0;
    proof {
        lemma_texts_empty(all@);
    }
    while i < removed.len()
        invariant
            i <= removed@.len(),
            forall|d: Seq<char>| #[trigger]
                texts(all@).contains(d) <==> above(texts(removed@).take(i as int), d),
        decreases removed@.len() - i,
    {
        let ghost before = texts(all@);
        ancestors(removed[i].as_str(), &mut all);
        proof {
            let was = texts(removed@).take(i as int);
            let now = texts(removed@).take(i + 1);
            assert forall|d: Seq<char>| #[trigger] texts(all@).contains(d) <==> above(now, d) by {
                assert(before.contains(d) <==> above(was, d));
                if above(was, d) {
                    let (j, k) = choose|j: int, k: int|
                        0 <= j < was.len() && #[trigger] is_ancestor(was[j], k, d);
                    assert(was[j] == now[j]);
                    assert(is_ancestor(now[j], k, d));
                }
                if exists|k: int| #[trigger] is_ancestor(removed@[i as int]@, k, d) {
                    let k = choose|k: int| #[trigger] is_ancestor(removed@[i as int]@, k, d);
                    assert(now[i as int] == removed@[i as int]@);
                    assert(is_ancestor(now[i as int], k, d));
                }
                if above(now, d) {
                    let (j, k) = choose|j: int, k: int|
                        0 <= j < now.len() && #[trigger] is_ancestor(now[j], k, d);
                    if j < i {
                        assert(was[j] == now[j]);
                        assert(is_ancestor(was[j], k, d));
                    } else {
                        assert(now[j] == removed@[i as int]@);
                        assert(is_ancestor(removed@[i as int]@, k, d));
                    }
                }
            }
        }
        i += 1;
    }
    proof {
        assert(texts(removed@).take(removed@.len() as int) =~= texts(removed@));
    }
    let ghost before = texts(all@);
    let r: Vec<String> = sort_unique(all);
    proof {
        assert forall|d: Seq<char>| #[trigger] texts(r@).contains(d) <==> above(
            texts(removed@),
            d,
        ) by {
            assert(texts(r@).contains(d) <==> before.contains(d));
        }
    }
    r
}

/// Whether a list of deeds carries out a plan.
pub open spec fn carries_out(root: Seq<char>, plan: RestoreModel, done: Seq<DeedModel>) -> bool {
    exists|dirs: Seq<Seq<char>>|
        {
            &&& strictly_sorted(dirs)
            &&& forall|d: Seq<char>| #[trigger] dirs.contains(d) <==> above(plan.remove, d)
            &&& done == #[trigger] deeds_for(root, plan, dirs)
        }
}

impl Shadow {
    /// What is done to the working tree to carry out a plan, or why nothing is.
    ///
    /// Removals come first, so that a path that changes between a file and a
    /// directory can be written. Nothing outside the plan is touched.
    pub fn apply(&self, plan: &RestorePlan, facts: &Facts) -> (r: Result<Vec<Deed>, String>)
        ensures
            match r {
                Err(why) => refusal(
                    plan@,
                    texts(facts.missing@),
                    texts(facts.held@),
                    texts(facts.occupied@),
                    texts(facts.directories@),
                ) == Some(why@),
                Ok(done) => refusal(
                    plan@,
                    texts(facts.missing@),
                    texts(facts.held@),
                    texts(facts.occupied@),
                    texts(facts.directories@),
                ) is None && carries_out(self@.worktree.root, plan@, deeds(done@)),
            },
    {
        if let Some(why) = refused(plan, facts) {
            return Err(why);
        }
        let root: &str = self.worktree.root.as_str();
        let ghost removals = plan@.remove.map_values(
            |p: Seq<char>| DeedModel::Remove(joined(root@, p)),
        );
        let mut out: Vec<Deed> = Vec::new();
        let mut i: usize = 0;
        proof {
            assert(deeds(out@) =~= removals.take(0));
        }
        while i < plan.remove.len()
            invariant
                i <= plan.remove@.len(),
                plan.remove@.len() == removals.len(),
                removals == plan@.remove.map_values(
                    |p: Seq<char>| DeedModel::Remove(joined(root@, p)),
                ),
                deeds(out@) == removals.take(i as int),
            decreases plan.remove@.len() - i,
        {
            let ghost was = out@;
            let path: String = join(root, plan.remove[i].as_str());
            out.push(Deed::Remove(path));
            proof {
                assert(deeds(out@) =~= deeds(was).push(DeedModel::Remove(path@)));
                assert(removals.take(i + 1) =~= removals.take(i as int).push(removals[i as int]));
            }
            i += 1;
        }
        let dirs: Vec<String> = emptied(&plan.remove);
        let ghost pruned = Seq::new(
            dirs@.len(),
            |k: int| DeedModel::Prune(joined(root@, texts(dirs@)[dirs@.len() - 1 - k])),
        );
        let mut k: usize = dirs.len();
        proof {
            assert(removals.take(i as int) =~= removals);
            assert(deeds(out@) =~= removals + pruned.take(0));
        }
        while k > 0
            invariant
                k <= dirs@.len(),
                pruned == Seq::new(
                    dirs@.len(),
                    |k: int| DeedModel::Prune(joined(root@, texts(dirs@)[dirs@.len() - 1 - k])),
                ),
                deeds(out@) == removals + pruned.take(dirs@.len() - k),
            decreases k,
        {
            let ghost was = out@;
            k -= 1;
            let path: String = join(root, dirs[k].as_str());
            out.push(Deed::Prune(path));
            proof {
                let n = dirs@.len() - k;
                assert(deeds(out@) =~= deeds(was).push(DeedModel::Prune(path@)));
                assert(pruned.take(n) =~= pruned.take(n - 1).push(pruned[n - 1]));
                assert(pruned[n - 1] == DeedModel::Prune(path@));
                assert(deeds(out@) =~= removals + pruned.take(n));
            }
        }
        proof {
            assert(pruned.take(dirs@.len() as int) =~= pruned);
            assert(texts(plan.write@).len() == plan.write@.len());
        }
        if !plan.write.is_empty() {
            let ghost was = out@;
            let input: String = nul_ended_list(&plan.write);
            let deed = Deed::Write {
                read: Call::ReadTree { tree: plan.target_tree.clone() },
                write: Call::CheckoutListed,
                input,
            };
            out.push(deed);
            proof {
                assert(deeds(out@) =~= deeds(was).push(deed@));
            }
        }
        proof {
            assert(deeds(out@) =~= deeds_for(root@, plan@, texts(dirs@)));
        }
        Ok(out)
    }

    /// Whether the files were written, from what the write left behind.
    pub fn written(out: &Output) -> (r: Result<(), String>)
        ensures
            match r {
                Ok(_) => out.success,
                Err(e) => !out.success && e@ == "restore failed while writing files: "@ + trim(
                    out.stderr@,
                ),
            },
    {
        if out.success {
            Ok(())
        } else {
            let mut e: String = owned("restore failed while writing files: ");
            e.append(trim_str(out.stderr.as_str()).as_str());
            Err(e)
        }
    }
}

// --------------------------------------------------------------------- laws

/// A path that comes before everything it is the beginning of.
proof fn lemma_beginning_comes_first(a: Seq<char>, b: Seq<char>)
    requires
        a.len() < b.len(),
        b.take(a.len() as int) == a,
    ensures
        text_lt(a, b),
    decreases a.len(),
{
    if a.len() > 0 {
        assert(b[0] == a[0]) by {
            assert(b.take(a.len() as int)[0] == b[0]);
        }
        assert(b.drop_first().take(a.len() - 1) =~= a.drop_first());
        lemma_beginning_comes_first(a.drop_first(), b.drop_first());
    }
}

/// Directories are pruned deepest first: of two that are pruned, the one inside
/// the other goes before it.
pub proof fn law_the_deeper_directory_is_pruned_first(dirs: Seq<Seq<char>>, outer: int, inner: int)
    requires
        strictly_sorted(dirs),
        0 <= outer < dirs.len(),
        0 <= inner < dirs.len(),
        dirs[outer].len() < dirs[inner].len(),
        dirs[inner].take(dirs[outer].len() as int) == dirs[outer],
    ensures
        dirs.len() - 1 - inner < dirs.len() - 1 - outer,
{
    lemma_beginning_comes_first(dirs[outer], dirs[inner]);
    if inner <= outer {
        if inner < outer {
            assert(text_lt(dirs[inner], dirs[outer]));
            crate::order::lemma_text_total(dirs[inner], dirs[outer]);
        }
    }
}

proof fn lemma_pieces_lack(s: Seq<char>, at: char, i: int)
    requires
        0 <= i < split(s, at).len(),
    ensures
        !split(s, at)[i].contains(at),
    decreases s.len(),
{
    if s.len() > 0 {
        let rest = split(s.drop_first(), at);
        lemma_split_nonempty(s.drop_first(), at);
        if s[0] == at {
            if i > 0 {
                lemma_pieces_lack(s.drop_first(), at, i - 1);
                assert(split(s, at)[i] == rest[i - 1]);
            }
        } else if i > 0 {
            lemma_pieces_lack(s.drop_first(), at, i);
        } else {
            lemma_pieces_lack(s.drop_first(), at, 0);
            let piece = split(s, at)[0];
            assert(piece == seq![s[0]] + rest[0]);
            if piece.contains(at) {
                let k = choose|k: int| 0 <= k < piece.len() && piece[k] == at;
                assert(k > 0 && rest[0][k - 1] == at);
            }
        }
    }
}

proof fn lemma_join_begins(parts: Seq<Seq<char>>, sep: Seq<char>)
    requires
        parts.len() > 0,
        parts[0].len() > 0,
    ensures
        glue(parts, sep).len() > 0,
        glue(parts, sep)[0] == parts[0][0],
    decreases parts.len(),
{
    if parts.len() > 1 {
        lemma_join_begins(parts.drop_last(), sep);
    }
}

proof fn lemma_ancestor_is_relative(path: Seq<char>, k: int, dir: Seq<char>)
    requires
        is_ancestor(path, k, dir),
    ensures
        dir.len() > 0,
        dir[0] != '/',
{
    let named = |part: Seq<char>| names_something(part);
    let first = components(path)[0];
    assert(components(path).contains(first));
    split(path, '/').lemma_filter_contains_rev(named, first);
    split(path, '/').lemma_filter_pred(named, 0);
    assert(split(path, '/').contains(first));
    let i = choose|i: int| 0 <= i < split(path, '/').len() && split(path, '/')[i] == first;
    lemma_pieces_lack(path, '/', i);
    assert(first[0] != '/') by {
        if first[0] == '/' {
            assert(first.contains('/'));
        }
    }
    lemma_join_begins(components(path).take(k), "/"@);
}

/// The root of the worktree is never pruned, and nothing above it.
pub proof fn law_the_root_is_never_pruned(root: Seq<char>, paths: Seq<Seq<char>>, dir: Seq<char>)
    requires
        above(paths, dir),
    ensures
        joined(root, dir).len() > root.len(),
        joined(root, dir).take(root.len() as int) == root,
{
    reveal_strlit("/");
    let (i, k) = choose|i: int, k: int|
        0 <= i < paths.len() && #[trigger] is_ancestor(paths[i], k, dir);
    lemma_ancestor_is_relative(paths[i], k, dir);
    assert(joined(root, dir).take(root.len() as int) =~= root);
}

/// A plan that is carried out writes and removes only paths that are in it,
/// and leaves no removal out.
pub proof fn law_only_planned_paths_are_touched(
    root: Seq<char>,
    plan: RestoreModel,
    done: Seq<DeedModel>,
    i: int,
)
    requires
        carries_out(root, plan, done),
        0 <= i < done.len(),
    ensures
        match done[i] {
            DeedModel::Remove(path) => 0 <= i < plan.remove.len() && path == joined(
                root,
                plan.remove[i],
            ),
            DeedModel::Prune(path) => exists|dir: Seq<char>| #[trigger]
                above(plan.remove, dir) && path == joined(root, dir),
            DeedModel::Write { tree, input } => i == done.len() - 1 && tree == plan.target_tree
                && input == nul_ended(plan.write),
            DeedModel::Other => false,
        },
        plan.remove.len() <= done.len(),
{
    let dirs = choose|dirs: Seq<Seq<char>>|
        {
            &&& strictly_sorted(dirs)
            &&& forall|d: Seq<char>| #[trigger] dirs.contains(d) <==> above(plan.remove, d)
            &&& done == #[trigger] deeds_for(root, plan, dirs)
        };
    let n = plan.remove.len() as int;
    let m = dirs.len() as int;
    if n <= i < n + m {
        let dir = dirs[m - 1 - (i - n)];
        assert(dirs.contains(dir));
        assert(done[i] == DeedModel::Prune(joined(root, dir)));
    }
}

/// Nothing is written before everything that is removed is removed.
pub proof fn law_removals_come_before_writes(
    root: Seq<char>,
    plan: RestoreModel,
    done: Seq<DeedModel>,
    i: int,
    j: int,
)
    requires
        carries_out(root, plan, done),
        0 <= i < done.len(),
        0 <= j < done.len(),
        done[i] is Remove || done[i] is Prune,
        done[j] is Write,
    ensures
        i < j,
{
    law_only_planned_paths_are_touched(root, plan, done, j);
    assert(j == done.len() - 1);
}

/// Whatever is on disk where the plan writes, or below it, or in the place of a
/// directory above it, is held by the tree the plan was made against, or the plan is refused; and so is a plan that
/// would remove a directory, or that needs an object that cannot be read.
pub proof fn law_nothing_uncaptured_is_overwritten(
    plan: RestoreModel,
    missing: Seq<Seq<char>>,
    held: Seq<Seq<char>>,
    occupied: Seq<Seq<char>>,
    directories: Seq<Seq<char>>,
    path: Seq<char>,
    there: Seq<char>,
)
    requires
        refusal(plan, missing, held, occupied, directories) is None,
    ensures
        plan.write.contains(path) && occupied.contains(there) && in_the_way(path, there)
            ==> held.contains(there),
        plan.remove.contains(path) ==> !directories.contains(path),
        missing.len() == 0,
        plan.write.contains(path) || plan.remove.contains(path) ==> !unnameable(path),
{
    let over = |p: Seq<char>| replaces(p, occupied, held);
    let dirs = |p: Seq<char>| directories.contains(p);
    let odd = |p: Seq<char>| unnameable(p);
    if plan.write.contains(path) && occupied.contains(there) && in_the_way(path, there)
        && !held.contains(there) {
        let i = choose|i: int| 0 <= i < occupied.len() && occupied[i] == there;
        assert(in_the_way(path, occupied[i]));
        assert(over(path));
        lemma_found(plan.write, over, path);
    }
    if plan.remove.contains(path) && dirs(path) {
        lemma_found(plan.remove, dirs, path);
    }
    if (plan.write.contains(path) || plan.remove.contains(path)) && odd(path) {
        let both = plan.write + plan.remove;
        if plan.write.contains(path) {
            let i = choose|i: int| 0 <= i < plan.write.len() && plan.write[i] == path;
            assert(both[i] == path);
        } else {
            let i = choose|i: int| 0 <= i < plan.remove.len() && plan.remove[i] == path;
            assert(both[plan.write.len() + i] == path);
        }
        lemma_found(both, odd, path);
    }
}

proof fn lemma_found(paths: Seq<Seq<char>>, bad: spec_fn(Seq<char>) -> bool, path: Seq<char>)
    requires
        paths.contains(path),
        bad(path),
    ensures
        found(paths, bad) is Some,
{
    let i = choose|i: int| 0 <= i < paths.len() && paths[i] == path;
    lemma_filter_keeps(paths, bad, i);
}

proof fn lemma_filter_keeps(paths: Seq<Seq<char>>, bad: spec_fn(Seq<char>) -> bool, i: int)
    requires
        0 <= i < paths.len(),
        bad(paths[i]),
    ensures
        paths.filter(bad).len() > 0,
    decreases paths.len(),
{
    reveal(Seq::filter);
    if i < paths.len() - 1 {
        lemma_filter_keeps(paths.drop_last(), bad, i);
    }
}

} // verus!
