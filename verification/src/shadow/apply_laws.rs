//! When a plan is refused, and what is done to carry one out.
use crate::order::strictly_sorted;
use crate::paths::{components, joined, names_something};
use crate::shadow::apply::{
    above, carries_out, deeds_for, found, in_the_way, is_ancestor, refusal, replaces, unnameable,
    DeedModel,
};
use crate::shadow::plan::RestoreModel;
use crate::shadow::read::nul_ended;
use crate::strings::{join as glue, lemma_says, lemma_split_around, says, split};
use vstd::prelude::*;

verus! {

/// Whether what is on disk at `there` would be lost by a write to `path`: it is
/// that very path, it is below it, or it stands where a directory above it has to
/// be.
pub open spec fn would_be_lost(path: Seq<char>, there: Seq<char>) -> bool {
    ||| there == path
    ||| there.len() > path.len() && there.take(path.len() as int) == path && there[path.len() as int]
        == '/'
    ||| path.len() > there.len() && path.take(there.len() as int) == there && path[there.len() as int]
        == '/'
}

proof fn lemma_below(path: Seq<char>, there: Seq<char>)
    ensures
        (path + "/"@).is_prefix_of(there) <==> there.len() > path.len() && there.take(
            path.len() as int,
        ) == path && there[path.len() as int] == '/',
{
    reveal_strlit("/");
    let dir = path + "/"@;
    let n = path.len() as int;
    if dir.is_prefix_of(there) {
        assert(there.take(n) =~= path) by {
            assert forall|i: int| 0 <= i < n implies there[i] == path[i] by {
                assert(there.subrange(0, dir.len() as int)[i] == dir[i]);
            }
        }
        assert(there.subrange(0, dir.len() as int)[n] == dir[n]);
    }
    if there.len() > n && there.take(n) == path && there[n] == '/' {
        assert(there.subrange(0, dir.len() as int) =~= dir) by {
            assert forall|i: int| 0 <= i < dir.len() implies there[i] == dir[i] by {
                if i < n {
                    assert(there.take(n)[i] == path[i]);
                }
            }
        }
    }
}

proof fn lemma_in_the_way(path: Seq<char>, there: Seq<char>)
    ensures
        in_the_way(path, there) == would_be_lost(path, there),
{
    lemma_below(path, there);
    lemma_below(there, path);
}

proof fn lemma_filtered(paths: Seq<Seq<char>>, bad: spec_fn(Seq<char>) -> bool)
    ensures
        paths.filter(bad).len() > 0 <==> exists|i: int|
            0 <= i < paths.len() && bad(#[trigger] paths[i]),
        paths.filter(bad).len() > 0 ==> bad(paths.filter(bad)[0]) && paths.contains(
            paths.filter(bad)[0],
        ),
    decreases paths.len(),
{
    reveal(Seq::filter);
    if paths.len() > 0 {
        let rest = paths.drop_last();
        lemma_filtered(rest, bad);
        assert(paths.last() == paths[paths.len() - 1]);
        if exists|i: int| 0 <= i < rest.len() && bad(#[trigger] rest[i]) {
            let i = choose|i: int| 0 <= i < rest.len() && bad(#[trigger] rest[i]);
            assert(bad(paths[i]));
        }
        if exists|i: int| 0 <= i < paths.len() && bad(#[trigger] paths[i]) {
            let i = choose|i: int| 0 <= i < paths.len() && bad(#[trigger] paths[i]);
            if i < rest.len() {
                assert(bad(rest[i]));
            }
        }
        if rest.filter(bad).len() > 0 {
            assert(paths.filter(bad)[0] == rest.filter(bad)[0]);
            let x = rest.filter(bad)[0];
            let k = choose|k: int| 0 <= k < rest.len() && rest[k] == x;
            assert(paths[k] == x);
        } else if bad(paths.last()) {
            assert(paths.filter(bad) =~= rest.filter(bad).push(paths.last()));
            assert(paths.filter(bad)[0] == paths.last());
            assert(paths.contains(paths.last()));
        }
    }
}

/// A plan is refused for one of four causes and for no other: an object that it
/// needs cannot be read, something that no snapshot holds would be lost by a
/// write, a path cannot be named, or what would be removed is a directory. A plan
/// without any of these is carried out, however large it is.
pub proof fn law_a_plan_is_refused_for_cause_and_only_then(
    plan: RestoreModel,
    missing: Seq<Seq<char>>,
    held: Seq<Seq<char>>,
    occupied: Seq<Seq<char>>,
    directories: Seq<Seq<char>>,
)
    ensures
        refusal(plan, missing, held, occupied, directories) is Some <==> {
            ||| missing.len() > 0
            ||| exists|i: int, j: int|
                0 <= i < plan.write.len() && 0 <= j < occupied.len() && #[trigger] would_be_lost(
                    plan.write[i],
                    occupied[j],
                ) && !held.contains(occupied[j])
            ||| exists|i: int|
                0 <= i < plan.write.len() && (#[trigger] plan.write[i]).contains('\u{FFFD}')
            ||| exists|i: int|
                0 <= i < plan.remove.len() && (#[trigger] plan.remove[i]).contains('\u{FFFD}')
            ||| exists|i: int|
                0 <= i < plan.remove.len() && directories.contains(#[trigger] plan.remove[i])
        },
{
    let over = |p: Seq<char>| replaces(p, occupied, held);
    let odd = |p: Seq<char>| unnameable(p);
    let dirs = |p: Seq<char>| directories.contains(p);
    let both = plan.write + plan.remove;
    lemma_filtered(plan.write, over);
    lemma_filtered(both, odd);
    lemma_filtered(plan.remove, dirs);
    let lost = exists|i: int, j: int|
        0 <= i < plan.write.len() && 0 <= j < occupied.len() && #[trigger] would_be_lost(
            plan.write[i],
            occupied[j],
        ) && !held.contains(occupied[j]);
    if lost {
        let (i, j) = choose|i: int, j: int|
            0 <= i < plan.write.len() && 0 <= j < occupied.len() && #[trigger] would_be_lost(
                plan.write[i],
                occupied[j],
            ) && !held.contains(occupied[j]);
        lemma_in_the_way(plan.write[i], occupied[j]);
        assert(over(plan.write[i]));
    }
    if exists|i: int| 0 <= i < plan.write.len() && over(#[trigger] plan.write[i]) {
        let i = choose|i: int| 0 <= i < plan.write.len() && over(#[trigger] plan.write[i]);
        let p = plan.write[i];
        let j = choose|j: int|
            0 <= j < occupied.len() && in_the_way(p, #[trigger] occupied[j]) && !held.contains(
                occupied[j],
            );
        lemma_in_the_way(p, occupied[j]);
        assert(would_be_lost(plan.write[i], occupied[j]));
    }
    if exists|i: int| 0 <= i < both.len() && odd(#[trigger] both[i]) {
        let i = choose|i: int| 0 <= i < both.len() && odd(#[trigger] both[i]);
        if i < plan.write.len() {
            assert(plan.write[i].contains('\u{FFFD}'));
        } else {
            assert(plan.remove[i - plan.write.len()].contains('\u{FFFD}'));
        }
    }
    if exists|i: int| 0 <= i < plan.write.len() && (#[trigger] plan.write[i]).contains('\u{FFFD}') {
        let i = choose|i: int|
            0 <= i < plan.write.len() && (#[trigger] plan.write[i]).contains('\u{FFFD}');
        assert(odd(both[i]));
    }
    if exists|i: int|
        0 <= i < plan.remove.len() && (#[trigger] plan.remove[i]).contains('\u{FFFD}') {
        let i = choose|i: int|
            0 <= i < plan.remove.len() && (#[trigger] plan.remove[i]).contains('\u{FFFD}');
        assert(odd(both[plan.write.len() + i]));
    }
    if exists|i: int| 0 <= i < plan.remove.len() && directories.contains(#[trigger] plan.remove[i]) {
        let i = choose|i: int|
            0 <= i < plan.remove.len() && directories.contains(#[trigger] plan.remove[i]);
        assert(dirs(plan.remove[i]));
    }
}

/// A refusal names what it is about: the object that cannot be read, or a path of
/// the plan.
pub proof fn law_a_refusal_names_its_cause(
    plan: RestoreModel,
    missing: Seq<Seq<char>>,
    held: Seq<Seq<char>>,
    occupied: Seq<Seq<char>>,
    directories: Seq<Seq<char>>,
)
    requires
        refusal(plan, missing, held, occupied, directories) is Some,
    ensures
        ({
            let why = refusal(plan, missing, held, occupied, directories)->0;
            if missing.len() > 0 {
                says(why, missing[0])
            } else {
                exists|path: Seq<char>|
                    #![trigger says(why, path)]
                    says(why, path) && (plan.write.contains(path) || plan.remove.contains(path))
            }
        }),
{
    let why = refusal(plan, missing, held, occupied, directories)->0;
    let over = |p: Seq<char>| replaces(p, occupied, held);
    let odd = |p: Seq<char>| unnameable(p);
    let dirs = |p: Seq<char>| directories.contains(p);
    let both = plan.write + plan.remove;
    lemma_filtered(plan.write, over);
    lemma_filtered(both, odd);
    lemma_filtered(plan.remove, dirs);
    if missing.len() > 0 {
        let head = "snapshot is incomplete: object "@;
        lemma_says(why, head, missing[0], why.skip((head + missing[0]).len() as int));
    } else if found(plan.write, over) is Some {
        let path = plan.write.filter(over)[0];
        let head = "refusing to restore: what is at `"@;
        lemma_says(why, head, path, why.skip((head + path).len() as int));
    } else if found(both, odd) is Some {
        let path = both.filter(odd)[0];
        let head = "refusing to restore: the name of `"@;
        lemma_says(why, head, path, why.skip((head + path).len() as int));
        let i = choose|i: int| 0 <= i < both.len() && both[i] == path;
        if i < plan.write.len() {
            assert(plan.write[i] == path);
        } else {
            assert(plan.remove[i - plan.write.len()] == path);
        }
    } else {
        let path = plan.remove.filter(dirs)[0];
        let head = "refusing to restore: `"@;
        lemma_says(why, head, path, why.skip((head + path).len() as int));
    }
}

/// Carrying out a plan does all of it: every path to be removed is removed from
/// the worktree, first and in order; every directory above one is pruned; and
/// where anything is to be written, exactly the listed paths are written out of
/// the target tree, last.
pub proof fn law_a_plan_is_carried_out_whole(
    root: Seq<char>,
    plan: RestoreModel,
    done: Seq<DeedModel>,
    i: int,
    k: int,
    dir: Seq<char>,
)
    requires
        carries_out(root, plan, done),
    ensures
        0 <= i < plan.remove.len() ==> i < done.len() && done[i] == DeedModel::Remove(
            joined(root, plan.remove[i]),
        ),
        0 <= i < plan.remove.len() && is_ancestor(plan.remove[i], k, dir) ==> done.contains(
            DeedModel::Prune(joined(root, dir)),
        ),
        plan.write.len() > 0 ==> done.len() > 0 && done.last() == (DeedModel::Write {
            tree: plan.target_tree,
            input: nul_ended(plan.write),
        }),
        plan.write.len() == 0 ==> forall|j: int|
            0 <= j < done.len() ==> !((#[trigger] done[j]) is Write),
{
    let dirs = choose|dirs: Seq<Seq<char>>|
        {
            &&& strictly_sorted(dirs)
            &&& forall|d: Seq<char>| #[trigger] dirs.contains(d) <==> above(plan.remove, d)
            &&& done == #[trigger] deeds_for(root, plan, dirs)
        };
    let n = plan.remove.len() as int;
    let m = dirs.len() as int;
    if 0 <= i < n && is_ancestor(plan.remove[i], k, dir) {
        assert(above(plan.remove, dir));
        assert(dirs.contains(dir));
        let at = choose|at: int| 0 <= at < m && dirs[at] == dir;
        assert(done[n + (m - 1 - at)] == DeedModel::Prune(joined(root, dir)));
    }
}

/// The directory that a path is in is one above it, and so is one pruned after
/// the path was removed.
pub proof fn law_a_paths_own_directory_is_above_it(dir: Seq<char>, name: Seq<char>)
    requires
        dir.len() > 0,
        dir[0] != '/',
        components(dir).len() > 0,
        glue(components(dir), "/"@) == dir,
        components(name).len() > 0,
    ensures
        is_ancestor(dir.push('/') + name, components(dir).len() as int, dir),
{
    let path = dir.push('/') + name;
    let named = |part: Seq<char>| names_something(part);
    lemma_split_around(dir, '/', name);
    Seq::filter_distributes_over_add(split(dir, '/'), split(name, '/'), named);
    assert(components(path) == components(dir) + components(name));
    assert(components(path).take(components(dir).len() as int) =~= components(dir));
    assert(path[0] == dir[0]);
}

/// Where there is more than the one that is named, the rest are counted; where
/// there is no more, nothing is said of them.
pub proof fn law_what_is_not_named_is_counted(
    paths: Seq<Seq<char>>,
    bad: spec_fn(Seq<char>) -> bool,
    n: nat,
)
    ensures
        found(paths, bad) is None <==> paths.filter(bad).len() == 0,
        found(paths, bad) matches Some((first, more)) ==> first == paths.filter(bad)[0] && more + 1
            == paths.filter(bad).len(),
        crate::shadow::apply::and_more(0).len() == 0,
        n > 0 ==> crate::shadow::apply::and_more(n) == " (and "@ + crate::strings::dec(n) + " more)"@,
{
}

} // verus!
