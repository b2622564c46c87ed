//! Where a restore lands: the files of its target, all of them and no others.
use super::plan::{changed, is_deletion, RestoreModel};
use vstd::prelude::*;

verus! {

/// The files of a tree: what is at each path.
pub type Files = Map<Seq<char>, Seq<char>>;

/// Whether a path is the same in two trees: absent from both, or in both with
/// the same content.
pub open spec fn agree(a: Files, b: Files, path: Seq<char>) -> bool {
    a.dom().contains(path) == b.dom().contains(path) && (a.dom().contains(path) ==> a[path]
        == b[path])
}

/// Whether the change at index `i` of alternating statuses and paths is `path`,
/// deleted or not.
pub open spec fn reports(records: Seq<Seq<char>>, i: int, path: Seq<char>, deleted: bool) -> bool {
    0 <= i < records.len() / 2 && records[2 * i + 1] == path && is_deletion(records[2 * i])
        == deleted
}

/// Whether alternating statuses and paths say how `target` differs from
/// `current`: a path is reported as deleted when it is in `current` and not in
/// `target`, and as anything else when it is in `target` and not the same in
/// `current`.
pub open spec fn tells(records: Seq<Seq<char>>, current: Files, target: Files) -> bool {
    &&& forall|i: int, path: Seq<char>| #[trigger]
        reports(records, i, path, true) ==> current.dom().contains(path)
            && !target.dom().contains(path)
    &&& forall|i: int, path: Seq<char>| #[trigger]
        reports(records, i, path, false) ==> target.dom().contains(path) && !agree(
            current,
            target,
            path,
        )
    &&& forall|path: Seq<char>|
        !#[trigger] agree(current, target, path) ==> exists|i: int, deleted: bool| #[trigger]
            reports(records, i, path, deleted)
}

/// The files after a plan is carried out: what it removes is gone, what it
/// writes is as in the target, and the rest is as it was.
pub open spec fn after(current: Files, plan: RestoreModel, target: Files) -> Files {
    Map::new(
        |path: Seq<char>|
            plan.write.contains(path) || (current.dom().contains(path) && !plan.remove.contains(
                path,
            )),
        |path: Seq<char>|
            if plan.write.contains(path) {
                target[path]
            } else {
                current[path]
            },
    )
}

/// Whether a plan is the one those records give.
pub open spec fn planned_from(plan: RestoreModel, records: Seq<Seq<char>>) -> bool {
    &&& plan.write.to_multiset() == changed(records, false).to_multiset()
    &&& plan.remove.to_multiset() == changed(records, true).to_multiset()
}

proof fn lemma_changed_holds(records: Seq<Seq<char>>, deleted: bool, path: Seq<char>)
    ensures
        changed(records, deleted).contains(path) <==> exists|i: int| #[trigger]
            reports(records, i, path, deleted),
    decreases records.len(),
{
    if records.len() < 2 {
        assert(records.len() / 2 == 0);
    } else {
        let even = records.len() - records.len() % 2;
        let rest = records.take(even - 2);
        let last = even / 2 - 1;
        let before = changed(rest, deleted);
        lemma_changed_holds(rest, deleted, path);
        assert(rest.len() / 2 == last);
        assert(records.len() / 2 == last + 1);
        assert forall|i: int| 0 <= i < last implies reports(rest, i, path, deleted) == reports(
            records,
            i,
            path,
            deleted,
        ) by {
            assert(rest[2 * i] == records[2 * i]);
            assert(rest[2 * i + 1] == records[2 * i + 1]);
        }
        if before.contains(path) {
            let i = choose|i: int| #[trigger] reports(rest, i, path, deleted);
            assert(reports(records, i, path, deleted));
            let k = choose|k: int| 0 <= k < before.len() && before[k] == path;
            assert(changed(records, deleted)[k] == path);
        }
        if reports(records, last, path, deleted) {
            let all = changed(records, deleted);
            assert(all == before.push(path));
            assert(all[before.len() as int] == path);
        }
        if exists|i: int| #[trigger] reports(records, i, path, deleted) {
            let i = choose|i: int| #[trigger] reports(records, i, path, deleted);
            if i < last {
                assert(reports(rest, i, path, deleted));
            }
        }
        if changed(records, deleted).contains(path) && !before.contains(path) {
            let all = changed(records, deleted);
            let k = choose|k: int| 0 <= k < all.len() && all[k] == path;
            if k < before.len() {
                assert(before[k] == path);
            }
            assert(reports(records, last, path, deleted));
        }
    }
}

proof fn lemma_same_members(a: Seq<Seq<char>>, b: Seq<Seq<char>>, x: Seq<char>)
    requires
        a.to_multiset() == b.to_multiset(),
    ensures
        a.contains(x) == b.contains(x),
{
    a.to_multiset_ensures();
    b.to_multiset_ensures();
    assert(a.to_multiset().count(x) > 0 <==> a.contains(x));
    assert(b.to_multiset().count(x) > 0 <==> b.contains(x));
}

/// A plan made from a comparison of the working tree with a snapshot, once
/// carried out, leaves exactly the files of the snapshot: every one of them as
/// it was, and no other.
pub proof fn law_a_restore_lands_on_its_target(
    records: Seq<Seq<char>>,
    plan: RestoreModel,
    current: Files,
    target: Files,
)
    requires
        tells(records, current, target),
        planned_from(plan, records),
    ensures
        after(current, plan, target) == target,
{
    let landed = after(current, plan, target);
    assert forall|path: Seq<char>| #[trigger] agree(landed, target, path) by {
        lemma_changed_holds(records, true, path);
        lemma_changed_holds(records, false, path);
        lemma_same_members(plan.write, changed(records, false), path);
        lemma_same_members(plan.remove, changed(records, true), path);
        if !agree(current, target, path) {
            let (i, deleted) = choose|i: int, deleted: bool| #[trigger]
                reports(records, i, path, deleted);
            assert(reports(records, i, path, deleted));
        }
    }
    assert forall|path: Seq<char>|
        landed.dom().contains(path) == target.dom().contains(path) && (target.dom().contains(path)
            ==> #[trigger] landed[path] == target[path]) by {
        assert(agree(landed, target, path));
    }
    assert(landed.dom() =~= target.dom()) by {
        assert forall|path: Seq<char>|
            landed.dom().contains(path) == target.dom().contains(path) by {
            assert(agree(landed, target, path));
        }
    }
    assert(landed =~= target);
}

/// Restoring the state that was there before a restore brings every file of it
/// back: an undo can be undone.
pub proof fn law_a_restore_is_itself_undoable(
    there: Seq<Seq<char>>,
    forth: RestoreModel,
    back: Seq<Seq<char>>,
    again: RestoreModel,
    before: Files,
    target: Files,
)
    requires
        tells(there, before, target),
        planned_from(forth, there),
        tells(back, after(before, forth, target), before),
        planned_from(again, back),
    ensures
        after(after(before, forth, target), again, before) == before,
{
    law_a_restore_lands_on_its_target(back, again, after(before, forth, target), before);
}

/// A restore that would change nothing is one whose working tree already is the
/// target.
pub proof fn law_an_empty_plan_means_the_same_files(
    records: Seq<Seq<char>>,
    plan: RestoreModel,
    current: Files,
    target: Files,
)
    requires
        tells(records, current, target),
        planned_from(plan, records),
    ensures
        plan.noop() <==> current == target,
{
    law_a_restore_lands_on_its_target(records, plan, current, target);
    if plan.noop() {
        assert(after(current, plan, target) =~= current);
    }
    if current == target {
        if plan.write.len() > 0 {
            let path = plan.write[0];
            assert(plan.write.contains(path));
            lemma_same_members(plan.write, changed(records, false), path);
            lemma_changed_holds(records, false, path);
            let i = choose|i: int| #[trigger] reports(records, i, path, false);
            assert(!agree(current, target, path));
        }
        if plan.remove.len() > 0 {
            let path = plan.remove[0];
            assert(plan.remove.contains(path));
            lemma_same_members(plan.remove, changed(records, true), path);
            lemma_changed_holds(records, true, path);
            let i = choose|i: int| #[trigger] reports(records, i, path, true);
            assert(current.dom().contains(path));
        }
    }
}

/// A path whose status begins with `D` is removed, and a path with any other
/// status is written; and nothing is written or removed that the comparison did
/// not report so.
pub proof fn law_what_is_only_here_is_removed_and_the_rest_is_written(
    plan: RestoreModel,
    records: Seq<Seq<char>>,
    i: int,
    path: Seq<char>,
)
    requires
        planned_from(plan, records),
        0 <= i < records.len() / 2,
    ensures
        records[2 * i].len() > 0 && records[2 * i][0] == 'D' ==> plan.remove.contains(
            records[2 * i + 1],
        ),
        !(records[2 * i].len() > 0 && records[2 * i][0] == 'D') ==> plan.write.contains(
            records[2 * i + 1],
        ),
        plan.remove.contains(path) ==> exists|k: int|
            0 <= k < records.len() / 2 && #[trigger] records[2 * k].len() > 0 && records[2 * k][0]
                == 'D' && records[2 * k + 1] == path,
        plan.write.contains(path) ==> exists|k: int|
            0 <= k < records.len() / 2 && !(#[trigger] records[2 * k].len() > 0 && records[2
                * k][0] == 'D') && records[2 * k + 1] == path,
{
    let here = records[2 * i + 1];
    lemma_changed_holds(records, true, here);
    lemma_changed_holds(records, false, here);
    lemma_same_members(plan.remove, changed(records, true), here);
    lemma_same_members(plan.write, changed(records, false), here);
    assert(reports(records, i, here, is_deletion(records[2 * i])));
    lemma_changed_holds(records, true, path);
    lemma_changed_holds(records, false, path);
    lemma_same_members(plan.remove, changed(records, true), path);
    lemma_same_members(plan.write, changed(records, false), path);
    if plan.remove.contains(path) {
        let k = choose|k: int| #[trigger] reports(records, k, path, true);
        assert(records[2 * k].len() > 0);
    }
    if plan.write.contains(path) {
        let k = choose|k: int| #[trigger] reports(records, k, path, false);
        assert(!(records[2 * k].len() > 0 && records[2 * k][0] == 'D'));
    }
}

} // verus!
