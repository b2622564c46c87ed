//! What a restore would do, computed before anything is touched.
use crate::order::{sort_texts, sorted};
use crate::strings::{
    chars_of, clone_texts, lemma_texts_empty, lemma_texts_push, owned, texts,
};
use super::Shadow;
use vstd::prelude::*;
use vstd::string::*;

verus! {

/// What a restore would do.
#[derive(Debug)]
pub struct RestorePlan {
    /// In the target, absent or different on disk: will be written.
    pub write: Vec<String>,
    /// On disk, absent in the target: will be removed.
    pub remove: Vec<String>,
    pub target_tree: String,
    pub current_tree: String,
}

#[verifier::ext_equal]
pub struct RestoreModel {
    pub write: Seq<Seq<char>>,
    pub remove: Seq<Seq<char>>,
    pub target_tree: Seq<char>,
    pub current_tree: Seq<char>,
}

impl View for RestorePlan {
    type V = RestoreModel;

    open spec fn view(&self) -> RestoreModel {
        RestoreModel {
            write: texts(self.write@),
            remove: texts(self.remove@),
            target_tree: self.target_tree@,
            current_tree: self.current_tree@,
        }
    }
}

impl Clone for RestorePlan {
    fn clone(&self) -> (r: Self)
        ensures
            r@ == self@,
    {
        RestorePlan {
            write: clone_texts(&self.write),
            remove: clone_texts(&self.remove),
            target_tree: self.target_tree.clone(),
            current_tree: self.current_tree.clone(),
        }
    }
}

impl Default for RestorePlan {
    fn default() -> (r: Self)
        ensures
            r@ == (RestoreModel {
                write: Seq::empty(),
                remove: Seq::empty(),
                target_tree: Seq::empty(),
                current_tree: Seq::empty(),
            }),
    {
        let r = RestorePlan {
            write: Vec::new(),
            remove: Vec::new(),
            target_tree: String::new(),
            current_tree: String::new(),
        };
        proof {
            lemma_texts_empty(r.write@);
            assert(r.target_tree@ =~= Seq::<char>::empty());
        }
        r
    }
}

impl RestoreModel {
    pub open spec fn noop(self) -> bool {
        self.write.len() == 0 && self.remove.len() == 0
    }
}

impl RestorePlan {
    pub fn is_noop(&self) -> (r: bool)
        ensures
            r == self@.noop(),
    {
        proof {
            assert(texts(self.write@).len() == self.write@.len());
            assert(texts(self.remove@).len() == self.remove@.len());
        }
        self.write.is_empty() && self.remove.is_empty()
    }

    /// How many paths the restore touches. The two lists together have to be
    /// countable, as the lists of one comparison of two trees are.
    pub fn touched(&self) -> (r: usize)
        requires
            self.write@.len() + self.remove@.len() <= usize::MAX,
        ensures
            r == self@.write.len() + self@.remove.len(),
    {
        proof {
            assert(texts(self.write@).len() == self.write@.len());
            assert(texts(self.remove@).len() == self.remove@.len());
        }
        self.write.len() + self.remove.len()
    }
}

/// Whether a status says that a path is in the first tree and not in the
/// second.
pub open spec fn is_deletion(status: Seq<char>) -> bool {
    status.len() > 0 && status[0] == 'D'
}

/// The paths among alternating statuses and paths that are deleted, or that
/// are not. A status without a path behind it counts for nothing.
pub open spec fn changed(records: Seq<Seq<char>>, deleted: bool) -> Seq<Seq<char>>
    decreases records.len(),
{
    if records.len() < 2 {
        Seq::empty()
    } else {
        let even = records.len() - records.len() % 2;
        let before = changed(records.take(even - 2), deleted);
        if is_deletion(records[even - 2]) == deleted {
            before.push(records[even - 1])
        } else {
            before
        }
    }
}

fn deletion(status: &str) -> (r: bool)
    ensures
        r == is_deletion(status@),
{
    let cs: Vec<char> = chars_of(status);
    cs.len() > 0 && cs[0] == 'D'
}

impl Shadow {
    /// Which paths a restore to `target_tree` would write and which it would
    /// remove, from the records of a comparison of the current tree with the
    /// target. Nothing on disk is touched.
    pub fn plan(target_tree: &str, current_tree: &str, records: &Vec<String>) -> (r: RestorePlan)
        ensures
            r@.target_tree == target_tree@,
            r@.current_tree == current_tree@,
            sorted(r@.write),
            r@.write.to_multiset() == changed(texts(records@), false).to_multiset(),
            sorted(r@.remove),
            r@.remove.to_multiset() == changed(texts(records@), true).to_multiset(),
    {
        broadcast use lemma_texts_push;

        let mut write: Vec<String> = Vec::new();
        let mut remove: Vec<String> = Vec::new();
        let mut i: usize = 0;
        proof {
            lemma_texts_empty(write@);
            lemma_texts_empty(remove@);
        }
        let count: usize = records.len();
        while count - i > 1
            invariant
                i <= count,
                i % 2 == 0,
                count == records@.len(),
                texts(write@) == changed(texts(records@).take(i as int), false),
                texts(remove@) == changed(texts(records@).take(i as int), true),
            decreases records@.len() - i,
        {
            broadcast use lemma_texts_push;

            proof {
                let now = texts(records@).take(i + 2);
                assert(now.len() - now.len() % 2 == i + 2);
                assert(now.take(i as int) =~= texts(records@).take(i as int));
                assert(now[i as int] == records@[i as int]@);
                assert(now[i + 1] == records@[i + 1]@);
            }
            if deletion(records[i].as_str()) {
                remove.push(records[i + 1].clone());
            } else {
                write.push(records[i + 1].clone());
            }
            i += 2;
        }
        proof {
            let all = texts(records@);
            if i < all.len() {
                assert(all.len() == i + 1);
                lemma_changed_odd(all, true);
                lemma_changed_odd(all, false);
            } else {
                assert(all.take(i as int) =~= all);
            }
        }
        RestorePlan {
            write: sort_texts(write),
            remove: sort_texts(remove),
            target_tree: owned(target_tree),
            current_tree: owned(current_tree),
        }
    }
}

proof fn lemma_changed_odd(records: Seq<Seq<char>>, deleted: bool)
    requires
        records.len() % 2 == 1,
    ensures
        changed(records, deleted) == changed(records.drop_last(), deleted),
{
    let shorter = records.drop_last();
    if shorter.len() >= 2 {
        assert(records.take(records.len() - 3) =~= shorter.take(shorter.len() - 2));
    }
}

/// A path that a comparison reports as deleted is removed and not written, and
/// every other path is written and not removed: between them the two lists hold
/// every reported path once.
pub proof fn law_every_change_is_planned_once(records: Seq<Seq<char>>)
    ensures
        changed(records, true).len() + changed(records, false).len() == records.len() / 2,
    decreases records.len(),
{
    if records.len() >= 2 {
        let even = records.len() - records.len() % 2;
        law_every_change_is_planned_once(records.take(even - 2));
    }
}

} // verus!
