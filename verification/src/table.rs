//! A small table from strings to values.
use crate::strings::{owned, same};
use vstd::prelude::*;
use vstd::string::*;

verus! {

/// A table from strings to values. No key occurs twice.
#[derive(Debug)]
pub struct Table<T> {
    rows: Vec<(String, T)>,
}

/// Whether a row has a key.
pub open spec fn row_is<T>(rows: Seq<(String, T)>, i: int, key: Seq<char>) -> bool {
    0 <= i < rows.len() && rows[i].0@ == key
}

/// The table that rows stand for.
pub closed spec fn as_map<T>(rows: Seq<(String, T)>) -> Map<Seq<char>, T> {
    Map::new(
        |key: Seq<char>| exists|i: int| #[trigger] row_is(rows, i, key),
        |key: Seq<char>| rows[choose|i: int| #[trigger] row_is(rows, i, key)].1,
    )
}

impl<T> View for Table<T> {
    type V = Map<Seq<char>, T>;

    closed spec fn view(&self) -> Map<Seq<char>, T> {
        as_map(self.rows@)
    }
}

impl<T> Table<T> {
    /// No key occurs twice.
    pub closed spec fn wf(&self) -> bool {
        forall|i: int, j: int|
            0 <= i < j < self.rows@.len() ==> (#[trigger] self.rows@[i]).0@ != (
            #[trigger] self.rows@[j]).0@
    }

    pub fn new() -> (r: Self)
        ensures
            r.wf(),
            r@ == Map::<Seq<char>, T>::empty(),
    {
        let r = Table { rows: Vec::new() };
        proof {
            assert(r@ =~= Map::<Seq<char>, T>::empty());
        }
        r
    }

    proof fn lemma_row(&self, i: int)
        requires
            self.wf(),
            0 <= i < self.rows@.len(),
        ensures
            self@.dom().contains(self.rows@[i].0@),
            self@[self.rows@[i].0@] == self.rows@[i].1,
    {
        let key = self.rows@[i].0@;
        assert(row_is(self.rows@, i, key));
        let k = choose|k: int| #[trigger] row_is(self.rows@, k, key);
        assert(k == i) by {
            if k < i {
                assert(self.rows@[k].0@ != self.rows@[i].0@);
            } else if i < k {
                assert(self.rows@[i].0@ != self.rows@[k].0@);
            }
        }
    }

    fn find(&self, key: &str) -> (r: usize)
        requires
            self.wf(),
        ensures
            r <= self.rows@.len(),
            r < self.rows@.len() ==> self.rows@[r as int].0@ == key@,
            r == self.rows@.len() ==> forall|i: int|
                0 <= i < self.rows@.len() ==> (#[trigger] self.rows@[i]).0@ != key@,
            self@.dom().contains(key@) <==> r < self.rows@.len(),
            r < self.rows@.len() ==> self@[key@] == self.rows@[r as int].1,
    {
        let mut i: usize = 0;
        while i < self.rows.len()
            invariant
                i <= self.rows@.len(),
                self.wf(),
                forall|k: int| 0 <= k < i ==> (#[trigger] self.rows@[k]).0@ != key@,
            decreases self.rows@.len() - i,
        {
            if same(self.rows[i].0.as_str(), key) {
                proof {
                    self.lemma_row(i as int);
                }
                return i;
            }
            i += 1;
        }
        i
    }

    /// What stands under a key.
    pub fn get(&self, key: &str) -> (r: Option<&T>)
        requires
            self.wf(),
        ensures
            match r {
                Some(v) => self@.dom().contains(key@) && *v == self@[key@],
                None => !self@.dom().contains(key@),
            },
    {
        let i: usize = self.find(key);
        if i < self.rows.len() {
            Some(&self.rows[i].1)
        } else {
            None
        }
    }

    /// Put a value under a key, in the place of what stood there.
    pub fn put(&mut self, key: &str, value: T)
        requires
            old(self).wf(),
        ensures
            final(self).wf(),
            final(self)@ == old(self)@.insert(key@, value),
    {
        let i: usize = self.find(key);
        let ghost before = *self;
        let row: (String, T) = (owned(key), value);
        if i < self.rows.len() {
            self.rows.set(i, row);
        } else {
            self.rows.push(row);
        }
        proof {
            let now = self.rows@;
            let was = before.rows@;
            assert(self.wf()) by {
                assert forall|a: int, b: int| 0 <= a < b < now.len() implies (#[trigger] now[a]).0@ != (
                #[trigger] now[b]).0@ by {
                    if a != i && b != i {
                        assert(was[a].0@ != was[b].0@);
                    } else if a == i {
                        if i < was.len() {
                            assert(was[a].0@ != was[b].0@);
                        }
                    } else {
                        if i < was.len() {
                            assert(was[a].0@ != was[b].0@);
                        } else {
                            assert(was[a].0@ != key@);
                        }
                    }
                }
            }
            assert forall|k: Seq<char>|
                self@.dom().contains(k) == before@.insert(key@, value).dom().contains(k) by {
                if self@.dom().contains(k) {
                    let a = choose|a: int| #[trigger] row_is(now, a, k);
                    if a != i {
                        assert(row_is(was, a, k));
                    }
                }
                if before@.dom().contains(k) {
                    let a = choose|a: int| #[trigger] row_is(was, a, k);
                    if a == i {
                        assert(row_is(now, i as int, k));
                    } else {
                        assert(row_is(now, a, k));
                    }
                }
                if k == key@ {
                    assert(row_is(now, i as int, k));
                }
            }
            assert forall|k: Seq<char>| self@.dom().contains(k) implies #[trigger] self@[k]
                == before@.insert(key@, value)[k] by {
                let a = choose|a: int| #[trigger] row_is(now, a, k);
                self.lemma_row(a);
                if a != i {
                    before.lemma_row(a);
                    if k == key@ {
                        assert(row_is(now, i as int, k));
                        if a < i {
                            assert(now[a].0@ != now[i as int].0@);
                        } else {
                            assert(now[i as int].0@ != now[a].0@);
                        }
                    }
                }
            }
            assert(self@ =~= before@.insert(key@, value));
        }
    }

    /// Take out what stands under a key.
    pub fn remove(&mut self, key: &str)
        requires
            old(self).wf(),
        ensures
            final(self).wf(),
            final(self)@ == old(self)@.remove(key@),
    {
        let i: usize = self.find(key);
        let ghost before = *self;
        if i < self.rows.len() {
            let _row: (String, T) = self.rows.remove(i);
        }
        proof {
            let now = self.rows@;
            let was = before.rows@;
            let n = was.len() as int;
            let at = |a: int| if a < i { a } else { a + 1 };
            if i < n {
                assert forall|a: int| 0 <= a < now.len() implies #[trigger] now[a] == was[at(a)] by {}
            }
            assert(self.wf()) by {
                assert forall|a: int, b: int| 0 <= a < b < now.len() implies (#[trigger] now[a]).0@ != (
                #[trigger] now[b]).0@ by {
                    if i < n {
                        assert(was[at(a)].0@ != was[at(b)].0@);
                    } else {
                        assert(was[a].0@ != was[b].0@);
                    }
                }
            }
            assert forall|k: Seq<char>|
                self@.dom().contains(k) == before@.remove(key@).dom().contains(k) by {
                if self@.dom().contains(k) {
                    let a = choose|a: int| #[trigger] row_is(now, a, k);
                    if i < n {
                        assert(row_is(was, at(a), k));
                        if k == key@ {
                            if at(a) < i {
                                assert(was[at(a)].0@ != was[i as int].0@);
                            } else {
                                assert(was[i as int].0@ != was[at(a)].0@);
                            }
                        }
                    } else {
                        assert(row_is(was, a, k));
                    }
                }
                if before@.dom().contains(k) && k != key@ {
                    let a = choose|a: int| #[trigger] row_is(was, a, k);
                    if i < n {
                        if a < i {
                            assert(row_is(now, a, k));
                        } else {
                            assert(now[a - 1] == was[at(a - 1)]);
                            assert(row_is(now, a - 1, k));
                        }
                    } else {
                        assert(row_is(now, a, k));
                    }
                }
            }
            assert forall|k: Seq<char>| self@.dom().contains(k) implies #[trigger] self@[k]
                == before@.remove(key@)[k] by {
                let a = choose|a: int| #[trigger] row_is(now, a, k);
                self.lemma_row(a);
                if i < n {
                    before.lemma_row(at(a));
                    assert(now[a] == was[at(a)]);
                } else {
                    before.lemma_row(a);
                }
            }
            assert(self@ =~= before@.remove(key@));
        }
    }
}

} // verus!
