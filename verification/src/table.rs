//! Tables from strings to values, in ascending order of the strings.
use vstd::prelude::*;

use crate::order::{ascending, before, lemma_ascending_distinct, place};
use crate::text::{owned, views};

verus! {

/// A table from strings to values. Its rows are in ascending order of the
/// strings, and no string has two rows.
#[derive(Debug)]
pub struct Table<V> {
    keys: Vec<String>,
    vals: Vec<V>,
}

impl<V> View for Table<V> {
    type V = Map<Seq<char>, V>;

    closed spec fn view(&self) -> Map<Seq<char>, V> {
        Map::new(
            |k: Seq<char>| views(self.keys@).contains(k),
            |k: Seq<char>| self.vals@[views(self.keys@).index_of(k)],
        )
    }
}

/// The keys of a table in ascending order: its domain, each once.
pub open spec fn lists_domain<V>(keys: Seq<Seq<char>>, m: Map<Seq<char>, V>) -> bool {
    &&& ascending(keys)
    &&& keys.no_duplicates()
    &&& forall|k: Seq<char>| m.dom().contains(k) <==> keys.contains(k)
}

impl<V> Table<V> {
    #[verifier::type_invariant]
    spec fn ordered(self) -> bool {
        ascending(views(self.keys@)) && self.keys@.len() == self.vals@.len()
    }

    /// The strings that have a row, in ascending order.
    pub closed spec fn key_seq(&self) -> Seq<Seq<char>> {
        views(self.keys@)
    }

    proof fn lemma_row(&self, i: int)
        requires
            self.ordered(),
            0 <= i < self.keys@.len(),
        ensures
            self@.dom().contains(views(self.keys@)[i]),
            self@[views(self.keys@)[i]] == self.vals@[i],
    {
        let ks = views(self.keys@);
        lemma_ascending_distinct(ks);
        assert(ks.contains(ks[i]));
        let j = ks.index_of(ks[i]);
        assert(ks[j] == ks[i]);
        assert(i == j);
    }

    pub fn new() -> (r: Table<V>)
        ensures
            r@ == Map::<Seq<char>, V>::empty(),
    {
        let keys: Vec<String> = Vec::new();
        let vals: Vec<V> = Vec::new();
        let r = Table { keys, vals };
        assert(r@ =~= Map::<Seq<char>, V>::empty());
        r
    }

    pub fn len(&self) -> (r: usize)
        ensures
            r == self.key_seq().len(),
            lists_domain(self.key_seq(), self@),
    {
        proof {
            use_type_invariant(self);
            lemma_ascending_distinct(views(self.keys@));
        }
        self.keys.len()
    }

    /// The string of the row at index `i`.
    pub fn key_at(&self, i: usize) -> (r: &String)
        requires
            i < self.key_seq().len(),
        ensures
            r@ == self.key_seq()[i as int],
            self@.dom().contains(r@),
    {
        proof {
            use_type_invariant(self);
            self.lemma_row(i as int);
        }
        &self.keys[i]
    }

    /// The value of the row at index `i`.
    pub fn value_at(&self, i: usize) -> (r: &V)
        requires
            i < self.key_seq().len(),
        ensures
            *r == self@[self.key_seq()[i as int]],
            self@.dom().contains(self.key_seq()[i as int]),
    {
        proof {
            use_type_invariant(self);
            self.lemma_row(i as int);
        }
        &self.vals[i]
    }

    /// The value that stands for `key`.
    pub fn get(&self, key: &str) -> (r: Option<&V>)
        ensures
            match r {
                Some(v) => self@.dom().contains(key@) && self@[key@] == *v,
                None => !self@.dom().contains(key@),
            },
    {
        proof {
            use_type_invariant(self);
        }
        let (i, found) = place(&self.keys, key);
        if found {
            proof {
                self.lemma_row(i as int);
            }
            Some(&self.vals[i])
        } else {
            None
        }
    }

    /// Puts `value` at `key`, in place of what stood there.
    pub fn insert(&mut self, key: &str, value: V)
        ensures
            final(self)@ == old(self)@.insert(key@, value),
            old(self)@.dom().contains(key@) ==> final(self).key_seq() == old(self).key_seq(),
    {
        proof {
            use_type_invariant(&*self);
            lemma_ascending_distinct(views(self.keys@));
        }
        let (i, found) = place(&self.keys, key);
        let keys: Vec<String> = Vec::new();
        let vals: Vec<V> = Vec::new();
        let ghost before_map = self@;
        let ghost was_self = *self;
        let ghost was = views(self.keys@);
        let ghost was_vals = self.vals@;
        let mut whole = Table { keys, vals };
        std::mem::swap(&mut whole, self);
        let Table { keys: mut ks, vals: mut vs } = whole;
        if found {
            vs.set(i, value);
            let now = Table { keys: ks, vals: vs };
            proof {
                assert forall|k: Seq<char>| was.contains(k) implies #[trigger] now@[k]
                    == before_map.insert(key@, value)[k] by {
                    let j = was.index_of(k);
                    assert(was[j] == k);
                    now.lemma_row(j);
                    was_self.lemma_row(j);
                    if j == i {
                        assert(k == key@);
                    } else {
                        assert(k != key@) by {
                            assert(was[i as int] == key@);
                        }
                    }
                }
                assert(now@ =~= before_map.insert(key@, value));
            }
            *self = now;
        } else {
            ks.insert(i, owned(key));
            vs.insert(i, value);
            proof {
                let ns = views(ks@);
                assert(ns =~= was.insert(i as int, key@));
                assert forall|a: int, b: int| 0 <= a < b < ns.len() implies before(
                    #[trigger] ns[a],
                    #[trigger] ns[b],
                ) by {
                    let a0 = if a < i {
                        a
                    } else {
                        a - 1
                    };
                    let b0 = if b < i {
                        b
                    } else {
                        b - 1
                    };
                    if a != i && b != i {
                        assert(before(was[a0], was[b0]));
                    } else if a == i {
                        assert(ns[b] == was[b0]);
                    } else {
                        assert(ns[a] == was[a0]);
                    }
                }
            }
            let now = Table { keys: ks, vals: vs };
            proof {
                let ns = views(now.keys@);
                now.lemma_row(i as int);
                assert forall|k: Seq<char>|
                    now@.dom().contains(k) <==> before_map.insert(key@, value).dom().contains(
                        k,
                    ) by {
                    if was.contains(k) {
                        let j = was.index_of(k);
                        assert(was[j] == k);
                        assert(ns[if j < i {
                            j
                        } else {
                            j + 1
                        }] == k);
                    }
                    if ns.contains(k) {
                        let j = ns.index_of(k);
                        assert(ns[j] == k);
                        if j != i {
                            assert(was[if j < i {
                                j
                            } else {
                                j - 1
                            }] == k);
                        }
                    }
                }
                assert forall|k: Seq<char>| now@.dom().contains(k) implies #[trigger] now@[k]
                    == before_map.insert(key@, value)[k] by {
                    if k != key@ {
                        assert(was.contains(k));
                        let j = was.index_of(k);
                        assert(was[j] == k);
                        was_self.lemma_row(j);
                        let j2 = if j < i {
                            j
                        } else {
                            j + 1
                        };
                        assert(ns[j2] == k);
                        now.lemma_row(j2);
                    }
                }
                assert(now@ =~= before_map.insert(key@, value));
            }
            *self = now;
        }
    }
}

/// What the rows of a table denote.
pub open spec fn rows<T: View>(t: Table<T>) -> Map<Seq<char>, T::V> {
    t@.map_values(|v: T| v@)
}

/// Values of which a second one that denotes the same can be made.
pub trait Duplicate: View + Sized {
    fn duplicate(&self) -> (r: Self)
        ensures
            r@ == self@,
    ;
}

impl Duplicate for u32 {
    fn duplicate(&self) -> (r: Self) {
        *self
    }
}

/// Puts `value` at `key`: what the rows denote changes there alone.
pub fn put<T: View>(t: &mut Table<T>, key: &str, value: T)
    ensures
        rows(*final(t)) == rows(*old(t)).insert(key@, value@),
{
    let ghost was = t@;
    let ghost denoted = value@;
    t.insert(key, value);
    assert(rows(*t) =~= was.map_values(|v: T| v@).insert(key@, denoted));
}

/// A table whose rows denote the same.
pub fn copy_table<T: Duplicate>(t: &Table<T>) -> (r: Table<T>)
    ensures
        rows(r) == rows(*t),
{
    let n: usize = t.len();
    let ghost keys = t.key_seq();
    let mut r: Table<T> = Table::new();
    let mut i: usize = 0;
    while i < n
        invariant
            i <= n,
            n == keys.len(),
            keys == t.key_seq(),
            lists_domain(keys, t@),
            forall|k: Seq<char>| #[trigger] rows(r).dom().contains(k) <==> keys.take(i as int).contains(k),
            forall|k: Seq<char>| #[trigger]
                rows(r).dom().contains(k) ==> rows(r)[k] == rows(*t)[k],
        decreases n - i,
    {
        let ghost was = rows(r);
        let ghost key = keys[i as int];
        put(&mut r, t.key_at(i).as_str(), t.value_at(i).duplicate());
        proof {
            let now = keys.take(i + 1);
            let then = keys.take(i as int);
            assert(now =~= then.push(key));
            assert forall|k: Seq<char>| #[trigger]
                rows(r).dom().contains(k) <==> now.contains(k) by {
                if then.contains(k) {
                    let j = then.index_of(k);
                    assert(now[j] == k);
                }
                assert(now[i as int] == key);
                if now.contains(k) && k != key {
                    let j = now.index_of(k);
                    assert(then[j] == k);
                }
            }
        }
        i = i + 1;
    }
    assert(keys.take(i as int) =~= keys);
    assert forall|k: Seq<char>| rows(*t).dom().contains(k) <==> rows(r).dom().contains(k) by {
        assert(rows(*t).dom().contains(k) <==> t@.dom().contains(k));
    }
    assert(rows(r) =~= rows(*t));
    r
}

} // verus!
