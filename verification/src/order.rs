//! The order of strings, and tables kept in that order.
//!
//! Strings are compared character by character. UTF-8 keeps the order of
//! code points, so this is also the order of their bytes.
use vstd::prelude::*;

use crate::text::{chars_of, same, views};

verus! {

/// `a` stands before `b`.
pub open spec fn before(a: Seq<char>, b: Seq<char>) -> bool
    decreases a.len(),
{
    if b.len() == 0 {
        false
    } else if a.len() == 0 {
        true
    } else if a[0] == b[0] {
        before(a.skip(1), b.skip(1))
    } else {
        a[0] < b[0]
    }
}

/// No string stands before itself.
pub proof fn lemma_irreflexive(a: Seq<char>)
    ensures
        !before(a, a),
    decreases a.len(),
{
    if a.len() > 0 {
        lemma_irreflexive(a.skip(1));
    }
}

pub proof fn lemma_transitive(a: Seq<char>, b: Seq<char>, c: Seq<char>)
    requires
        before(a, b),
        before(b, c),
    ensures
        before(a, c),
    decreases a.len(),
{
    if a.len() > 0 && a[0] == b[0] && b[0] == c[0] {
        lemma_transitive(a.skip(1), b.skip(1), c.skip(1));
    }
}

/// Of two different strings one stands before the other.
pub proof fn lemma_total(a: Seq<char>, b: Seq<char>)
    ensures
        a == b || before(a, b) || before(b, a),
    decreases a.len(),
{
    if a.len() > 0 && b.len() > 0 && a[0] == b[0] {
        lemma_total(a.skip(1), b.skip(1));
        if a.skip(1) == b.skip(1) {
            assert(a =~= seq![a[0]] + a.skip(1));
            assert(b =~= seq![b[0]] + b.skip(1));
        }
    } else if a.len() == 0 && b.len() == 0 {
        assert(a =~= b);
    }
}

/// Whether `a` stands before `b`.
pub fn less(a: &str, b: &str) -> (r: bool)
    ensures
        r == before(a@, b@),
{
    let x = chars_of(a);
    let y = chars_of(b);
    let mut i: usize = 0;
    assert(x@.skip(0) =~= x@);
    assert(y@.skip(0) =~= y@);
    while i < x.len() && i < y.len()
        invariant
            x@ == a@,
            y@ == b@,
            i <= x@.len(),
            i <= y@.len(),
            before(x@, y@) == before(x@.skip(i as int), y@.skip(i as int)),
        decreases x.len() - i,
    {
        let ghost p = x@.skip(i as int);
        let ghost q = y@.skip(i as int);
        assert(p[0] == x@[i as int] && q[0] == y@[i as int]);
        if x[i] != y[i] {
            return x[i] < y[i];
        }
        assert(p.skip(1) =~= x@.skip(i + 1));
        assert(q.skip(1) =~= y@.skip(i + 1));
        i = i + 1;
    }
    i < y.len()
}

/// Every earlier string stands before every later one.
pub open spec fn ascending(s: Seq<Seq<char>>) -> bool {
    forall|i: int, j: int| 0 <= i < j < s.len() ==> before(#[trigger] s[i], #[trigger] s[j])
}

/// An ascending sequence has no string twice.
pub proof fn lemma_ascending_distinct(s: Seq<Seq<char>>)
    requires
        ascending(s),
    ensures
        s.no_duplicates(),
{
    assert forall|i: int, j: int| 0 <= i < s.len() && 0 <= j < s.len() && i != j implies s[i]
        != s[j] by {
        lemma_irreflexive(s[i]);
        if i < j {
            assert(before(s[i], s[j]));
        } else {
            assert(before(s[j], s[i]));
        }
    }
}

/// Where `key` stands in the ascending list `keys`, or would stand.
pub fn place(keys: &Vec<String>, key: &str) -> (r: (usize, bool))
    requires
        ascending(views(keys@)),
    ensures
        r.0 <= keys@.len(),
        r.1 ==> r.0 < keys@.len() && keys@[r.0 as int]@ == key@,
        r.1 == views(keys@).contains(key@),
        !r.1 ==> forall|i: int| 0 <= i < r.0 ==> before(#[trigger] views(keys@)[i], key@),
        !r.1 ==> forall|i: int|
            r.0 <= i < keys@.len() ==> before(key@, #[trigger] views(keys@)[i]),
{
    let ghost vs = views(keys@);
    let mut i: usize = 0;
    while i < keys.len() && less(keys[i].as_str(), key)
        invariant
            vs == views(keys@),
            i <= keys@.len(),
            forall|k: int| 0 <= k < i ==> before(#[trigger] vs[k], key@),
        decreases keys.len() - i,
    {
        i = i + 1;
    }
    if i < keys.len() && same(keys[i].as_str(), key) {
        assert(vs[i as int] == key@);
        return (i, true);
    }
    proof {
        assert forall|k: int| i <= k < keys@.len() implies before(key@, #[trigger] vs[k]) by {
            lemma_total(vs[i as int], key@);
            assert(vs[i as int] == keys@[i as int]@);
            if k > i {
                assert(before(vs[i as int], vs[k]));
                lemma_transitive(key@, vs[i as int], vs[k]);
            }
        }
        assert(!vs.contains(key@)) by {
            lemma_irreflexive(key@);
            if vs.contains(key@) {
                let k = vs.index_of(key@);
                assert(vs[k] == key@);
            }
        }
    }
    (i, false)
}

/// Two ascending lists of the same strings are the same list.
pub proof fn lemma_ascending_unique(a: Seq<Seq<char>>, b: Seq<Seq<char>>)
    requires
        ascending(a),
        ascending(b),
        forall|k: Seq<char>| a.contains(k) <==> b.contains(k),
    ensures
        a == b,
    decreases a.len(),
{
    if a.len() == 0 {
        if b.len() > 0 {
            assert(b.contains(b[0]));
            assert(a.contains(b[0]));
        }
    } else {
        let x = a.last();
        assert(a.contains(x)) by {
            assert(a[a.len() - 1] == x);
        }
        assert(b.contains(x));
        let y = b.last();
        assert(b.contains(y)) by {
            assert(b[b.len() - 1] == y);
        }
        assert(a.contains(y));
        assert(x == y) by {
            let j = b.index_of(x);
            assert(b[j] == x);
            let i = a.index_of(y);
            assert(a[i] == y);
            if j < b.len() - 1 && i < a.len() - 1 {
                assert(before(b[j], b[b.len() - 1]));
                assert(before(a[i], a[a.len() - 1]));
                lemma_transitive(x, y, x);
                lemma_irreflexive(x);
            }
        }
        let c = a.drop_last();
        let d = b.drop_last();
        assert(ascending(c)) by {
            assert forall|i: int, j: int| 0 <= i < j < c.len() implies before(
                #[trigger] c[i],
                #[trigger] c[j],
            ) by {
                assert(before(a[i], a[j]));
            }
        }
        assert(ascending(d)) by {
            assert forall|i: int, j: int| 0 <= i < j < d.len() implies before(
                #[trigger] d[i],
                #[trigger] d[j],
            ) by {
                assert(before(b[i], b[j]));
            }
        }
        assert forall|k: Seq<char>| c.contains(k) <==> d.contains(k) by {
            lemma_in_front(a, k);
            lemma_in_front(b, k);
        }
        lemma_ascending_unique(c, d);
        assert(a =~= c.push(x));
        assert(b =~= d.push(y));
    }
}

proof fn lemma_in_front(a: Seq<Seq<char>>, k: Seq<char>)
    requires
        ascending(a),
        a.len() > 0,
    ensures
        a.drop_last().contains(k) <==> a.contains(k) && k != a.last(),
{
    let c = a.drop_last();
    if c.contains(k) {
        let i = c.index_of(k);
        assert(c[i] == k);
        assert(a[i] == k);
        assert(before(a[i], a[a.len() - 1]));
        if k == a.last() {
            lemma_irreflexive(k);
        }
    }
    if a.contains(k) && k != a.last() {
        let i = a.index_of(k);
        assert(a[i] == k);
        assert(c[i] == k);
    }
}

/// The strings of a finite set, in ascending order.
pub open spec fn sorted_set(s: Set<Seq<char>>) -> Seq<Seq<char>> {
    choose|l: Seq<Seq<char>>| ascending(l) && #[trigger] l.to_set() == s
}

/// The ascending list of the strings of a set is the sorted set.
pub proof fn lemma_sorted_set(l: Seq<Seq<char>>)
    requires
        ascending(l),
    ensures
        sorted_set(l.to_set()) == l,
{
    let c = sorted_set(l.to_set());
    assert(ascending(l) && l.to_set() == l.to_set());
    assert(ascending(c) && c.to_set() == l.to_set());
    assert forall|k: Seq<char>| c.contains(k) <==> l.contains(k) by {
        assert(c.to_set().contains(k) <==> l.to_set().contains(k));
    }
    lemma_ascending_unique(c, l);
}

/// A set of strings in ascending order.
#[derive(Debug)]
pub struct Names {
    list: Vec<String>,
}

impl Names {
    #[verifier::type_invariant]
    spec fn ordered(self) -> bool {
        ascending(views(self.list@))
    }

    /// The strings, in ascending order.
    pub closed spec fn seq(self) -> Seq<Seq<char>> {
        views(self.list@)
    }

    pub fn new() -> (r: Names)
        ensures
            r.seq() == Seq::<Seq<char>>::empty(),
    {
        let list: Vec<String> = Vec::new();
        assert(views(list@) =~= Seq::<Seq<char>>::empty());
        Names { list }
    }

    /// Adds `name`, unless it is there already; says whether it was added.
    pub fn insert(&mut self, name: &str) -> (r: bool)
        ensures
            r == !old(self).seq().contains(name@),
            !r ==> final(self).seq() == old(self).seq(),
            forall|k: Seq<char>|
                final(self).seq().contains(k) <==> (old(self).seq().contains(k) || k == name@),
            final(self).seq().len() == old(self).seq().len() + (if r {
                1int
            } else {
                0
            }),
    {
        proof {
            use_type_invariant(&*self);
        }
        let (i, found) = place(&self.list, name);
        if found {
            return false;
        }
        let mut list: Vec<String> = Vec::new();
        std::mem::swap(&mut list, &mut self.list);
        let ghost was = views(list@);
        let copy = crate::text::owned(name);
        list.insert(i, copy);
        proof {
            let now = views(list@);
            assert(now =~= was.insert(i as int, name@));
            assert forall|a: int, b: int| 0 <= a < b < now.len() implies before(
                #[trigger] now[a],
                #[trigger] now[b],
            ) by {
                let a0 = if a < i {
                    a
                } else {
                    a - 1
                };
                let b0 = if b < i {
                    b
                } else {
                    b - 1
                };
                if a != i && b != i {
                    assert(before(was[a0], was[b0]));
                } else if a == i {
                    assert(now[b] == was[b0]);
                } else {
                    assert(now[a] == was[a0]);
                }
            }
            assert forall|k: Seq<char>|
                now.contains(k) <==> (was.contains(k) || k == name@) by {
                if was.contains(k) {
                    let j = was.index_of(k);
                    assert(was[j] == k);
                    assert(now[if j < i {
                        j
                    } else {
                        j + 1
                    }] == k);
                }
                if k == name@ {
                    assert(now[i as int] == k);
                }
                if now.contains(k) && k != name@ {
                    let j = now.index_of(k);
                    assert(now[j] == k);
                    assert(was[if j < i {
                        j
                    } else {
                        j - 1
                    }] == k);
                }
            }
        }
        self.list = list;
        true
    }

    pub fn has(&self, name: &str) -> (r: bool)
        ensures
            r == self.seq().contains(name@),
    {
        proof {
            use_type_invariant(self);
        }
        place(&self.list, name).1
    }

    /// The strings in ascending order, none twice.
    pub fn into_list(self) -> (r: Vec<String>)
        ensures
            views(r@) == self.seq(),
            ascending(self.seq()),
            self.seq().no_duplicates(),
    {
        proof {
            use_type_invariant(&self);
            lemma_ascending_distinct(views(self.list@));
        }
        self.list
    }
}

} // verus!
