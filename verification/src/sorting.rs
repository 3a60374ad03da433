//! The stable order of items by a string each.
use vstd::prelude::*;

use crate::order::{before, lemma_total, lemma_transitive, less};
use crate::text::views;

verus! {

/// The first place, at or after `p`, whose key stands after `key`.
pub open spec fn slot(keys: Seq<Seq<char>>, order: Seq<int>, key: Seq<char>, p: int) -> int
    decreases order.len() - p,
{
    if p < 0 || p >= order.len() || before(key, keys[order[p]]) {
        p
    } else {
        slot(keys, order, key, p + 1)
    }
}

/// The indices of `keys` in ascending order of the keys, equal keys in the
/// order in which they stand.
pub open spec fn order_of(keys: Seq<Seq<char>>) -> Seq<int>
    decreases keys.len(),
{
    if keys.len() == 0 {
        Seq::empty()
    } else {
        let prev = order_of(keys.drop_last());
        prev.insert(slot(keys, prev, keys.last(), 0), keys.len() - 1)
    }
}

proof fn lemma_slot(keys: Seq<Seq<char>>, order: Seq<int>, key: Seq<char>, p: int)
    requires
        0 <= p <= order.len(),
    ensures
        p <= slot(keys, order, key, p) <= order.len(),
        forall|i: int|
            p <= i < slot(keys, order, key, p) ==> !before(key, keys[#[trigger] order[i]]),
        slot(keys, order, key, p) < order.len() ==> before(
            key,
            keys[order[slot(keys, order, key, p)]],
        ),
    decreases order.len() - p,
{
    if p < order.len() && !before(key, keys[order[p]]) {
        lemma_slot(keys, order, key, p + 1);
    }
}

/// Each index once.
pub open spec fn is_permutation(order: Seq<int>, n: nat) -> bool {
    &&& order.len() == n
    &&& order.no_duplicates()
    &&& forall|i: int| 0 <= i < n ==> 0 <= #[trigger] order[i] < n
}

/// Earlier places hold keys that do not stand after later ones, and equal keys
/// keep the order of their indices.
pub open spec fn in_order(keys: Seq<Seq<char>>, order: Seq<int>) -> bool {
    forall|a: int, b: int|
        0 <= a < b < order.len() ==> {
            ||| before(keys[#[trigger] order[a]], keys[#[trigger] order[b]])
            ||| keys[order[a]] == keys[order[b]] && order[a] < order[b]
        }
}

/// The order holds each index once, and puts the keys in ascending order with
/// equal keys in their given order.
pub proof fn law_order(keys: Seq<Seq<char>>)
    ensures
        is_permutation(order_of(keys), keys.len()),
        in_order(keys, order_of(keys)),
    decreases keys.len(),
{
    if keys.len() > 0 {
        let init = keys.drop_last();
        law_order(init);
        let prev = order_of(init);
        let k = keys.last();
        lemma_slot(keys, prev, k, 0);
        let at = slot(keys, prev, k, 0);
        let now = order_of(keys);
        let n = keys.len() - 1;
        assert(now == prev.insert(at, n));
        assert forall|i: int| 0 <= i < now.len() implies 0 <= #[trigger] now[i] < keys.len() by {
            if i < at {
                assert(now[i] == prev[i]);
            } else if i > at {
                assert(now[i] == prev[i - 1]);
            }
        }
        assert forall|i: int, j: int| 0 <= i < now.len() && 0 <= j < now.len() && i != j implies now[i]
            != now[j] by {
            let i0 = if i < at {
                i
            } else {
                i - 1
            };
            let j0 = if j < at {
                j
            } else {
                j - 1
            };
            if i != at {
                assert(now[i] == prev[i0]);
            }
            if j != at {
                assert(now[j] == prev[j0]);
            }
        }
        assert forall|a: int, b: int| 0 <= a < b < now.len() implies {
            ||| before(keys[#[trigger] now[a]], keys[#[trigger] now[b]])
            ||| keys[now[a]] == keys[now[b]] && now[a] < now[b]
        } by {
            let a0 = if a < at {
                a
            } else {
                a - 1
            };
            let b0 = if b < at {
                b
            } else {
                b - 1
            };
            if a != at && b != at {
                assert(now[a] == prev[a0] && now[b] == prev[b0]);
                assert(init[prev[a0]] == keys[prev[a0]]);
                assert(init[prev[b0]] == keys[prev[b0]]);
            } else if b == at {
                assert(now[a] == prev[a]);
                assert(!before(k, keys[prev[a]]));
                lemma_total(k, keys[prev[a]]);
            } else {
                assert(now[b] == prev[b0]);
                let first = keys[prev[at]];
                assert(before(k, first));
                if b0 > at {
                    assert(init[prev[at]] == keys[prev[at]]);
                    assert(init[prev[b0]] == keys[prev[b0]]);
                    if before(first, keys[prev[b0]]) {
                        lemma_transitive(k, first, keys[prev[b0]]);
                    }
                }
            }
        }
    }
}

/// The view of a list of indices.
pub open spec fn ints(s: Seq<usize>) -> Seq<int> {
    s.map_values(|i: usize| i as int)
}

/// The indices of `keys` in ascending order of the keys.
pub fn sort_order(keys: &Vec<String>) -> (r: Vec<usize>)
    ensures
        ints(r@) == order_of(views(keys@)),
        r@.len() == keys@.len(),
        forall|i: int| 0 <= i < r@.len() ==> (#[trigger] r@[i]) < keys@.len(),
{
    let mut order: Vec<usize> = Vec::new();
    let ghost all = views(keys@);
    let mut n: usize = 0;
    assert(ints(order@) =~= order_of(all.take(0)));
    while n < keys.len()
        invariant
            n <= keys@.len(),
            all == views(keys@),
            order@.len() == n,
            ints(order@) == order_of(all.take(n as int)),
            forall|i: int| 0 <= i < order@.len() ==> (#[trigger] order@[i]) < n,
        decreases keys.len() - n,
    {
        let ghost prev = ints(order@);
        let ghost now = all.take(n + 1);
        assert(now.drop_last() =~= all.take(n as int));
        let key = keys[n].as_str();
        let mut p: usize = 0;
        while p < order.len() && !less(key, keys[order[p]].as_str())
            invariant
                p <= order@.len(),
                n < keys@.len(),
                key@ == keys@[n as int]@,
                all == views(keys@),
                now == all.take(n + 1),
                prev == ints(order@),
                forall|i: int| 0 <= i < order@.len() ==> (#[trigger] order@[i]) < n,
                slot(now, prev, key@, 0) == slot(now, prev, key@, p as int),
            decreases order.len() - p,
        {
            assert(now[prev[p as int]] == keys@[order@[p as int] as int]@);
            p = p + 1;
        }
        proof {
            if p < order@.len() {
                assert(now[prev[p as int]] == keys@[order@[p as int] as int]@);
            }
            assert(now.last() == key@);
        }
        let ghost was = order@;
        order.insert(p, n);
        assert(ints(order@) =~= prev.insert(p as int, n as int));
        assert forall|i: int| 0 <= i < order@.len() implies (#[trigger] order@[i]) < n + 1 by {
            if i < p {
                assert(order@[i] == was[i]);
            } else if i > p {
                assert(order@[i] == was[i - 1]);
            }
        }
        n = n + 1;
    }
    assert(all.take(n as int) =~= all);
    order
}

/// Every index has its place in the order.
pub proof fn law_the_order_leaves_nothing_out(keys: Seq<Seq<char>>, i: int)
    requires
        0 <= i < keys.len(),
    ensures
        order_of(keys).contains(i),
    decreases keys.len(),
{
    let init = keys.drop_last();
    let prev = order_of(init);
    let n = keys.len() - 1;
    law_order(init);
    lemma_slot(keys, prev, keys.last(), 0);
    let at = slot(keys, prev, keys.last(), 0);
    let now = order_of(keys);
    assert(now == prev.insert(at, n));
    if i == n {
        assert(now[at] == n);
    } else {
        law_the_order_leaves_nothing_out(init, i);
        let j = prev.index_of(i);
        if j < at {
            assert(now[j] == i);
        } else {
            assert(now[j + 1] == i);
        }
    }
}

} // verus!
