//! Sorting by a key so that what has one key stays in its order.

use vstd::prelude::*;

verus! {

/// The first position from `from` on whose entry has a key above `key`.
pub open spec fn first_above(keys: Seq<i64>, order: Seq<int>, key: i64, from: int) -> int
    decreases order.len() - from,
{
    if 0 <= from < order.len() && keys[order[from]] <= key {
        first_above(keys, order, key, from + 1)
    } else {
        from
    }
}

/// The indices below `n` in the order in which a stable sort by key leaves
/// them: index `n - 1` goes behind the entries whose key is not above its own.
pub open spec fn stable_order(keys: Seq<i64>, n: int) -> Seq<int>
    decreases n,
{
    if n <= 0 {
        Seq::empty()
    } else {
        let before = stable_order(keys, n - 1);
        before.insert(first_above(keys, before, keys[n - 1], 0), n - 1)
    }
}

/// Whether `order` lists `n` indices below `n` by ascending key, equal keys
/// by ascending index.
pub open spec fn orders_first(keys: Seq<i64>, order: Seq<int>, n: int) -> bool {
    &&& order.len() == n
    &&& forall|i: int| 0 <= i < order.len() ==> 0 <= #[trigger] order[i] < n
    &&& forall|i: int, j: int|
        0 <= i < j < order.len() ==> keys[#[trigger] order[i]] < keys[#[trigger] order[j]] || (
        keys[order[i]] == keys[order[j]] && order[i] < order[j])
}

pub proof fn lemma_first_above(keys: Seq<i64>, order: Seq<int>, key: i64, from: int)
    requires
        0 <= from <= order.len(),
    ensures
        from <= first_above(keys, order, key, from) <= order.len(),
        forall|i: int|
            from <= i < first_above(keys, order, key, from) ==> keys[#[trigger] order[i]] <= key,
        first_above(keys, order, key, from) < order.len() ==> keys[order[first_above(
            keys,
            order,
            key,
            from,
        )]] > key,
    decreases order.len() - from,
{
    if from < order.len() && keys[order[from]] <= key {
        lemma_first_above(keys, order, key, from + 1);
    }
}

/// A stable sort by key: the order that it gives lists every index once, by
/// ascending key, and indices of one key as they stood.
pub proof fn lemma_stable_order(keys: Seq<i64>, n: int)
    requires
        0 <= n <= keys.len(),
    ensures
        orders_first(keys, stable_order(keys, n), n),
    decreases n,
{
    if n > 0 {
        lemma_stable_order(keys, n - 1);
        let before = stable_order(keys, n - 1);
        let at = first_above(keys, before, keys[n - 1], 0);
        lemma_first_above(keys, before, keys[n - 1], 0);
        let order = before.insert(at, n - 1);
        assert forall|i: int, j: int| 0 <= i < j < order.len() implies keys[#[trigger] order[i]]
            < keys[#[trigger] order[j]] || (keys[order[i]] == keys[order[j]] && order[i]
            < order[j]) by {
            if j < at {
                assert(order[i] == before[i] && order[j] == before[j]);
            } else if j == at {
                assert(order[i] == before[i]);
            } else if i < at {
                assert(order[i] == before[i] && order[j] == before[j - 1]);
                if at < j - 1 {
                    assert(keys[before[at]] <= keys[before[j - 1]]);
                }
            } else if i == at {
                assert(order[j] == before[j - 1]);
                if at < j - 1 {
                    assert(keys[before[at]] <= keys[before[j - 1]]);
                }
            } else {
                assert(order[i] == before[i - 1] && order[j] == before[j - 1]);
            }
        }
        assert forall|i: int| 0 <= i < order.len() implies 0 <= #[trigger] order[i] < n by {
            if i < at {
                assert(order[i] == before[i]);
            } else if i > at {
                assert(order[i] == before[i - 1]);
            }
        }
    }
}

/// The entries of `order` as mathematical integers.
pub open spec fn indices(order: Seq<usize>) -> Seq<int> {
    order.map_values(|i: usize| i as int)
}

/// The order in which a stable sort by key leaves the indices of `keys`.
pub fn sorted_order(keys: &Vec<i64>) -> (order: Vec<usize>)
    ensures
        indices(order@) == stable_order(keys@, keys.len() as int),
        orders_first(keys@, indices(order@), keys.len() as int),
{
    let mut order: Vec<usize> = Vec::new();
    let mut n: usize = 0;
    while n < keys.len()
        invariant
            n <= keys.len(),
            indices(order@) == stable_order(keys@, n as int),
            orders_first(keys@, indices(order@), n as int),
        decreases keys.len() - n,
    {
        let key = keys[n];
        let mut at: usize = 0;
        while at < order.len() && keys[order[at]] <= key
            invariant
                at <= order.len(),
                n < keys.len(),
                key == keys@[n as int],
                orders_first(keys@, indices(order@), n as int),
                first_above(keys@, indices(order@), key, 0) == first_above(
                    keys@,
                    indices(order@),
                    key,
                    at as int,
                ),
            decreases order.len() - at,
        {
            assert(indices(order@)[at as int] == order@[at as int]);
            at += 1;
        }
        proof {
            assert(at < order.len() ==> indices(order@)[at as int] == order@[at as int]);
            assert(indices(order@.insert(at as int, n)) =~= indices(order@).insert(
                at as int,
                n as int,
            ));
            lemma_stable_order(keys@, n + 1);
        }
        order.insert(at, n);
        n += 1;
    }
    order
}

/// The items in the places that `order` names, one after the other.
pub open spec fn arranged<T>(items: Seq<T>, order: Seq<int>) -> Seq<T> {
    Seq::new(order.len(), |i: int| items[order[i]])
}

/// A stable sort only moves: what it gives holds every item as often as it was
/// given.
pub proof fn lemma_stable_order_permutes<T>(items: Seq<T>, keys: Seq<i64>, n: int)
    requires
        0 <= n <= keys.len(),
        n <= items.len(),
    ensures
        arranged(items, stable_order(keys, n)).to_multiset() == items.take(n).to_multiset(),
    decreases n,
{
    broadcast use vstd::seq_lib::group_to_multiset_ensures;

    if n == 0 {
        assert(arranged(items, stable_order(keys, n)) =~= items.take(n));
    } else {
        lemma_stable_order_permutes(items, keys, n - 1);
        lemma_stable_order(keys, n - 1);
        let before = stable_order(keys, n - 1);
        let at = first_above(keys, before, keys[n - 1], 0);
        lemma_first_above(keys, before, keys[n - 1], 0);
        let placed = arranged(items, before.insert(at, n - 1));
        assert(placed.remove(at) =~= arranged(items, before));
        assert(placed[at] == items[n - 1]);
        assert(placed.to_multiset().count(items[n - 1]) > 0) by {
            assert(placed.contains(items[n - 1]));
        }
        assert(placed.to_multiset() =~= placed.remove(at).to_multiset().insert(items[n - 1]));
        assert(items.take(n) =~= items.take(n - 1).push(items[n - 1]));
    }
}

/// Whether the keys that `key` gives to the items of `items` ascend strictly.
pub open spec fn strictly_ascending<T>(items: Seq<T>, key: spec_fn(T) -> int) -> bool {
    forall|i: int, j: int|
        0 <= i < j < items.len() ==> key(#[trigger] items[i]) < key(#[trigger] items[j])
}

/// There is one way only to put items of distinct keys in ascending order: two
/// ascending sequences of the same items are one sequence.
pub proof fn lemma_ascending_order_is_unique<T>(a: Seq<T>, b: Seq<T>, key: spec_fn(T) -> int)
    requires
        strictly_ascending(a, key),
        strictly_ascending(b, key),
        a.to_multiset() == b.to_multiset(),
    ensures
        a == b,
    decreases a.len(),
{
    broadcast use vstd::seq_lib::group_to_multiset_ensures;

    a.to_multiset_ensures();
    b.to_multiset_ensures();
    assert(a.len() == a.to_multiset().len());
    assert(b.len() == b.to_multiset().len());
    if a.len() == 0 {
        assert(a =~= b);
    } else {
        assert(a.contains(a[0]));
        assert(b.to_multiset().count(a[0]) > 0);
        assert(b.contains(a[0]));
        let j = choose|j: int| 0 <= j < b.len() && b[j] == a[0];
        assert(b.contains(b[0]));
        assert(a.to_multiset().count(b[0]) > 0);
        assert(a.contains(b[0]));
        let i = choose|i: int| 0 <= i < a.len() && a[i] == b[0];
        if i > 0 {
            assert(key(a[0]) < key(a[i]));
            if j > 0 {
                assert(key(b[0]) < key(b[j]));
            }
        }
        assert(a[0] == b[0]);
        assert(a.remove(0).to_multiset() == b.remove(0).to_multiset());
        assert forall|x: int, y: int| 0 <= x < y < a.remove(0).len() implies key(
            #[trigger] a.remove(0)[x],
        ) < key(#[trigger] a.remove(0)[y]) by {
            assert(a.remove(0)[x] == a[x + 1] && a.remove(0)[y] == a[y + 1]);
        }
        assert forall|x: int, y: int| 0 <= x < y < b.remove(0).len() implies key(
            #[trigger] b.remove(0)[x],
        ) < key(#[trigger] b.remove(0)[y]) by {
            assert(b.remove(0)[x] == b[x + 1] && b.remove(0)[y] == b[y + 1]);
        }
        lemma_ascending_order_is_unique(a.remove(0), b.remove(0), key);
        assert(a =~= seq![a[0]] + a.remove(0));
        assert(b =~= seq![b[0]] + b.remove(0));
    }
}

} // verus!
