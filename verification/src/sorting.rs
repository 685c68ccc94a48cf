//! A stable ordering of items by a key, newest (largest) first.

use vstd::prelude::*;

verus! {

/// Item `a` comes before item `b` when its key is larger, or the keys are
/// equal and `a` came first: a stable sort by descending key.
pub open spec fn comes_before(keys: Seq<i128>, a: int, b: int) -> bool {
    keys[a] > keys[b] || (keys[a] == keys[b] && a < b)
}

/// `order` lists every index of `keys` exactly once, largest key first and
/// equal keys in their original order.
pub open spec fn is_stable_desc_order(keys: Seq<i128>, order: Seq<usize>) -> bool {
    &&& order.len() == keys.len()
    &&& forall|i: int| 0 <= i < order.len() ==> (#[trigger] order[i]) < keys.len()
    &&& order.no_duplicates()
    &&& forall|i: int, j: int| 0 <= i < j < order.len() ==> comes_before(keys, #[trigger] order[i] as int, #[trigger] order[j] as int)
}

/// The first place in `order`, from `p` on, whose item has a smaller key
/// than item `x`; the end of `order` when there is none.
pub open spec fn first_smaller(keys: Seq<i128>, order: Seq<usize>, x: int, p: int) -> int
    decreases order.len() - p,
{
    if p >= order.len() {
        order.len() as int
    } else if keys[x] > keys[order[p] as int] {
        p
    } else {
        first_smaller(keys, order, x, p + 1)
    }
}

/// The stable descending order of the first `n` items, built by inserting
/// each item after all items whose key is at least as large.
pub open spec fn stable_desc_order(keys: Seq<i128>, n: int) -> Seq<usize>
    decreases n,
{
    if n <= 0 {
        Seq::<usize>::empty()
    } else {
        let prev = stable_desc_order(keys, n - 1);
        prev.insert(first_smaller(keys, prev, n - 1, 0), (n - 1) as usize)
    }
}

proof fn lemma_first_smaller(keys: Seq<i128>, order: Seq<usize>, x: int, p: int)
    requires
        0 <= p <= order.len(),
        0 <= x < keys.len(),
        forall|i: int| 0 <= i < order.len() ==> (#[trigger] order[i]) < keys.len(),
    ensures
        p <= first_smaller(keys, order, x, p) <= order.len(),
        forall|q: int| p <= q < first_smaller(keys, order, x, p) ==> !(keys[x] > keys[#[trigger] order[q] as int]),
        first_smaller(keys, order, x, p) < order.len() ==> keys[x] > keys[order[first_smaller(keys, order, x, p)] as int],
    decreases order.len() - p,
{
    if p < order.len() && !(keys[x] > keys[order[p] as int]) {
        lemma_first_smaller(keys, order, x, p + 1);
    }
}

/// The stable descending order of the first `n` items is one: it lists each
/// of them once, largest key first, equal keys in their original order.
pub proof fn lemma_stable_desc_order(keys: Seq<i128>, n: int)
    requires
        0 <= n <= keys.len(),
        keys.len() <= usize::MAX,
    ensures
        stable_desc_order(keys, n).len() == n,
        forall|i: int| 0 <= i < n ==> (#[trigger] stable_desc_order(keys, n)[i]) < n,
        stable_desc_order(keys, n).no_duplicates(),
        forall|i: int, j: int| 0 <= i < j < n ==> comes_before(keys, #[trigger] stable_desc_order(keys, n)[i] as int, #[trigger] stable_desc_order(keys, n)[j] as int),
    decreases n,
{
    if n > 0 {
        let x = n - 1;
        let old_order = stable_desc_order(keys, n - 1);
        lemma_stable_desc_order(keys, n - 1);
        lemma_first_smaller(keys, old_order, x, 0);
        let p = first_smaller(keys, old_order, x, 0);
        let order = stable_desc_order(keys, n);
        assert(order == old_order.insert(p, x as usize));
        assert forall|i: int| 0 <= i < n implies (#[trigger] order[i]) < n by {
            if i < p {
                assert(order[i] == old_order[i]);
            } else if i > p {
                assert(order[i] == old_order[i - 1]);
            }
        }
        assert forall|i: int, j: int| 0 <= i < order.len() && 0 <= j < order.len() && i != j implies order[i] != order[j] by {
            if i != p && j != p {
                let oi = if i < p { i } else { i - 1 };
                let oj = if j < p { j } else { j - 1 };
                assert(order[i] == old_order[oi]);
                assert(order[j] == old_order[oj]);
            } else if i == p {
                let oj = if j < p { j } else { j - 1 };
                assert(order[j] == old_order[oj]);
            } else {
                let oi = if i < p { i } else { i - 1 };
                assert(order[i] == old_order[oi]);
            }
        }
        assert forall|i: int, j: int| 0 <= i < j < n implies comes_before(keys, #[trigger] order[i] as int, #[trigger] order[j] as int) by {
            if j < p {
                assert(order[i] == old_order[i]);
                assert(order[j] == old_order[j]);
            } else if i > p {
                assert(order[i] == old_order[i - 1]);
                assert(order[j] == old_order[j - 1]);
            } else if i < p && j == p {
                assert(order[i] == old_order[i]);
            } else if i < p && j > p {
                assert(order[i] == old_order[i]);
                assert(order[j] == old_order[j - 1]);
            } else if i == p {
                assert(order[j] == old_order[j - 1]);
                if j - 1 > p {
                    assert(comes_before(keys, old_order[p] as int, old_order[j - 1] as int));
                }
            }
        }
    }
}

/// The indices of `keys` sorted by descending key, equal keys keeping their
/// order (what a stable `sort_by` with reversed comparison gives).
pub fn stable_order_desc(keys: &Vec<i128>) -> (order: Vec<usize>)
    ensures
        is_stable_desc_order(keys@, order@),
        order@ == stable_desc_order(keys@, keys@.len() as int),
{
    let mut order: Vec<usize> = Vec::new();
    let mut x: usize = 0;
    while x < keys.len()
        invariant
            x <= keys.len(),
            order@ == stable_desc_order(keys@, x as int),
        decreases keys.len() - x,
    {
        proof {
            lemma_stable_desc_order(keys@, x as int);
        }
        let mut p: usize = 0;
        while p < order.len() && !(keys[x] > keys[order[p]])
            invariant
                p <= order.len(),
                x < keys.len(),
                order.len() == x,
                forall|i: int| 0 <= i < order.len() ==> (#[trigger] order@[i]) < x,
                first_smaller(keys@, order@, x as int, 0) == first_smaller(keys@, order@, x as int, p as int),
            decreases order.len() - p,
        {
            p += 1;
        }
        assert(first_smaller(keys@, order@, x as int, 0) == p);
        order.insert(p, x);
        x += 1;
    }
    proof {
        lemma_stable_desc_order(keys@, keys@.len() as int);
    }
    order
}

} // verus!
