//! Stable ordering by keys.
//!
//! Every list the program sorts (the library by name, the search results by
//! score, the achievements by the chosen column) is sorted stably: items that
//! compare equal keep the order they came in. Each caller turns an item into a
//! key, a sequence of integers compared lexicographically, and
//! [`stable_order`] returns the positions of the items in sorted order.

use vstd::prelude::*;

verus! {

/// Lexicographic order on keys: the first difference decides, and a proper
/// prefix comes first.
pub open spec fn key_less(a: Seq<u64>, b: Seq<u64>) -> bool
    decreases a.len(),
{
    if a.len() == 0 {
        b.len() > 0
    } else if b.len() == 0 {
        false
    } else if a[0] < b[0] {
        true
    } else if a[0] > b[0] {
        false
    } else {
        key_less(a.drop_first(), b.drop_first())
    }
}

/// Item `i` comes before item `j`: a smaller key, or an equal key and an
/// earlier position.
pub open spec fn ranks_before(keys: Seq<Seq<u64>>, i: int, j: int) -> bool {
    key_less(keys[i], keys[j]) || (keys[i] == keys[j] && i < j)
}

/// `order` lists positions so that each ranks before every later one.
pub open spec fn sorted_by_rank(keys: Seq<Seq<u64>>, order: Seq<usize>) -> bool {
    forall|a: int, b: int|
        #![trigger order[a], order[b]]
        0 <= a < b < order.len() ==> ranks_before(keys, order[a] as int, order[b] as int)
}

/// `order` holds each of `0..n` exactly once.
pub open spec fn is_index_permutation(order: Seq<usize>, n: nat) -> bool {
    &&& order.len() == n
    &&& forall|a: int| 0 <= a < n ==> #[trigger] order[a] < n
    &&& forall|a: int, b: int| #![trigger order[a], order[b]] 0 <= a < b < n ==> order[a] != order[b]
}

pub proof fn lemma_key_less_transitive(a: Seq<u64>, b: Seq<u64>, c: Seq<u64>)
    requires
        key_less(a, b),
        key_less(b, c),
    ensures
        key_less(a, c),
    decreases a.len(),
{
    if a.len() > 0 && b.len() > 0 && c.len() > 0 && a[0] == b[0] && b[0] == c[0] {
        lemma_key_less_transitive(a.drop_first(), b.drop_first(), c.drop_first());
    }
}

pub proof fn lemma_key_less_total(a: Seq<u64>, b: Seq<u64>)
    ensures
        a == b || key_less(a, b) || key_less(b, a),
    decreases a.len(),
{
    if a.len() > 0 && b.len() > 0 && a[0] == b[0] {
        lemma_key_less_total(a.drop_first(), b.drop_first());
        if a.drop_first() == b.drop_first() {
            assert(a == seq![a[0]] + a.drop_first());
            assert(b == seq![b[0]] + b.drop_first());
        }
    } else if a.len() == 0 && b.len() == 0 {
        assert(a == b);
    }
}

/// Whether key `a` comes before key `b`.
pub fn key_before(a: &Vec<u64>, b: &Vec<u64>) -> (r: bool)
    ensures
        r == key_less(a@, b@),
{
    let mut k: usize = 0;
    assert(a@.skip(0) == a@ && b@.skip(0) == b@);
    while k < a.len() && k < b.len() && a[k] == b[k]
        invariant
            k <= a@.len(),
            k <= b@.len(),
            key_less(a@, b@) == key_less(a@.skip(k as int), b@.skip(k as int)),
        decreases a@.len() - k,
    {
        assert(a@.skip(k as int).drop_first() == a@.skip(k + 1));
        assert(b@.skip(k as int).drop_first() == b@.skip(k + 1));
        k = k + 1;
    }
    if k == a.len() {
        k < b.len()
    } else if k == b.len() {
        false
    } else {
        a[k] < b[k]
    }
}

/// The positions of `keys`, ordered by key; equal keys keep their order.
pub fn stable_order(keys: &Vec<Vec<u64>>) -> (order: Vec<usize>)
    ensures
        is_index_permutation(order@, keys@.len()),
        sorted_by_rank(keys.deep_view(), order@),
{
    let ghost ks = keys.deep_view();
    let mut order: Vec<usize> = Vec::new();
    let mut i: usize = 0;
    while i < keys.len()
        invariant
            i <= keys@.len(),
            ks == keys.deep_view(),
            ks.len() == keys@.len(),
            is_index_permutation(order@, i as nat),
            sorted_by_rank(ks, order@),
        decreases keys@.len() - i,
    {
        assert(ks[i as int] == keys@[i as int]@);
        let mut p: usize = 0;
        while p < order.len() && !key_before(&keys[i], &keys[order[p]])
            invariant
                p <= order@.len(),
                i < keys@.len(),
                ks == keys.deep_view(),
                ks[i as int] == keys@[i as int]@,
                is_index_permutation(order@, i as nat),
                forall|q: int| 0 <= q < p ==> !key_less(ks[i as int], #[trigger] ks[order@[q] as int]),
            decreases order@.len() - p,
        {
            assert(ks[order@[p as int] as int] == keys@[order@[p as int] as int]@);
            p = p + 1;
        }
        proof {
            if p < order@.len() {
                assert(ks[order@[p as int] as int] == keys@[order@[p as int] as int]@);
            }
        }
        let ghost old_order = order@;
        order.insert(p, i);
        proof {
            assert(order@ == old_order.take(p as int).push(i).add(old_order.skip(p as int)));
            assert forall|a: int| 0 <= a < i + 1 implies #[trigger] order@[a] < i + 1 by {
                if a < p {
                    assert(order@[a] == old_order[a]);
                } else if a > p {
                    assert(order@[a] == old_order[a - 1]);
                }
            }
            assert forall|a: int, b: int|
                #![trigger order@[a], order@[b]]
                0 <= a < b < i + 1 implies order@[a] != order@[b] by {
                if a < p && b < p {
                    assert(order@[a] == old_order[a] && order@[b] == old_order[b]);
                } else if a < p && b == p {
                    assert(order@[a] == old_order[a]);
                } else if a < p && b > p {
                    assert(order@[a] == old_order[a] && order@[b] == old_order[b - 1]);
                } else if a == p {
                    assert(order@[b] == old_order[b - 1]);
                } else {
                    assert(order@[a] == old_order[a - 1] && order@[b] == old_order[b - 1]);
                }
            }
            assert forall|a: int, b: int|
                #![trigger order@[a], order@[b]]
                0 <= a < b < order@.len() implies ranks_before(
                ks,
                order@[a] as int,
                order@[b] as int,
            ) by {
                let x = order@[a] as int;
                let y = order@[b] as int;
                if a < p && b < p {
                    assert(x == old_order[a] && y == old_order[b]);
                } else if a < p && b == p {
                    assert(x == old_order[a]);
                    assert(!key_less(ks[i as int], ks[x]));
                    lemma_key_less_total(ks[i as int], ks[x]);
                } else if a < p && b > p {
                    assert(x == old_order[a] && y == old_order[b - 1]);
                } else if a == p {
                    assert(y == old_order[b - 1]);
                    let z = old_order[p as int] as int;
                    assert(key_less(ks[i as int], ks[z]));
                    if b - 1 > p {
                        assert(ranks_before(ks, z, y));
                        if key_less(ks[z], ks[y]) {
                            lemma_key_less_transitive(ks[i as int], ks[z], ks[y]);
                        }
                    }
                } else {
                    assert(x == old_order[a - 1] && y == old_order[b - 1]);
                }
            }
        }
        i = i + 1;
    }
    order
}

} // verus!
