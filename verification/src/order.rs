//! Stable ranking of items by a key: higher score first, then more recent
//! time stamp, then lower id, and finally the item's position in the input.
//!
//! The input position makes the order strict and total, so the ranked
//! arrangement of a list is unique: this is what a stable sort produces.
use vstd::prelude::*;

verus! {

/// The ranking key of one item.
#[derive(Clone, Copy, Debug)]
pub struct RankKey {
    /// Higher scores come first.
    pub score: u32,
    /// Among equal scores, larger (more recent) stamps come first.
    pub stamp: i64,
    /// Among equal scores and stamps, lower ids come first.
    pub id: u32,
    /// Among equal scores, stamps and ids, the earlier position comes first.
    pub pos: usize,
}

/// `a` is ranked strictly before `b`.
pub open spec fn ranks_before(a: RankKey, b: RankKey) -> bool {
    ||| a.score > b.score
    ||| a.score == b.score && a.stamp > b.stamp
    ||| a.score == b.score && a.stamp == b.stamp && a.id < b.id
    ||| a.score == b.score && a.stamp == b.stamp && a.id == b.id && a.pos < b.pos
}

/// A key that sorts by id alone (and then by position).
pub open spec fn id_key(id: u32, pos: usize) -> RankKey {
    RankKey { score: 0, stamp: 0, id, pos }
}

/// `order` lists each index below `n` exactly once.
pub open spec fn is_index_permutation(order: Seq<usize>, n: nat) -> bool {
    &&& order.len() == n
    &&& forall|k: int| 0 <= k < order.len() ==> #[trigger] order[k] < n
    &&& forall|a: int, b: int| 0 <= a < b < order.len() ==> order[a] != order[b]
}

/// The keys taken in the order `order` are strictly ranked.
pub open spec fn ranked(keys: Seq<RankKey>, order: Seq<usize>) -> bool {
    forall|a: int, b: int|
        0 <= a < b < order.len() ==> ranks_before(
            #[trigger] keys[order[a] as int],
            #[trigger] keys[order[b] as int],
        )
}

/// No two keys share a position.
pub open spec fn distinct_positions(keys: Seq<RankKey>) -> bool {
    forall|a: int, b: int|
        0 <= a < b < keys.len() ==> #[trigger] keys[a].pos != #[trigger] keys[b].pos
}

/// Whether `a` is ranked strictly before `b`.
pub fn rank_before(a: &RankKey, b: &RankKey) -> (r: bool)
    ensures
        r == ranks_before(*a, *b),
{
    if a.score != b.score {
        a.score > b.score
    } else if a.stamp != b.stamp {
        a.stamp > b.stamp
    } else if a.id != b.id {
        a.id < b.id
    } else {
        a.pos < b.pos
    }
}

/// An index permutation of the whole range holds every index.
pub proof fn lemma_permutation_covers(order: Seq<usize>, n: nat, i: int)
    requires
        is_index_permutation(order, n),
        0 <= i < n,
    ensures
        exists|k: int| 0 <= k < order.len() && order[k] == i,
{
    let ords = order.map_values(|x: usize| x as int);
    let values = ords.to_set();
    let range = Set::new(|x: int| 0 <= x < n);
    assert(ords.no_duplicates()) by {
        assert forall|a: int, b: int|
            0 <= a < ords.len() && 0 <= b < ords.len() && a != b implies ords[a] != ords[b] by {
            if a < b {
                assert(order[a] != order[b]);
            } else {
                assert(order[b] != order[a]);
            }
        }
    }
    ords.unique_seq_to_set();
    assert(values.subset_of(range)) by {
        assert forall|x: int| values.contains(x) implies range.contains(x) by {
            let k = choose|k: int| 0 <= k < ords.len() && ords[k] == x;
            assert(order[k] < n);
        }
    }
    vstd::set_lib::lemma_int_range(0, n as int);
    assert(range =~= vstd::set_lib::set_int_range(0, n as int));
    if !values.contains(i) {
        vstd::set_lib::lemma_len_subset(values, range.remove(i));
        assert(values.subset_of(range.remove(i)));
    }
    let k = choose|k: int| 0 <= k < ords.len() && ords[k] == i;
    assert(order[k] == i);
}

/// No index occurs twice in `order`.
pub open spec fn no_repeats(order: Seq<usize>) -> bool {
    forall|a: int, b: int| 0 <= a < b < order.len() ==> order[a] != order[b]
}

/// A ranked arrangement is unique: two orders without repeats that hold the
/// same indices and are both strictly ranked by the same keys are equal.
pub proof fn lemma_ranked_order_unique(keys: Seq<RankKey>, o1: Seq<usize>, o2: Seq<usize>)
    requires
        no_repeats(o1),
        no_repeats(o2),
        forall|x: usize| o1.contains(x) <==> o2.contains(x),
        ranked(keys, o1),
        ranked(keys, o2),
    ensures
        o1 == o2,
    decreases o1.len(),
{
    if o1.len() == 0 {
        if o2.len() > 0 {
            assert(o2.contains(o2[0]));
        }
        assert(o1 =~= o2);
    } else {
        assert(o1.contains(o1[0]));
        let j = choose|j: int| 0 <= j < o2.len() && o2[j] == o1[0];
        if j > 0 {
            assert(o2.contains(o2[0]));
            let i = choose|i: int| 0 <= i < o1.len() && o1[i] == o2[0];
            assert(o2[0] != o2[j]);
            assert(i > 0);
            assert(ranks_before(keys[o2[0] as int], keys[o2[j] as int]));
            assert(ranks_before(keys[o1[0] as int], keys[o1[i] as int]));
            assert(false);
        }
        let t1 = o1.drop_first();
        let t2 = o2.drop_first();
        assert forall|x: usize| t1.contains(x) <==> t2.contains(x) by {
            if t1.contains(x) {
                let a = choose|a: int| 0 <= a < t1.len() && t1[a] == x;
                assert(o1[a + 1] == x);
                assert(o1.contains(x));
                let b = choose|b: int| 0 <= b < o2.len() && o2[b] == x;
                assert(x != o1[0]);
                assert(b != 0);
                assert(t2[b - 1] == x);
            }
            if t2.contains(x) {
                let b = choose|b: int| 0 <= b < t2.len() && t2[b] == x;
                assert(o2[b + 1] == x);
                assert(o2.contains(x));
                let a = choose|a: int| 0 <= a < o1.len() && o1[a] == x;
                assert(x != o2[0]);
                assert(a != 0);
                assert(t1[a - 1] == x);
            }
        }
        assert forall|a: int, b: int| 0 <= a < b < t1.len() implies ranks_before(
            #[trigger] keys[t1[a] as int],
            #[trigger] keys[t1[b] as int],
        ) by {
            assert(t1[a] == o1[a + 1] && t1[b] == o1[b + 1]);
        }
        assert forall|a: int, b: int| 0 <= a < b < t2.len() implies ranks_before(
            #[trigger] keys[t2[a] as int],
            #[trigger] keys[t2[b] as int],
        ) by {
            assert(t2[a] == o2[a + 1] && t2[b] == o2[b + 1]);
        }
        assert forall|a: int, b: int| 0 <= a < b < t1.len() implies t1[a] != t1[b] by {
            assert(t1[a] == o1[a + 1] && t1[b] == o1[b + 1]);
        }
        assert forall|a: int, b: int| 0 <= a < b < t2.len() implies t2[a] != t2[b] by {
            assert(t2[a] == o2[a + 1] && t2[b] == o2[b + 1]);
        }
        lemma_ranked_order_unique(keys, t1, t2);
        assert(o1 =~= seq![o1[0]] + t1);
        assert(o2 =~= seq![o2[0]] + t2);
    }
}

/// The order in which the keys are ranked: a permutation of their indices
/// under which they are strictly ranked.
pub fn rank_order(keys: &Vec<RankKey>) -> (order: Vec<usize>)
    requires
        distinct_positions(keys@),
    ensures
        is_index_permutation(order@, keys@.len()),
        ranked(keys@, order@),
{
    let n = keys.len();
    let mut order: Vec<usize> = Vec::new();
    let mut i: usize = 0;
    while i < n
        invariant
            n == keys@.len(),
            i <= n,
            distinct_positions(keys@),
            is_index_permutation(order@, i as nat),
            ranked(keys@, order@),
        decreases n - i,
    {
        let mut p: usize = order.len();
        while p > 0 && rank_before(&keys[i], &keys[order[p - 1]])
            invariant
                n == keys@.len(),
                i < n,
                p <= order@.len() == i,
                distinct_positions(keys@),
                is_index_permutation(order@, i as nat),
                ranked(keys@, order@),
                forall|q: int|
                    p <= q < order@.len() ==> ranks_before(
                        keys@[i as int],
                        #[trigger] keys@[order@[q] as int],
                    ),
            decreases p,
        {
            p = p - 1;
        }
        let ghost old_order = order@;
        proof {
            if p > 0 {
                let j = old_order[p - 1] as int;
                assert(keys@[j].pos != keys@[i as int].pos) by {
                    if j < i {
                    }
                }
            }
        }
        order.insert(p, i);
        assert forall|k: int| 0 <= k < order@.len() implies #[trigger] order@[k] < i + 1 by {
            if k < p {
                assert(order@[k] == old_order[k]);
            } else if k > p {
                assert(order@[k] == old_order[k - 1]);
            }
        }
        assert forall|a: int, b: int| 0 <= a < b < order@.len() implies order@[a] != order@[b] by {
            if b < p {
                assert(order@[a] == old_order[a] && order@[b] == old_order[b]);
            } else if a > p {
                assert(order@[a] == old_order[a - 1] && order@[b] == old_order[b - 1]);
            } else if a < p && b > p {
                assert(order@[a] == old_order[a] && order@[b] == old_order[b - 1]);
            } else if a == p {
                assert(order@[b] == old_order[b - 1]);
                assert(old_order[b - 1] < i);
            } else {
                assert(order@[a] == old_order[a]);
                assert(old_order[a] < i);
            }
        }
        assert forall|a: int, b: int| 0 <= a < b < order@.len() implies ranks_before(
            #[trigger] keys@[order@[a] as int],
            #[trigger] keys@[order@[b] as int],
        ) by {
            if b < p {
                assert(order@[a] == old_order[a] && order@[b] == old_order[b]);
            } else if a > p {
                assert(order@[a] == old_order[a - 1] && order@[b] == old_order[b - 1]);
            } else if a < p && b > p {
                assert(order@[a] == old_order[a] && order@[b] == old_order[b - 1]);
                let m = old_order[p - 1] as int;
                assert(ranks_before(keys@[old_order[a] as int], keys@[m]) || a == p - 1);
                assert(ranks_before(keys@[m], keys@[i as int]));
                assert(ranks_before(keys@[i as int], keys@[old_order[b - 1] as int]));
            } else if a == p {
                assert(order@[b] == old_order[b - 1]);
            } else {
                assert(order@[a] == old_order[a]);
                let m = old_order[p - 1] as int;
                assert(ranks_before(keys@[old_order[a] as int], keys@[m]) || a == p - 1);
                assert(ranks_before(keys@[m], keys@[i as int]));
            }
        }
        i = i + 1;
    }
    order
}

} // verus!
