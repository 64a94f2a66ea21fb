//! Ordering of items by a numeric key, largest first, for the process tables.
use vstd::prelude::*;

verus! {

/// Item `i` is listed before item `j`: a larger key comes first, and equal keys
/// keep the order in which the items were given.
pub open spec fn ranks_before(keys: Seq<u64>, i: int, j: int) -> bool {
    keys[i] > keys[j] || (keys[i] == keys[j] && i < j)
}

/// Item `i` takes part in the ranking: it exists, and its key is positive
/// where only positive keys are wanted.
pub open spec fn eligible(keys: Seq<u64>, positive_only: bool, i: int) -> bool {
    0 <= i < keys.len() && (!positive_only || keys[i] > 0)
}

/// `order` lists eligible items, each ranked before the next.
pub open spec fn ranked(keys: Seq<u64>, positive_only: bool, order: Seq<usize>) -> bool {
    &&& forall|a: int| 0 <= a < order.len() ==> eligible(keys, positive_only, #[trigger] order[a] as int)
    &&& forall|a: int, b: int|
        0 <= a < b < order.len() ==> ranks_before(keys, #[trigger] order[a] as int, #[trigger] order[b] as int)
}

/// `order` holds the first `limit` eligible items in ranking order, or all of them
/// where there are fewer: it is ranked, no longer than `limit`, every eligible item
/// left out ranks after every listed one, and items are left out only when `limit` is reached.
pub open spec fn top_ranked(keys: Seq<u64>, positive_only: bool, limit: nat, order: Seq<usize>) -> bool {
    &&& ranked(keys, positive_only, order)
    &&& order.len() <= limit
    &&& forall|k: usize|
        #![trigger order.contains(k)]
        eligible(keys, positive_only, k as int) && !order.contains(k) ==> {
            &&& order.len() == limit
            &&& forall|a: int| 0 <= a < order.len() ==> ranks_before(keys, #[trigger] order[a] as int, k as int)
        }
}

proof fn lemma_keys_nonincreasing(keys: Seq<u64>, positive_only: bool, order: Seq<usize>, a: int, b: int)
    requires
        ranked(keys, positive_only, order),
        0 <= a <= b < order.len(),
    ensures
        keys[order[a] as int] >= keys[order[b] as int],
{
    if a < b {
        assert(ranks_before(keys, order[a] as int, order[b] as int));
    }
}

proof fn lemma_ranked_distinct(keys: Seq<u64>, positive_only: bool, order: Seq<usize>, a: int, b: int)
    requires
        ranked(keys, positive_only, order),
        0 <= a < order.len(),
        0 <= b < order.len(),
        a != b,
    ensures
        order[a] != order[b],
{
    if a < b {
        assert(ranks_before(keys, order[a] as int, order[b] as int));
    } else {
        assert(ranks_before(keys, order[b] as int, order[a] as int));
    }
}

/// The items shown are determined by the keys and the limit alone: any two lists
/// that both hold the first `limit` items in ranking order are the same list.
pub proof fn lemma_top_ranked_unique(
    keys: Seq<u64>,
    positive_only: bool,
    limit: nat,
    o1: Seq<usize>,
    o2: Seq<usize>,
)
    requires
        top_ranked(keys, positive_only, limit, o1),
        top_ranked(keys, positive_only, limit, o2),
    ensures
        o1 == o2,
{
    let n = if o1.len() < o2.len() { o1.len() } else { o2.len() };
    assert forall|a: int| 0 <= a < n implies o1[a] == o2[a] by {
        lemma_top_ranked_prefix(keys, positive_only, limit, o1, o2, a);
    }
    if o1.len() < o2.len() {
        lemma_top_ranked_longer(keys, positive_only, limit, o1, o2);
    } else if o2.len() < o1.len() {
        lemma_top_ranked_longer(keys, positive_only, limit, o2, o1);
    }
    assert(o1 =~= o2);
}

proof fn lemma_top_ranked_prefix(
    keys: Seq<u64>,
    positive_only: bool,
    limit: nat,
    o1: Seq<usize>,
    o2: Seq<usize>,
    a: int,
)
    requires
        top_ranked(keys, positive_only, limit, o1),
        top_ranked(keys, positive_only, limit, o2),
        0 <= a < o1.len(),
        a < o2.len(),
    ensures
        forall|c: int| 0 <= c <= a ==> o1[c] == o2[c],
    decreases a,
{
    if a > 0 {
        lemma_top_ranked_prefix(keys, positive_only, limit, o1, o2, a - 1);
    }
    let x = o1[a];
    let y = o2[a];
    if x != y {
        // y ranks before x in o2
        assert(ranks_before(keys, y as int, x as int)) by {
            assert(eligible(keys, positive_only, x as int));
            if o2.contains(x) {
                let b = choose|b: int| 0 <= b < o2.len() && o2[b] == x;
                if b < a {
                    assert(o1[b] == x);
                    lemma_ranked_distinct(keys, positive_only, o1, a, b);
                } else {
                    assert(b != a);
                    assert(ranks_before(keys, o2[a] as int, o2[b] as int));
                }
            } else {
                assert(ranks_before(keys, o2[a] as int, x as int));
            }
        }
        assert(ranks_before(keys, x as int, y as int)) by {
            assert(eligible(keys, positive_only, y as int));
            if o1.contains(y) {
                let b = choose|b: int| 0 <= b < o1.len() && o1[b] == y;
                if b < a {
                    assert(o2[b] == y);
                    lemma_ranked_distinct(keys, positive_only, o2, a, b);
                } else {
                    assert(b != a);
                    assert(ranks_before(keys, o1[a] as int, o1[b] as int));
                }
            } else {
                assert(ranks_before(keys, o1[a] as int, y as int));
            }
        }
    }
}

proof fn lemma_top_ranked_longer(
    keys: Seq<u64>,
    positive_only: bool,
    limit: nat,
    o1: Seq<usize>,
    o2: Seq<usize>,
)
    requires
        top_ranked(keys, positive_only, limit, o1),
        top_ranked(keys, positive_only, limit, o2),
        forall|a: int| 0 <= a < o1.len() && a < o2.len() ==> o1[a] == o2[a],
    ensures
        o2.len() <= o1.len(),
{
    if o1.len() >= o2.len() {
        return;
    }
    let z = o2[o1.len() as int];
    assert(eligible(keys, positive_only, z as int));
    if o1.contains(z) {
        let c = choose|c: int| 0 <= c < o1.len() && o1[c] == z;
        assert(o2[c] == z);
        lemma_ranked_distinct(keys, positive_only, o2, c, o1.len() as int);
    } else {
        assert(o1.len() == limit);
    }
}

/// The eligible items, all of them, in ranking order.
fn rank_all(keys: &Vec<u64>, positive_only: bool) -> (order: Vec<usize>)
    ensures
        ranked(keys@, positive_only, order@),
        forall|k: usize| eligible(keys@, positive_only, k as int) <==> #[trigger] order@.contains(k),
{
    let mut order: Vec<usize> = Vec::new();
    let n = keys.len();
    let mut i: usize = 0;
    while i < n
        invariant
            n == keys.len(),
            i <= n,
            ranked(keys@, positive_only, order@),
            forall|k: usize| (eligible(keys@, positive_only, k as int) && k < i) <==> #[trigger] order@.contains(k),
        decreases n - i,
    {
        let key = keys[i];
        if !positive_only || key > 0 {
            // every listed item has a smaller index than i
            assert forall|a: int| 0 <= a < order@.len() implies order@[a] < i by {
                assert(order@.contains(order@[a]));
            }
            let mut p: usize = 0;
            while p < order.len() && keys[order[p]] >= key
                invariant
                    n == keys.len(),
                    p <= order@.len(),
                    ranked(keys@, positive_only, order@),
                    forall|a: int| 0 <= a < p ==> keys@[#[trigger] order@[a] as int] >= key,
                decreases order@.len() - p,
            {
                p = p + 1;
            }
            let ghost old_order = order@;
            order.insert(p, i);
            assert(order@ == old_order.insert(p as int, i));
            assert forall|a: int, b: int|
                0 <= a < b < order@.len() implies ranks_before(keys@, #[trigger] order@[a] as int, #[trigger] order@[b] as int) by {
                if b < p {
                    assert(order@[a] == old_order[a] && order@[b] == old_order[b]);
                } else if b == p {
                    assert(order@[a] == old_order[a]);
                    assert(old_order[a] < i);
                } else if a < p {
                    assert(order@[a] == old_order[a] && order@[b] == old_order[b - 1]);
                } else if a == p {
                    assert(order@[b] == old_order[b - 1]);
                    assert(keys@[old_order[p as int] as int] < key);
                    lemma_keys_nonincreasing(keys@, positive_only, old_order, p as int, b - 1);
                } else {
                    assert(order@[a] == old_order[a - 1] && order@[b] == old_order[b - 1]);
                }
            }
            assert forall|k: usize| (eligible(keys@, positive_only, k as int) && k < i + 1) <==> #[trigger] order@.contains(k) by {
                if order@.contains(k) {
                    let a = choose|a: int| 0 <= a < order@.len() && order@[a] == k;
                    if a < p {
                        assert(old_order[a] == k);
                        assert(old_order.contains(k));
                    } else if a > p {
                        assert(old_order[a - 1] == k);
                        assert(old_order.contains(k));
                    }
                }
                if eligible(keys@, positive_only, k as int) && k < i + 1 {
                    if k < i {
                        assert(old_order.contains(k));
                        let a = choose|a: int| 0 <= a < old_order.len() && old_order[a] == k;
                        if a < p {
                            assert(order@[a] == k);
                        } else {
                            assert(order@[a + 1] == k);
                        }
                    } else {
                        assert(order@[p as int] == i);
                    }
                }
            }
        } else {
            assert forall|k: usize| (eligible(keys@, positive_only, k as int) && k < i + 1) <==> #[trigger] order@.contains(k) by {
                if k == i {
                    assert(!eligible(keys@, positive_only, k as int));
                }
            }
        }
        i = i + 1;
    }
    order
}

/// The first `limit` eligible items in ranking order.
fn rank_top(keys: &Vec<u64>, positive_only: bool, limit: usize) -> (order: Vec<usize>)
    ensures
        top_ranked(keys@, positive_only, limit as nat, order@),
{
    let mut order = rank_all(keys, positive_only);
    let ghost all = order@;
    order.truncate(limit);
    proof {
        if limit <= all.len() {
            assert(order@ == all.subrange(0, limit as int));
            assert forall|k: usize|
                #![trigger order@.contains(k)]
                eligible(keys@, positive_only, k as int) && !order@.contains(k) implies {
                    &&& order@.len() == limit
                    &&& forall|a: int| 0 <= a < order@.len() ==> ranks_before(keys@, #[trigger] order@[a] as int, k as int)
                } by {
                assert(all.contains(k));
                let b = choose|b: int| 0 <= b < all.len() && all[b] == k;
                if b < limit {
                    assert(order@[b] == k);
                }
                assert forall|a: int| 0 <= a < order@.len() implies ranks_before(keys@, #[trigger] order@[a] as int, k as int) by {
                    assert(order@[a] == all[a]);
                    assert(ranks_before(keys@, all[a] as int, all[b] as int));
                }
            }
        } else {
            assert(order@ == all);
        }
    }
    order
}

/// Indices of the `limit` items with the largest keys, largest first; items with
/// equal keys keep their given order.
pub fn rank_by_key(keys: &Vec<u64>, limit: usize) -> (order: Vec<usize>)
    ensures
        top_ranked(keys@, false, limit as nat, order@),
{
    rank_top(keys, false, limit)
}

/// Indices of the processes with at least one network connection, most connections
/// first (ties in their given order), at most `limit` of them.
pub fn top_network_consumers(connections: &Vec<usize>, limit: usize) -> (order: Vec<usize>)
    ensures
        top_ranked(connections@.map_values(|c: usize| c as u64), true, limit as nat, order@),
{
    let mut keys: Vec<u64> = Vec::new();
    let mut i: usize = 0;
    while i < connections.len()
        invariant
            i <= connections.len(),
            keys@ == connections@.take(i as int).map_values(|c: usize| c as u64),
        decreases connections.len() - i,
    {
        keys.push(connections[i] as u64);
        assert(connections@.take(i + 1) == connections@.take(i as int).push(connections@[i as int]));
        i = i + 1;
    }
    assert(connections@.take(connections.len() as int) == connections@);
    rank_top(&keys, true, limit)
}

/// The rank key of a 64-bit pattern: with the sign bit clear, the pattern with that
/// bit set; with it set, the pattern's complement.
pub open spec fn rank_key(bits: u64) -> u64 {
    if bits >> 63u64 == 1 { !bits } else { bits | 0x8000_0000_0000_0000u64 }
}

/// The key by which a cost is ranked, computed from the bit pattern of the cost.
/// Keys keep the order of patterns whose sign bit is clear, reverse the order of
/// patterns whose sign bit is set, and put every pattern with the sign bit set below
/// every pattern with it clear (see `lemma_rank_key_order`).
pub fn cost_rank_key(bits: u64) -> (key: u64)
    ensures
        key == rank_key(bits),
        bits >> 63u64 == 0 ==> key == bits + 0x8000_0000_0000_0000u64,
        bits >> 63u64 == 1 ==> key == u64::MAX - bits,
{
    if bits >> 63u64 == 1 {
        assert(bits >> 63u64 == 1 ==> !bits == u64::MAX - bits) by (bit_vector);
        !bits
    } else {
        assert(bits >> 63u64 != 1 ==> bits | 0x8000_0000_0000_0000u64 == bits + 0x8000_0000_0000_0000u64)
            by (bit_vector);
        assert(bits >> 63u64 != 1 ==> bits >> 63u64 == 0) by (bit_vector);
        bits | 0x8000_0000_0000_0000u64
    }
}

/// How rank keys order bit patterns: among patterns with the sign bit clear, as
/// the patterns do; among patterns with it set, the other way round; and every
/// pattern with the sign bit set ranks below every pattern with it clear.
pub proof fn lemma_rank_key_order(a: u64, b: u64)
    ensures
        a >> 63u64 == 0 && b >> 63u64 == 0 ==> (rank_key(a) < rank_key(b) <==> a < b),
        a >> 63u64 == 1 && b >> 63u64 == 1 ==> (rank_key(a) < rank_key(b) <==> a > b),
        a >> 63u64 == 1 && b >> 63u64 == 0 ==> rank_key(a) < rank_key(b),
        a >> 63u64 == 0 || a >> 63u64 == 1,
{
    assert(a >> 63u64 == 0 && b >> 63u64 == 0 ==> ((a | 0x8000_0000_0000_0000u64) < (b | 0x8000_0000_0000_0000u64) <==> a < b))
        by (bit_vector);
    assert(a >> 63u64 == 1 && b >> 63u64 == 1 ==> (!a < !b <==> a > b)) by (bit_vector);
    assert(a >> 63u64 == 1 && b >> 63u64 == 0 ==> !a < (b | 0x8000_0000_0000_0000u64)) by (bit_vector);
    assert(a >> 63u64 == 0 || a >> 63u64 == 1) by (bit_vector);
}

} // verus!
