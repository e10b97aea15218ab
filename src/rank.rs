//! Ranking of the consensus set by stake.
use vstd::prelude::*;

verus! {

/// How many of the first `n` stakes exceed `v`.
pub open spec fn count_greater(s: Seq<u128>, v: u128, n: int) -> nat
    decreases n,
{
    if n <= 0 {
        0
    } else {
        count_greater(s, v, n - 1) + if s[n - 1] > v {
            1nat
        } else {
            0nat
        }
    }
}

/// How many of the first `n` stakes equal `v`.
pub open spec fn count_equal(s: Seq<u128>, v: u128, n: int) -> nat
    decreases n,
{
    if n <= 0 {
        0
    } else {
        count_equal(s, v, n - 1) + if s[n - 1] == v {
            1nat
        } else {
            0nat
        }
    }
}

/// The 0-based place of entry `i` once the stakes are sorted from largest to
/// smallest, equal stakes keeping their order: every larger stake, and every
/// equal stake that comes earlier, goes before it.
pub open spec fn sorted_position(s: Seq<u128>, i: int) -> nat {
    count_greater(s, s[i], s.len() as int) + count_equal(s, s[i], i)
}

/// The 1-based rank of `address`: the place of its best-placed entry, plus one.
pub open spec fn is_rank_of(addresses: Seq<Seq<char>>, s: Seq<u128>, address: Seq<char>, r: int) -> bool {
    &&& exists|i: int| 0 <= i < s.len() && addresses[i] == address && r == sorted_position(s, i) + 1
    &&& forall|j: int| 0 <= j < s.len() && addresses[j] == address ==> r <= sorted_position(s, j) + 1
}

proof fn lemma_counts_bounded(s: Seq<u128>, v: u128, n: int)
    requires
        0 <= n <= s.len(),
    ensures
        count_greater(s, v, n) + count_equal(s, v, n) <= n,
    decreases n,
{
    if n > 0 {
        lemma_counts_bounded(s, v, n - 1);
    }
}

proof fn lemma_count_equal_grows(s: Seq<u128>, v: u128, i: int, n: int)
    requires
        0 <= i < n <= s.len(),
        s[i] == v,
    ensures
        count_equal(s, v, n) >= count_equal(s, v, i) + 1,
    decreases n - i,
{
    if n > i + 1 {
        lemma_count_equal_grows(s, v, i, n - 1);
    }
}

proof fn lemma_count_greater_dominates(s: Seq<u128>, v: u128, w: u128, n: int)
    requires
        0 <= n <= s.len(),
        w < v,
    ensures
        count_greater(s, w, n) >= count_greater(s, v, n) + count_equal(s, v, n),
    decreases n,
{
    if n > 0 {
        lemma_count_greater_dominates(s, v, w, n - 1);
    }
}

/// The places form a stable sort from largest stake to smallest: each lies
/// in `0..len`, a larger stake is placed before a smaller one, and of two
/// equal stakes the earlier entry is placed first.
pub proof fn lemma_sorted_position_is_stable_order(s: Seq<u128>, i: int, j: int)
    requires
        0 <= i < s.len(),
        0 <= j < s.len(),
    ensures
        sorted_position(s, i) < s.len(),
        s[i] > s[j] ==> sorted_position(s, i) < sorted_position(s, j),
        s[i] == s[j] && i < j ==> sorted_position(s, i) < sorted_position(s, j),
{
    let n = s.len() as int;
    lemma_counts_bounded(s, s[i], n);
    lemma_count_equal_grows(s, s[i], i, n);
    if s[i] > s[j] {
        lemma_count_greater_dominates(s, s[i], s[j], n);
    }
    if s[i] == s[j] && i < j {
        lemma_count_equal_grows(s, s[i], i, j);
    }
}

/// Distinct entries get distinct places.
pub proof fn lemma_sorted_position_injective(s: Seq<u128>, i: int, j: int)
    requires
        0 <= i < s.len(),
        0 <= j < s.len(),
        i != j,
    ensures
        sorted_position(s, i) != sorted_position(s, j),
{
    if s[i] > s[j] || (s[i] == s[j] && i < j) {
        lemma_sorted_position_is_stable_order(s, i, j);
    } else {
        lemma_sorted_position_is_stable_order(s, j, i);
    }
}

/// The place of entry `i` in the stable sort from largest to smallest stake.
pub fn sort_position(stakes: &Vec<u128>, i: usize) -> (r: usize)
    requires
        i < stakes@.len(),
    ensures
        r == sorted_position(stakes@, i as int),
{
    let v = stakes[i];
    let n = stakes.len();
    let mut above: usize = 0;
    let mut equal_before: usize = 0;
    let mut k: usize = 0;
    while k < n
        invariant
            n == stakes@.len(),
            i < n,
            v == stakes@[i as int],
            k <= n,
            above == count_greater(stakes@, v, k as int),
            equal_before == count_equal(stakes@, v, if k < i { k as int } else { i as int }),
            above + equal_before <= k,
        decreases n - k,
    {
        proof {
            lemma_counts_bounded(stakes@, v, k + 1);
        }
        if stakes[k] > v {
            above = above + 1;
        } else if stakes[k] == v && k < i {
            equal_before = equal_before + 1;
        }
        k = k + 1;
    }
    above + equal_before
}

/// The 1-based rank of `address` among `addresses`, by the stable sort from
/// largest to smallest stake; `None` when the address is not among them.
pub fn rank_of(addresses: &Vec<String>, stakes: &Vec<u128>, address: &String) -> (r: Option<usize>)
    requires
        addresses@.len() == stakes@.len(),
    ensures
        r.is_none() <==> (forall|i: int| 0 <= i < stakes@.len() ==> addresses@[i]@ != address@),
        r matches Some(k) ==> is_rank_of(addresses@.map_values(|a: String| a@), stakes@, address@, k as int),
{
    let ghost names = addresses@.map_values(|a: String| a@);
    let n = stakes.len();
    let mut best: Option<usize> = None;
    let mut i: usize = 0;
    while i < n
        invariant
            n == stakes@.len(),
            addresses@.len() == n,
            names == addresses@.map_values(|a: String| a@),
            i <= n,
            best.is_none() <==> (forall|j: int| 0 <= j < i ==> addresses@[j]@ != address@),
            best matches Some(k) ==> {
                &&& exists|j: int| 0 <= j < i && names[j] == address@ && k == sorted_position(stakes@, j) + 1
                &&& forall|j: int| 0 <= j < i && names[j] == address@ ==> k <= sorted_position(stakes@, j) + 1
            },
        decreases n - i,
    {
        if addresses[i] == *address {
            let p = sort_position(stakes, i);
            proof {
                lemma_sorted_position_is_stable_order(stakes@, i as int, i as int);
            }
            let better = match best {
                Some(k) => p + 1 < k,
                None => true,
            };
            if better {
                best = Some(p + 1);
            }
        }
        proof {
            assert(names[i as int] == addresses@[i as int]@);
        }
        i = i + 1;
    }
    best
}

} // verus!
