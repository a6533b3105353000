//! Ranking counted keys, busiest first.

use vstd::prelude::*;
use crate::tables::{spec_keys_distinct, spec_lists_map};

verus! {

pub open spec fn spec_min(a: nat, b: nat) -> nat {
    if a <= b {
        a
    } else {
        b
    }
}

/// `r` lists `min(limit, number of keys)` distinct keys of `counts` with
/// their counts, busiest first, and no key left out is busier than any key
/// listed. Keys with equal counts may come in either order.
pub open spec fn spec_is_ranking<K>(counts: Map<K, u64>, limit: nat, r: Seq<(K, u64)>) -> bool {
    &&& r.len() == spec_min(limit, counts.dom().len())
    &&& forall|i: int|
        0 <= i < r.len() ==> #[trigger] counts.contains_key(r[i].0) && counts[r[i].0] == r[i].1
    &&& forall|i: int, j: int| 0 <= i < j < r.len() ==> r[i].0 != r[j].0
    &&& forall|i: int, j: int| 0 <= i <= j < r.len() ==> r[i].1 >= r[j].1
    &&& forall|k: K, i: int|
        #![trigger counts[k], r[i]]
        counts.contains_key(k) && (forall|t: int| 0 <= t < r.len() ==> r[t].0 != k) && 0 <= i
            < r.len() ==> counts[k] <= r[i].1
}

/// `order` picks `r` out of `e` by index: distinct indices, busiest first,
/// and every entry not picked is no busier than any entry picked.
pub open spec fn spec_is_selection<K>(
    e: Seq<(K, u64)>,
    limit: nat,
    r: Seq<(K, u64)>,
    order: Seq<int>,
) -> bool {
    &&& r.len() == spec_min(limit, e.len())
    &&& order.len() == r.len()
    &&& forall|t: int| 0 <= t < r.len() ==> 0 <= #[trigger] order[t] < e.len() && r[t] == e[order[t]]
    &&& forall|s: int, t: int| 0 <= s < t < order.len() ==> order[s] != order[t]
    &&& forall|s: int, t: int| 0 <= s <= t < r.len() ==> r[s].1 >= r[t].1
    &&& forall|j: int, t: int|
        #![trigger e[j], r[t]]
        0 <= j < e.len() && !order.contains(j) && 0 <= t < r.len() ==> e[j].1 <= r[t].1
}

/// Picks the `limit` busiest entries of `entries`, busiest first; among
/// equally busy entries the earlier one comes first.
pub fn select_top<K: Copy>(entries: &Vec<(K, u64)>, limit: usize) -> (res: (
    Vec<(K, u64)>,
    Ghost<Seq<int>>,
))
    ensures
        spec_is_selection(entries@, limit as nat, res.0@, res.1@),
{
    let n = entries.len();
    let mut remaining: Vec<usize> = Vec::new();
    let mut k: usize = 0;
    while k < n
        invariant
            n == entries@.len(),
            k <= n,
            remaining@.len() == k,
            forall|j: int| 0 <= j < k ==> remaining@[j] == j,
        decreases n - k,
    {
        remaining.push(k);
        k = k + 1;
    }
    let mut r: Vec<(K, u64)> = Vec::new();
    let ghost mut order: Seq<int> = Seq::empty();
    assert forall|j: int| 0 <= j < n && !order.contains(j) implies #[trigger] remaining@.contains(
        j as usize,
    ) by {
        assert(remaining@[j] == j as usize);
    }
    while r.len() < limit && r.len() < n
        invariant
            n == entries@.len(),
            r@.len() <= limit,
            r@.len() + remaining@.len() == n,
            order.len() == r@.len(),
            forall|t: int|
                0 <= t < r@.len() ==> 0 <= #[trigger] order[t] < n && r@[t] == entries@[order[t]],
            forall|s: int, t: int| 0 <= s < t < order.len() ==> order[s] != order[t],
            forall|s: int, t: int| 0 <= s <= t < r@.len() ==> r@[s].1 >= r@[t].1,
            forall|a: int| 0 <= a < remaining@.len() ==> #[trigger] remaining@[a] < n,
            forall|a: int, b: int| 0 <= a < b < remaining@.len() ==> remaining@[a] != remaining@[b],
            forall|a: int| 0 <= a < remaining@.len() ==> !order.contains(#[trigger] remaining@[a] as int),
            forall|j: int| 0 <= j < n && !order.contains(j) ==> #[trigger] remaining@.contains(j as usize),
            forall|a: int, t: int|
                #![trigger remaining@[a], r@[t]]
                0 <= a < remaining@.len() && 0 <= t < r@.len() ==> entries@[remaining@[a] as int].1
                    <= r@[t].1,
        decreases n - r@.len(),
    {
        let m = remaining.len();
        let mut best: usize = 0;
        let mut a: usize = 1;
        while a < m
            invariant
                m == remaining@.len(),
                m > 0,
                best < m,
                1 <= a <= m,
                best < a,
                n == entries@.len(),
                forall|x: int| 0 <= x < m ==> #[trigger] remaining@[x] < n,
                forall|x: int|
                    0 <= x < a ==> entries@[#[trigger] remaining@[x] as int].1 <= entries@[remaining@[best as int] as int].1,
            decreases m - a,
        {
            if entries[remaining[a]].1 > entries[remaining[best]].1 {
                best = a;
            }
            a = a + 1;
        }
        let ghost pre_remaining = remaining@;
        let ghost old_order = order;
        let picked = remaining.remove(best);
        assert(remaining@ == pre_remaining.remove(best as int));
        r.push(entries[picked]);
        proof {
            order = order.push(picked as int);
        }
        assert forall|j: int| 0 <= j < n && !order.contains(j) implies #[trigger] remaining@.contains(
            j as usize,
        ) by {
            if old_order.contains(j) {
                let t = choose|t: int| 0 <= t < old_order.len() && old_order[t] == j;
                assert(order[t] == j);
            }
            assert(order[order.len() - 1] == picked as int);
            assert(pre_remaining.contains(j as usize));
            let x = choose|x: int| 0 <= x < pre_remaining.len() && pre_remaining[x] == j as usize;
            if x < best {
                assert(remaining@[x] == j as usize);
            } else {
                assert(x != best);
                assert(remaining@[x - 1] == j as usize);
            }
        }
        assert forall|a: int| 0 <= a < remaining@.len() implies !order.contains(
            #[trigger] remaining@[a] as int,
        ) by {
            let x = if a < best { a } else { a + 1 };
            assert(remaining@[a] == pre_remaining[x]);
            assert(!old_order.contains(pre_remaining[x] as int));
            if order.contains(remaining@[a] as int) {
                let t = choose|t: int| 0 <= t < order.len() && order[t] == remaining@[a] as int;
                if t < old_order.len() {
                    assert(old_order[t] == remaining@[a] as int);
                } else {
                    assert(pre_remaining[x] == pre_remaining[best as int]);
                }
            }
        }
    }
    assert forall|j: int, t: int|
        #![trigger entries@[j], r@[t]]
        0 <= j < n && !order.contains(j) && 0 <= t < r@.len() implies entries@[j].1 <= r@[t].1 by {
        assert(remaining@.contains(j as usize));
        let a = choose|a: int| 0 <= a < remaining@.len() && remaining@[a] == j as usize;
        assert(entries@[remaining@[a] as int].1 <= r@[t].1);
    }
    (r, Ghost(order))
}

/// A selection out of a list of a map's entries ranks the map.
pub proof fn lemma_selection_ranks<K>(
    m: Map<K, u64>,
    e: Seq<(K, u64)>,
    limit: nat,
    r: Seq<(K, u64)>,
    order: Seq<int>,
)
    requires
        spec_lists_map(e, m),
        spec_is_selection(e, limit, r, order),
    ensures
        spec_is_ranking(m, limit, r),
{
    assert forall|k: K, i: int|
        #![trigger m[k], r[i]]
        m.contains_key(k) && (forall|t: int| 0 <= t < r.len() ==> r[t].0 != k) && 0 <= i
            < r.len() implies m[k] <= r[i].1 by {
        let j = choose|j: int| 0 <= j < e.len() && e[j].0 == k;
        if order.contains(j) {
            let t = choose|t: int| 0 <= t < order.len() && order[t] == j;
            assert(r[t].0 == k);
        }
        assert(e[j].1 <= r[i].1);
    }
    assert forall|i: int, j: int| 0 <= i < j < r.len() implies r[i].0 != r[j].0 by {
        assert(order[i] != order[j]);
        if order[i] < order[j] {
            assert(e[order[i]].0 != e[order[j]].0);
        } else {
            assert(e[order[j]].0 != e[order[i]].0);
        }
    }
    assert forall|i: int| 0 <= i < r.len() implies #[trigger] m.contains_key(r[i].0) && m[r[i].0]
        == r[i].1 by {
        assert(m.contains_key(e[order[i]].0));
    }
}

/// The largest count among the entries, 0 when there are none.
pub fn max_count<K: Copy>(entries: &Vec<(K, u64)>) -> (c: u64)
    ensures
        forall|i: int| 0 <= i < entries@.len() ==> #[trigger] entries@[i].1 <= c,
        c == 0 || exists|i: int| 0 <= i < entries@.len() && entries@[i].1 == c,
{
    let mut c: u64 = 0;
    let mut i: usize = 0;
    while i < entries.len()
        invariant
            i <= entries@.len(),
            forall|j: int| 0 <= j < i ==> #[trigger] entries@[j].1 <= c,
            c == 0 || exists|j: int| 0 <= j < i && entries@[j].1 == c,
        decreases entries@.len() - i,
    {
        if entries[i].1 > c {
            c = entries[i].1;
        }
        i = i + 1;
    }
    c
}

/// `c` is the largest count in `m`, or 0 when `m` is empty.
pub open spec fn spec_is_top_count<K>(m: Map<K, u64>, c: u64) -> bool {
    &&& forall|k: K| #[trigger] m.contains_key(k) ==> m[k] <= c
    &&& c == 0 || exists|k: K| #[trigger] m.contains_key(k) && m[k] == c
}

/// The largest count of a list of a map's entries is the map's largest count.
pub proof fn lemma_max_count_tops<K>(m: Map<K, u64>, e: Seq<(K, u64)>, c: u64)
    requires
        spec_lists_map(e, m),
        forall|i: int| 0 <= i < e.len() ==> #[trigger] e[i].1 <= c,
        c == 0 || exists|i: int| 0 <= i < e.len() && e[i].1 == c,
    ensures
        spec_is_top_count(m, c),
{
    assert forall|k: K| #[trigger] m.contains_key(k) implies m[k] <= c by {
        let i = choose|i: int| 0 <= i < e.len() && e[i].0 == k;
        assert(e[i].1 <= c);
    }
    if c != 0 {
        let i = choose|i: int| 0 <= i < e.len() && e[i].1 == c;
        assert(m.contains_key(e[i].0));
    }
}

} // verus!
