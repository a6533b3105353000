//! Counts kept per string key: a table of distinct names with a count
//! each, standing for a map from names to counts.

use vstd::prelude::*;
use crate::capture::ranking::{select_top, max_count, spec_is_ranking, spec_is_top_count,
    lemma_selection_ranks, lemma_max_count_tops};

verus! {

/// The keys of `e` are pairwise distinct.
pub open spec fn spec_keys_distinct<K, V>(e: Seq<(K, V)>) -> bool {
    forall|i: int, j: int| 0 <= i < j < e.len() ==> e[i].0 != e[j].0
}

/// `e` lists exactly the entries of `m`, each once.
pub open spec fn spec_lists_map<K, V>(e: Seq<(K, V)>, m: Map<K, V>) -> bool {
    &&& m.dom().finite()
    &&& e.len() == m.dom().len()
    &&& spec_keys_distinct(e)
    &&& forall|i: int| 0 <= i < e.len() ==> #[trigger] m.contains_key(e[i].0) && m[e[i].0] == e[i].1
    &&& forall|k: K| #[trigger] m.contains_key(k) ==> exists|i: int| 0 <= i < e.len() && e[i].0 == k
}

/// The map that a list of entries with distinct keys stands for.
pub open spec fn spec_entries_map<K, V>(e: Seq<(K, V)>) -> Map<K, V>
    decreases e.len(),
{
    if e.len() == 0 {
        Map::empty()
    } else {
        spec_entries_map(e.drop_last()).insert(e.last().0, e.last().1)
    }
}

/// A list of entries with distinct keys lists the map it stands for.
pub proof fn lemma_entries_map_lists<K, V>(e: Seq<(K, V)>)
    requires
        spec_keys_distinct(e),
    ensures
        spec_lists_map(e, spec_entries_map(e)),
    decreases e.len(),
{
    if e.len() > 0 {
        let d = e.drop_last();
        let k = e.last().0;
        assert(spec_keys_distinct(d));
        lemma_entries_map_lists(d);
        let md = spec_entries_map(d);
        let m = spec_entries_map(e);
        assert(!md.contains_key(k)) by {
            if md.contains_key(k) {
                let i = choose|i: int| 0 <= i < d.len() && d[i].0 == k;
                assert(e[i].0 != e[e.len() - 1].0);
            }
        }
        assert(m.dom() =~= md.dom().insert(k));
        assert forall|i: int| 0 <= i < e.len() implies #[trigger] m.contains_key(e[i].0) && m[e[i].0]
            == e[i].1 by {
            if i < e.len() - 1 {
                assert(e[i] == d[i]);
                assert(md.contains_key(d[i].0));
                assert(e[i].0 != e[e.len() - 1].0);
            }
        }
        assert forall|k2: K| #[trigger] m.contains_key(k2) implies exists|i: int|
            0 <= i < e.len() && e[i].0 == k2 by {
            if k2 == k {
                assert(e[e.len() - 1].0 == k2);
            } else {
                assert(md.contains_key(k2));
                let i = choose|i: int| 0 <= i < d.len() && d[i].0 == k2;
                assert(e[i].0 == k2);
            }
        }
    }
}

/// Appending an entry adds its key to the map.
pub proof fn lemma_entries_map_push<K, V>(e: Seq<(K, V)>, p: (K, V))
    ensures
        spec_entries_map(e.push(p)) == spec_entries_map(e).insert(p.0, p.1),
{
    assert(e.push(p).drop_last() =~= e);
}

/// Changing the count of one entry changes the map at its key.
pub proof fn lemma_entries_map_update<K, V>(e: Seq<(K, V)>, i: int, v: V)
    requires
        spec_keys_distinct(e),
        0 <= i < e.len(),
    ensures
        spec_entries_map(e.update(i, (e[i].0, v))) == spec_entries_map(e).insert(e[i].0, v),
    decreases e.len(),
{
    let u = e.update(i, (e[i].0, v));
    let d = e.drop_last();
    if i == e.len() - 1 {
        assert(u.drop_last() =~= d);
        assert(spec_entries_map(u) =~= spec_entries_map(e).insert(e[i].0, v));
    } else {
        assert(spec_keys_distinct(d));
        lemma_entries_map_update(d, i, v);
        assert(u.drop_last() =~= d.update(i, (d[i].0, v)));
        assert(e[i].0 != e[e.len() - 1].0);
        assert(spec_entries_map(u) =~= spec_entries_map(e).insert(e[i].0, v));
    }
}

/// The count that `m` holds for `k` (0 when absent).
pub open spec fn spec_count_of<K>(m: Map<K, u64>, k: K) -> int {
    if m.contains_key(k) {
        m[k] as int
    } else {
        0
    }
}

/// Raising the count of `k` adds one to it and changes no other count,
/// as long as the count of `k` has room for one more.
pub proof fn lemma_bump_count<K>(m: Map<K, u64>, k: K, other: K)
    requires
        m.contains_key(k) ==> m[k] < u64::MAX,
    ensures
        spec_count_of(spec_bump(m, k), other) == spec_count_of(m, other) + if other == k {
            1int
        } else {
            0int
        },
{
}

/// `m` with the count of `k` raised by one (from 0 when absent).
pub open spec fn spec_bump<K>(m: Map<K, u64>, k: K) -> Map<K, u64> {
    m.insert(
        k,
        if m.contains_key(k) {
            (m[k] + 1) as u64
        } else {
            1
        },
    )
}

/// The entries of a table held as two parallel vectors.
pub open spec fn spec_table_entries(names: Seq<String>, counts: Seq<u64>) -> Seq<(Seq<char>, u64)> {
    Seq::new(names.len(), |i: int| (names[i]@, counts[i]))
}

/// The position of `key` among `names`, or `names.len()` when absent.
fn find_name(names: &Vec<String>, key: &String) -> (i: usize)
    ensures
        i <= names@.len(),
        i < names@.len() ==> names@[i as int]@ == key@,
        forall|j: int| 0 <= j < i ==> names@[j]@ != key@,
{
    let n = names.len();
    let mut i: usize = 0;
    while i < n
        invariant
            n == names@.len(),
            i <= n,
            forall|j: int| 0 <= j < i ==> names@[j]@ != key@,
        decreases n - i,
    {
        if names[i] == *key {
            return i;
        }
        i = i + 1;
    }
    n
}

/// Counts per name, names in first-seen order.
#[derive(Debug)]
pub struct NameCounts {
    names: Vec<String>,
    counts: Vec<u64>,
}

impl NameCounts {
    /// The table's entries, first-seen first.
    pub closed spec fn spec_entries(&self) -> Seq<(Seq<char>, u64)> {
        spec_table_entries(self.names@, self.counts@)
    }

    /// The count of each name present.
    pub closed spec fn spec_map(&self) -> Map<Seq<char>, u64> {
        spec_entries_map(self.spec_entries())
    }

    /// The two vectors match and no name is listed twice.
    pub closed spec fn wf(&self) -> bool {
        &&& self.names@.len() == self.counts@.len()
        &&& spec_keys_distinct(self.spec_entries())
    }

    /// A table names finitely many keys.
    pub proof fn lemma_finite(&self)
        requires
            self.wf(),
        ensures
            self.spec_map().dom().finite(),
    {
        lemma_entries_map_lists(self.spec_entries());
    }

    pub fn new() -> (t: Self)
        ensures
            t.wf(),
            t.spec_map() == Map::<Seq<char>, u64>::empty(),
    {
        let t = NameCounts { names: Vec::new(), counts: Vec::new() };
        assert(t.spec_entries() =~= Seq::<(Seq<char>, u64)>::empty());
        t
    }

    /// Empties the table.
    pub fn clear(&mut self)
        ensures
            final(self).wf(),
            final(self).spec_map() == Map::<Seq<char>, u64>::empty(),
    {
        self.names.clear();
        self.counts.clear();
        assert(self.spec_entries() =~= Seq::<(Seq<char>, u64)>::empty());
    }

    /// Raises the count of `name` by one, in a table whose counts are all
    /// below `bound`.
    pub fn bump(&mut self, name: &str, bound: u64)
        requires
            old(self).wf(),
            forall|k: Seq<char>| #[trigger]
                old(self).spec_map().contains_key(k) ==> old(self).spec_map()[k] < bound,
            bound > 0,
        ensures
            final(self).wf(),
            forall|k: Seq<char>| #[trigger]
                final(self).spec_map().contains_key(k) ==> final(self).spec_map()[k] <= bound,
            final(self).spec_map() == spec_bump(old(self).spec_map(), name@),
    {
        let ghost old_entries = self.spec_entries();
        proof {
            lemma_entries_map_lists(old_entries);
        }
        let key = name.to_owned();
        let n = self.names.len();
        let i = find_name(&self.names, &key);
        if i < n {
            let c = self.counts[i];
            proof {
                assert(old_entries[i as int].0 == name@);
                assert(self.spec_map().contains_key(old_entries[i as int].0));
            }
            self.counts.set(i, c + 1);
            proof {
                lemma_entries_map_update(old_entries, i as int, (c + 1) as u64);
                assert(self.spec_entries() =~= old_entries.update(
                    i as int,
                    (old_entries[i as int].0, (c + 1) as u64),
                ));
            }
        } else {
            self.names.push(key);
            self.counts.push(1);
            proof {
                lemma_entries_map_push(old_entries, (name@, 1u64));
                assert(self.spec_entries() =~= old_entries.push((name@, 1u64)));
                assert(!spec_entries_map(old_entries).contains_key(name@)) by {
                    if spec_entries_map(old_entries).contains_key(name@) {
                        let j = choose|j: int| 0 <= j < old_entries.len() && old_entries[j].0 == name@;
                        assert(old_entries[j].0 == old(self).names@[j]@);
                    }
                }
            }
        }
        assert forall|k: Seq<char>| #[trigger] self.spec_map().contains_key(k) implies self.spec_map()[k]
            <= bound by {
            if k != name@ {
                assert(old(self).spec_map().contains_key(k));
            }
        }
    }

    /// The table as borrowed entries, first-seen first.
    pub fn entries(&self) -> (e: Vec<(&str, u64)>)
        requires
            self.wf(),
        ensures
            spec_lists_map(e@.map_values(|p: (&str, u64)| (p.0@, p.1)), self.spec_map()),
    {
        let n = self.names.len();
        let mut e: Vec<(&str, u64)> = Vec::new();
        let mut i: usize = 0;
        while i < n
            invariant
                n == self.names@.len(),
                n == self.counts@.len(),
                i <= n,
                e@.len() == i,
                forall|j: int|
                    0 <= j < i ==> #[trigger] e@[j].0@ == self.names@[j]@ && e@[j].1
                        == self.counts@[j],
            decreases n - i,
        {
            e.push((self.names[i].as_str(), self.counts[i]));
            i = i + 1;
        }
        assert(e@.map_values(|p: (&str, u64)| (p.0@, p.1)) =~= self.spec_entries());
        proof {
            lemma_entries_map_lists(self.spec_entries());
        }
        e
    }

    /// Up to `limit` names with their counts, highest first.
    pub fn top(&self, limit: usize) -> (r: Vec<(&str, u64)>)
        requires
            self.wf(),
        ensures
            spec_is_ranking(
                self.spec_map(),
                limit as nat,
                r@.map_values(|p: (&str, u64)| (p.0@, p.1)),
            ),
    {
        let e = self.entries();
        let (r, Ghost(order)) = select_top(&e, limit);
        proof {
            let view = |p: (&str, u64)| (p.0@, p.1);
            let ev = e@.map_values(view);
            let rv = r@.map_values(view);
            assert forall|t: int| 0 <= t < rv.len() implies 0 <= #[trigger] order[t] < ev.len()
                && rv[t] == ev[order[t]] by {
                assert(r@[t] == e@[order[t]]);
            }
            assert forall|j: int, t: int|
                #![trigger ev[j], rv[t]]
                0 <= j < ev.len() && !order.contains(j) && 0 <= t < rv.len() implies ev[j].1
                <= rv[t].1 by {
                assert(e@[j].1 <= r@[t].1);
            }
            lemma_selection_ranks(self.spec_map(), ev, limit as nat, rv, order);
        }
        r
    }

    /// The highest count (0 when the table is empty).
    pub fn top_count(&self) -> (c: u64)
        requires
            self.wf(),
        ensures
            spec_is_top_count(self.spec_map(), c),
    {
        let e = self.entries();
        let c = max_count(&e);
        proof {
            let view = |p: (&str, u64)| (p.0@, p.1);
            let ev = e@.map_values(view);
            assert forall|i: int| 0 <= i < ev.len() implies #[trigger] ev[i].1 <= c by {
                assert(e@[i].1 <= c);
            }
            if c != 0 {
                let i = choose|i: int| 0 <= i < e@.len() && e@[i].1 == c;
                assert(ev[i].1 == c);
            }
            lemma_max_count_tops(self.spec_map(), ev, c);
        }
        c
    }
}

} // verus!
