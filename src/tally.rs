//! Counters keyed by text or by provider, kept in order of first sight, and
//! the top-K tables cut from them.
use vstd::prelude::*;
use crate::providers::DnsProvider;
use crate::ranking::{lemma_ranked, rank_counts, ranking, indices_below};
use crate::text::{same_text, views};

verus! {

/// A count after one more occurrence; it stays at the largest `u32`.
pub open spec fn step(c: u32) -> u32 {
    if c < u32::MAX {
        (c + 1) as u32
    } else {
        c
    }
}

/// Whether `(keys2, counts2)` is `(keys1, counts1)` after one occurrence of `k`:
/// a present key's count steps up, a new key is appended with a count of one.
pub open spec fn bumped<K>(
    keys1: Seq<K>,
    counts1: Seq<u32>,
    k: K,
    keys2: Seq<K>,
    counts2: Seq<u32>,
) -> bool {
    if keys1.contains(k) {
        keys2 == keys1 && exists|i: int|
            0 <= i < keys1.len() && keys1[i] == k && counts2 == counts1.update(
                i,
                step(counts1[i]),
            )
    } else {
        keys2 == keys1.push(k) && counts2 == counts1.push(1)
    }
}

/// The first `limit` entries of the ranking of `counts`, each as its key and count.
pub open spec fn top_of<K>(keys: Seq<K>, counts: Seq<u32>, limit: nat) -> Seq<(K, u32)> {
    let o = ranking(counts);
    let m = if limit < o.len() {
        limit as int
    } else {
        o.len() as int
    };
    o.take(m).map_values(|i: usize| (keys[i as int], counts[i as int]))
}

/// Whether the counts of a table never increase from one entry to the next.
pub open spec fn sorted_desc<K>(t: Seq<(K, u32)>) -> bool {
    forall|a: int, b: int| 0 <= a < b < t.len() ==> (#[trigger] t[a]).1 >= (#[trigger] t[b]).1
}

/// A table of texts and counts, seen as texts.
pub open spec fn pair_views(t: Seq<(String, u32)>) -> Seq<(Seq<char>, u32)> {
    t.map_values(|e: (String, u32)| (e.0@, e.1))
}

/// A top-K table holds at most `limit` entries, by descending count.
pub proof fn lemma_top_of<K>(keys: Seq<K>, counts: Seq<u32>, limit: nat)
    requires
        keys.len() == counts.len(),
    ensures
        top_of(keys, counts, limit).len() <= limit,
        top_of(keys, counts, limit).len() <= counts.len(),
        sorted_desc(top_of(keys, counts, limit)),
{
    lemma_ranked(counts, counts.len());
    let t = top_of(keys, counts, limit);
    let o = ranking(counts);
    assert forall|a: int, b: int| 0 <= a < b < t.len() implies (#[trigger] t[a]).1 >= (
    #[trigger] t[b]).1 by {
        assert(t[a].1 == counts[o[a] as int]);
        assert(t[b].1 == counts[o[b] as int]);
    }
}

/// Counts of texts, in order of first sight.
pub struct Tally {
    pub keys: Vec<String>,
    pub counts: Vec<u32>,
}

impl Tally {
    /// The keys as texts.
    pub open spec fn key_views(&self) -> Seq<Seq<char>> {
        views(self.keys@)
    }

    /// One count per key, and each key once.
    pub open spec fn wf(&self) -> bool {
        &&& self.keys@.len() == self.counts@.len()
        &&& self.key_views().no_duplicates()
    }

    /// An empty tally.
    pub fn new() -> (r: Tally)
        ensures
            r.wf(),
            r.keys@.len() == 0,
    {
        Tally { keys: Vec::new(), counts: Vec::new() }
    }

    /// Counts one more occurrence of `key`.
    pub fn bump(&mut self, key: &str)
        requires
            old(self).wf(),
        ensures
            final(self).wf(),
            bumped(
                old(self).key_views(),
                old(self).counts@,
                key@,
                final(self).key_views(),
                final(self).counts@,
            ),
    {
        let mut i: usize = 0;
        while i < self.keys.len()
            invariant
                self.wf(),
                self.keys@ == old(self).keys@,
                self.counts@ == old(self).counts@,
                i <= self.keys@.len(),
                forall|k: int| 0 <= k < i ==> self.key_views()[k] != key@,
            decreases self.keys@.len() - i,
        {
            if same_text(self.keys[i].as_str(), key) {
                let c = self.counts[i];
                let n = if c < u32::MAX {
                    c + 1
                } else {
                    c
                };
                self.counts.set(i, n);
                assert(old(self).key_views()[i as int] == key@);
                assert(self.counts@ == old(self).counts@.update(i as int, step(old(self).counts@[i as int])));
                assert(old(self).key_views().contains(key@));
                return;
            }
            i = i + 1;
        }
        let ghost before = self.key_views();
        assert(!before.contains(key@)) by {
            if before.contains(key@) {
                let k = choose|k: int| 0 <= k < before.len() && before[k] == key@;
            }
        }
        self.keys.push(String::from_str(key));
        self.counts.push(1);
        assert(self.key_views() == before.push(key@));
        assert(self.key_views().no_duplicates()) by {
            assert forall|a: int, b: int| 0 <= a < b < self.key_views().len() implies self.key_views()[a] != self.key_views()[b] by {
                if b == before.len() {
                    assert(before[a] == self.key_views()[a]);
                    assert(before.contains(before[a]));
                }
            }
        }
    }

    /// The `limit` keys with the highest counts, with their counts.
    pub fn top(&self, limit: usize) -> (r: Vec<(String, u32)>)
        requires
            self.wf(),
        ensures
            pair_views(r@) == top_of(self.key_views(), self.counts@, limit as nat),
    {
        let order = rank_counts(&self.counts);
        proof {
            lemma_ranked(self.counts@, self.counts@.len());
        }
        let m = if limit < order.len() {
            limit
        } else {
            order.len()
        };
        let mut r: Vec<(String, u32)> = Vec::new();
        let mut j: usize = 0;
        while j < m
            invariant
                self.wf(),
                m <= order@.len(),
                order@ == ranking(self.counts@),
                indices_below(order@, self.counts@.len()),
                m == (if limit < order@.len() {
                    limit as int
                } else {
                    order@.len() as int
                }),
                j <= m,
                pair_views(r@) == order@.take(j as int).map_values(
                    |i: usize| (self.key_views()[i as int], self.counts@[i as int]),
                ),
            decreases m - j,
        {
            let idx = order[j];
            let e = (self.keys[idx].clone(), self.counts[idx]);
            let ghost before = r@;
            r.push(e);
            assert(pair_views(r@) == pair_views(before).push((self.key_views()[idx as int], self.counts@[idx as int])));
            assert(order@.take(j as int + 1) == order@.take(j as int).push(idx));
            j = j + 1;
        }
        r
    }
}

/// Counts of providers, in order of first sight.
pub struct ProviderTally {
    pub keys: Vec<DnsProvider>,
    pub counts: Vec<u32>,
}

impl ProviderTally {
    /// One count per provider, and each provider once.
    pub open spec fn wf(&self) -> bool {
        &&& self.keys@.len() == self.counts@.len()
        &&& self.keys@.no_duplicates()
    }

    /// An empty tally.
    pub fn new() -> (r: ProviderTally)
        ensures
            r.wf(),
            r.keys@.len() == 0,
    {
        ProviderTally { keys: Vec::new(), counts: Vec::new() }
    }

    /// Counts one more occurrence of `p`, and returns its position.
    pub fn bump(&mut self, p: DnsProvider) -> (pos: usize)
        requires
            old(self).wf(),
        ensures
            final(self).wf(),
            bumped(old(self).keys@, old(self).counts@, p, final(self).keys@, final(self).counts@),
            pos < final(self).keys@.len(),
            final(self).keys@[pos as int] == p,
    {
        let mut i: usize = 0;
        while i < self.keys.len()
            invariant
                self.wf(),
                self.keys@ == old(self).keys@,
                self.counts@ == old(self).counts@,
                i <= self.keys@.len(),
                forall|k: int| 0 <= k < i ==> self.keys@[k] != p,
            decreases self.keys@.len() - i,
        {
            if self.keys[i] == p {
                let c = self.counts[i];
                let n = if c < u32::MAX {
                    c + 1
                } else {
                    c
                };
                self.counts.set(i, n);
                assert(self.counts@ == old(self).counts@.update(i as int, step(old(self).counts@[i as int])));
                assert(old(self).keys@.contains(p));
                return i;
            }
            i = i + 1;
        }
        let ghost before = self.keys@;
        assert(!before.contains(p)) by {
            if before.contains(p) {
                let k = choose|k: int| 0 <= k < before.len() && before[k] == p;
            }
        }
        self.keys.push(p);
        self.counts.push(1);
        assert(self.keys@.no_duplicates()) by {
            assert forall|a: int, b: int| 0 <= a < b < self.keys@.len() implies self.keys@[a] != self.keys@[b] by {
                if b == before.len() {
                    assert(before[a] == self.keys@[a]);
                    assert(before.contains(before[a]));
                }
            }
        }
        i
    }

    /// The `limit` providers with the highest counts, with their counts.
    pub fn top(&self, limit: usize) -> (r: Vec<(DnsProvider, u32)>)
        requires
            self.wf(),
        ensures
            r@ == top_of(self.keys@, self.counts@, limit as nat),
    {
        let order = rank_counts(&self.counts);
        proof {
            lemma_ranked(self.counts@, self.counts@.len());
        }
        let m = if limit < order.len() {
            limit
        } else {
            order.len()
        };
        let mut r: Vec<(DnsProvider, u32)> = Vec::new();
        let mut j: usize = 0;
        while j < m
            invariant
                self.wf(),
                m <= order@.len(),
                order@ == ranking(self.counts@),
                indices_below(order@, self.counts@.len()),
                m == (if limit < order@.len() {
                    limit as int
                } else {
                    order@.len() as int
                }),
                j <= m,
                r@ == order@.take(j as int).map_values(
                    |i: usize| (self.keys@[i as int], self.counts@[i as int]),
                ),
            decreases m - j,
        {
            let idx = order[j];
            r.push((self.keys[idx], self.counts[idx]));
            assert(order@.take(j as int + 1) == order@.take(j as int).push(idx));
            j = j + 1;
        }
        r
    }
}

} // verus!
