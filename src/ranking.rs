//! Ranking of counters: a stable order by descending count, from which the
//! top-K tables are cut.
use vstd::prelude::*;

verus! {

/// How many leading entries of `order` have a count of at least `v`.
pub open spec fn leading_at_least(c: Seq<u32>, order: Seq<usize>, v: u32) -> nat
    decreases order.len(),
{
    if order.len() == 0 {
        0
    } else if c[order[0] as int] >= v {
        1 + leading_at_least(c, order.drop_first(), v)
    } else {
        0
    }
}

/// `order` with index `i` placed after every entry whose count is at least
/// that of `i`.
pub open spec fn insert_ranked(c: Seq<u32>, order: Seq<usize>, i: usize) -> Seq<usize> {
    let p = leading_at_least(c, order, c[i as int]) as int;
    order.take(p) + seq![i] + order.skip(p)
}

/// The indices `0 .. n` of `c`, by descending count; equal counts keep the
/// order of their indices.
pub open spec fn ranked(c: Seq<u32>, n: nat) -> Seq<usize>
    decreases n,
{
    if n == 0 {
        Seq::empty()
    } else {
        insert_ranked(c, ranked(c, (n - 1) as nat), (n - 1) as usize)
    }
}

/// All indices of `c` by descending count, ties in index order.
pub open spec fn ranking(c: Seq<u32>) -> Seq<usize> {
    ranked(c, c.len())
}

/// Whether the counts of `order`'s entries never increase.
pub open spec fn descending(c: Seq<u32>, order: Seq<usize>) -> bool {
    forall|a: int, b: int|
        0 <= a < b < order.len() ==> c[#[trigger] order[a] as int] >= c[#[trigger] order[b] as int]
}

/// Whether every entry of `order` is an index below `n`.
pub open spec fn indices_below(order: Seq<usize>, n: nat) -> bool {
    forall|k: int| 0 <= k < order.len() ==> (#[trigger] order[k]) < n
}

proof fn lemma_leading_at_least(c: Seq<u32>, order: Seq<usize>, v: u32)
    requires
        indices_below(order, c.len()),
    ensures
        leading_at_least(c, order, v) <= order.len(),
        forall|k: int|
            0 <= k < leading_at_least(c, order, v) ==> c[#[trigger] order[k] as int] >= v,
        leading_at_least(c, order, v) < order.len() ==> c[order[leading_at_least(c, order, v) as int] as int] < v,
    decreases order.len(),
{
    if order.len() > 0 && c[order[0] as int] >= v {
        let rest = order.drop_first();
        lemma_leading_at_least(c, rest, v);
        assert forall|k: int| 0 <= k < leading_at_least(c, order, v) implies c[#[trigger] order[k]
            as int] >= v by {
            if k > 0 {
                assert(order[k] == rest[k - 1]);
            }
        }
    }
}

/// The first index of `order` whose count is below `v` is the length of the
/// leading run of counts at least `v`.
proof fn lemma_leading_run_ends(c: Seq<u32>, order: Seq<usize>, v: u32, p: int)
    requires
        0 <= p <= order.len(),
        forall|k: int| 0 <= k < p ==> c[#[trigger] order[k] as int] >= v,
        p < order.len() ==> c[order[p] as int] < v,
    ensures
        leading_at_least(c, order, v) == p,
    decreases order.len(),
{
    if order.len() > 0 && p > 0 {
        let rest = order.drop_first();
        assert forall|k: int| 0 <= k < p - 1 implies c[#[trigger] rest[k] as int] >= v by {
            assert(rest[k] == order[k + 1]);
        }
        lemma_leading_run_ends(c, rest, v, p - 1);
    }
}

/// The ranking of the first `n` indices holds each of them once, below `n`,
/// and orders them by descending count.
pub proof fn lemma_ranked(c: Seq<u32>, n: nat)
    requires
        n <= c.len(),
    ensures
        ranked(c, n).len() == n,
        indices_below(ranked(c, n), n),
        descending(c, ranked(c, n)),
    decreases n,
{
    if n > 0 {
        let m = (n - 1) as nat;
        lemma_ranked(c, m);
        let o = ranked(c, m);
        let i = m as usize;
        let v = c[i as int];
        lemma_leading_at_least(c, o, v);
        let p = leading_at_least(c, o, v) as int;
        let r = insert_ranked(c, o, i);
        assert(r.len() == n);
        assert forall|k: int| 0 <= k < r.len() implies (#[trigger] r[k]) < n by {
            if k < p {
                assert(r[k] == o[k]);
            } else if k > p {
                assert(r[k] == o[k - 1]);
            }
        }
        assert forall|a: int, b: int| 0 <= a < b < r.len() implies c[#[trigger] r[a] as int]
            >= c[#[trigger] r[b] as int] by {
            if b < p {
                assert(r[a] == o[a] && r[b] == o[b]);
            } else if b == p {
                assert(r[a] == o[a]);
            } else if a < p {
                assert(r[a] == o[a] && r[b] == o[b - 1]);
                assert(c[o[p] as int] < v);
                if b - 1 > p {
                    assert(c[o[p] as int] >= c[o[b - 1] as int]);
                }
            } else if a == p {
                assert(r[b] == o[b - 1]);
                assert(c[o[p] as int] < v);
                if b - 1 > p {
                    assert(c[o[p] as int] >= c[o[b - 1] as int]);
                }
            } else {
                assert(r[a] == o[a - 1] && r[b] == o[b - 1]);
            }
        }
    }
}

/// The indices of `counts` by descending count; equal counts keep index order.
pub fn rank_counts(counts: &Vec<u32>) -> (r: Vec<usize>)
    ensures
        r@ == ranking(counts@),
{
    let mut order: Vec<usize> = Vec::new();
    let mut i: usize = 0;
    while i < counts.len()
        invariant
            i <= counts@.len(),
            order@ == ranked(counts@, i as nat),
        decreases counts@.len() - i,
    {
        proof {
            lemma_ranked(counts@, i as nat);
        }
        let v = counts[i];
        let mut p: usize = 0;
        while p < order.len() && counts[order[p]] >= v
            invariant
                i < counts@.len(),
                p <= order@.len(),
                order@ == ranked(counts@, i as nat),
                indices_below(order@, i as nat),
                forall|k: int| 0 <= k < p ==> counts@[#[trigger] order@[k] as int] >= v,
            decreases order@.len() - p,
        {
            p = p + 1;
        }
        proof {
            lemma_leading_run_ends(counts@, order@, v, p as int);
        }
        order.insert(p, i);
        assert(order@ == ranked(counts@, (i + 1) as nat));
        i = i + 1;
    }
    order
}

} // verus!
