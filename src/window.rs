//! Per-provider series of (elapsed milliseconds, count) samples, trimmed to
//! a trailing time window.
use vstd::prelude::*;

verus! {

broadcast use vstd::seq_lib::group_filter_ensures;

/// A sample: elapsed milliseconds since the start, and the provider's count then.
pub type Sample = (u64, u32);

/// Whether a sample lies within `window` milliseconds before `now`.
pub open spec fn recent_enough(now: u64, window: u64) -> spec_fn(Sample) -> bool {
    |x: Sample| x.0 as int + window as int >= now as int
}

/// The series of `h` with `x` appended to the one at `pos`, or appended as a
/// new series of its own when `pos` is past the end.
pub open spec fn recorded(h: Seq<Seq<Sample>>, pos: int, x: Sample) -> Seq<Seq<Sample>> {
    if pos < h.len() {
        h.update(pos, h[pos].push(x))
    } else {
        h.push(seq![x])
    }
}

/// Every series of `h` with only its samples within the window kept.
pub open spec fn pruned(h: Seq<Seq<Sample>>, now: u64, window: u64) -> Seq<Seq<Sample>> {
    h.map_values(|s: Seq<Sample>| s.filter(recent_enough(now, window)))
}

/// The series as sequences.
pub open spec fn series_views(h: Seq<Vec<Sample>>) -> Seq<Seq<Sample>> {
    h.map_values(|v: Vec<Sample>| v@)
}

/// Whether every sample of `h` lies within `window` milliseconds before `now`.
pub open spec fn all_recent(h: Seq<Seq<Sample>>, now: u64, window: u64) -> bool {
    forall|i: int, j: int|
        0 <= i < h.len() && 0 <= j < h[i].len() ==> (#[trigger] h[i][j]).0 as int + window as int
            >= now as int
}

/// Whether the times and the counts of a series never decrease, with no
/// time after `latest` and no count above `bound`.
pub open spec fn series_ordered(s: Seq<Sample>, latest: u64, bound: u32) -> bool {
    &&& forall|a: int, b: int|
        0 <= a < b < s.len() ==> (#[trigger] s[a]).0 <= (#[trigger] s[b]).0 && s[a].1 <= s[b].1
    &&& forall|j: int| 0 <= j < s.len() ==> (#[trigger] s[j]).0 <= latest && s[j].1 <= bound
}

/// Dropping samples from a series keeps it ordered.
pub proof fn lemma_filter_keeps_order(
    s: Seq<Sample>,
    pred: spec_fn(Sample) -> bool,
    latest: u64,
    bound: u32,
)
    requires
        series_ordered(s, latest, bound),
    ensures
        series_ordered(s.filter(pred), latest, bound),
    decreases s.len(),
{
    reveal(Seq::filter);
    if s.len() > 0 {
        let rest = s.drop_last();
        let top = s.last();
        assert(series_ordered(rest, top.0, top.1)) by {
            assert forall|j: int| 0 <= j < rest.len() implies (#[trigger] rest[j]).0 <= top.0
                && rest[j].1 <= top.1 by {
                assert(rest[j] == s[j]);
            }
            assert forall|a: int, b: int| 0 <= a < b < rest.len() implies (#[trigger] rest[a]).0
                <= (#[trigger] rest[b]).0 && rest[a].1 <= rest[b].1 by {
                assert(rest[a] == s[a] && rest[b] == s[b]);
            }
        }
        lemma_filter_keeps_order(rest, pred, top.0, top.1);
        let sub = rest.filter(pred);
        if pred(top) {
            let r = sub.push(top);
            assert(s.filter(pred) == r);
            assert forall|a: int, b: int| 0 <= a < b < r.len() implies (#[trigger] r[a]).0 <= (
            #[trigger] r[b]).0 && r[a].1 <= r[b].1 by {
                if b < sub.len() {
                    assert(r[a] == sub[a] && r[b] == sub[b]);
                } else {
                    assert(r[a] == sub[a]);
                }
            }
            assert forall|j: int| 0 <= j < r.len() implies (#[trigger] r[j]).0 <= latest && r[j].1
                <= bound by {
                if j < sub.len() {
                    assert(r[j] == sub[j]);
                }
            }
        }
    }
}

/// The samples of `s` within `window` milliseconds before `now`, in order.
pub fn keep_recent(s: &Vec<Sample>, now: u64, window: u64) -> (r: Vec<Sample>)
    ensures
        r@ == s@.filter(recent_enough(now, window)),
{
    let mut r: Vec<Sample> = Vec::new();
    let mut i: usize = 0;
    while i < s.len()
        invariant
            i <= s@.len(),
            r@ == s@.take(i as int).filter(recent_enough(now, window)),
        decreases s@.len() - i,
    {
        let x = s[i];
        proof {
            reveal(Seq::filter);
            assert(s@.take(i as int + 1).drop_last() == s@.take(i as int));
            assert(s@.take(i as int + 1).last() == x);
        }
        if x.0 as u128 + window as u128 >= now as u128 {
            r.push(x);
        }
        i = i + 1;
    }
    assert(s@.take(i as int) == s@);
    r
}

/// Appends `x` to the series at `pos`, or as a new series of its own when
/// `pos` is the number of series.
pub fn record_sample(h: &mut Vec<Vec<Sample>>, pos: usize, x: Sample)
    requires
        pos <= old(h)@.len(),
    ensures
        series_views(final(h)@) == recorded(series_views(old(h)@), pos as int, x),
{
    if pos < h.len() {
        let mut s = h.remove(pos);
        s.push(x);
        h.insert(pos, s);
        assert(series_views(h@) == recorded(series_views(old(h)@), pos as int, x));
    } else {
        let mut fresh: Vec<Sample> = Vec::new();
        fresh.push(x);
        h.push(fresh);
        assert(fresh@ == seq![x]);
        assert(series_views(h@) == recorded(series_views(old(h)@), pos as int, x));
    }
}

/// Every series of `h` trimmed to the window of `window` milliseconds that
/// ends at `now`.
pub fn prune_series(h: &Vec<Vec<Sample>>, now: u64, window: u64) -> (r: Vec<Vec<Sample>>)
    ensures
        series_views(r@) == pruned(series_views(h@), now, window),
        all_recent(series_views(r@), now, window),
{
    let ghost target = pruned(series_views(h@), now, window);
    let mut r: Vec<Vec<Sample>> = Vec::new();
    let mut i: usize = 0;
    while i < h.len()
        invariant
            i <= h@.len(),
            target == pruned(series_views(h@), now, window),
            r@.len() == i,
            forall|k: int| 0 <= k < i ==> (#[trigger] r@[k])@ == target[k],
        decreases h@.len() - i,
    {
        let kept = keep_recent(&h[i], now, window);
        r.push(kept);
        i = i + 1;
    }
    assert(series_views(r@) == target);
    proof {
        assert forall|i: int, j: int|
            0 <= i < series_views(r@).len() && 0 <= j < series_views(r@)[i].len() implies (
            #[trigger] series_views(r@)[i][j]).0 as int + window as int >= now as int by {
            let s = series_views(h@)[i];
            assert(series_views(r@)[i] == s.filter(recent_enough(now, window)));
            assert(recent_enough(now, window)(s.filter(recent_enough(now, window))[j]));
        }
    }
    r
}

} // verus!
