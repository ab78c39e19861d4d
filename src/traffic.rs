//! The aggregator: counts per domain, provider and connection, ranked top
//! tables, per-provider series over a trailing window, and a bounded feed of
//! recent queries.
use vstd::prelude::*;
use std::collections::VecDeque;
use crate::events::TxEvent;
use crate::providers::{provider_name, DnsProvider};
use crate::tally::{bumped, lemma_top_of, pair_views, sorted_desc, top_of, ProviderTally, Tally};
use crate::text::{two_digit_string, two_digits, views};
use crate::window::{
    all_recent, lemma_filter_keeps_order, series_ordered, prune_series, pruned, record_sample,
    recent_enough, recorded, series_views, Sample,
};

verus! {

/// How many domains the top-domain table holds at most.
pub const TOP_DOMAINS: usize = 10;

/// How many providers the top-provider table holds at most.
pub const TOP_PROVIDERS: usize = 5;

/// How many connections the dashboard ranks.
pub const TOP_CONNECTIONS: usize = 5;

/// How many recent queries are kept.
pub const RECENT_LIMIT: usize = 100;

/// The recent-query feed after `e` arrives: `e` first, then the older
/// entries, cut to `RECENT_LIMIT`.
pub open spec fn recent_after(recent: Seq<TxEvent>, e: TxEvent) -> Seq<TxEvent> {
    let s = seq![e] + recent;
    if s.len() > RECENT_LIMIT {
        s.take(RECENT_LIMIT as int)
    } else {
        s
    }
}

/// The feed line of a query: its time of day (UTC) as `HH:MM:SS`, then its
/// domain, its type and its provider.
pub open spec fn activity_line(e: TxEvent) -> Seq<char> {
    let t = e.timestamp_of() % 86400;
    two_digits(((t / 3600) % 24) as nat) + ":"@ + two_digits(((t / 60) % 60) as nat) + ":"@
        + two_digits((t % 60) as nat) + " - "@ + e.domain_view() + " - "@ + e.query_type_view()
        + " ("@ + provider_name(e.provider_of()) + ")"@
}

/// Traffic aggregates, owned and updated by one consumer.
pub struct DnsTrafficData {
    /// Length of the trailing window of the series, in milliseconds.
    pub window: u64,
    /// Elapsed milliseconds at the latest update.
    pub now: u64,
    /// One series per provider, in the order of `provider_counts`.
    pub provider_history: Vec<Vec<Sample>>,
    pub top_domains: Vec<(String, u32)>,
    pub top_providers: Vec<(DnsProvider, u32)>,
    pub domain_counts: Tally,
    pub provider_counts: ProviderTally,
    /// Most recent first.
    pub recent_queries: VecDeque<TxEvent>,
    /// Counts of `<source>-><destination>` pairs.
    pub connections: Tally,
}

impl DnsTrafficData {
    /// The top tables are those of the counters.
    pub open spec fn tops_current(&self) -> bool {
        &&& pair_views(self.top_domains@) == top_of(
            self.domain_counts.key_views(),
            self.domain_counts.counts@,
            TOP_DOMAINS as nat,
        )
        &&& self.top_providers@ == top_of(
            self.provider_counts.keys@,
            self.provider_counts.counts@,
            TOP_PROVIDERS as nat,
        )
    }

    /// The aggregator's invariant.
    pub open spec fn wf(&self) -> bool {
        &&& self.domain_counts.wf()
        &&& self.provider_counts.wf()
        &&& self.connections.wf()
        &&& self.provider_history@.len() == self.provider_counts.keys@.len()
        &&& self.tops_current()
        &&& self.recent_queries@.len() <= RECENT_LIMIT
        &&& all_recent(series_views(self.provider_history@), self.now, self.window)
        &&& self.series_rise()
    }

    /// Within each provider's series the times and the counts never
    /// decrease, no time is after the latest update, and no count exceeds the
    /// provider's current count.
    pub open spec fn series_rise(&self) -> bool {
        forall|i: int|
            0 <= i < self.provider_history@.len() ==> series_ordered(
                #[trigger] self.provider_history@[i]@,
                self.now,
                self.provider_counts.counts@[i],
            )
    }

    /// Empty aggregates over a window of `window` milliseconds.
    pub fn new(window: u64) -> (r: DnsTrafficData)
        ensures
            r.wf(),
            r.window == window,
            r.now == 0,
            r.domain_counts.keys@.len() == 0,
            r.provider_counts.keys@.len() == 0,
            r.connections.keys@.len() == 0,
            r.recent_queries@.len() == 0,
    {
        let mut r = DnsTrafficData {
            window,
            now: 0,
            provider_history: Vec::new(),
            top_domains: Vec::new(),
            top_providers: Vec::new(),
            domain_counts: Tally::new(),
            provider_counts: ProviderTally::new(),
            recent_queries: VecDeque::new(),
            connections: Tally::new(),
        };
        r.update_top_lists();
        r
    }

    /// Folds one event, observed `elapsed` milliseconds after the start, into
    /// the aggregates.
    pub fn update(&mut self, event: TxEvent, elapsed: u64)
        requires
            old(self).wf(),
            elapsed >= old(self).now,
        ensures
            final(self).wf(),
            final(self).window == old(self).window,
            final(self).now == elapsed,
            bumped(
                old(self).domain_counts.key_views(),
                old(self).domain_counts.counts@,
                event.domain_view(),
                final(self).domain_counts.key_views(),
                final(self).domain_counts.counts@,
            ),
            bumped(
                old(self).provider_counts.keys@,
                old(self).provider_counts.counts@,
                event.provider_of(),
                final(self).provider_counts.keys@,
                final(self).provider_counts.counts@,
            ),
            bumped(
                old(self).connections.key_views(),
                old(self).connections.counts@,
                event.connection_view(),
                final(self).connections.key_views(),
                final(self).connections.counts@,
            ),
            exists|pos: int|
                0 <= pos < final(self).provider_counts.keys@.len()
                    && final(self).provider_counts.keys@[pos] == event.provider_of()
                    && series_views(final(self).provider_history@) == pruned(
                    recorded(
                        series_views(old(self).provider_history@),
                        pos,
                        (elapsed, final(self).provider_counts.counts@[pos]),
                    ),
                    elapsed,
                    old(self).window,
                ),
            final(self).recent_queries@ == recent_after(old(self).recent_queries@, event),
    {
        let ghost old_keys = self.provider_counts.keys@;
        let ghost old_counts = self.provider_counts.counts@;
        let ghost old_hist = series_views(self.provider_history@);
        let pos = match &event {
            TxEvent::DnsQuery { domain, provider, source, destination, .. } => {
                self.domain_counts.bump(domain.as_str());
                let pos = self.provider_counts.bump(*provider);
                let key = source.clone().concat("->").concat(destination.as_str());
                self.connections.bump(key.as_str());
                pos
            },
        };
        proof {
            if pos < old_keys.len() {
                assert(old_keys.contains(event.provider_of())) by {
                    assert(self.provider_counts.keys@[pos as int] == old_keys[pos as int]) by {
                        if !old_keys.contains(event.provider_of()) {
                            assert(self.provider_counts.keys@ == old_keys.push(event.provider_of()));
                        }
                    }
                }
            }
        }
        let count = self.provider_counts.counts[pos];
        record_sample(&mut self.provider_history, pos, (elapsed, count));
        let ghost with_sample = series_views(self.provider_history@);
        proof {
            let new_counts = self.provider_counts.counts@;
            assert(old_keys.no_duplicates());
            assert forall|i: int| 0 <= i < with_sample.len() implies series_ordered(
                #[trigger] with_sample[i],
                elapsed,
                new_counts[i],
            ) by {
                assert(old_hist.len() == old_keys.len());
                if old_keys.contains(event.provider_of()) {
                    let w = choose|w: int|
                        0 <= w < old_keys.len() && old_keys[w] == event.provider_of()
                            && new_counts == old_counts.update(w, crate::tally::step(old_counts[w]));
                    assert(w == pos);
                    if i == pos {
                        assert(with_sample[i] == old_hist[i].push((elapsed, count)));
                        assert(old_hist[i] == old(self).provider_history@[i]@);
                        assert(series_ordered(old_hist[i], old(self).now, old_counts[i]));
                    } else {
                        assert(with_sample[i] == old_hist[i]);
                        assert(old_hist[i] == old(self).provider_history@[i]@);
                    }
                } else {
                    assert(pos == old_keys.len()) by {
                        if pos < old_keys.len() {
                            assert(old_keys[pos as int] == self.provider_counts.keys@[pos as int]);
                        }
                    }
                    if i < pos {
                        assert(with_sample[i] == old_hist[i]);
                        assert(old_hist[i] == old(self).provider_history@[i]@);
                    } else {
                        assert(with_sample[i] == seq![(elapsed, count)]);
                    }
                }
            }
        }
        self.recent_queries.push_front(event);
        if self.recent_queries.len() > RECENT_LIMIT {
            self.recent_queries.pop_back();
        }
        self.now = elapsed;
        self.update_top_lists();
        self.prune_old_data();
        assert(series_views(self.provider_history@) == pruned(with_sample, elapsed, self.window));
        proof {
            assert forall|i: int| 0 <= i < self.provider_history@.len() implies series_ordered(
                #[trigger] self.provider_history@[i]@,
                self.now,
                self.provider_counts.counts@[i],
            ) by {
                assert(self.provider_history@[i]@ == series_views(self.provider_history@)[i]);
                lemma_filter_keeps_order(
                    with_sample[i],
                    recent_enough(elapsed, self.window),
                    elapsed,
                    self.provider_counts.counts@[i],
                );
            }
        }
    }

    /// Recomputes the top tables from the counters.
    fn update_top_lists(&mut self)
        requires
            old(self).domain_counts.wf(),
            old(self).provider_counts.wf(),
        ensures
            final(self).tops_current(),
            final(self).window == old(self).window,
            final(self).now == old(self).now,
            final(self).provider_history == old(self).provider_history,
            final(self).domain_counts == old(self).domain_counts,
            final(self).provider_counts == old(self).provider_counts,
            final(self).recent_queries == old(self).recent_queries,
            final(self).connections == old(self).connections,
    {
        self.top_domains = self.domain_counts.top(TOP_DOMAINS);
        self.top_providers = self.provider_counts.top(TOP_PROVIDERS);
    }

    /// Trims every provider's series to the window that ends at the latest update.
    pub fn prune_old_data(&mut self)
        ensures
            series_views(final(self).provider_history@) == pruned(
                series_views(old(self).provider_history@),
                old(self).now,
                old(self).window,
            ),
            all_recent(series_views(final(self).provider_history@), old(self).now, old(self).window),
            final(self).window == old(self).window,
            final(self).now == old(self).now,
            final(self).top_domains == old(self).top_domains,
            final(self).top_providers == old(self).top_providers,
            final(self).domain_counts == old(self).domain_counts,
            final(self).provider_counts == old(self).provider_counts,
            final(self).recent_queries == old(self).recent_queries,
            final(self).connections == old(self).connections,
    {
        self.provider_history = prune_series(&self.provider_history, self.now, self.window);
    }

    /// The windowed series of provider `p`, if it has been seen.
    pub fn series_of(&self, p: DnsProvider) -> (r: Option<&Vec<Sample>>)
        requires
            self.wf(),
        ensures
            self.provider_counts.keys@.contains(p) <==> r.is_some(),
            r matches Some(s) ==> exists|i: int|
                0 <= i < self.provider_counts.keys@.len() && self.provider_counts.keys@[i] == p
                    && s@ == self.provider_history@[i]@,
    {
        let mut i: usize = 0;
        while i < self.provider_counts.keys.len()
            invariant
                self.wf(),
                i <= self.provider_counts.keys@.len(),
                forall|k: int| 0 <= k < i ==> self.provider_counts.keys@[k] != p,
            decreases self.provider_counts.keys@.len() - i,
        {
            if self.provider_counts.keys[i] == p {
                return Some(&self.provider_history[i]);
            }
            i = i + 1;
        }
        assert(!self.provider_counts.keys@.contains(p)) by {
            if self.provider_counts.keys@.contains(p) {
                let k = choose|k: int|
                    0 <= k < self.provider_counts.keys@.len() && self.provider_counts.keys@[k] == p;
            }
        }
        None
    }

    /// The `limit` source-destination pairs with the highest counts.
    pub fn get_top_connections(&self, limit: usize) -> (r: Vec<(String, u32)>)
        requires
            self.wf(),
        ensures
            pair_views(r@) == top_of(
                self.connections.key_views(),
                self.connections.counts@,
                limit as nat,
            ),
            r@.len() <= limit,
            sorted_desc(pair_views(r@)),
    {
        let r = self.connections.top(limit);
        proof {
            lemma_top_of(self.connections.key_views(), self.connections.counts@, limit as nat);
        }
        r
    }

    /// Feed lines of the `limit` most recent queries, most recent first.
    pub fn get_recent_activity(&self, limit: usize) -> (r: Vec<String>)
        ensures
            views(r@) == self.recent_queries@.take(
                if limit < self.recent_queries@.len() {
                    limit as int
                } else {
                    self.recent_queries@.len() as int
                },
            ).map_values(|e: TxEvent| activity_line(e)),
    {
        let n = self.recent_queries.len();
        let m = if limit < n {
            limit
        } else {
            n
        };
        let mut r: Vec<String> = Vec::new();
        let mut i: usize = 0;
        while i < m
            invariant
                m <= n,
                n == self.recent_queries@.len(),
                i <= m,
                views(r@) == self.recent_queries@.take(i as int).map_values(
                    |e: TxEvent| activity_line(e),
                ),
            decreases m - i,
        {
            let line = activity_text(&self.recent_queries[i]);
            let ghost before = r@;
            r.push(line);
            assert(views(r@) == views(before).push(line@));
            assert(self.recent_queries@.take(i as int + 1) == self.recent_queries@.take(i as int).push(
                self.recent_queries@[i as int],
            ));
            i = i + 1;
        }
        r
    }
}

/// The feed line of one query.
pub fn activity_text(e: &TxEvent) -> (r: String)
    ensures
        r@ == activity_line(*e),
{
    match e {
        TxEvent::DnsQuery { domain, query_type, provider, timestamp, .. } => {
            let t = *timestamp % 86400;
            let mut s = two_digit_string((t / 3600) % 24);
            s = s.concat(":").concat(two_digit_string((t / 60) % 60).as_str());
            s = s.concat(":").concat(two_digit_string(t % 60).as_str());
            s = s.concat(" - ").concat(domain.as_str()).concat(" - ").concat(query_type.as_str());
            s.concat(" (").concat(provider.as_str()).concat(")")
        },
    }
}

/// After any sequence of updates the top tables are bounded and ranked: at
/// most `TOP_DOMAINS` domains and `TOP_PROVIDERS` providers, each table by
/// descending count; the recent feed holds at most `RECENT_LIMIT` queries; and
/// every retained sample lies within the window before the latest update.
pub proof fn lemma_aggregates_bounded(d: DnsTrafficData)
    requires
        d.wf(),
    ensures
        d.top_domains@.len() <= TOP_DOMAINS,
        sorted_desc(pair_views(d.top_domains@)),
        d.top_providers@.len() <= TOP_PROVIDERS,
        sorted_desc(d.top_providers@),
        d.recent_queries@.len() <= RECENT_LIMIT,
        forall|i: int, j: int|
            0 <= i < d.provider_history@.len() && 0 <= j < d.provider_history@[i]@.len()
                ==> (#[trigger] d.provider_history@[i]@[j]).0 + d.window >= d.now,
{
    lemma_top_of(d.domain_counts.key_views(), d.domain_counts.counts@, TOP_DOMAINS as nat);
    lemma_top_of(d.provider_counts.keys@, d.provider_counts.counts@, TOP_PROVIDERS as nat);
    assert(pair_views(d.top_domains@).len() == d.top_domains@.len());
    assert forall|i: int, j: int|
        0 <= i < d.provider_history@.len() && 0 <= j < d.provider_history@[i]@.len()
            implies (#[trigger] d.provider_history@[i]@[j]).0 + d.window >= d.now by {
        assert(series_views(d.provider_history@)[i][j] == d.provider_history@[i]@[j]);
    }
}

} // verus!
