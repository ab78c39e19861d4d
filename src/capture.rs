//! The decisions of the capture loop and of the presentation loop, and what
//! each output sink makes of an observation.
use vstd::prelude::*;
use crate::dns::DnsPacket;
use crate::events::TxEvent;
use crate::providers::provider_name;
use crate::text::{decimal, decimal_string, views};

verus! {

/// What one request for the next frame brought.
#[derive(Debug, PartialEq, Eq, Structural, Clone, Copy)]
pub enum CaptureOutcome {
    /// A frame arrived.
    Frame,
    /// The bounded wait ran out; this is expected and no failure.
    TimedOut,
    /// Any other capture error.
    Failed,
}

/// What the capture loop does next.
#[derive(Debug, PartialEq, Eq, Structural, Clone, Copy)]
pub enum CaptureStep {
    /// Decode the frame and hand any observation to the sink.
    Deliver,
    /// Yield briefly, then ask again.
    Wait,
    /// Report the error and go on.
    ReportAndContinue,
    /// Report the error and stop with it.
    Abort,
}

/// The capture loop's rule: deliver frames, wait out timeouts, and on any
/// other error go on only where errors are tolerated.
pub open spec fn step_for(outcome: CaptureOutcome, continue_on_error: bool) -> CaptureStep {
    match outcome {
        CaptureOutcome::Frame => CaptureStep::Deliver,
        CaptureOutcome::TimedOut => CaptureStep::Wait,
        CaptureOutcome::Failed => if continue_on_error {
            CaptureStep::ReportAndContinue
        } else {
            CaptureStep::Abort
        },
    }
}

/// Decides what the capture loop does after `outcome`.
pub fn next_capture_step(outcome: CaptureOutcome, continue_on_error: bool) -> (r: CaptureStep)
    ensures
        r == step_for(outcome, continue_on_error),
{
    match outcome {
        CaptureOutcome::Frame => CaptureStep::Deliver,
        CaptureOutcome::TimedOut => CaptureStep::Wait,
        CaptureOutcome::Failed => if continue_on_error {
            CaptureStep::ReportAndContinue
        } else {
            CaptureStep::Abort
        },
    }
}

/// How long the presentation loop may wait for a key press: what is left of
/// the tick, or nothing once the tick has run out.
pub fn poll_timeout(tick_ms: u64, since_tick_ms: u64) -> (r: u64)
    ensures
        r == if since_tick_ms < tick_ms {
            tick_ms - since_tick_ms
        } else {
            0
        },
{
    if since_tick_ms < tick_ms {
        tick_ms - since_tick_ms
    } else {
        0
    }
}

/// Whether a key press ends the presentation loop.
pub fn is_quit_key(c: char) -> (r: bool)
    ensures
        r == (c == 'q'),
{
    c == 'q'
}

/// The event that the channeled sink sends for an observation: one for a
/// query, none for an observation without one.
pub open spec fn event_matches(p: DnsPacket, timestamp: u64, e: TxEvent) -> bool {
    match (p.query, e) {
        (
            Some(q),
            TxEvent::DnsQuery { domain, query_type, provider, source, destination, timestamp: t },
        ) => domain@ == q.name@ && query_type@ == q.query_type@ && provider == p.provider
            && source@ == p.source@ && destination@ == p.destination@ && t == timestamp,
        _ => false,
    }
}

impl TxEvent {
    /// The event for an observation captured at `timestamp` (seconds since
    /// the Unix epoch); `None` where it holds no query.
    pub fn from_packet(p: DnsPacket, timestamp: u64) -> (r: Option<TxEvent>)
        ensures
            p.query.is_none() <==> r.is_none(),
            r matches Some(e) ==> event_matches(p, timestamp, e),
    {
        match p.query {
            Some(q) => Some(
                TxEvent::DnsQuery {
                    domain: q.name,
                    query_type: q.query_type,
                    provider: p.provider,
                    source: p.source,
                    destination: p.destination,
                    timestamp,
                },
            ),
            None => None,
        }
    }
}

/// The sink that prints each observation where it is received.
pub struct CliOutput;

/// The lines printed for an observation: the query with its provider (and,
/// when verbose, its addresses), then the answers, numbered from one.
pub open spec fn report_lines(p: DnsPacket, verbose: bool) -> Seq<Seq<char>> {
    query_report(p, verbose) + answer_report(p)
}

/// The lines printed for an observation's query.
pub open spec fn query_report(p: DnsPacket, verbose: bool) -> Seq<Seq<char>> {
    match p.query {
        Some(q) => {
            let head = seq![
                "DNS Query: "@ + q.name@ + " (Type: "@ + q.query_type@
                    + ") -> Estimated Provider: "@ + provider_name(p.provider),
            ];
            if verbose {
                head + seq!["  From: "@ + p.source@, "  To: "@ + p.destination@]
            } else {
                head
            }
        },
        None => Seq::empty(),
    }
}

/// The lines printed for an observation's answers.
pub open spec fn answer_report(p: DnsPacket) -> Seq<Seq<char>> {
    let n = p.answers@.len();
    if n == 0 {
        Seq::empty()
    } else {
        seq!["DNS Response: "@ + decimal(n) + " answers"@] + Seq::new(
            n,
            |i: int|
                "  "@ + decimal((i + 1) as nat) + ". "@ + p.answers@[i].name@ + " -> "@
                    + p.answers@[i].data@,
        )
    }
}

impl CliOutput {
    /// The lines to print for an observation.
    pub fn handle_dns_packet(&self, p: &DnsPacket, verbose: bool) -> (r: Vec<String>)
        ensures
            views(r@) == report_lines(*p, verbose),
    {
        let mut lines: Vec<String> = Vec::new();
        if let Some(q) = &p.query {
            let head = String::from_str("DNS Query: ").concat(q.name.as_str()).concat(
                " (Type: ",
            ).concat(q.query_type.as_str()).concat(") -> Estimated Provider: ").concat(
                p.provider.as_str(),
            );
            lines.push(head);
            if verbose {
                lines.push(String::from_str("  From: ").concat(p.source.as_str()));
                lines.push(String::from_str("  To: ").concat(p.destination.as_str()));
            }
        }
        let ghost query_lines = views(lines@);
        assert(query_lines == query_report(*p, verbose));
        let n = p.answers.len();
        if n > 0 {
            lines.push(
                String::from_str("DNS Response: ").concat(decimal_string(n as u64).as_str()).concat(
                    " answers",
                ),
            );
            let mut i: usize = 0;
            while i < n
                invariant
                    n == p.answers@.len(),
                    i <= n,
                    views(lines@).len() == query_lines.len() + 1 + i,
                    views(lines@).take(query_lines.len() as int + 1) == query_lines + seq![
                        "DNS Response: "@ + decimal(n as nat) + " answers"@,
                    ],
                    forall|k: int|
                        0 <= k < i ==> #[trigger] views(lines@)[query_lines.len() + 1 + k] == "  "@
                            + decimal((k + 1) as nat) + ". "@ + p.answers@[k].name@ + " -> "@
                            + p.answers@[k].data@,
                decreases n - i,
            {
                let line = String::from_str("  ").concat(decimal_string(i as u64 + 1).as_str()).concat(
                    ". ",
                ).concat(p.answers[i].name.as_str()).concat(" -> ").concat(
                    p.answers[i].data.as_str(),
                );
                let ghost before = views(lines@);
                lines.push(line);
                assert(views(lines@) == before.push(line@));
                assert(views(lines@).take(query_lines.len() as int + 1) == before.take(query_lines.len() as int + 1));
                i = i + 1;
            }
            let ghost ans = answer_report(*p);
            assert(views(lines@).len() == query_lines.len() + ans.len());
            assert forall|k: int| 0 <= k < views(lines@).len() implies #[trigger] views(lines@)[k] == (query_lines + ans)[k] by {
                if k < query_lines.len() + 1 {
                    assert(views(lines@)[k] == views(lines@).take(query_lines.len() as int + 1)[k]);
                } else {
                    let j = k - query_lines.len() - 1;
                    assert(views(lines@)[query_lines.len() + 1 + j] == ans[j + 1]);
                }
            }
            assert(views(lines@) == query_lines + ans);
        } else {
            assert(views(lines@) == report_lines(*p, verbose));
        }
        lines
    }
}

} // verus!
