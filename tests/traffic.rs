use dustcloud::capture::{
    is_quit_key, next_capture_step, poll_timeout, CaptureOutcome, CaptureStep, CliOutput,
};
use dustcloud::dns::{DnsAnswer, DnsPacket, DnsQuery};
use dustcloud::events::TxEvent;
use dustcloud::providers::{get_provider_for_ip, DnsProvider};
use dustcloud::traffic::{activity_text, DnsTrafficData};

fn query(domain: &str, source: &str, destination: &str, timestamp: u64) -> TxEvent {
    TxEvent::DnsQuery {
        domain: domain.to_string(),
        query_type: "A".to_string(),
        provider: get_provider_for_ip(source),
        source: source.to_string(),
        destination: destination.to_string(),
        timestamp,
    }
}

fn domain_of(e: &TxEvent) -> &str {
    match e {
        TxEvent::DnsQuery { domain, .. } => domain,
    }
}

#[test]
fn scenario_top_tables() {
    let mut d = DnsTrafficData::new(60_000);
    for t in 0..3 {
        d.update(query("example.com", "1.1.1.1", "10.0.0.2", 100), t);
    }
    d.update(query("foo.com", "8.8.8.8", "10.0.0.2", 100), 3);
    assert_eq!(
        d.top_domains,
        vec![("example.com".to_string(), 3), ("foo.com".to_string(), 1)]
    );
    assert_eq!(
        d.top_providers,
        vec![(DnsProvider::Cloudflare, 3), (DnsProvider::Google, 1)]
    );
    assert_eq!(d.top_providers[0].0.as_str(), "cloudflare");
    assert_eq!(
        d.get_top_connections(5),
        vec![
            ("1.1.1.1->10.0.0.2".to_string(), 3),
            ("8.8.8.8->10.0.0.2".to_string(), 1)
        ]
    );
}

#[test]
fn top_tables_are_bounded_and_ranked() {
    let mut d = DnsTrafficData::new(60_000);
    let mut t = 0;
    for i in 0..15u64 {
        for _ in 0..(i % 7 + 1) {
            let domain = format!("d{}.example", i);
            let source = format!("10.0.{}.1", i);
            d.update(query(&domain, &source, "10.0.0.2", 0), t);
            t += 1;
        }
    }
    for ip in ["1.1.1.1", "8.8.8.8", "9.9.9.9", "94.140.14.14", "185.228.168.9", "208.67.222.222"] {
        d.update(query("x.example", ip, "10.0.0.2", 0), t);
    }
    assert_eq!(d.top_domains.len(), 10);
    assert!(d.top_domains.windows(2).all(|w| w[0].1 >= w[1].1));
    assert_eq!(d.top_domains[0].1, 7);
    assert_eq!(d.top_providers.len(), 5);
    assert!(d.top_providers.windows(2).all(|w| w[0].1 >= w[1].1));
    assert_eq!(d.top_providers[0], (DnsProvider::Unknown, 57));
    let c = d.get_top_connections(5);
    assert_eq!(c.len(), 5);
    assert!(c.windows(2).all(|w| w[0].1 >= w[1].1));
}

#[test]
fn equal_counts_keep_first_seen_order() {
    let mut d = DnsTrafficData::new(60_000);
    d.update(query("b.example", "10.0.0.1", "10.0.0.2", 0), 0);
    d.update(query("a.example", "10.0.0.1", "10.0.0.2", 0), 1);
    d.update(query("c.example", "10.0.0.1", "10.0.0.2", 0), 2);
    d.update(query("c.example", "10.0.0.1", "10.0.0.2", 0), 3);
    let names: Vec<&str> = d.top_domains.iter().map(|e| e.0.as_str()).collect();
    assert_eq!(names, vec!["c.example", "b.example", "a.example"]);
}

#[test]
fn window_drops_old_samples() {
    let mut d = DnsTrafficData::new(60_000);
    d.update(query("a.example", "1.1.1.1", "10.0.0.2", 0), 0);
    d.update(query("a.example", "1.1.1.1", "10.0.0.2", 0), 30_000);
    d.update(query("a.example", "8.8.8.8", "10.0.0.2", 0), 50_000);
    d.update(query("a.example", "1.1.1.1", "10.0.0.2", 0), 70_000);
    assert_eq!(d.provider_counts.keys, vec![DnsProvider::Cloudflare, DnsProvider::Google]);
    assert_eq!(d.provider_history[0], vec![(30_000, 2), (70_000, 3)]);
    assert_eq!(d.provider_history[1], vec![(50_000, 1)]);
    assert_eq!(d.series_of(DnsProvider::Google), Some(&vec![(50_000, 1)]));
    assert!(d.series_of(DnsProvider::AdGuard).is_none());
    for series in &d.provider_history {
        for s in series {
            assert!(s.0 + 60_000 >= 70_000);
        }
    }
    d.update(query("a.example", "9.9.9.9", "10.0.0.2", 0), 200_000);
    assert!(d.provider_history[0].is_empty());
    assert!(d.provider_history[1].is_empty());
    assert_eq!(d.provider_history[2], vec![(200_000, 1)]);
}

#[test]
fn recent_feed_is_bounded_most_recent_first() {
    let mut d = DnsTrafficData::new(60_000);
    for i in 0..150u64 {
        d.update(query(&format!("q{}.example", i), "1.1.1.1", "10.0.0.2", i), i);
    }
    assert_eq!(d.recent_queries.len(), 100);
    assert_eq!(domain_of(&d.recent_queries[0]), "q149.example");
    assert_eq!(domain_of(&d.recent_queries[99]), "q50.example");
    let lines = d.get_recent_activity(3);
    assert_eq!(lines.len(), 3);
    assert_eq!(lines[0], "00:02:29 - q149.example - A (cloudflare)");
    assert_eq!(d.get_recent_activity(500).len(), 100);
}

#[test]
fn activity_line_format() {
    let e = query("example.com", "9.9.9.9", "10.0.0.2", 86_400 * 3 + 3_661);
    assert_eq!(activity_text(&e), "01:01:01 - example.com - A (quad9)");
    let late = query("late.example", "10.0.0.9", "10.0.0.2", 86_399);
    assert_eq!(activity_text(&late), "23:59:59 - late.example - A (unknown)");
}

#[test]
fn capture_steps() {
    assert_eq!(next_capture_step(CaptureOutcome::Frame, false), CaptureStep::Deliver);
    assert_eq!(next_capture_step(CaptureOutcome::TimedOut, false), CaptureStep::Wait);
    assert_eq!(next_capture_step(CaptureOutcome::Failed, true), CaptureStep::ReportAndContinue);
    assert_eq!(next_capture_step(CaptureOutcome::Failed, false), CaptureStep::Abort);
}

#[test]
fn presentation_tick() {
    assert_eq!(poll_timeout(100, 30), 70);
    assert_eq!(poll_timeout(100, 100), 0);
    assert_eq!(poll_timeout(100, 250), 0);
    assert!(is_quit_key('q'));
    assert!(!is_quit_key('Q'));
}

fn sample_packet(with_query: bool) -> DnsPacket {
    DnsPacket {
        query: if with_query {
            Some(DnsQuery { name: "example.com".to_string(), query_type: "AAAA".to_string() })
        } else {
            None
        },
        answers: vec![
            DnsAnswer { name: "example.com".to_string(), data: "::1".to_string() },
            DnsAnswer { name: "example.com".to_string(), data: "::2".to_string() },
        ],
        provider: DnsProvider::Google,
        source: "8.8.8.8".to_string(),
        destination: "10.0.0.2".to_string(),
    }
}

#[test]
fn channel_event_from_packet() {
    match TxEvent::from_packet(sample_packet(true), 42) {
        Some(TxEvent::DnsQuery { domain, query_type, provider, source, destination, timestamp }) => {
            assert_eq!(domain, "example.com");
            assert_eq!(query_type, "AAAA");
            assert_eq!(provider, DnsProvider::Google);
            assert_eq!(source, "8.8.8.8");
            assert_eq!(destination, "10.0.0.2");
            assert_eq!(timestamp, 42);
        }
        None => panic!("expected an event"),
    }
    assert!(TxEvent::from_packet(sample_packet(false), 42).is_none());
}

#[test]
fn printed_report_lines() {
    let lines = CliOutput.handle_dns_packet(&sample_packet(true), true);
    assert_eq!(
        lines,
        vec![
            "DNS Query: example.com (Type: AAAA) -> Estimated Provider: google",
            "  From: 8.8.8.8",
            "  To: 10.0.0.2",
            "DNS Response: 2 answers",
            "  1. example.com -> ::1",
            "  2. example.com -> ::2",
        ]
    );
    let quiet = CliOutput.handle_dns_packet(&sample_packet(false), false);
    assert_eq!(quiet.len(), 3);
    assert_eq!(quiet[0], "DNS Response: 2 answers");
}
