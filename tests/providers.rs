use dustcloud::config::{build_capture_filter, Args};
use dustcloud::providers::{
    get_filter_for_providers, get_provider_for_ip, list_all_providers, DnsProvider,
};

fn args_with(providers: Option<Vec<&str>>) -> Args {
    Args {
        disable_tui: false,
        dns_providers: providers.map(|v| v.into_iter().map(|s| s.to_string()).collect()),
        device: None,
        verbose: false,
        list_devices: false,
        continue_on_error: false,
        filter_domains: None,
        output: None,
        max_packets: None,
        format: "text".to_string(),
    }
}

#[test]
fn classify_each_known_address() {
    let table = [
        ("1.1.1.1", DnsProvider::Cloudflare),
        ("1.0.0.1", DnsProvider::Cloudflare),
        ("8.8.8.8", DnsProvider::Google),
        ("8.8.4.4", DnsProvider::Google),
        ("208.67.222.222", DnsProvider::OpenDNS),
        ("208.67.220.220", DnsProvider::OpenDNS),
        ("9.9.9.9", DnsProvider::Quad9),
        ("149.112.112.112", DnsProvider::Quad9),
        ("94.140.14.14", DnsProvider::AdGuard),
        ("94.140.15.15", DnsProvider::AdGuard),
        ("185.228.168.9", DnsProvider::CleanBrowsing),
        ("185.228.169.9", DnsProvider::CleanBrowsing),
    ];
    for (ip, p) in table {
        assert_eq!(get_provider_for_ip(ip), p);
    }
}

#[test]
fn classify_other_strings_unknown() {
    assert_eq!(get_provider_for_ip("10.0.0.1"), DnsProvider::Unknown);
    assert_eq!(get_provider_for_ip(""), DnsProvider::Unknown);
    assert_eq!(get_provider_for_ip("1.1.1.10"), DnsProvider::Unknown);
    assert_eq!(get_provider_for_ip("unknown"), DnsProvider::Unknown);
}

#[test]
fn classify_names_in_scenario() {
    assert_eq!(get_provider_for_ip("1.1.1.1").as_str(), "cloudflare");
    assert_eq!(get_provider_for_ip("9.9.9.9").as_str(), "quad9");
}

#[test]
fn provider_names_round_trip() {
    for p in [
        DnsProvider::Cloudflare,
        DnsProvider::Google,
        DnsProvider::OpenDNS,
        DnsProvider::Quad9,
        DnsProvider::AdGuard,
        DnsProvider::CleanBrowsing,
    ] {
        assert_eq!(DnsProvider::from_str(p.as_str()), p);
    }
    assert_eq!(DnsProvider::Unknown.as_str(), "unknown");
}

#[test]
fn from_str_ignores_letter_case() {
    assert_eq!(DnsProvider::from_str("CloudFlare"), DnsProvider::Cloudflare);
    assert_eq!(DnsProvider::from_str("QUAD9"), DnsProvider::Quad9);
    assert_eq!(DnsProvider::from_name("QUAD9"), DnsProvider::Unknown);
    assert_eq!(DnsProvider::from_str("level3"), DnsProvider::Unknown);
}

#[test]
fn filter_for_cloudflare_has_exactly_its_addresses() {
    let f = get_filter_for_providers(&[DnsProvider::Cloudflare]);
    assert_eq!(f, "udp port 53 and (host 1.1.1.1 or host 1.0.0.1)");
    assert_eq!(f.matches("host ").count(), 2);
}

#[test]
fn filter_without_providers_is_port_only() {
    assert_eq!(get_filter_for_providers(&[]), "udp port 53");
}

#[test]
fn filter_for_two_providers() {
    let f = get_filter_for_providers(&[DnsProvider::Google, DnsProvider::Quad9]);
    assert_eq!(
        f,
        "udp port 53 and (host 8.8.8.8 or host 8.8.4.4 or host 9.9.9.9 or host 149.112.112.112)"
    );
}

#[test]
fn filter_for_unknown_provider_has_no_hosts() {
    assert_eq!(get_filter_for_providers(&[DnsProvider::Unknown]), "udp port 53 and ()");
}

#[test]
fn all_providers_listed() {
    assert_eq!(
        list_all_providers(),
        "cloudflare, google, opendns, quad9, adguard, cleanbrowsing"
    );
}

#[test]
fn capture_filter_from_config() {
    assert_eq!(build_capture_filter(&args_with(None)), "udp port 53 or tcp port 53");
    assert_eq!(
        build_capture_filter(&args_with(Some(vec!["Cloudflare"]))),
        "udp port 53 and (host 1.1.1.1 or host 1.0.0.1)"
    );
}
