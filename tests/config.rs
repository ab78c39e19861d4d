use dustcloud::config::Args;
use dustcloud::providers::DnsProvider;

fn base() -> Args {
    Args {
        disable_tui: false,
        dns_providers: None,
        device: None,
        verbose: false,
        list_devices: false,
        continue_on_error: false,
        filter_domains: None,
        output: None,
        max_packets: None,
        format: "text".to_string(),
    }
}

#[test]
fn default_config_is_valid() {
    assert_eq!(base().validate(), Ok(()));
    let mut a = base();
    a.format = "json".to_string();
    assert_eq!(a.validate(), Ok(()));
    a.format = "csv".to_string();
    a.dns_providers = Some(vec!["google".to_string(), "AdGuard".to_string()]);
    assert_eq!(a.validate(), Ok(()));
}

#[test]
fn xml_format_is_rejected() {
    let mut a = base();
    a.format = "xml".to_string();
    assert_eq!(
        a.validate(),
        Err("Unsupported output format: xml. Available formats: text, json, csv".to_string())
    );
}

#[test]
fn unknown_provider_is_rejected() {
    let mut a = base();
    a.dns_providers = Some(vec!["google".to_string(), "level3".to_string(), "nope".to_string()]);
    assert_eq!(
        a.validate(),
        Err("Unknown DNS provider: level3. Available providers: cloudflare, google, opendns, quad9, adguard, cleanbrowsing".to_string())
    );
}

#[test]
fn verbose_text_mode_is_rejected() {
    let mut a = base();
    a.disable_tui = true;
    a.verbose = true;
    assert_eq!(
        a.validate(),
        Err("Can't supply verbose argument with tui enabled".to_string())
    );
}

#[test]
fn selected_providers_follow_names() {
    let mut a = base();
    assert_eq!(a.get_dns_providers(), vec![]);
    a.dns_providers = Some(vec!["Quad9".to_string(), "other".to_string()]);
    assert_eq!(a.get_dns_providers(), vec![DnsProvider::Quad9, DnsProvider::Unknown]);
}
