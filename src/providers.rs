//! The known public DNS resolvers, their addresses, and capture filters
//! built from them.
use vstd::prelude::*;
use crate::text::{joined, join_strings, same_text, views};

verus! {

/// A DNS resolver operator, or `Unknown` for any other address.
#[derive(Debug, Hash, PartialEq, Eq, Structural, Clone, Copy)]
pub enum DnsProvider {
    Cloudflare,
    Google,
    OpenDNS,
    Quad9,
    AdGuard,
    CleanBrowsing,
    Unknown,
}

/// The lower-case name of a provider.
pub open spec fn provider_name(p: DnsProvider) -> Seq<char> {
    match p {
        DnsProvider::Cloudflare => "cloudflare"@,
        DnsProvider::Google => "google"@,
        DnsProvider::OpenDNS => "opendns"@,
        DnsProvider::Quad9 => "quad9"@,
        DnsProvider::AdGuard => "adguard"@,
        DnsProvider::CleanBrowsing => "cleanbrowsing"@,
        DnsProvider::Unknown => "unknown"@,
    }
}

/// The known provider whose name is exactly `s`, or `Unknown`.
pub open spec fn provider_named(s: Seq<char>) -> DnsProvider {
    if s == "cloudflare"@ {
        DnsProvider::Cloudflare
    } else if s == "google"@ {
        DnsProvider::Google
    } else if s == "opendns"@ {
        DnsProvider::OpenDNS
    } else if s == "quad9"@ {
        DnsProvider::Quad9
    } else if s == "adguard"@ {
        DnsProvider::AdGuard
    } else if s == "cleanbrowsing"@ {
        DnsProvider::CleanBrowsing
    } else {
        DnsProvider::Unknown
    }
}

/// What `str::to_lowercase` makes of a text.
pub uninterp spec fn lowercase_of(s: Seq<char>) -> Seq<char>;

/// Relies on `str::to_lowercase`: its result depends on the characters alone.
#[verifier::external_body]
fn lowercase(s: &str) -> (r: String)
    ensures
        r@ == lowercase_of(s@),
{
    s.to_lowercase()
}

impl DnsProvider {
    /// The provider's lower-case name.
    pub fn as_str(&self) -> (r: &'static str)
        ensures
            r@ == provider_name(*self),
    {
        match self {
            DnsProvider::Cloudflare => "cloudflare",
            DnsProvider::Google => "google",
            DnsProvider::OpenDNS => "opendns",
            DnsProvider::Quad9 => "quad9",
            DnsProvider::AdGuard => "adguard",
            DnsProvider::CleanBrowsing => "cleanbrowsing",
            DnsProvider::Unknown => "unknown",
        }
    }

    /// The provider named `s`, in any letter case; `Unknown` for any other text.
    pub fn from_str(s: &str) -> (r: DnsProvider)
        ensures
            r == provider_named(lowercase_of(s@)),
    {
        let lower = lowercase(s);
        DnsProvider::from_name(lower.as_str())
    }

    /// The provider whose lower-case name is exactly `name`; `Unknown` otherwise.
    pub fn from_name(name: &str) -> (r: DnsProvider)
        ensures
            r == provider_named(name@),
    {
        if same_text(name, "cloudflare") {
            DnsProvider::Cloudflare
        } else if same_text(name, "google") {
            DnsProvider::Google
        } else if same_text(name, "opendns") {
            DnsProvider::OpenDNS
        } else if same_text(name, "quad9") {
            DnsProvider::Quad9
        } else if same_text(name, "adguard") {
            DnsProvider::AdGuard
        } else if same_text(name, "cleanbrowsing") {
            DnsProvider::CleanBrowsing
        } else {
            DnsProvider::Unknown
        }
    }
}

/// The known providers, in the order in which they are listed and searched.
pub open spec fn provider_order() -> Seq<DnsProvider> {
    seq![
        DnsProvider::Cloudflare,
        DnsProvider::Google,
        DnsProvider::OpenDNS,
        DnsProvider::Quad9,
        DnsProvider::AdGuard,
        DnsProvider::CleanBrowsing,
    ]
}

/// The known resolver addresses of a provider; none for `Unknown`.
pub open spec fn addresses(p: DnsProvider) -> Seq<Seq<char>> {
    match p {
        DnsProvider::Cloudflare => seq!["1.1.1.1"@, "1.0.0.1"@],
        DnsProvider::Google => seq!["8.8.8.8"@, "8.8.4.4"@],
        DnsProvider::OpenDNS => seq!["208.67.222.222"@, "208.67.220.220"@],
        DnsProvider::Quad9 => seq!["9.9.9.9"@, "149.112.112.112"@],
        DnsProvider::AdGuard => seq!["94.140.14.14"@, "94.140.15.15"@],
        DnsProvider::CleanBrowsing => seq!["185.228.168.9"@, "185.228.169.9"@],
        DnsProvider::Unknown => Seq::empty(),
    }
}

/// The provider that an address belongs to: the first in `provider_order`
/// that lists it, or `Unknown`.
pub open spec fn classify(ip: Seq<char>) -> DnsProvider {
    if addresses(DnsProvider::Cloudflare).contains(ip) {
        DnsProvider::Cloudflare
    } else if addresses(DnsProvider::Google).contains(ip) {
        DnsProvider::Google
    } else if addresses(DnsProvider::OpenDNS).contains(ip) {
        DnsProvider::OpenDNS
    } else if addresses(DnsProvider::Quad9).contains(ip) {
        DnsProvider::Quad9
    } else if addresses(DnsProvider::AdGuard).contains(ip) {
        DnsProvider::AdGuard
    } else if addresses(DnsProvider::CleanBrowsing).contains(ip) {
        DnsProvider::CleanBrowsing
    } else {
        DnsProvider::Unknown
    }
}

/// Classification is total and agrees with the address table: an address
/// listed for a known provider is classified as that provider.
pub proof fn lemma_classify_listed(p: DnsProvider, ip: Seq<char>)
    requires
        addresses(p).contains(ip),
    ensures
        classify(ip) == p,
{
    reveal_strlit("1.1.1.1");
    reveal_strlit("1.0.0.1");
    reveal_strlit("8.8.8.8");
    reveal_strlit("8.8.4.4");
    reveal_strlit("208.67.222.222");
    reveal_strlit("208.67.220.220");
    reveal_strlit("9.9.9.9");
    reveal_strlit("149.112.112.112");
    reveal_strlit("94.140.14.14");
    reveal_strlit("94.140.15.15");
    reveal_strlit("185.228.168.9");
    reveal_strlit("185.228.169.9");
    let k = choose|k: int| 0 <= k < addresses(p).len() && addresses(p)[k] == ip;
    assert(ip.len() > 0 && ip[0] == addresses(p)[k][0]);
}

/// An address that no provider lists is classified as `Unknown`.
pub proof fn lemma_classify_unlisted(ip: Seq<char>)
    requires
        forall|p: DnsProvider| !(#[trigger] addresses(p)).contains(ip),
    ensures
        classify(ip) == DnsProvider::Unknown,
{
    assert(!addresses(DnsProvider::Cloudflare).contains(ip));
    assert(!addresses(DnsProvider::Google).contains(ip));
    assert(!addresses(DnsProvider::OpenDNS).contains(ip));
    assert(!addresses(DnsProvider::Quad9).contains(ip));
    assert(!addresses(DnsProvider::AdGuard).contains(ip));
    assert(!addresses(DnsProvider::CleanBrowsing).contains(ip));
}

/// The known providers in search order.
pub fn known_providers() -> (r: Vec<DnsProvider>)
    ensures
        r@ == provider_order(),
{
    let r = vec![
        DnsProvider::Cloudflare,
        DnsProvider::Google,
        DnsProvider::OpenDNS,
        DnsProvider::Quad9,
        DnsProvider::AdGuard,
        DnsProvider::CleanBrowsing,
    ];
    assert(r@ == provider_order());
    r
}

/// The resolver addresses of `p`.
pub fn provider_addresses(p: DnsProvider) -> (r: Vec<&'static str>)
    ensures
        r@.map_values(|a: &'static str| a@) == addresses(p),
{
    let r = match p {
        DnsProvider::Cloudflare => vec!["1.1.1.1", "1.0.0.1"],
        DnsProvider::Google => vec!["8.8.8.8", "8.8.4.4"],
        DnsProvider::OpenDNS => vec!["208.67.222.222", "208.67.220.220"],
        DnsProvider::Quad9 => vec!["9.9.9.9", "149.112.112.112"],
        DnsProvider::AdGuard => vec!["94.140.14.14", "94.140.15.15"],
        DnsProvider::CleanBrowsing => vec!["185.228.168.9", "185.228.169.9"],
        DnsProvider::Unknown => Vec::new(),
    };
    assert(r@.map_values(|a: &'static str| a@) == addresses(p));
    r
}

/// Whether `ip` is one of the addresses of `p`.
fn is_listed(ip: &str, p: DnsProvider) -> (r: bool)
    ensures
        r == addresses(p).contains(ip@),
{
    let list = provider_addresses(p);
    let ghost lv = list@.map_values(|a: &'static str| a@);
    let mut i: usize = 0;
    while i < list.len()
        invariant
            i <= list@.len(),
            lv == addresses(p),
            lv.len() == list@.len(),
            forall|k: int| 0 <= k < lv.len() ==> lv[k] == (#[trigger] list@[k])@,
            forall|k: int| 0 <= k < i ==> lv[k] != ip@,
        decreases list@.len() - i,
    {
        if same_text(ip, list[i]) {
            assert(lv[i as int] == ip@);
            return true;
        }
        i = i + 1;
    }
    assert(!lv.contains(ip@)) by {
        if lv.contains(ip@) {
            let k = choose|k: int| 0 <= k < lv.len() && lv[k] == ip@;
        }
    }
    false
}

/// The provider that `ip` belongs to, or `Unknown`.
pub fn get_provider_for_ip(ip: &str) -> (r: DnsProvider)
    ensures
        r == classify(ip@),
{
    let order = known_providers();
    let mut i: usize = 0;
    while i < order.len()
        invariant
            i <= order@.len(),
            order@ == provider_order(),
            forall|k: int| 0 <= k < i ==> !addresses(#[trigger] order@[k]).contains(ip@),
        decreases order@.len() - i,
    {
        if is_listed(ip, order[i]) {
            return order[i];
        }
        i = i + 1;
    }
    assert(!addresses(order@[0]).contains(ip@));
    assert(!addresses(order@[1]).contains(ip@));
    assert(!addresses(order@[2]).contains(ip@));
    assert(!addresses(order@[3]).contains(ip@));
    assert(!addresses(order@[4]).contains(ip@));
    assert(!addresses(order@[5]).contains(ip@));
    DnsProvider::Unknown
}

/// The addresses of `ps`, provider by provider, in order.
pub open spec fn gathered(ps: Seq<DnsProvider>) -> Seq<Seq<char>>
    decreases ps.len(),
{
    if ps.len() == 0 {
        Seq::empty()
    } else {
        gathered(ps.drop_last()) + addresses(ps.last())
    }
}

/// One `host <address>` match for each address.
pub open spec fn host_terms(ips: Seq<Seq<char>>) -> Seq<Seq<char>> {
    ips.map_values(|ip: Seq<char>| "host "@ + ip)
}

/// The capture predicate for `ps`: DNS over UDP alone when `ps` is empty, and
/// otherwise DNS over UDP to or from any address of the providers in `ps`.
pub open spec fn filter_for(ps: Seq<DnsProvider>) -> Seq<char> {
    if ps.len() == 0 {
        "udp port 53"@
    } else {
        "udp port 53 and ("@ + joined(host_terms(gathered(ps)), " or "@) + ")"@
    }
}

/// The capture predicate that admits DNS traffic of the given providers.
pub fn get_filter_for_providers(providers: &[DnsProvider]) -> (r: String)
    ensures
        r@ == filter_for(providers@),
{
    if providers.len() == 0 {
        return String::from_str("udp port 53");
    }
    let mut terms: Vec<String> = Vec::new();
    let mut i: usize = 0;
    while i < providers.len()
        invariant
            i <= providers@.len(),
            views(terms@) == host_terms(gathered(providers@.take(i as int))),
        decreases providers@.len() - i,
    {
        let p = providers[i];
        let list = provider_addresses(p);
        let ghost lv = list@.map_values(|a: &'static str| a@);
        let ghost before = gathered(providers@.take(i as int));
        assert(providers@.take(i as int + 1).drop_last() == providers@.take(i as int));
        let mut j: usize = 0;
        while j < list.len()
            invariant
                j <= list@.len(),
                lv == addresses(p),
                lv.len() == list@.len(),
                forall|k: int| 0 <= k < lv.len() ==> lv[k] == (#[trigger] list@[k])@,
                views(terms@) == host_terms(before + lv.take(j as int)),
            decreases list@.len() - j,
        {
            let term = String::from_str("host ").concat(list[j]);
            let ghost old_terms = terms@;
            terms.push(term);
            assert(before + lv.take(j as int + 1) == (before + lv.take(j as int)).push(lv[j as int]));
            assert(views(terms@) == views(old_terms).push(term@));
            assert(host_terms(before + lv.take(j as int + 1)) == host_terms(before + lv.take(j as int)).push("host "@ + lv[j as int]));
            j = j + 1;
        }
        assert(lv.take(j as int) == lv);
        i = i + 1;
    }
    assert(providers@.take(i as int) == providers@);
    let body = join_strings(&terms, " or ");
    String::from_str("udp port 53 and (").concat(body.as_str()).concat(")")
}

/// The names of all known providers, separated by a comma and a space.
pub open spec fn all_provider_names() -> Seq<char> {
    joined(provider_order().map_values(|p: DnsProvider| provider_name(p)), ", "@)
}

/// The names of all known providers, comma-separated.
pub fn list_all_providers() -> (r: String)
    ensures
        r@ == all_provider_names(),
{
    let order = known_providers();
    let mut names: Vec<String> = Vec::new();
    let mut i: usize = 0;
    while i < order.len()
        invariant
            i <= order@.len(),
            order@ == provider_order(),
            views(names@) == order@.take(i as int).map_values(|p: DnsProvider| provider_name(p)),
        decreases order@.len() - i,
    {
        let ghost old_names = names@;
        names.push(String::from_str(order[i].as_str()));
        assert(views(names@) == views(old_names).push(provider_name(order@[i as int])));
        assert(order@.take(i as int + 1).map_values(|p: DnsProvider| provider_name(p))
            == order@.take(i as int).map_values(|p: DnsProvider| provider_name(p)).push(provider_name(order@[i as int])));
        i = i + 1;
    }
    assert(order@.take(i as int) == order@);
    join_strings(&names, ", ")
}

} // verus!
