//! The resolved run configuration, its validation, and the capture filter it
//! asks for.
use vstd::prelude::*;
use crate::providers::{
    all_provider_names, filter_for, get_filter_for_providers, list_all_providers, lowercase_of,
    provider_named, DnsProvider,
};
use crate::text::{same_text, views};

verus! {

/// The run configuration, as resolved from the command line.
pub struct Args {
    /// Print observations as text instead of showing the dashboard.
    pub disable_tui: bool,
    /// Names of the providers whose traffic is captured; all DNS traffic when absent.
    pub dns_providers: Option<Vec<String>>,
    /// The network interface to capture on; the default one when absent.
    pub device: Option<String>,
    /// Print more detail.
    pub verbose: bool,
    /// List the network interfaces and stop.
    pub list_devices: bool,
    /// Keep capturing after a capture error.
    pub continue_on_error: bool,
    /// Domains of interest (declared for later use; not applied).
    pub filter_domains: Option<Vec<String>>,
    /// Where to write output (declared for later use; not applied).
    pub output: Option<String>,
    /// How many packets to capture at most (declared for later use; not applied).
    pub max_packets: Option<u64>,
    /// The output format: `text`, `json` or `csv`.
    pub format: String,
}

/// The first of `names` that names no known provider in any letter case.
pub open spec fn first_unknown_provider(names: Seq<Seq<char>>) -> Option<Seq<char>>
    decreases names.len(),
{
    if names.len() == 0 {
        None
    } else if provider_named(lowercase_of(names[0])) == DnsProvider::Unknown {
        Some(names[0])
    } else {
        first_unknown_provider(names.drop_first())
    }
}

/// The provider names that a configuration gives, if any.
pub open spec fn provider_names(a: Args) -> Seq<Seq<char>> {
    match a.dns_providers {
        Some(v) => views(v@),
        None => Seq::empty(),
    }
}

/// Whether `f` is one of the output formats that a configuration may ask for.
pub open spec fn known_format(f: Seq<char>) -> bool {
    f == "text"@ || f == "json"@ || f == "csv"@
}

/// The outcome of validating a configuration: the first problem found, with
/// unknown provider names checked first, then the output format, then
/// incompatible flags.
pub open spec fn validation(a: Args) -> Result<(), Seq<char>> {
    match first_unknown_provider(provider_names(a)) {
        Some(name) => Err(
            "Unknown DNS provider: "@ + name + ". Available providers: "@ + all_provider_names(),
        ),
        None => if !known_format(a.format@) {
            Err("Unsupported output format: "@ + a.format@ + ". Available formats: text, json, csv"@)
        } else if a.disable_tui && a.verbose {
            Err("Can't supply verbose argument with tui enabled"@)
        } else {
            Ok(())
        },
    }
}

/// The providers that a configuration selects, one for each name, `Unknown`
/// for a name of no known provider.
pub open spec fn selected_providers(a: Args) -> Seq<DnsProvider> {
    provider_names(a).map_values(|n: Seq<char>| provider_named(lowercase_of(n)))
}

/// The capture predicate for a configuration: the providers' filter when
/// some are selected, otherwise all DNS traffic over UDP or TCP.
pub open spec fn capture_filter(a: Args) -> Seq<char> {
    if selected_providers(a).len() > 0 {
        filter_for(selected_providers(a))
    } else {
        "udp port 53 or tcp port 53"@
    }
}

/// The first name in `names` of no known provider.
fn find_unknown_provider(names: &Vec<String>) -> (r: Option<usize>)
    ensures
        first_unknown_provider(views(names@)) == match r {
            Some(i) => Some(names@[i as int]@),
            None => None::<Seq<char>>,
        },
        r matches Some(i) ==> i < names@.len(),
{
    let mut i: usize = 0;
    assert(views(names@).skip(0) == views(names@));
    while i < names.len()
        invariant
            i <= names@.len(),
            first_unknown_provider(views(names@)) == first_unknown_provider(
                views(names@).skip(i as int),
            ),
        decreases names@.len() - i,
    {
        let ghost rest = views(names@).skip(i as int);
        assert(rest[0] == names@[i as int]@);
        if DnsProvider::from_str(names[i].as_str()) == DnsProvider::Unknown {
            return Some(i);
        }
        assert(rest.drop_first() == views(names@).skip(i as int + 1));
        i = i + 1;
    }
    None
}

/// Whether `f` names a known output format.
fn is_known_format(f: &str) -> (r: bool)
    ensures
        r == known_format(f@),
{
    same_text(f, "text") || same_text(f, "json") || same_text(f, "csv")
}

impl Args {
    /// Checks the configuration before any capture starts.
    pub fn validate(&self) -> (r: Result<(), String>)
        ensures
            match (r, validation(*self)) {
                (Ok(()), Ok(())) => true,
                (Err(m), Err(s)) => m@ == s,
                _ => false,
            },
    {
        self.validate_dns_providers()
    }

    fn validate_dns_providers(&self) -> (r: Result<(), String>)
        ensures
            match (r, validation(*self)) {
                (Ok(()), Ok(())) => true,
                (Err(m), Err(s)) => m@ == s,
                _ => false,
            },
    {
        if let Some(names) = &self.dns_providers {
            if let Some(i) = find_unknown_provider(names) {
                let all = list_all_providers();
                let msg = String::from_str("Unknown DNS provider: ")
                    .concat(names[i].as_str())
                    .concat(". Available providers: ")
                    .concat(all.as_str());
                return Err(msg);
            }
        }
        if !is_known_format(self.format.as_str()) {
            let msg = String::from_str("Unsupported output format: ")
                .concat(self.format.as_str())
                .concat(". Available formats: text, json, csv");
            return Err(msg);
        }
        if self.disable_tui && self.verbose {
            return Err(String::from_str("Can't supply verbose argument with tui enabled"));
        }
        Ok(())
    }

    /// The providers selected by name, `Unknown` for a name of no known provider.
    pub fn get_dns_providers(&self) -> (r: Vec<DnsProvider>)
        ensures
            r@ == selected_providers(*self),
    {
        let mut r: Vec<DnsProvider> = Vec::new();
        if let Some(names) = &self.dns_providers {
            let mut i: usize = 0;
            while i < names.len()
                invariant
                    i <= names@.len(),
                    self.dns_providers == Some(*names),
                    r@ == views(names@).take(i as int).map_values(
                        |n: Seq<char>| provider_named(lowercase_of(n)),
                    ),
                decreases names@.len() - i,
            {
                let p = DnsProvider::from_str(names[i].as_str());
                let ghost before = r@;
                r.push(p);
                assert(views(names@).take(i as int + 1) == views(names@).take(i as int).push(
                    names@[i as int]@,
                ));
                assert(r@ == before.push(p));
                assert(views(names@).take(i as int + 1).map_values(
                    |n: Seq<char>| provider_named(lowercase_of(n)),
                ) == before.push(p));
                i = i + 1;
            }
            assert(views(names@).take(i as int) == views(names@));
        } else {
            assert(selected_providers(*self) == Seq::<DnsProvider>::empty());
        }
        r
    }
}

/// The capture predicate that a configuration asks for.
pub fn build_capture_filter(args: &Args) -> (r: String)
    ensures
        r@ == capture_filter(*args),
{
    let providers = args.get_dns_providers();
    if providers.len() > 0 {
        get_filter_for_providers(providers.as_slice())
    } else {
        String::from_str("udp port 53 or tcp port 53")
    }
}

} // verus!
