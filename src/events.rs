//! The observation events that the capture side hands to the aggregator.
use vstd::prelude::*;
use crate::providers::DnsProvider;

verus! {

/// An event passed from the capture loop to the presentation loop.
#[derive(Debug)]
pub enum TxEvent {
    /// One decoded, classified DNS query.
    DnsQuery {
        domain: String,
        query_type: String,
        provider: DnsProvider,
        source: String,
        destination: String,
        /// Capture time, in whole seconds since the Unix epoch.
        timestamp: u64,
    },
}

impl TxEvent {
    /// The queried domain.
    pub open spec fn domain_view(&self) -> Seq<char> {
        match self {
            TxEvent::DnsQuery { domain, .. } => domain@,
        }
    }

    /// The query type's name.
    pub open spec fn query_type_view(&self) -> Seq<char> {
        match self {
            TxEvent::DnsQuery { query_type, .. } => query_type@,
        }
    }

    /// The provider the query was classified as.
    pub open spec fn provider_of(&self) -> DnsProvider {
        match self {
            TxEvent::DnsQuery { provider, .. } => *provider,
        }
    }

    /// The connection key, `<source>-><destination>`.
    pub open spec fn connection_view(&self) -> Seq<char> {
        match self {
            TxEvent::DnsQuery { source, destination, .. } => source@ + "->"@ + destination@,
        }
    }

    /// The capture time in seconds since the Unix epoch.
    pub open spec fn timestamp_of(&self) -> u64 {
        match self {
            TxEvent::DnsQuery { timestamp, .. } => *timestamp,
        }
    }
}

} // verus!
