//! Decoding of captured frames into classified DNS observations.
use vstd::prelude::*;
use dns_parser::rdata::RData;
use crate::net::{dotted, dotted_string, extract_ip_addresses, frame_addresses};
use crate::providers::{classify, get_provider_for_ip, DnsProvider};
use crate::text::{concat_all, decimal, decimal_string, views};

verus! {

/// Bytes of the Ethernet, IPv4 and UDP headers in front of a DNS message.
pub const DNS_DATA_START: usize = 42;

#[verifier::external_type_specification]
#[verifier::external_body]
pub struct ExPacket<'a>(dns_parser::Packet<'a>);

/// The first question of a DNS message.
#[derive(Debug)]
pub struct DnsQuery {
    /// The queried name.
    pub name: String,
    /// The query type's mnemonic (`A`, `AAAA`, `MX`, ...).
    pub query_type: String,
}

/// The data of an answer record, as plain values.
#[derive(Debug)]
pub enum RecordData {
    A([u8; 4]),
    /// An IPv6 address in its standard text form.
    Aaaa(String),
    Cname(String),
    Mx { preference: u16, exchange: String },
    Ns(String),
    Ptr(String),
    Soa {
        primary_ns: String,
        mailbox: String,
        serial: u32,
        refresh: u32,
        retry: u32,
        expire: u32,
        minimum_ttl: u32,
    },
    Srv { priority: u16, weight: u16, port: u16, target: String },
    /// The record's character-strings, each read as UTF-8.
    Txt(Vec<String>),
    Unsupported,
}

/// An answer record: the name it is for, and its data.
#[derive(Debug)]
pub struct DnsRecord {
    pub name: String,
    pub data: RecordData,
}

/// What a DNS message holds that observations use.
#[derive(Debug)]
pub struct DnsMessage {
    pub question: Option<DnsQuery>,
    pub answers: Vec<DnsRecord>,
}

/// An answer as shown: the name it is for, and its data as text.
#[derive(Debug)]
pub struct DnsAnswer {
    pub name: String,
    pub data: String,
}

/// A decoded, classified DNS frame.
#[derive(Debug)]
pub struct DnsPacket {
    pub query: Option<DnsQuery>,
    pub answers: Vec<DnsAnswer>,
    pub provider: DnsProvider,
    pub source: String,
    pub destination: String,
}

/// The text of an answer's data: addresses in their text form, the
/// referenced name for name-valued types, `preference exchange` for MX, the
/// seven SOA fields, `priority weight port target` for SRV, the joined
/// character-strings for TXT, and a fixed marker for any other type.
pub open spec fn rendered(d: RecordData) -> Seq<char> {
    match d {
        RecordData::A(o) => dotted(o[0], o[1], o[2], o[3]),
        RecordData::Aaaa(s) => s@,
        RecordData::Cname(n) => n@,
        RecordData::Mx { preference, exchange } => decimal(preference as nat) + " "@ + exchange@,
        RecordData::Ns(n) => n@,
        RecordData::Ptr(n) => n@,
        RecordData::Soa { primary_ns, mailbox, serial, refresh, retry, expire, minimum_ttl } =>
            primary_ns@ + " "@ + mailbox@ + " "@ + decimal(serial as nat) + " "@ + decimal(
            refresh as nat) + " "@ + decimal(retry as nat) + " "@ + decimal(expire as nat) + " "@
            + decimal(minimum_ttl as nat),
        RecordData::Srv { priority, weight, port, target } => decimal(priority as nat) + " "@
            + decimal(weight as nat) + " "@ + decimal(port as nat) + " "@ + target@,
        RecordData::Txt(chunks) => concat_all(views(chunks@)),
        RecordData::Unsupported => "<unsupported record type>"@,
    }
}

/// Whether `dns_parser::Packet::parse` accepts a payload as a DNS message.
pub uninterp spec fn decodes(payload: Seq<u8>) -> bool;

/// How many questions the decoded message of a payload holds.
pub uninterp spec fn question_count_of(payload: Seq<u8>) -> nat;

/// The dotted name (the `Display` of `dns_parser::Name`) of question `i` of a
/// payload's decoded message.
pub uninterp spec fn question_name_of(payload: Seq<u8>, i: nat) -> Seq<char>;

/// The mnemonic (the `Debug` of `dns_parser::QueryType`) of the type of
/// question `i` of a payload's decoded message.
pub uninterp spec fn question_type_of(payload: Seq<u8>, i: nat) -> Seq<char>;

/// How many answer records the decoded message of a payload holds.
pub uninterp spec fn answer_count_of(payload: Seq<u8>) -> nat;

/// The dotted owner name of answer `i` of a payload's decoded message.
pub uninterp spec fn answer_name_of(payload: Seq<u8>, i: nat) -> Seq<char>;

/// A payload together with the DNS message decoded from it. Only
/// `parse_message` makes one, so `packet` is always the decoding of `payload`.
pub struct Message<'a> {
    pub payload: &'a [u8],
    packet: dns_parser::Packet<'a>,
}

/// Relies on `dns_parser::Packet::parse`, which decodes a DNS message or fails.
#[verifier::external_body]
fn parse_message<'a>(payload: &'a [u8]) -> (r: Option<Message<'a>>)
    ensures
        r.is_some() == decodes(payload@),
        r matches Some(m) ==> m.payload@ == payload@,
{
    dns_parser::Packet::parse(payload).ok().map(|packet| Message { payload, packet })
}

/// Relies on the `questions` of `dns_parser::Packet`: how many there are.
#[verifier::external_body]
fn question_count(m: &Message) -> (r: usize)
    ensures
        r == question_count_of(m.payload@),
{
    m.packet.questions.len()
}

/// Relies on the `qname` of `dns_parser::Question` and the `Display` of
/// `dns_parser::Name`: the dotted name of question `i`.
#[verifier::external_body]
fn question_name(m: &Message, i: usize) -> (r: String)
    requires
        i < question_count_of(m.payload@),
    ensures
        r@ == question_name_of(m.payload@, i as nat),
{
    m.packet.questions[i].qname.to_string()
}

/// Relies on the `qtype` of `dns_parser::Question` and the `Debug` of
/// `dns_parser::QueryType`: the type mnemonic of question `i`.
#[verifier::external_body]
fn question_type(m: &Message, i: usize) -> (r: String)
    requires
        i < question_count_of(m.payload@),
    ensures
        r@ == question_type_of(m.payload@, i as nat),
{
    format!("{:?}", m.packet.questions[i].qtype)
}

/// Relies on the `answers` of `dns_parser::Packet`: how many there are.
#[verifier::external_body]
fn answer_count(m: &Message) -> (r: usize)
    ensures
        r == answer_count_of(m.payload@),
{
    m.packet.answers.len()
}

/// Relies on the `name` of `dns_parser::ResourceRecord` and the `Display` of
/// `dns_parser::Name`: the dotted owner name of answer `i`.
#[verifier::external_body]
fn answer_owner(m: &Message, i: usize) -> (r: String)
    requires
        i < answer_count_of(m.payload@),
    ensures
        r@ == answer_name_of(m.payload@, i as nat),
{
    m.packet.answers[i].name.to_string()
}

/// Relies on `dns_parser::RData`: the data of answer `i` when it is an
/// address or name-valued record.
#[verifier::external_body]
fn address_or_name(m: &Message, i: usize) -> Option<RecordData>
    requires
        i < answer_count_of(m.payload@),
{
    match &m.packet.answers[i].data {
        RData::A(a) => Some(RecordData::A(a.0.octets())),
        RData::AAAA(a) => Some(RecordData::Aaaa(a.0.to_string())),
        RData::CNAME(n) => Some(RecordData::Cname(n.0.to_string())),
        RData::NS(n) => Some(RecordData::Ns(n.0.to_string())),
        RData::PTR(n) => Some(RecordData::Ptr(n.0.to_string())),
        _ => None,
    }
}

/// Relies on `dns_parser::RData`: the fields of answer `i` when it is an MX,
/// SRV or SOA record.
#[verifier::external_body]
fn structured(m: &Message, i: usize) -> Option<RecordData>
    requires
        i < answer_count_of(m.payload@),
{
    match &m.packet.answers[i].data {
        RData::MX(x) => Some(RecordData::Mx { preference: x.preference, exchange: x.exchange.to_string() }),
        RData::SRV(x) => Some(RecordData::Srv { priority: x.priority, weight: x.weight, port: x.port, target: x.target.to_string() }),
        RData::SOA(x) => Some(RecordData::Soa {
            primary_ns: x.primary_ns.to_string(),
            mailbox: x.mailbox.to_string(),
            serial: x.serial,
            refresh: x.refresh,
            retry: x.retry,
            expire: x.expire,
            minimum_ttl: x.minimum_ttl,
        }),
        _ => None,
    }
}

/// Relies on `dns_parser::rdata::Txt::iter`: the character-strings of answer
/// `i` when it is a TXT record, each read as UTF-8 with invalid sequences
/// replaced.
#[verifier::external_body]
fn text_chunks(m: &Message, i: usize) -> Option<RecordData>
    requires
        i < answer_count_of(m.payload@),
{
    match &m.packet.answers[i].data {
        RData::TXT(t) => Some(RecordData::Txt(t.iter().map(|c| String::from_utf8_lossy(c).into_owned()).collect())),
        _ => None,
    }
}

/// The data of answer `i`, as plain values.
fn record_data(m: &Message, i: usize) -> RecordData
    requires
        i < answer_count_of(m.payload@),
{
    if let Some(d) = address_or_name(m, i) {
        d
    } else if let Some(d) = structured(m, i) {
        d
    } else if let Some(d) = text_chunks(m, i) {
        d
    } else {
        RecordData::Unsupported
    }
}

/// Whether `m` is what observations take from the decoded message of
/// `payload`: its first question (none when it has none; later questions are
/// ignored), and its answers in order, each with its owner name.
pub open spec fn message_of(payload: Seq<u8>, m: DnsMessage) -> bool {
    &&& match m.question {
        Some(q) => question_count_of(payload) > 0 && q.name@ == question_name_of(payload, 0)
            && q.query_type@ == question_type_of(payload, 0),
        None => question_count_of(payload) == 0,
    }
    &&& m.answers@.len() == answer_count_of(payload)
    &&& forall|i: int|
        0 <= i < m.answers@.len() ==> (#[trigger] m.answers@[i]).name@ == answer_name_of(
            payload,
            i as nat,
        )
}

/// Decodes a DNS message; `None` where it is malformed.
pub fn decode_message(payload: &[u8]) -> (r: Option<DnsMessage>)
    ensures
        r.is_some() == decodes(payload@),
        r matches Some(m) ==> message_of(payload@, m),
{
    let m = match parse_message(payload) {
        Some(m) => m,
        None => return None,
    };
    let question = if question_count(&m) > 0 {
        Some(DnsQuery { name: question_name(&m, 0), query_type: question_type(&m, 0) })
    } else {
        None
    };
    let n = answer_count(&m);
    let mut answers: Vec<DnsRecord> = Vec::new();
    let mut i: usize = 0;
    while i < n
        invariant
            n == answer_count_of(m.payload@),
            i <= n,
            answers@.len() == i,
            forall|k: int|
                0 <= k < i ==> (#[trigger] answers@[k]).name@ == answer_name_of(
                    m.payload@,
                    k as nat,
                ),
        decreases n - i,
    {
        answers.push(DnsRecord { name: answer_owner(&m, i), data: record_data(&m, i) });
        i = i + 1;
    }
    Some(DnsMessage { question, answers })
}

/// Renders an answer's data as text.
pub fn render_record_data(d: &RecordData) -> (r: String)
    ensures
        r@ == rendered(*d),
{
    match d {
        RecordData::A(o) => dotted_string(o[0], o[1], o[2], o[3]),
        RecordData::Aaaa(s) => s.clone(),
        RecordData::Cname(n) => n.clone(),
        RecordData::Mx { preference, exchange } => decimal_string(*preference as u64).concat(
            " ",
        ).concat(exchange.as_str()),
        RecordData::Ns(n) => n.clone(),
        RecordData::Ptr(n) => n.clone(),
        RecordData::Soa { primary_ns, mailbox, serial, refresh, retry, expire, minimum_ttl } => {
            let mut s = primary_ns.clone().concat(" ").concat(mailbox.as_str());
            s = s.concat(" ").concat(decimal_string(*serial as u64).as_str());
            s = s.concat(" ").concat(decimal_string(*refresh as u64).as_str());
            s = s.concat(" ").concat(decimal_string(*retry as u64).as_str());
            s = s.concat(" ").concat(decimal_string(*expire as u64).as_str());
            s.concat(" ").concat(decimal_string(*minimum_ttl as u64).as_str())
        },
        RecordData::Srv { priority, weight, port, target } => {
            let mut s = decimal_string(*priority as u64);
            s = s.concat(" ").concat(decimal_string(*weight as u64).as_str());
            s = s.concat(" ").concat(decimal_string(*port as u64).as_str());
            s.concat(" ").concat(target.as_str())
        },
        RecordData::Txt(chunks) => {
            let mut s = String::new();
            let mut i: usize = 0;
            while i < chunks.len()
                invariant
                    i <= chunks@.len(),
                    s@ == concat_all(views(chunks@).take(i as int)),
                decreases chunks@.len() - i,
            {
                assert(views(chunks@).take(i as int + 1).drop_last() == views(chunks@).take(
                    i as int,
                ));
                s.append(chunks[i].as_str());
                i = i + 1;
            }
            assert(views(chunks@).take(i as int) == views(chunks@));
            s
        },
        RecordData::Unsupported => String::from_str("<unsupported record type>"),
    }
}

/// The observation that a frame and its decoded message make.
pub open spec fn packet_matches(frame: Seq<u8>, m: DnsMessage, p: DnsPacket) -> bool {
    &&& p.source@ == frame_addresses(frame).0
    &&& p.destination@ == frame_addresses(frame).1
    &&& p.provider == classify(frame_addresses(frame).0)
    &&& p.query == m.question
    &&& p.answers@.len() == m.answers@.len()
    &&& forall|i: int|
        0 <= i < p.answers@.len() ==> (#[trigger] p.answers@[i]).name@ == m.answers@[i].name@
            && p.answers@[i].data@ == rendered(m.answers@[i].data)
}

/// Builds the observation of a frame from its decoded DNS message.
pub fn build_packet(frame: &[u8], m: DnsMessage) -> (p: DnsPacket)
    ensures
        packet_matches(frame@, m, p),
{
    let (source, destination) = extract_ip_addresses(frame);
    let provider = get_provider_for_ip(source.as_str());
    let mut answers: Vec<DnsAnswer> = Vec::new();
    let mut i: usize = 0;
    while i < m.answers.len()
        invariant
            i <= m.answers@.len(),
            answers@.len() == i,
            forall|k: int|
                0 <= k < i ==> (#[trigger] answers@[k]).name@ == m.answers@[k].name@
                    && answers@[k].data@ == rendered(m.answers@[k].data),
        decreases m.answers@.len() - i,
    {
        let a = DnsAnswer {
            name: m.answers[i].name.clone(),
            data: render_record_data(&m.answers[i].data),
        };
        answers.push(a);
        i = i + 1;
    }
    DnsPacket { query: m.question, answers, provider, source, destination }
}

/// Decodes a captured frame: `None` for a frame no longer than the fixed
/// header prefix or whose payload is no DNS message; otherwise the
/// observation of its addresses, their provider, and its DNS message.
pub fn parse_packet(frame: &[u8]) -> (r: Option<DnsPacket>)
    ensures
        frame@.len() <= DNS_DATA_START ==> r.is_none(),
        frame@.len() > DNS_DATA_START ==> (r.is_some() <==> decodes(
            frame@.skip(DNS_DATA_START as int),
        )),
        r matches Some(p) ==> exists|m: DnsMessage|
            message_of(frame@.skip(DNS_DATA_START as int), m) && packet_matches(frame@, m, p),
{
    if frame.len() <= DNS_DATA_START {
        return None;
    }
    let (_, payload) = frame.split_at(DNS_DATA_START);
    assert(payload@ == frame@.skip(DNS_DATA_START as int));
    match decode_message(payload) {
        Some(m) => Some(build_packet(frame, m)),
        None => None,
    }
}

} // verus!
