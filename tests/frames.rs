use dustcloud::dns::{decode_message, parse_packet, render_record_data, RecordData};
use dustcloud::net::extract_ip_addresses;
use dustcloud::providers::DnsProvider;
use dustcloud::text::{decimal_string, two_digit_string};

fn headers(src: [u8; 4], dst: [u8; 4]) -> Vec<u8> {
    let mut f = vec![0u8; 42];
    f[12] = 0x08;
    f[13] = 0x00;
    f[14] = 0x45;
    f[23] = 17;
    f[26..30].copy_from_slice(&src);
    f[30..34].copy_from_slice(&dst);
    f
}

fn question(f: &mut Vec<u8>) {
    f.extend_from_slice(&[7, b'e', b'x', b'a', b'm', b'p', b'l', b'e', 3, b'c', b'o', b'm', 0]);
    f.extend_from_slice(&[0, 1, 0, 1]);
}

fn query_frame() -> Vec<u8> {
    let mut f = headers([192, 168, 1, 20], [1, 1, 1, 1]);
    f.extend_from_slice(&[0x12, 0x34, 0x01, 0x00, 0, 1, 0, 0, 0, 0, 0, 0]);
    question(&mut f);
    f
}

fn response_frame() -> Vec<u8> {
    let mut f = headers([8, 8, 8, 8], [10, 0, 0, 7]);
    f.extend_from_slice(&[0x12, 0x34, 0x81, 0x80, 0, 1, 0, 2, 0, 0, 0, 0]);
    question(&mut f);
    // A record for the question's name
    f.extend_from_slice(&[0xc0, 0x0c, 0, 1, 0, 1, 0, 0, 0x0e, 0x10, 0, 4, 93, 184, 216, 34]);
    // MX record: preference 10, exchange "mail" + pointer to "example.com"
    f.extend_from_slice(&[0xc0, 0x0c, 0, 15, 0, 1, 0, 0, 0x0e, 0x10, 0, 9, 0, 10]);
    f.extend_from_slice(&[4, b'm', b'a', b'i', b'l', 0xc0, 0x0c]);
    f
}

#[test]
fn addresses_of_ipv4_frame() {
    let (s, d) = extract_ip_addresses(&query_frame());
    assert_eq!(s, "192.168.1.20");
    assert_eq!(d, "1.1.1.1");
}

#[test]
fn addresses_of_short_frame_unknown() {
    let f = vec![0u8; 33];
    assert_eq!(extract_ip_addresses(&f), ("unknown".to_string(), "unknown".to_string()));
}

#[test]
fn addresses_of_non_ipv4_frame_unknown() {
    let mut f = query_frame();
    f[12] = 0x86;
    f[13] = 0xdd;
    assert_eq!(extract_ip_addresses(&f), ("unknown".to_string(), "unknown".to_string()));
}

#[test]
fn short_frame_yields_nothing() {
    assert!(parse_packet(&[]).is_none());
    assert!(parse_packet(&vec![0u8; 42]).is_none());
    let mut f = query_frame();
    f.truncate(42);
    assert!(parse_packet(&f).is_none());
}

#[test]
fn malformed_payload_yields_nothing() {
    let mut f = headers([1, 1, 1, 1], [10, 0, 0, 7]);
    f.extend_from_slice(&[0x12, 0x34, 0x01]);
    assert!(parse_packet(&f).is_none());
}

#[test]
fn query_frame_decodes() {
    let p = parse_packet(&query_frame()).expect("a DNS query");
    let q = p.query.expect("a question");
    assert_eq!(q.name, "example.com");
    assert_eq!(q.query_type, "A");
    assert_eq!(p.source, "192.168.1.20");
    assert_eq!(p.destination, "1.1.1.1");
    assert_eq!(p.provider, DnsProvider::Unknown);
    assert!(p.answers.is_empty());
}

#[test]
fn response_frame_decodes_answers() {
    let p = parse_packet(&response_frame()).expect("a DNS response");
    assert_eq!(p.provider, DnsProvider::Google);
    assert_eq!(p.query.expect("a question").name, "example.com");
    assert_eq!(p.answers.len(), 2);
    assert_eq!(p.answers[0].name, "example.com");
    assert_eq!(p.answers[0].data, "93.184.216.34");
    assert_eq!(p.answers[1].data, "10 mail.example.com");
}

#[test]
fn render_each_record_kind() {
    assert_eq!(render_record_data(&RecordData::A([10, 0, 255, 1])), "10.0.255.1");
    assert_eq!(render_record_data(&RecordData::Aaaa("::1".to_string())), "::1");
    assert_eq!(render_record_data(&RecordData::Cname("a.example".to_string())), "a.example");
    assert_eq!(render_record_data(&RecordData::Ns("ns1.example".to_string())), "ns1.example");
    assert_eq!(render_record_data(&RecordData::Ptr("host.example".to_string())), "host.example");
    assert_eq!(
        render_record_data(&RecordData::Mx { preference: 20, exchange: "mx.example".to_string() }),
        "20 mx.example"
    );
    assert_eq!(
        render_record_data(&RecordData::Soa {
            primary_ns: "ns.example".to_string(),
            mailbox: "admin.example".to_string(),
            serial: 2024010101,
            refresh: 7200,
            retry: 3600,
            expire: 1209600,
            minimum_ttl: 300,
        }),
        "ns.example admin.example 2024010101 7200 3600 1209600 300"
    );
    assert_eq!(
        render_record_data(&RecordData::Srv {
            priority: 0,
            weight: 5,
            port: 5060,
            target: "sip.example".to_string(),
        }),
        "0 5 5060 sip.example"
    );
    assert_eq!(
        render_record_data(&RecordData::Txt(vec!["v=spf1 ".to_string(), "-all".to_string()])),
        "v=spf1 -all"
    );
    assert_eq!(render_record_data(&RecordData::Txt(vec![])), "");
    assert_eq!(render_record_data(&RecordData::Unsupported), "<unsupported record type>");
}

#[test]
fn decimal_text_of_numbers() {
    assert_eq!(decimal_string(0), "0");
    assert_eq!(decimal_string(9), "9");
    assert_eq!(decimal_string(10), "10");
    assert_eq!(decimal_string(18446744073709551615), "18446744073709551615");
    assert_eq!(two_digit_string(7), "07");
    assert_eq!(two_digit_string(42), "42");
}

#[test]
fn only_first_question_becomes_query() {
    let mut f = headers([192, 168, 1, 20], [8, 8, 4, 4]);
    f.extend_from_slice(&[0x12, 0x34, 0x01, 0x00, 0, 2, 0, 0, 0, 0, 0, 0]);
    question(&mut f);
    f.extend_from_slice(&[3, b'f', b'o', b'o', 3, b'c', b'o', b'm', 0, 0, 15, 0, 1]);
    let p = parse_packet(&f).expect("a DNS query");
    let q = p.query.expect("a question");
    assert_eq!(q.name, "example.com");
    assert_eq!(q.query_type, "A");
    assert_eq!(p.provider, DnsProvider::Unknown);
    assert_eq!(p.destination, "8.8.4.4");
}

#[test]
fn message_without_questions_has_no_query() {
    let mut f = headers([1, 1, 1, 1], [10, 0, 0, 7]);
    f.extend_from_slice(&[0x12, 0x34, 0x81, 0x80, 0, 0, 0, 0, 0, 0, 0, 0]);
    let p = parse_packet(&f).expect("a DNS message");
    assert!(p.query.is_none());
    assert!(p.answers.is_empty());
    assert_eq!(p.provider, DnsProvider::Cloudflare);
}

#[test]
fn decode_message_payload() {
    let f = response_frame();
    let m = decode_message(&f[42..]).expect("a DNS message");
    let q = m.question.expect("a question");
    assert_eq!(q.name, "example.com");
    assert_eq!(m.answers.len(), 2);
    assert_eq!(m.answers[1].name, "example.com");
    match &m.answers[0].data {
        RecordData::A(o) => assert_eq!(*o, [93, 184, 216, 34]),
        other => panic!("unexpected record {:?}", other),
    }
    assert!(decode_message(&[0x12, 0x34]).is_none());
    assert!(decode_message(&[]).is_none());
}
