use kaseeder::crawler::initialize_known_peers;
use kaseeder::dns::{
    is_our_domain, plan_reply, DnsQuery, DnsRecordType, Question, RecordData, A_TTL, NS_TTL,
    RCODE_NO_ERROR, RCODE_SERVFAIL,
};
use kaseeder::manager::{AddressManager, QTYPE_A, QTYPE_AAAA};
use kaseeder::net::{IpAddress, NetAddress};

const NOW: u64 = 1_700_000_000;

fn query(name: &str, qtype: u16) -> DnsQuery {
    DnsQuery {
        id: 4242,
        is_response: false,
        opcode: 0,
        recursion_desired: true,
        questions: vec![Question { name: name.to_string(), qtype, qclass: 1 }],
    }
}

fn good_catalog(n: u8) -> AddressManager {
    let mut m = AddressManager::new();
    let addrs: Vec<NetAddress> =
        (0..n).map(|i| NetAddress::new(IpAddress::V4(5, 5, 5, i + 1), 16111)).collect();
    m.add_addresses(&addrs, NOW, false);
    for a in &addrs {
        m.attempt(a, NOW);
        m.good(a, Some("/x:1.0/"), None, NOW);
    }
    m
}

#[test]
fn a_query_returns_at_most_eight_ipv4_answers() {
    let m = good_catalog(12);
    let r = plan_reply(&query("seed.example.com", QTYPE_A), "seed.example.com", "ns.example.com", &m, NOW)
        .unwrap();
    assert_eq!(r.answers.len(), 8);
    for ans in &r.answers {
        assert_eq!(ans.ttl, A_TTL);
        assert!(matches!(ans.data, RecordData::Addr(IpAddress::V4(..))));
    }
    assert!(r.authoritative);
    assert!(!r.recursion_available);
    assert!(r.recursion_desired);
    assert_eq!(r.id, 4242);
    assert_eq!(r.rcode, RCODE_NO_ERROR);
}

#[test]
fn aaaa_query_without_ipv6_gets_placeholder() {
    let m = good_catalog(3);
    let r = plan_reply(&query("seed.example.com", QTYPE_AAAA), "seed.example.com", "ns.example.com", &m, NOW)
        .unwrap();
    assert_eq!(r.answers.len(), 1);
    assert!(matches!(r.answers[0].data, RecordData::Addr(IpAddress::V6(0x100, 0, 0, 0, 0, 0, 0, 0))));
    assert_eq!(r.answers[0].ttl, A_TTL);
}

#[test]
fn ns_query_names_the_nameserver() {
    let m = AddressManager::new();
    let r = plan_reply(&query("seed.example.com", 2), "seed.example.com", "ns.example.com", &m, NOW).unwrap();
    assert_eq!(r.answers.len(), 1);
    assert_eq!(r.answers[0].ttl, NS_TTL);
    match &r.answers[0].data {
        RecordData::Ns(n) => assert_eq!(n, "ns.example.com"),
        _ => panic!("expected an NS record"),
    }
}

#[test]
fn other_types_and_classes_get_servfail() {
    let m = good_catalog(2);
    let r = plan_reply(&query("seed.example.com", 16), "seed.example.com", "ns", &m, NOW).unwrap();
    assert_eq!(r.rcode, RCODE_SERVFAIL);
    assert!(r.answers.is_empty());
    let mut q = query("seed.example.com", QTYPE_A);
    q.questions[0].qclass = 3;
    let r = plan_reply(&q, "seed.example.com", "ns", &m, NOW).unwrap();
    assert_eq!(r.rcode, RCODE_SERVFAIL);
}

#[test]
fn queries_for_other_names_or_shapes_are_dropped() {
    let m = good_catalog(2);
    assert!(plan_reply(&query("other.example.com", QTYPE_A), "seed.example.com", "ns", &m, NOW).is_none());
    let mut q = query("seed.example.com", QTYPE_A);
    q.is_response = true;
    assert!(plan_reply(&q, "seed.example.com", "ns", &m, NOW).is_none());
    let mut q = query("seed.example.com", QTYPE_A);
    q.opcode = 2;
    assert!(plan_reply(&q, "seed.example.com", "ns", &m, NOW).is_none());
    let mut q = query("seed.example.com", QTYPE_A);
    q.questions.clear();
    assert!(plan_reply(&q, "seed.example.com", "ns", &m, NOW).is_none());
}

#[test]
fn hostname_match_ignores_case_and_trailing_dot() {
    assert!(is_our_domain("Seed.Example.COM.", "seed.example.com"));
    assert!(is_our_domain("seed.example.com", "seed.example.com."));
    assert!(!is_our_domain("seed.example.co", "seed.example.com"));
}

#[test]
fn record_type_numbers() {
    assert_eq!(DnsRecordType::A.to_u16(), 1);
    assert_eq!(DnsRecordType::AAAA.to_u16(), 28);
    assert_eq!(DnsRecordType::TXT.to_u16(), 16);
}

#[test]
fn known_peers_answer_a_query_at_once() {
    let mut m = AddressManager::new();
    let added = initialize_known_peers(&mut m, "1.2.3.4:16111,2.3.4.5:16111", NOW);
    assert_eq!(added, 2);
    let r = plan_reply(&query("seed.example.com", QTYPE_A), "seed.example.com", "ns", &m, NOW).unwrap();
    assert_eq!(r.answers.len(), 2);
    assert!(r.authoritative);
    for ans in &r.answers {
        assert_eq!(ans.ttl, 30);
    }
    let has = |ip: IpAddress| r.answers.iter().any(|a| matches!(a.data, RecordData::Addr(x) if x == ip));
    assert!(has(IpAddress::V4(1, 2, 3, 4)));
    assert!(has(IpAddress::V4(2, 3, 4, 5)));
}
