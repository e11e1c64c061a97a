use kaseeder::crawler::{
    apply_probe_outcome, batch_size, next_step, parse_known_peers, retry_delay, seed_catalog,
    sleep_after_batch, CrawlStep, CrawlerStats, PeerVersion,
};
use kaseeder::errors::KaseederError;
use kaseeder::manager::{AddressManager, NEVER, QTYPE_A};
use kaseeder::net::{IpAddress, NetAddress};

const NOW: u64 = 1_700_000_000;

fn v4(a: u8, b: u8, c: u8, d: u8) -> NetAddress {
    NetAddress::new(IpAddress::V4(a, b, c, d), 16111)
}

fn version(proto: u32, ua: &str) -> PeerVersion {
    PeerVersion { protocol_version: proto, user_agent: ua.to_string(), subnetwork_id: None }
}

#[test]
fn batch_size_is_clamped() {
    assert_eq!(batch_size(1), 20);
    assert_eq!(batch_size(32), 32);
    assert_eq!(batch_size(200), 50);
}

#[test]
fn backoff_after_batches() {
    assert_eq!(sleep_after_batch(3), 5);
    assert_eq!(sleep_after_batch(0), 20);
    assert_eq!((retry_delay(1), retry_delay(2), retry_delay(3)), (1, 2, 4));
}

#[test]
fn known_peer_list_parsing() {
    let peers = parse_known_peers("1.2.3.4:16111,2.3.4.5:16111,bad,1.2.3:5,::1:5,01.2.3.4:1,5.6.7.8:70000");
    assert_eq!(peers, vec![v4(1, 2, 3, 4), v4(2, 3, 4, 5)]);
    assert!(parse_known_peers("").is_empty());
}

#[test]
fn seeding_from_dns_makes_candidates_due() {
    let mut m = AddressManager::new();
    match next_step(&m, 8, false, NOW) {
        CrawlStep::SeedFromDns => {}
        _ => panic!("an empty catalog asks for seeds"),
    }
    let seeds = vec![v4(11, 0, 0, 1), v4(11, 0, 0, 2)];
    assert_eq!(seed_catalog(&mut m, &seeds, NOW), 2);
    match next_step(&m, 8, true, NOW) {
        CrawlStep::Probe(mut peers) => {
            peers.sort_by_key(|a| a.to_string());
            assert_eq!(peers, seeds)
        }
        _ => panic!("the seeded candidates are due"),
    }
}

#[test]
fn unroutable_seeds_are_not_added() {
    let mut m = AddressManager::new();
    assert_eq!(seed_catalog(&mut m, &vec![v4(10, 0, 0, 1)], NOW), 0);
    match next_step(&m, 8, true, NOW) {
        CrawlStep::Sleep(t) => assert_eq!(t, 10),
        _ => panic!("nothing to do after seeding"),
    }
}

#[test]
fn probe_success_promotes_the_peer() {
    let mut m = AddressManager::new();
    let peer = v4(7, 7, 7, 7);
    m.add_addresses(&vec![peer], NOW, false);
    m.attempt(&peer, NOW);
    let outcome = Ok((version(6, "/x:1.0/"), vec![v4(9, 9, 9, 9)]));
    assert_eq!(apply_probe_outcome(&mut m, &peer, outcome, 0, None, NOW).unwrap(), 1);
    let nodes = m.get_all_nodes();
    let source = nodes.iter().find(|n| n.address == peer).unwrap();
    assert_ne!(source.last_success, NEVER);
    assert_eq!(source.user_agent.as_deref(), Some("/x:1.0/"));
    assert!(nodes.iter().any(|n| n.address == v4(9, 9, 9, 9)));
    assert!(m.good_addresses(QTYPE_A, true, None, NOW).contains(&peer));
}

#[test]
fn version_gate_rejects_old_protocol() {
    let mut m = AddressManager::new();
    let peer = v4(7, 7, 7, 7);
    m.add_addresses(&vec![peer], NOW, false);
    let outcome = Ok((version(5, "/x:1.0/"), vec![v4(9, 9, 9, 9)]));
    let r = apply_probe_outcome(&mut m, &peer, outcome, 6, None, NOW);
    assert!(matches!(r, Err(KaseederError::ProtocolVersionMismatch(_))));
    assert!(m.good_addresses(QTYPE_A, true, None, NOW).is_empty());
    assert_eq!(m.address_count(), 1);
    assert_eq!(m.get_all_nodes()[0].last_success, NEVER);
}

#[test]
fn user_agent_gate_and_failures() {
    let mut m = AddressManager::new();
    let peer = v4(7, 7, 7, 7);
    m.add_addresses(&vec![peer], NOW, false);
    let old_ua = Ok((version(6, "0.11.0"), vec![]));
    assert!(apply_probe_outcome(&mut m, &peer, old_ua, 0, Some("0.12.0"), NOW).is_err());
    let failed = Err(KaseederError::ConnectionRefused("refused".to_string()));
    assert!(apply_probe_outcome(&mut m, &peer, failed, 0, None, NOW).is_err());
    assert_eq!(m.get_all_nodes()[0].last_success, NEVER);
    let unparsable = Ok((version(6, "/kaspad/"), vec![]));
    assert_eq!(apply_probe_outcome(&mut m, &peer, unparsable, 0, Some("0.12.0"), NOW).unwrap(), 0);
    assert_eq!(m.get_all_nodes()[0].last_success, NOW);
}

#[test]
fn crawler_stats_count_polls() {
    let mut s = CrawlerStats::new();
    s.record_poll_success(5, 10);
    s.record_poll_failure(11);
    assert_eq!(s.total_peers_polled, 2);
    assert_eq!(s.successful_polls, 1);
    assert_eq!(s.failed_polls, 1);
    assert_eq!(s.addresses_discovered, 5);
    assert_eq!(s.last_poll_time, Some(11));
}
