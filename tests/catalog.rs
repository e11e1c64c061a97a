use kaseeder::manager::{
    AddressManager, Node, DEFAULT_MAX_ANSWERS, NEVER, NEW_NODE_POLL, PRUNE_EXPIRE, QTYPE_A, QTYPE_AAAA,
    STALE_GOOD,
};
use kaseeder::net::{is_routable, IpAddress, NetAddress};

const NOW: u64 = 1_700_000_000;

fn sorted(mut v: Vec<NetAddress>) -> Vec<NetAddress> {
    v.sort_by_key(|a| a.to_string());
    v
}

fn v4(a: u8, b: u8, c: u8, d: u8) -> NetAddress {
    NetAddress::new(IpAddress::V4(a, b, c, d), 16111)
}

fn v6(s0: u16, s7: u16) -> NetAddress {
    NetAddress::new(IpAddress::V6(s0, 0, 0, 0, 0, 0, 0, s7), 16111)
}

#[test]
fn node_count_tracks_distinct_keys_added_minus_pruned() {
    let mut m = AddressManager::new();
    let batch = vec![v4(1, 1, 1, 1), v4(2, 2, 2, 2), v4(1, 1, 1, 1), v4(3, 3, 3, 3)];
    assert_eq!(m.add_addresses(&batch, NOW, false), 3);
    assert_eq!(m.address_count(), 3);
    m.attempt(&v4(1, 1, 1, 1), NOW + 1);
    m.good(&v4(2, 2, 2, 2), Some("/x:1.0/"), None, NOW + 2);
    assert_eq!(m.address_count(), 3);
    assert_eq!(m.add_addresses(&vec![v4(2, 2, 2, 2), v4(4, 4, 4, 4)], NOW + 3, false), 1);
    assert_eq!(m.address_count(), 4);
    // 1.1.1.1 and 3.3.3.3 were last seen at NOW; the others at NOW + 3.
    let report = m.prune_peers(NOW + PRUNE_EXPIRE + 1);
    assert_eq!(report.pruned, 2);
    assert_eq!(report.total, 2);
    assert_eq!(m.address_count(), 2);
}

#[test]
fn add_skips_port_zero_and_unroutable_unless_accepted() {
    let mut m = AddressManager::new();
    let zero = NetAddress::new(IpAddress::V4(8, 8, 8, 8), 0);
    let private = v4(10, 0, 0, 1);
    assert_eq!(m.add_addresses(&vec![zero, private], NOW, false), 0);
    assert_eq!(m.add_addresses(&vec![zero, private], NOW, true), 1);
    assert_eq!(m.address_count(), 1);
}

#[test]
fn existing_key_only_updates_last_seen() {
    let mut m = AddressManager::new();
    let a = v4(5, 6, 7, 8);
    m.add_addresses(&vec![a], NOW, false);
    m.attempt(&a, NOW + 5);
    m.good(&a, Some("/ua/"), Some("sub"), NOW + 6);
    m.add_addresses(&vec![a], NOW + 10, false);
    let nodes = m.get_all_nodes();
    assert_eq!(nodes.len(), 1);
    let n = &nodes[0];
    assert_eq!(n.last_seen, NOW + 10);
    assert_eq!(n.last_attempt, NOW + 5);
    assert_eq!(n.last_success, NOW + 6);
    assert_eq!(n.user_agent.as_deref(), Some("/ua/"));
    assert_eq!(n.subnetwork_id.as_deref(), Some("sub"));
}

fn make_good(m: &mut AddressManager, a: NetAddress, t: u64) {
    m.attempt(&a, t);
    m.good(&a, Some("/ua/"), None, t);
}

#[test]
fn good_addresses_match_the_query_family() {
    let mut m = AddressManager::new();
    let addrs = vec![v4(1, 2, 3, 4), v6(0x2a01, 1), v4(9, 9, 9, 9), v6(0x2a01, 2)];
    m.add_addresses(&addrs, NOW, false);
    for a in &addrs {
        make_good(&mut m, *a, NOW);
    }
    let a = m.good_addresses(QTYPE_A, true, None, NOW);
    assert_eq!(sorted(a.clone()), sorted(vec![v4(1, 2, 3, 4), v4(9, 9, 9, 9)]));
    assert!(a.iter().all(|x| x.ip.is_ipv4()));
    let aaaa = m.good_addresses(QTYPE_AAAA, true, None, NOW);
    assert_eq!(sorted(aaaa.clone()), sorted(vec![v6(0x2a01, 1), v6(0x2a01, 2)]));
    assert!(aaaa.iter().all(|x| !x.ip.is_ipv4()));
    assert!(m.good_addresses(16, true, None, NOW).is_empty());
}

#[test]
fn good_addresses_are_capped() {
    let mut m = AddressManager::new();
    let mut addrs = Vec::new();
    for i in 0..2100u32 {
        addrs.push(v4(20, (i / 256) as u8, (i % 256) as u8, 1));
    }
    assert_eq!(m.add_addresses(&addrs, NOW, false), 2100);
    for a in &addrs {
        make_good(&mut m, *a, NOW);
    }
    assert_eq!(m.good_addresses(QTYPE_A, true, None, NOW).len(), DEFAULT_MAX_ANSWERS);
}

#[test]
fn good_addresses_filter_by_subnetwork() {
    let mut m = AddressManager::new();
    let a = v4(1, 2, 3, 4);
    let b = v4(2, 3, 4, 5);
    m.add_addresses(&vec![a, b], NOW, false);
    m.good(&a, None, Some("s1"), NOW);
    m.good(&b, None, None, NOW);
    assert_eq!(m.good_addresses(QTYPE_A, false, Some("s1"), NOW), vec![a]);
    assert_eq!(m.good_addresses(QTYPE_A, false, None, NOW), vec![b]);
    assert_eq!(m.good_addresses(QTYPE_A, true, Some("s1"), NOW).len(), 2);
}

#[test]
fn good_status_lasts_stale_good_seconds() {
    let mut m = AddressManager::new();
    let a = v4(1, 2, 3, 4);
    m.add_addresses(&vec![a], NOW, false);
    make_good(&mut m, a, NOW);
    assert_eq!(m.good_addresses(QTYPE_A, true, None, NOW + STALE_GOOD - 1).len(), 1);
    assert_eq!(m.good_addresses(QTYPE_A, true, None, NOW + STALE_GOOD).len(), 0);
}

#[test]
fn new_node_is_due_immediately() {
    let mut m = AddressManager::new();
    let a = v4(1, 2, 3, 4);
    m.add_addresses(&vec![a], NOW, false);
    assert_eq!(m.addresses(10, NOW), vec![a]);
    let n = Node::new(a, NOW);
    assert_eq!(n.last_success, NEVER);
    assert!(n.stale_at(NOW));
}

#[test]
fn attempted_new_node_waits_new_node_poll() {
    let mut m = AddressManager::new();
    let a = v4(1, 2, 3, 4);
    m.add_addresses(&vec![a], NOW, false);
    m.attempt(&a, NOW);
    assert!(m.addresses(10, NOW + NEW_NODE_POLL - 1).is_empty());
    assert_eq!(m.addresses(10, NOW + NEW_NODE_POLL), vec![a]);
}

#[test]
fn good_node_is_not_due() {
    let mut m = AddressManager::new();
    let a = v4(1, 2, 3, 4);
    let b = v4(2, 3, 4, 5);
    m.add_addresses(&vec![a, b], NOW, false);
    make_good(&mut m, a, NOW);
    assert_eq!(m.addresses(10, NOW + 1), vec![b]);
    assert_eq!(m.addresses(10, NOW + STALE_GOOD - 1), vec![b]);
    // once stale, it is due again, after the new node
    assert_eq!(m.addresses(10, NOW + STALE_GOOD), vec![b, a]);
}

#[test]
fn due_selection_prefers_new_nodes_and_is_bounded() {
    let mut m = AddressManager::new();
    let old = v4(1, 1, 1, 1);
    m.add_addresses(&vec![old], NOW, false);
    make_good(&mut m, old, NOW);
    let later = NOW + STALE_GOOD;
    let fresh = vec![v4(2, 2, 2, 2), v4(3, 3, 3, 3)];
    m.add_addresses(&fresh, later, false);
    let all = m.addresses(10, later);
    assert_eq!(all.len(), 3);
    assert_eq!(sorted(all[..2].to_vec()), sorted(fresh.clone()));
    assert_eq!(all[2], old);
    assert_eq!(sorted(m.addresses(2, later)), sorted(fresh));
    assert_eq!(m.addresses(1, later).len(), 1);
    assert!(m.addresses(1, later)[0] != old);
    assert!(m.addresses(0, later).is_empty());
}

#[test]
fn expired_node_is_removed_on_prune() {
    let mut m = AddressManager::new();
    let a = v4(1, 2, 3, 4);
    let b = v4(2, 3, 4, 5);
    m.add_addresses(&vec![a], NOW - 9 * 3600, false);
    m.add_addresses(&vec![b], NOW - 3600, false);
    let report = m.prune_peers(NOW);
    assert_eq!(report.pruned, 1);
    assert_eq!(m.address_count(), 1);
    assert_eq!(m.get_all_nodes()[0].address, b);
    // exactly PRUNE_EXPIRE old is kept
    let mut k = AddressManager::new();
    k.add_addresses(&vec![a], NOW - PRUNE_EXPIRE, false);
    assert_eq!(k.prune_peers(NOW).pruned, 0);
}

#[test]
fn prune_reports_states() {
    let mut m = AddressManager::new();
    let g4 = v4(1, 1, 1, 1);
    let g6 = v6(0x2a01, 7);
    let fresh = v4(2, 2, 2, 2);
    let tried = v4(3, 3, 3, 3);
    m.add_addresses(&vec![g4, g6, fresh, tried], NOW, false);
    make_good(&mut m, g4, NOW);
    make_good(&mut m, g6, NOW);
    m.attempt(&tried, NOW);
    let r = m.prune_peers(NOW + 10);
    assert_eq!((r.pruned, r.good, r.ipv4, r.ipv6, r.stale, r.bad, r.total), (0, 2, 1, 1, 1, 1, 4));
}

#[test]
fn dump_and_load_round_trip() {
    let mut m = AddressManager::new();
    let addrs = vec![v4(1, 2, 3, 4), v6(0x2a01, 9), v4(8, 8, 4, 4)];
    m.add_addresses(&addrs, NOW, false);
    m.attempt(&addrs[0], NOW + 1);
    m.good(&addrs[0], Some("/kaspad:0.12/"), Some("sub"), NOW + 2);
    let mut dumped = m.get_all_nodes();
    let mut loaded = AddressManager::new();
    loaded.restore(&dumped);
    let mut again = loaded.get_all_nodes();
    assert_eq!(again.len(), dumped.len());
    dumped.sort_by_key(|n| n.key());
    again.sort_by_key(|n| n.key());
    for (x, y) in dumped.iter().zip(again.iter()) {
        assert_eq!(x.address, y.address);
        assert_eq!(x.last_seen, y.last_seen);
        assert_eq!(x.last_attempt, y.last_attempt);
        assert_eq!(x.last_success, y.last_success);
        assert_eq!(x.user_agent, y.user_agent);
        assert_eq!(x.subnetwork_id, y.subnetwork_id);
        assert_eq!(x.services, y.services);
        assert_eq!(x.key(), y.key());
    }
}

#[test]
fn restore_drops_port_zero_and_replaces_same_key() {
    let mut m = AddressManager::new();
    let mut a = Node::new(v4(1, 2, 3, 4), NOW);
    let z = Node::new(NetAddress::new(IpAddress::V4(1, 2, 3, 5), 0), NOW);
    m.restore(&vec![a.duplicate(), z]);
    assert_eq!(m.address_count(), 1);
    a.last_seen = NOW + 7;
    m.restore(&vec![a]);
    assert_eq!(m.address_count(), 1);
    assert_eq!(m.get_all_nodes()[0].last_seen, NOW + 7);
}

#[test]
fn two_adds_of_the_same_thousand_addresses() {
    let mut m = AddressManager::new();
    let mut addrs = Vec::new();
    for i in 0..1000u32 {
        addrs.push(v4(30, (i / 256) as u8, (i % 256) as u8, 9));
    }
    let first = m.add_addresses(&addrs, NOW, false);
    let second = m.add_addresses(&addrs, NOW + 1, false);
    assert_eq!(first + second, 1000);
    assert_eq!(m.address_count(), 1000);
}

#[test]
fn node_key_is_ip_and_port() {
    let n = Node::new(v4(1, 2, 3, 4), NOW);
    assert_eq!(n.key(), "1.2.3.4:16111");
    assert_eq!(v4(10, 0, 0, 255).to_string(), "10.0.0.255:16111");
    let six = |s: [u16; 8]| {
        NetAddress::new(IpAddress::V6(s[0], s[1], s[2], s[3], s[4], s[5], s[6], s[7]), 16111).to_string()
    };
    assert_eq!(six([0x2a01, 0, 0, 0, 0, 0, 0, 5]), "2a01::5:16111");
    assert_eq!(six([0, 0, 0, 0, 0, 0, 0, 1]), "::1:16111");
    assert_eq!(six([0, 0, 0, 0, 0, 0, 0, 0]), ":::16111");
    assert_eq!(six([1, 0, 0, 2, 0, 0, 3, 4]), "1::2:0:0:3:4:16111");
    assert_eq!(six([1, 0, 2, 0, 3, 0, 4, 0]), "1:0:2:0:3:0:4:0:16111");
    assert_eq!(six([0, 0, 0, 0, 0, 0xffff, 0x0102, 0x0304]), "::ffff:1.2.3.4:16111");
    assert_eq!(six([0xfe80, 0, 0, 0, 0xabcd, 0, 0, 0]), "fe80::abcd:0:0:0:16111");
}

#[test]
fn routability_table() {
    let unroutable = [
        v4(10, 1, 2, 3),
        v4(172, 16, 0, 1),
        v4(172, 31, 255, 255),
        v4(192, 168, 1, 1),
        v4(127, 0, 0, 1),
        v4(0, 0, 0, 0),
        v4(169, 254, 1, 1),
        v4(224, 0, 0, 1),
        v4(239, 255, 255, 255),
        v4(255, 255, 255, 255),
        v4(192, 0, 2, 5),
        v4(198, 51, 100, 7),
        v4(203, 0, 113, 9),
        v4(198, 18, 0, 1),
        v4(198, 19, 255, 1),
        v6(0, 1),
        v6(0, 0),
        v6(0xff02, 1),
        v6(0xfc00, 1),
        v6(0xfd12, 1),
        v6(0xfe80, 1),
        v6(0xfebf, 1),
        NetAddress::new(IpAddress::V6(0x2001, 0xdb8, 5, 0, 0, 0, 0, 1), 16111),
        NetAddress::new(IpAddress::V6(0x2001, 2, 0, 0, 0, 0, 0, 1), 16111),
    ];
    for a in unroutable.iter() {
        assert!(!is_routable(a), "{:?}", a);
    }
    let routable = [
        v4(1, 2, 3, 4),
        v4(8, 8, 8, 8),
        v4(172, 32, 0, 1),
        v4(198, 20, 0, 1),
        v4(192, 0, 3, 1),
        v6(0x2a01, 1),
        NetAddress::new(IpAddress::V6(0x2001, 2, 1, 0, 0, 0, 0, 1), 16111),
    ];
    for a in routable.iter() {
        assert!(is_routable(a), "{:?}", a);
    }
    assert!(!is_routable(&NetAddress::new(IpAddress::V4(8, 8, 8, 8), 0)));
}

#[test]
fn address_timing_helpers() {
    let a = v4(1, 2, 3, 4);
    assert!(a.is_recently_seen(100, 90, 11));
    assert!(!a.is_recently_seen(100, 90, 10));
    assert!(!a.is_recently_seen(100, 101, 10));
    assert!(a.should_retry(100, None, 50));
    assert!(a.should_retry(100, Some(50), 50));
    assert!(!a.should_retry(100, Some(51), 50));
    assert!(a.is_good(9, 1));
    assert!(!a.is_good(10, 1));
    assert!(!a.is_good(0, 0));
}

#[test]
fn new_node_selected_when_new_nodes_fit_the_request() {
    let mut m = AddressManager::new();
    let olds: Vec<NetAddress> = (1..=5).map(|i| v4(40, 0, 0, i)).collect();
    m.add_addresses(&olds, NOW, false);
    for a in &olds {
        make_good(&mut m, *a, NOW);
    }
    let later = NOW + STALE_GOOD;
    let a = v4(41, 0, 0, 1);
    assert_eq!(m.add_addresses(&vec![a], later, false), 1);
    assert_eq!(m.addresses(1, later), vec![a]);
}
