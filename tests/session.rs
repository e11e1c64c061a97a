use kaseeder::net::{IpAddress, NetAddress};
use kaseeder::session::{
    address_from_wire, next_protocol_version, PeerMessage, Session, SessionAction, ADDRESSES_TIMEOUT,
    PING_INTERVAL,
};

#[test]
fn ping_gets_pong_with_same_nonce() {
    let mut s = Session::new(1000);
    match s.on_message(PeerMessage::Ping(42), 1000) {
        SessionAction::SendPong(n) => assert_eq!(n, 42),
        _ => panic!("a ping is answered"),
    }
}

#[test]
fn quiet_connection_sends_ping() {
    let mut s = Session::new(1000);
    s.on_message(PeerMessage::Addresses(vec![]), 1000);
    assert!(matches!(s.on_tick(1000 + PING_INTERVAL - 1, 7), SessionAction::Wait));
    match s.on_tick(1000 + PING_INTERVAL, 7) {
        SessionAction::SendPing(n) => assert_eq!(n, 7),
        _ => panic!("sixty quiet seconds send a ping"),
    }
    assert!(matches!(s.on_tick(1000 + PING_INTERVAL + 1, 8), SessionAction::Wait));
}

#[test]
fn addresses_are_delivered_once_and_other_messages_skipped() {
    let mut s = Session::new(1000);
    assert!(matches!(s.on_message(PeerMessage::Verack, 1000), SessionAction::Wait));
    assert!(matches!(s.on_message(PeerMessage::Version, 1000), SessionAction::Wait));
    assert!(matches!(s.on_message(PeerMessage::RequestAddresses, 1001), SessionAction::Wait));
    let a = NetAddress::new(IpAddress::V4(9, 9, 9, 9), 16111);
    match s.on_message(PeerMessage::Addresses(vec![a]), 1001) {
        SessionAction::Deliver(list) => assert_eq!(list, vec![a]),
        _ => panic!("addresses are delivered"),
    }
    assert!(matches!(s.on_message(PeerMessage::Addresses(vec![a]), 1002), SessionAction::Wait));
}

#[test]
fn address_wait_times_out_with_empty_list() {
    let mut s = Session::new(1000);
    assert!(matches!(s.on_tick(1000 + ADDRESSES_TIMEOUT - 1, 1), SessionAction::Wait));
    match s.on_tick(1000 + ADDRESSES_TIMEOUT, 1) {
        SessionAction::Deliver(list) => assert!(list.is_empty()),
        _ => panic!("the wait ends with no addresses"),
    }
}

#[test]
fn protocol_versions_descend_three_times() {
    assert_eq!(next_protocol_version(6), Some(5));
    assert_eq!(next_protocol_version(5), Some(4));
    assert_eq!(next_protocol_version(4), None);
}

#[test]
fn wire_addresses_decode() {
    assert_eq!(
        address_from_wire(&vec![1, 2, 3, 4], 16111),
        Some(NetAddress::new(IpAddress::V4(1, 2, 3, 4), 16111))
    );
    let mut v6 = vec![0u8; 16];
    v6[0] = 0x2a;
    v6[1] = 0x01;
    v6[15] = 0x05;
    assert_eq!(
        address_from_wire(&v6, 1),
        Some(NetAddress::new(IpAddress::V6(0x2a01, 0, 0, 0, 0, 0, 0, 5), 1))
    );
    assert_eq!(address_from_wire(&vec![1, 2, 3], 1), None);
}

#[test]
fn fresh_quiet_session_pings_then_delivers() {
    let mut s = Session::new(1000);
    match s.on_tick(1000 + PING_INTERVAL, 9) {
        SessionAction::SendPing(n) => assert_eq!(n, 9),
        _ => panic!("sixty quiet seconds send a ping"),
    }
    match s.on_tick(1000 + PING_INTERVAL + 1, 10) {
        SessionAction::Deliver(list) => assert!(list.is_empty()),
        _ => panic!("the address wait then ends"),
    }
}
