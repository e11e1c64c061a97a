//! The decisions of one probe session with a peer: protocol-version fallback,
//! waiting for the peer's addresses, and keeping the connection alive. The
//! connection itself is driven around these functions, which it feeds with
//! messages and clock ticks and whose actions it performs.
use vstd::prelude::*;
use crate::net::{IpAddress, NetAddress};

verus! {

/// The protocol version tried first.
pub const HIGHEST_PROTOCOL_VERSION: u32 = 6;

/// Most handshakes tried, each with a lower version.
pub const MAX_HANDSHAKE_ATTEMPTS: u32 = 3;

/// Seconds allowed for the TCP connection.
pub const CONNECT_TIMEOUT: u64 = 10;

/// Seconds to wait for the peer's addresses before going on without them.
pub const ADDRESSES_TIMEOUT: u64 = 3;

/// Seconds of quiet after which a ping is sent.
pub const PING_INTERVAL: u64 = 60;

/// The version tried after a failed handshake with `current`: each of the
/// three versions from `HIGHEST_PROTOCOL_VERSION` down, then none.
pub fn next_protocol_version(current: u32) -> (r: Option<u32>)
    ensures
        r == (if current == 6 {
            Some(5u32)
        } else if current == 5 {
            Some(4u32)
        } else {
            None::<u32>
        }),
{
    if current == 6 {
        Some(5)
    } else if current == 5 {
        Some(4)
    } else {
        None
    }
}

/// A message from the peer, as far as the session tells them apart.
pub enum PeerMessage {
    Version,
    Verack,
    Ready,
    Ping(u64),
    Pong(u64),
    RequestAddresses,
    Addresses(Vec<NetAddress>),
    Other,
}

/// What the session asks of the connection.
pub enum SessionAction {
    /// Nothing to send.
    Wait,
    /// Reply to a ping.
    SendPong(u64),
    /// Send a ping to keep the connection alive.
    SendPing(u64),
    /// The probe's result is ready: the peer's addresses, empty on timeout.
    Deliver(Vec<NetAddress>),
}

/// State of one session.
pub struct Session {
    pub started: u64,
    pub last_traffic: u64,
    pub delivered: bool,
}

impl Session {
    /// A session whose handshake completed at `now`.
    pub fn new(now: u64) -> (r: Session)
        ensures
            r.started == now,
            r.last_traffic == now,
            !r.delivered,
    {
        Session { started: now, last_traffic: now, delivered: false }
    }

    /// Handles a message received at `now`. A ping is answered with a pong of
    /// the same nonce; the first address list is delivered; anything else is
    /// skipped. Any message counts as traffic.
    pub fn on_message(&mut self, msg: PeerMessage, now: u64) -> (r: SessionAction)
        ensures
            final(self).started == old(self).started,
            final(self).last_traffic == now,
            match msg {
                PeerMessage::Ping(n) => r == SessionAction::SendPong(n) && final(self).delivered
                    == old(self).delivered,
                PeerMessage::Addresses(list) => if old(self).delivered {
                    r is Wait && final(self).delivered
                } else {
                    r == SessionAction::Deliver(list) && final(self).delivered
                },
                _ => r is Wait && final(self).delivered == old(self).delivered,
            },
    {
        self.last_traffic = now;
        match msg {
            PeerMessage::Ping(n) => SessionAction::SendPong(n),
            PeerMessage::Addresses(list) => {
                if self.delivered {
                    SessionAction::Wait
                } else {
                    self.delivered = true;
                    SessionAction::Deliver(list)
                }
            },
            _ => SessionAction::Wait,
        }
    }

    /// Handles a clock tick at `now`; `nonce` is a fresh random number for a
    /// ping. After `PING_INTERVAL` seconds of quiet, a ping is sent. Otherwise,
    /// without addresses `ADDRESSES_TIMEOUT` seconds after the start, an empty
    /// list is delivered.
    pub fn on_tick(&mut self, now: u64, nonce: u64) -> (r: SessionAction)
        ensures
            final(self).started == old(self).started,
            if now >= old(self).last_traffic && now - old(self).last_traffic >= PING_INTERVAL {
                r == SessionAction::SendPing(nonce) && final(self).last_traffic == now
                    && final(self).delivered == old(self).delivered
            } else if !old(self).delivered && now >= old(self).started && now - old(self).started
                >= ADDRESSES_TIMEOUT {
                r is Deliver && r->Deliver_0@.len() == 0 && final(self).delivered
                    && final(self).last_traffic == old(self).last_traffic
            } else {
                r is Wait && final(self).last_traffic == old(self).last_traffic
                    && final(self).delivered == old(self).delivered
            },
    {
        if now >= self.last_traffic && now - self.last_traffic >= PING_INTERVAL {
            self.last_traffic = now;
            SessionAction::SendPing(nonce)
        } else if !self.delivered && now >= self.started && now - self.started >= ADDRESSES_TIMEOUT {
            self.delivered = true;
            SessionAction::Deliver(Vec::new())
        } else {
            SessionAction::Wait
        }
    }
}

/// The address that a wire record denotes: four bytes are IPv4, sixteen bytes
/// are IPv6 in big-endian order; other lengths denote none.
pub open spec fn wire_address(ip: Seq<u8>, port: u16) -> Option<NetAddress> {
    if ip.len() == 4 {
        Some(NetAddress { ip: IpAddress::V4(ip[0], ip[1], ip[2], ip[3]), port })
    } else if ip.len() == 16 {
        Some(
            NetAddress {
                ip: IpAddress::V6(
                    (ip[0] as int * 256 + ip[1] as int) as u16,
                    (ip[2] as int * 256 + ip[3] as int) as u16,
                    (ip[4] as int * 256 + ip[5] as int) as u16,
                    (ip[6] as int * 256 + ip[7] as int) as u16,
                    (ip[8] as int * 256 + ip[9] as int) as u16,
                    (ip[10] as int * 256 + ip[11] as int) as u16,
                    (ip[12] as int * 256 + ip[13] as int) as u16,
                    (ip[14] as int * 256 + ip[15] as int) as u16,
                ),
                port,
            },
        )
    } else {
        None
    }
}

fn segment(hi: u8, lo: u8) -> (r: u16)
    ensures
        r as int == hi as int * 256 + lo as int,
{
    (hi as u16) * 256 + (lo as u16)
}

/// Decodes an address record of an `Addresses` message.
pub fn address_from_wire(ip: &Vec<u8>, port: u16) -> (r: Option<NetAddress>)
    ensures
        r == wire_address(ip@, port),
{
    if ip.len() == 4 {
        Some(NetAddress { ip: IpAddress::V4(ip[0], ip[1], ip[2], ip[3]), port })
    } else if ip.len() == 16 {
        Some(
            NetAddress {
                ip: IpAddress::V6(
                    segment(ip[0], ip[1]),
                    segment(ip[2], ip[3]),
                    segment(ip[4], ip[5]),
                    segment(ip[6], ip[7]),
                    segment(ip[8], ip[9]),
                    segment(ip[10], ip[11]),
                    segment(ip[12], ip[13]),
                    segment(ip[14], ip[15]),
                ),
                port,
            },
        )
    } else {
        None
    }
}

} // verus!
