//! Messages of the peer protocol and summary statistics.
use vstd::prelude::*;
use crate::clock::unix_now;
use crate::errors::text;
use crate::net::NetAddress;

verus! {

/// What is known of a peer after a connection.
pub struct NodeInfo {
    pub address: NetAddress,
    pub user_agent: String,
    pub protocol_version: u32,
    pub subnetwork_id: Option<String>,
    /// When the connection was made, in seconds since the Unix epoch.
    pub last_connection: u64,
}

impl NodeInfo {
    /// The information of a connection made now.
    pub fn new(address: NetAddress, user_agent: String, protocol_version: u32) -> (r: NodeInfo)
        ensures
            r.address == address,
            r.user_agent == user_agent,
            r.protocol_version == protocol_version,
            r.subnetwork_id.is_none(),
    {
        NodeInfo { address, user_agent, protocol_version, subnetwork_id: None, last_connection: unix_now() }
    }
}

/// The addresses a peer sent.
pub struct AddressesMessage {
    pub addresses: Vec<NetAddress>,
}

/// A peer's version announcement.
pub struct VersionMessage {
    pub protocol_version: u32,
    pub user_agent: String,
    pub timestamp: u64,
    pub nonce: u64,
}

/// A request for the addresses a peer knows.
pub struct RequestAddressesMessage {
    pub include_all_subnetworks: bool,
    pub subnetwork_id: Option<String>,
}

/// A framed message: a command name and its payload.
pub struct NetworkMessage {
    pub command: String,
    pub payload: Vec<u8>,
}

impl NetworkMessage {
    pub fn new(command: &str, payload: Vec<u8>) -> (r: NetworkMessage)
        ensures
            r.command@ == command@,
            r.payload@ == payload@,
    {
        NetworkMessage { command: text(command), payload }
    }
}

/// Summary counts of the catalog and the crawler; times in seconds.
pub struct CrawlerStats {
    pub total_nodes: usize,
    pub active_nodes: usize,
    pub failed_attempts: usize,
    pub successful_connections: usize,
    pub last_crawl: Option<u64>,
    pub crawl_duration: Option<u64>,
}

impl Default for CrawlerStats {
    fn default() -> (r: CrawlerStats)
        ensures
            r.total_nodes == 0,
            r.active_nodes == 0,
            r.failed_attempts == 0,
            r.successful_connections == 0,
            r.last_crawl.is_none(),
            r.crawl_duration.is_none(),
    {
        CrawlerStats {
            total_nodes: 0,
            active_nodes: 0,
            failed_attempts: 0,
            successful_connections: 0,
            last_crawl: None,
            crawl_duration: None,
        }
    }
}

} // verus!
