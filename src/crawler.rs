//! Decisions of the crawler: what to probe next, what a probe's outcome does to
//! the catalog, how long to pause, and the statistics it keeps. The loop that
//! performs the network work runs around these functions.
use vstd::prelude::*;
use crate::checkversion::{below_minimum, protocol_refused, VersionChecker};
use crate::errors::KaseederError;
use crate::manager::{
    accepted_set, add_all, is_good, lemma_add_all, lists, opt_view, probe_selection, AddressManager,
    Node, NEVER,
};
use crate::net::{ipv4_of_text, parse_ipv4, IpAddress, NetAddress};
use crate::text::{chars_of, parse_unsigned, parse_unsigned_chars, split_chars, split_spec, views};

verus! {

/// Seconds that the crawler pauses when there is nothing to do.
pub const CRAWLER_SLEEP: u64 = 10;

/// Most probes in flight at once.
pub const MAX_CONCURRENT_POLLS: usize = 100;

/// Bounds of the number of peers drawn per batch.
pub const MIN_BATCH_SIZE: usize = 20;

pub const MAX_BATCH_SIZE: usize = 50;

/// Attempts of one probe before it counts as failed.
pub const MAX_RETRIES: u32 = 3;

/// The number of peers drawn per batch: the worker count, held between
/// `MIN_BATCH_SIZE` and `MAX_BATCH_SIZE`.
pub fn batch_size(threads: u8) -> (r: usize)
    ensures
        r == (if (threads as usize) < MIN_BATCH_SIZE {
            MIN_BATCH_SIZE
        } else if (threads as usize) > MAX_BATCH_SIZE {
            MAX_BATCH_SIZE
        } else {
            threads as usize
        }),
{
    let t = threads as usize;
    if t < MIN_BATCH_SIZE {
        MIN_BATCH_SIZE
    } else if t > MAX_BATCH_SIZE {
        MAX_BATCH_SIZE
    } else {
        t
    }
}

/// Seconds to pause after a batch: half the base pause when a probe succeeded,
/// twice the base pause otherwise.
pub fn sleep_after_batch(successes: usize) -> (r: u64)
    ensures
        r == (if successes > 0 {
            CRAWLER_SLEEP / 2
        } else {
            (CRAWLER_SLEEP * 2) as u64
        }),
{
    if successes > 0 {
        CRAWLER_SLEEP / 2
    } else {
        CRAWLER_SLEEP * 2
    }
}

/// Delay in seconds before retry number `attempt` (from one) of a probe:
/// one second, doubled for each attempt after the first.
pub fn retry_delay(attempt: u32) -> (r: u64)
    requires
        1 <= attempt <= MAX_RETRIES,
    ensures
        r == (if attempt == 1 {
            1u64
        } else if attempt == 2 {
            2u64
        } else {
            4u64
        }),
{
    if attempt == 1 {
        1
    } else if attempt == 2 {
        2
    } else {
        4
    }
}

/// The peer that one `ip:port` entry of the known-peer list names: a
/// dotted-quad IPv4 address and a port.
pub open spec fn known_peer_of(entry: Seq<char>) -> Option<NetAddress> {
    let parts = split_spec(entry, ':');
    if parts.len() == 2 && ipv4_of_text(parts[0]) is Some && parse_unsigned(parts[1], 65535) is Some {
        Some(NetAddress { ip: ipv4_of_text(parts[0])->0, port: parse_unsigned(parts[1], 65535)->0 as u16 })
    } else {
        None
    }
}

/// The peers of the entries that parse, in order.
pub open spec fn known_peers_of(entries: Seq<Seq<char>>) -> Seq<NetAddress>
    decreases entries.len(),
{
    if entries.len() == 0 {
        Seq::empty()
    } else {
        let prev = known_peers_of(entries.drop_last());
        match known_peer_of(entries.last()) {
            Some(a) => prev.push(a),
            None => prev,
        }
    }
}

fn parse_known_peer(entry: &[char]) -> (r: Option<NetAddress>)
    ensures
        r == known_peer_of(entry@),
{
    let parts = split_chars(entry, ':');
    if parts.len() != 2 {
        return None;
    }
    assert(parts@[0]@ == views(parts@)[0] && parts@[1]@ == views(parts@)[1]);
    match parse_ipv4(parts[0].as_slice()) {
        None => None,
        Some(ip) => match parse_unsigned_chars(parts[1].as_slice(), 65535) {
            None => None,
            Some(port) => Some(NetAddress { ip, port: port as u16 }),
        },
    }
}

/// Parses a comma-separated list of `ip:port` entries; entries that do not
/// parse are skipped.
pub fn parse_known_peers(list: &str) -> (r: Vec<NetAddress>)
    ensures
        r@ == known_peers_of(split_spec(list@, ',')),
{
    let cs = chars_of(list);
    let entries = split_chars(cs.as_slice(), ',');
    let mut r: Vec<NetAddress> = Vec::new();
    let mut i: usize = 0;
    while i < entries.len()
        invariant
            i <= entries@.len(),
            views(entries@) == split_spec(list@, ','),
            r@ == known_peers_of(views(entries@).subrange(0, i as int)),
        decreases entries@.len() - i,
    {
        proof {
            let t = views(entries@).subrange(0, i as int + 1);
            assert(t.drop_last() =~= views(entries@).subrange(0, i as int));
            assert(t.last() == entries@[i as int]@);
        }
        match parse_known_peer(entries[i].as_slice()) {
            Some(a) => r.push(a),
            None => {},
        }
        i = i + 1;
    }
    assert(views(entries@).subrange(0, i as int) =~= views(entries@));
    r
}

/// Brings the operator's known peers into the catalog at `now`: they are added
/// whether routable or not, and each is marked attempted and good so that DNS
/// answers hold them at once. Returns how many nodes were created.
pub fn initialize_known_peers(catalog: &mut AddressManager, known_peers: &str, now: u64) -> (r: usize)
    requires
        old(catalog).wf(),
    ensures
        final(catalog).wf(),
        final(catalog).contents().dom() == old(catalog).contents().dom().union(
            accepted_set(known_peers_of(split_spec(known_peers@, ',')), true),
        ),
        forall|a: NetAddress|
            #[trigger] known_peers_of(split_spec(known_peers@, ',')).contains(a) && a.port != 0 ==> {
                let n = final(catalog).contents()[a];
                &&& final(catalog).contents().contains_key(a)
                &&& n.last_success == now
                &&& n.last_attempt == now
                &&& (now != NEVER ==> is_good(n, now))
            },
{
    let peers = parse_known_peers(known_peers);
    let ghost listed = known_peers_of(split_spec(known_peers@, ','));
    let added = catalog.add_addresses(&peers, now, true);
    proof {
        lemma_add_all(old(catalog).contents(), peers@, now, true);
    }
    let ghost dom_after_add = catalog.contents().dom();
    let mut i: usize = 0;
    while i < peers.len()
        invariant
            i <= peers@.len(),
            peers@ == listed,
            catalog.wf(),
            catalog.contents().dom() == dom_after_add,
            dom_after_add == old(catalog).contents().dom().union(accepted_set(listed, true)),
            forall|k: int|
                0 <= k < i && (#[trigger] peers@[k]).port != 0 ==> {
                    &&& catalog.contents()[peers@[k]].last_success == now
                    &&& catalog.contents()[peers@[k]].last_attempt == now
                },
        decreases peers@.len() - i,
    {
        let p = peers[i];
        let ghost before = catalog.contents();
        catalog.attempt(&p, now);
        let ghost mid = catalog.contents();
        catalog.good(&p, None, None, now);
        proof {
            assert(mid.dom() =~= before.dom());
            assert forall|k: int| 0 <= k < i + 1 && (#[trigger] peers@[k]).port != 0 implies {
                &&& catalog.contents()[peers@[k]].last_success == now
                &&& catalog.contents()[peers@[k]].last_attempt == now
            } by {
                let a = peers@[k];
                assert(listed.contains(a)) by {
                    assert(listed[k] == a);
                }
                assert(accepted_set(listed, true).contains(a));
                assert(dom_after_add.contains(a));
                assert(mid.contains_key(a));
                if a != p {
                    assert(catalog.contents()[a] == mid[a]);
                    assert(mid[a] == before[a]);
                }
            }
        }
        i = i + 1;
    }
    proof {
        assert forall|a: NetAddress| #[trigger] listed.contains(a) && a.port != 0 implies {
            let n = catalog.contents()[a];
            &&& catalog.contents().contains_key(a)
            &&& n.last_success == now
            &&& n.last_attempt == now
            &&& (now != NEVER ==> is_good(n, now))
        } by {
            let k = choose|k: int| 0 <= k < listed.len() && listed[k] == a;
            assert(peers@[k] == a);
            assert(accepted_set(listed, true).contains(a));
        }
    }
    added
}

/// What a peer told of itself in its handshake.
pub struct PeerVersion {
    pub protocol_version: u32,
    pub user_agent: String,
    pub subnetwork_id: Option<String>,
}

/// Whether a handshake's version passes the crawler's gates.
pub open spec fn version_accepted(v: PeerVersion, min_proto: u16, min_ua: Option<&str>) -> bool {
    !protocol_refused(v.protocol_version, min_proto) && match min_ua {
        Some(m) => !below_minimum(m@, v.user_agent@),
        None => true,
    }
}

/// Applies the outcome of a probe of `peer` at `now` to the catalog. A failed
/// probe, or a version that the gates refuse, changes nothing and is an error.
/// Otherwise the addresses learned are added (routable ones only) and the peer
/// is marked good with its user agent and subnetwork; the number of nodes
/// created is returned.
pub fn apply_probe_outcome(
    catalog: &mut AddressManager,
    peer: &NetAddress,
    outcome: Result<(PeerVersion, Vec<NetAddress>), KaseederError>,
    min_proto: u16,
    min_ua: Option<&str>,
    now: u64,
) -> (r: Result<usize, KaseederError>)
    requires
        old(catalog).wf(),
    ensures
        final(catalog).wf(),
        match outcome {
            Err(_) => r.is_err() && final(catalog).contents() == old(catalog).contents(),
            Ok((v, learned)) => if !version_accepted(v, min_proto, min_ua) {
                r.is_err() && final(catalog).contents() == old(catalog).contents()
            } else {
                let mid = add_all(old(catalog).contents(), learned@, now, false);
                &&& r == Ok::<usize, KaseederError>((mid.len() - old(catalog).contents().len()) as usize)
                &&& final(catalog).contents().dom() == mid.dom()
                &&& forall|k: NetAddress|
                    k != *peer && #[trigger] mid.contains_key(k) ==> final(catalog).contents()[k]
                        == mid[k]
                &&& mid.contains_key(*peer) ==> {
                    let n = final(catalog).contents()[*peer];
                    &&& n.address == *peer
                    &&& n.last_success == now
                    &&& opt_view(n.user_agent) == Some(v.user_agent@)
                    &&& opt_view(n.subnetwork_id) == opt_view(v.subnetwork_id)
                }
            },
        },
{
    match outcome {
        Err(e) => Err(e),
        Ok((v, learned)) => {
            if let Err(e) = VersionChecker::check_protocol_version(v.protocol_version, min_proto) {
                return Err(e);
            }
            match min_ua {
                Some(m) => {
                    if let Err(e) = VersionChecker::check_version(m, v.user_agent.as_str()) {
                        return Err(e);
                    }
                },
                None => {},
            }
            let added = catalog.add_addresses(&learned, now, false);
            let sub: Option<&str> = match &v.subnetwork_id {
                Some(s) => Some(s.as_str()),
                None => None,
            };
            catalog.good(peer, Some(v.user_agent.as_str()), sub, now);
            Ok(added)
        },
    }
}

/// Adds the candidates that the DNS seeds gave, routable ones only, so that the
/// next selection draws them. Returns how many nodes were created.
pub fn seed_catalog(catalog: &mut AddressManager, seeds: &Vec<NetAddress>, now: u64) -> (r: usize)
    requires
        old(catalog).wf(),
    ensures
        final(catalog).wf(),
        final(catalog).contents() == add_all(old(catalog).contents(), seeds@, now, false),
        r == final(catalog).contents().len() - old(catalog).contents().len(),
{
    catalog.add_addresses(seeds, now, false)
}

/// What the crawler does next.
pub enum CrawlStep {
    /// Probe these peers.
    Probe(Vec<NetAddress>),
    /// The catalog is empty: ask the DNS seeds for candidates.
    SeedFromDns,
    /// Nothing to do: pause this many seconds.
    Sleep(u64),
}

/// Chooses the crawler's next step at `now`: the peers due for a probe, at most
/// `batch_size(threads)`; when there are none and the catalog is empty and not
/// yet seeded in this round, seeding; otherwise a pause of `CRAWLER_SLEEP`.
pub fn next_step(catalog: &AddressManager, threads: u8, seeded: bool, now: u64) -> (r: CrawlStep)
    requires
        catalog.wf(),
    ensures
        match r {
            CrawlStep::Probe(v) => v@.len() > 0 && exists|s: Seq<Node>|
                lists(s, catalog.contents()) && v@ == probe_selection(
                    s,
                    now,
                    batch_size_spec(threads) as nat,
                ),
            CrawlStep::SeedFromDns => catalog.contents().len() == 0 && !seeded,
            CrawlStep::Sleep(t) => t == CRAWLER_SLEEP && (catalog.contents().len() > 0 || seeded)
                && exists|s: Seq<Node>|
                lists(s, catalog.contents()) && probe_selection(
                    s,
                    now,
                    batch_size_spec(threads) as nat,
                ).len() == 0,
        },
{
    let n = batch_size(threads);
    let peers = catalog.addresses(n, now);
    if peers.len() > 0 {
        CrawlStep::Probe(peers)
    } else if catalog.address_count() == 0 && !seeded {
        CrawlStep::SeedFromDns
    } else {
        CrawlStep::Sleep(CRAWLER_SLEEP)
    }
}

pub open spec fn batch_size_spec(threads: u8) -> usize {
    if (threads as usize) < MIN_BATCH_SIZE {
        MIN_BATCH_SIZE
    } else if (threads as usize) > MAX_BATCH_SIZE {
        MAX_BATCH_SIZE
    } else {
        threads as usize
    }
}

pub open spec fn bump(x: u64, by: u64) -> u64 {
    if x as int + by as int > u64::MAX as int {
        u64::MAX
    } else {
        (x + by) as u64
    }
}

fn saturating_bump(x: u64, by: u64) -> (r: u64)
    ensures
        r == bump(x, by),
{
    if x > u64::MAX - by {
        u64::MAX
    } else {
        x + by
    }
}

/// Counters of the crawler's probes. They stop at the largest `u64`.
pub struct CrawlerStats {
    pub total_peers_polled: u64,
    pub successful_polls: u64,
    pub failed_polls: u64,
    pub addresses_discovered: u64,
    pub last_poll_time: Option<u64>,
}

impl CrawlerStats {
    pub fn new() -> (r: CrawlerStats)
        ensures
            r.total_peers_polled == 0,
            r.successful_polls == 0,
            r.failed_polls == 0,
            r.addresses_discovered == 0,
            r.last_poll_time.is_none(),
    {
        CrawlerStats {
            total_peers_polled: 0,
            successful_polls: 0,
            failed_polls: 0,
            addresses_discovered: 0,
            last_poll_time: None,
        }
    }

    /// Counts a successful probe at `now` that learned `addresses_count` addresses.
    pub fn record_poll_success(&mut self, addresses_count: usize, now: u64)
        ensures
            final(self).total_peers_polled == bump(old(self).total_peers_polled, 1),
            final(self).successful_polls == bump(old(self).successful_polls, 1),
            final(self).failed_polls == old(self).failed_polls,
            final(self).addresses_discovered == bump(
                old(self).addresses_discovered,
                addresses_count as u64,
            ),
            final(self).last_poll_time == Some(now),
    {
        self.total_peers_polled = saturating_bump(self.total_peers_polled, 1);
        self.successful_polls = saturating_bump(self.successful_polls, 1);
        self.addresses_discovered = saturating_bump(self.addresses_discovered, addresses_count as u64);
        self.last_poll_time = Some(now);
    }

    /// Counts a failed probe at `now`.
    pub fn record_poll_failure(&mut self, now: u64)
        ensures
            final(self).total_peers_polled == bump(old(self).total_peers_polled, 1),
            final(self).successful_polls == old(self).successful_polls,
            final(self).failed_polls == bump(old(self).failed_polls, 1),
            final(self).addresses_discovered == old(self).addresses_discovered,
            final(self).last_poll_time == Some(now),
    {
        self.total_peers_polled = saturating_bump(self.total_peers_polled, 1);
        self.failed_polls = saturating_bump(self.failed_polls, 1);
        self.last_poll_time = Some(now);
    }
}

} // verus!
