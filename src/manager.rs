//! The peer catalog: an address book of nodes, keyed by address, with the
//! lifecycle new -> attempted -> good -> stale -> expired derived from timestamps.
//!
//! Times are seconds since the Unix epoch; `NEVER` (zero) marks an event that
//! has not happened.
use vstd::prelude::*;
use crate::net::{is_routable, key_text, routable, IpAddress, NetAddress};
use crate::table::{table_contents, table_entries, table_get, table_insert, table_len, table_new, table_remove};
use crate::text::{chars_equal, chars_of};
use dashmap::DashMap;

verus! {

/// Name of the file that the catalog is kept in, under the application directory.
pub const PEERS_FILENAME: &'static str = "peers.json";

/// A node that succeeded within this many seconds is good.
pub const STALE_GOOD: u64 = 3600;

/// A node that never succeeded is probed again after this many seconds.
pub const NEW_NODE_POLL: u64 = 1800;

/// A node not seen for longer than this many seconds is removed.
pub const PRUNE_EXPIRE: u64 = 28800;

/// Seconds between two prunes.
pub const PRUNE_TICK: u64 = 3600;

/// Seconds between two dumps to disk.
pub const DUMP_TICK: u64 = 600;

/// Most addresses that one good-address selection returns.
pub const DEFAULT_MAX_ANSWERS: usize = 2000;

/// The timestamp of an event that has not happened.
pub const NEVER: u64 = 0;

/// DNS query type of an IPv4 address record.
pub const QTYPE_A: u16 = 1;

/// DNS query type of an IPv6 address record.
pub const QTYPE_AAAA: u16 = 28;

/// A record of the catalog.
#[derive(Debug, Clone)]
pub struct Node {
    pub address: NetAddress,
    pub last_seen: u64,
    pub last_attempt: u64,
    pub last_success: u64,
    pub user_agent: Option<String>,
    pub subnetwork_id: Option<String>,
    pub services: u64,
}

pub open spec fn opt_view(o: Option<String>) -> Option<Seq<char>> {
    match o {
        Some(s) => Some(s@),
        None => None,
    }
}

pub open spec fn opt_str_view(o: Option<&str>) -> Option<Seq<char>> {
    match o {
        Some(s) => Some(s@),
        None => None,
    }
}

fn copy_opt(o: &Option<String>) -> (r: Option<String>)
    ensures
        r == *o,
{
    match o {
        Some(s) => Some(s.clone()),
        None => None,
    }
}

fn opt_to_string(o: Option<&str>) -> (r: Option<String>)
    ensures
        opt_view(r) == opt_str_view(o),
{
    match o {
        Some(s) => Some(String::from_str(s)),
        None => None,
    }
}

/// Seconds from `t` to `now`; zero when `t` lies after `now`.
pub open spec fn elapsed(now: u64, t: u64) -> u64 {
    if now >= t {
        (now - t) as u64
    } else {
        0
    }
}

fn elapsed_exec(now: u64, t: u64) -> (r: u64)
    ensures
        r == elapsed(now, t),
{
    if now >= t {
        now - t
    } else {
        0
    }
}

/// A node that never succeeded.
pub open spec fn is_new(n: Node) -> bool {
    n.last_success == NEVER
}

/// A node that succeeded less than `STALE_GOOD` seconds ago.
pub open spec fn is_good(n: Node, now: u64) -> bool {
    !is_new(n) && elapsed(now, n.last_success) < STALE_GOOD
}

/// A node that is due for a probe: not good, and either a new node that was
/// never tried or tried at least `NEW_NODE_POLL` seconds ago, or a node that
/// succeeded once and was tried at least `STALE_GOOD` seconds ago.
pub open spec fn is_stale(n: Node, now: u64) -> bool {
    !is_good(n, now) && if is_new(n) {
        n.last_attempt == NEVER || elapsed(now, n.last_attempt) >= NEW_NODE_POLL
    } else {
        elapsed(now, n.last_attempt) >= STALE_GOOD
    }
}

/// A node not seen for longer than `PRUNE_EXPIRE` seconds.
pub open spec fn is_expired(n: Node, now: u64) -> bool {
    elapsed(now, n.last_seen) > PRUNE_EXPIRE
}

/// The node that a first observation of `a` at `now` creates.
pub open spec fn fresh_node(a: NetAddress, now: u64) -> Node {
    Node {
        address: a,
        last_seen: now,
        last_attempt: NEVER,
        last_success: NEVER,
        user_agent: None,
        subnetwork_id: None,
        services: 0,
    }
}

impl Node {
    /// A node first observed at `now`: seen then, never tried, never succeeded.
    pub fn new(address: NetAddress, now: u64) -> (r: Node)
        ensures
            r == fresh_node(address, now),
    {
        Node {
            address,
            last_seen: now,
            last_attempt: NEVER,
            last_success: NEVER,
            user_agent: None,
            subnetwork_id: None,
            services: 0,
        }
    }

    /// The catalog key of this node: `ip:port`.
    pub fn key(&self) -> (r: String)
        ensures
            r@ == key_text(self.address),
    {
        self.address.to_string()
    }

    /// A copy of this node.
    pub fn duplicate(&self) -> (r: Node)
        ensures
            r == *self,
    {
        Node {
            address: self.address,
            last_seen: self.last_seen,
            last_attempt: self.last_attempt,
            last_success: self.last_success,
            user_agent: copy_opt(&self.user_agent),
            subnetwork_id: copy_opt(&self.subnetwork_id),
            services: self.services,
        }
    }

    /// Whether this node is good at `now`.
    pub fn good_at(&self, now: u64) -> (r: bool)
        ensures
            r == is_good(*self, now),
    {
        self.last_success != NEVER && elapsed_exec(now, self.last_success) < STALE_GOOD
    }

    /// Whether this node is due for a probe at `now`.
    pub fn stale_at(&self, now: u64) -> (r: bool)
        ensures
            r == is_stale(*self, now),
    {
        if self.good_at(now) {
            false
        } else if self.last_success == NEVER {
            self.last_attempt == NEVER || elapsed_exec(now, self.last_attempt) >= NEW_NODE_POLL
        } else {
            elapsed_exec(now, self.last_attempt) >= STALE_GOOD
        }
    }

    /// Whether this node has expired at `now`.
    pub fn expired_at(&self, now: u64) -> (r: bool)
        ensures
            r == is_expired(*self, now),
    {
        elapsed_exec(now, self.last_seen) > PRUNE_EXPIRE
    }
}

/// The addresses of the nodes, in order.
pub open spec fn addrs_of(nodes: Seq<Node>) -> Seq<NetAddress> {
    nodes.map_values(|n: Node| n.address)
}

/// Whether some node has address `a`.
pub open spec fn holds(nodes: Seq<Node>, a: NetAddress) -> bool {
    exists|i: int| 0 <= i < nodes.len() && (#[trigger] nodes[i]).address == a
}

/// Keys are unique and no port is zero.
pub open spec fn nodes_wf(nodes: Seq<Node>) -> bool {
    &&& forall|i: int, j: int|
        0 <= i < nodes.len() && 0 <= j < nodes.len() && i != j ==> (#[trigger] nodes[i]).address
            != (#[trigger] nodes[j]).address
    &&& forall|i: int| 0 <= i < nodes.len() ==> (#[trigger] nodes[i]).address.port != 0
}

/// Whether `add` takes address `a`: a non-zero port, and routable unless
/// unroutable addresses are accepted.
pub open spec fn accepted(a: NetAddress, accept_unroutable: bool) -> bool {
    a.port != 0 && (accept_unroutable || routable(a))
}

/// The addresses, in catalog order, of the nodes due for a probe whose newness is `new`.
pub open spec fn due(nodes: Seq<Node>, now: u64, new: bool) -> Seq<NetAddress>
    decreases nodes.len(),
{
    if nodes.len() == 0 {
        Seq::empty()
    } else {
        let prev = due(nodes.drop_last(), now, new);
        let n = nodes.last();
        if is_stale(n, now) && is_new(n) == new {
            prev.push(n.address)
        } else {
            prev
        }
    }
}

/// The addresses that a probe selection returns: new nodes first, then the
/// others, at most `n`.
pub open spec fn probe_selection(nodes: Seq<Node>, now: u64, n: nat) -> Seq<NetAddress> {
    let all = due(nodes, now, true) + due(nodes, now, false);
    if all.len() <= n {
        all
    } else {
        all.take(n as int)
    }
}

/// Whether address family `qtype` matches the IP address.
pub open spec fn family_matches(qtype: u16, ip: IpAddress) -> bool {
    (qtype == QTYPE_A && ip.is_v4()) || (qtype == QTYPE_AAAA && !ip.is_v4())
}

/// Whether a node answers a DNS query of this type and subnetwork at `now`.
pub open spec fn answers(n: Node, now: u64, qtype: u16, include_all: bool, subnetwork: Option<Seq<char>>) -> bool {
    family_matches(qtype, n.address.ip) && is_good(n, now) && (include_all || opt_view(
        n.subnetwork_id,
    ) == subnetwork)
}

/// Addresses of the nodes that answer the query, in catalog order.
pub open spec fn answering(nodes: Seq<Node>, now: u64, qtype: u16, include_all: bool, subnetwork: Option<Seq<char>>) -> Seq<NetAddress>
    decreases nodes.len(),
{
    if nodes.len() == 0 {
        Seq::empty()
    } else {
        let prev = answering(nodes.drop_last(), now, qtype, include_all, subnetwork);
        let n = nodes.last();
        if answers(n, now, qtype, include_all, subnetwork) {
            prev.push(n.address)
        } else {
            prev
        }
    }
}

/// The addresses that a good-address selection returns: for A and AAAA
/// queries, the answering nodes in catalog order, at most `DEFAULT_MAX_ANSWERS`;
/// for other query types, none.
pub open spec fn good_selection(nodes: Seq<Node>, now: u64, qtype: u16, include_all: bool, subnetwork: Option<Seq<char>>) -> Seq<NetAddress> {
    if qtype == QTYPE_A || qtype == QTYPE_AAAA {
        let all = answering(nodes, now, qtype, include_all, subnetwork);
        if all.len() <= DEFAULT_MAX_ANSWERS {
            all
        } else {
            all.take(DEFAULT_MAX_ANSWERS as int)
        }
    } else {
        Seq::empty()
    }
}

proof fn lemma_answering_members(nodes: Seq<Node>, now: u64, qtype: u16, include_all: bool, subnetwork: Option<Seq<char>>, k: int)
    requires
        0 <= k < answering(nodes, now, qtype, include_all, subnetwork).len(),
    ensures
        exists|j: int|
            0 <= j < nodes.len() && (#[trigger] nodes[j]).address == answering(
                nodes,
                now,
                qtype,
                include_all,
                subnetwork,
            )[k] && answers(nodes[j], now, qtype, include_all, subnetwork),
    decreases nodes.len(),
{
    let prev = answering(nodes.drop_last(), now, qtype, include_all, subnetwork);
    if k < prev.len() {
        lemma_answering_members(nodes.drop_last(), now, qtype, include_all, subnetwork, k);
        let j = choose|j: int|
            0 <= j < nodes.drop_last().len() && (#[trigger] nodes.drop_last()[j]).address == prev[k]
                && answers(nodes.drop_last()[j], now, qtype, include_all, subnetwork);
        assert(nodes[j] == nodes.drop_last()[j]);
    } else {
        assert(nodes[nodes.len() - 1] == nodes.last());
    }
}

/// A good-address selection holds only addresses of the family that the query
/// type asks for, of good nodes, and at most `DEFAULT_MAX_ANSWERS` of them.
pub proof fn lemma_good_selection_family(nodes: Seq<Node>, now: u64, qtype: u16, include_all: bool, subnetwork: Option<Seq<char>>)
    ensures
        good_selection(nodes, now, qtype, include_all, subnetwork).len() <= DEFAULT_MAX_ANSWERS,
        forall|k: int|
            0 <= k < good_selection(nodes, now, qtype, include_all, subnetwork).len() ==> {
                let a = #[trigger] good_selection(nodes, now, qtype, include_all, subnetwork)[k];
                &&& qtype == QTYPE_A ==> a.ip.is_v4()
                &&& qtype == QTYPE_AAAA ==> !a.ip.is_v4()
            },
{
    let sel = good_selection(nodes, now, qtype, include_all, subnetwork);
    assert forall|k: int| 0 <= k < sel.len() implies {
        let a = #[trigger] sel[k];
        &&& qtype == QTYPE_A ==> a.ip.is_v4()
        &&& qtype == QTYPE_AAAA ==> !a.ip.is_v4()
    } by {
        let all = answering(nodes, now, qtype, include_all, subnetwork);
        assert(sel[k] == all[k]);
        lemma_answering_members(nodes, now, qtype, include_all, subnetwork, k);
    }
}

/// The state of a node that a prune reports.
#[derive(PartialEq, Eq, Structural)]
pub enum NodeClass {
    Expired,
    Good,
    Stale,
    Bad,
}

pub open spec fn class_of(n: Node, now: u64) -> NodeClass {
    if is_expired(n, now) {
        NodeClass::Expired
    } else if is_good(n, now) {
        NodeClass::Good
    } else if is_stale(n, now) {
        NodeClass::Stale
    } else {
        NodeClass::Bad
    }
}

/// The number of nodes in state `c`.
pub open spec fn count_class(nodes: Seq<Node>, now: u64, c: NodeClass) -> nat
    decreases nodes.len(),
{
    if nodes.len() == 0 {
        0
    } else {
        count_class(nodes.drop_last(), now, c) + if class_of(nodes.last(), now) == c {
            1nat
        } else {
            0nat
        }
    }
}

/// The number of good nodes with an IPv4 address.
pub open spec fn count_good_v4(nodes: Seq<Node>, now: u64) -> nat
    decreases nodes.len(),
{
    if nodes.len() == 0 {
        0
    } else {
        count_good_v4(nodes.drop_last(), now) + if class_of(nodes.last(), now) == NodeClass::Good
            && nodes.last().address.ip.is_v4() {
            1nat
        } else {
            0nat
        }
    }
}

/// Counts of the node states that a prune reports.
pub struct PruneReport {
    pub pruned: usize,
    pub good: usize,
    pub stale: usize,
    pub bad: usize,
    pub ipv4: usize,
    pub ipv6: usize,
    pub total: usize,
}

/// The catalog, as a map from address to node, is well formed: finitely many
/// nodes, each under its own address, none with port zero.
pub open spec fn table_wf(m: Map<NetAddress, Node>) -> bool {
    &&& m.dom().finite()
    &&& forall|k: NetAddress| #[trigger] m.contains_key(k) ==> m[k].address == k && k.port != 0
}

/// `s` lists the nodes of `m`, each once, in some order.
pub open spec fn lists(s: Seq<Node>, m: Map<NetAddress, Node>) -> bool {
    &&& nodes_wf(s)
    &&& forall|i: int|
        0 <= i < s.len() ==> m.contains_key((#[trigger] s[i]).address) && m[s[i].address] == s[i]
    &&& forall|k: NetAddress| #[trigger] m.contains_key(k) ==> holds(s, k)
}

/// One observation of `a` at `now`: a known node is seen again, an unknown one
/// is created.
pub open spec fn add_one(m: Map<NetAddress, Node>, a: NetAddress, now: u64) -> Map<NetAddress, Node> {
    if m.contains_key(a) {
        m.insert(a, Node { last_seen: now, ..m[a] })
    } else {
        m.insert(a, fresh_node(a, now))
    }
}

/// The catalog after `add` of `addrs`, in order.
pub open spec fn add_all(m: Map<NetAddress, Node>, addrs: Seq<NetAddress>, now: u64, accept_unroutable: bool) -> Map<NetAddress, Node>
    decreases addrs.len(),
{
    if addrs.len() == 0 {
        m
    } else {
        let prev = add_all(m, addrs.drop_last(), now, accept_unroutable);
        if accepted(addrs.last(), accept_unroutable) {
            add_one(prev, addrs.last(), now)
        } else {
            prev
        }
    }
}

/// One record read back from storage: it replaces the node of the same address,
/// or is added. A record with port zero is dropped.
pub open spec fn load_one(m: Map<NetAddress, Node>, n: Node) -> Map<NetAddress, Node> {
    if n.address.port == 0 {
        m
    } else {
        m.insert(n.address, n)
    }
}

/// The catalog after loading `records`, in order.
pub open spec fn load_all(m: Map<NetAddress, Node>, records: Seq<Node>) -> Map<NetAddress, Node>
    decreases records.len(),
{
    if records.len() == 0 {
        m
    } else {
        load_one(load_all(m, records.drop_last()), records.last())
    }
}

/// The addresses of `addrs` that `add` takes.
pub open spec fn accepted_set(addrs: Seq<NetAddress>, accept_unroutable: bool) -> Set<NetAddress> {
    Set::new(|a: NetAddress| addrs.contains(a) && accepted(a, accept_unroutable))
}

/// The catalog of nodes, kept in a concurrent map from address to node.
pub struct AddressManager {
    nodes: DashMap<NetAddress, Node>,
}

impl AddressManager {
    /// The nodes, by address.
    pub closed spec fn contents(&self) -> Map<NetAddress, Node> {
        table_contents(self.nodes)
    }

    pub open spec fn wf(&self) -> bool {
        table_wf(self.contents())
    }

    /// An empty catalog.
    pub fn new() -> (r: AddressManager)
        ensures
            r.wf(),
            r.contents().len() == 0,
            forall|k: NetAddress| !(#[trigger] r.contents().contains_key(k)),
    {
        let nodes = table_new();
        assert(table_contents(nodes).dom() =~= Set::<NetAddress>::empty());
        AddressManager { nodes }
    }

    /// Copies of all nodes, in an order that the map chooses.
    pub fn get_all_nodes(&self) -> (r: Vec<Node>)
        requires
            self.wf(),
        ensures
            lists(r@, self.contents()),
    {
        let entries = table_entries(&self.nodes);
        let ghost m = self.contents();
        let mut r: Vec<Node> = Vec::new();
        let mut i: usize = 0;
        while i < entries.len()
            invariant
                m == self.contents(),
                table_wf(m),
                i <= entries@.len(),
                entries@.len() == m.len(),
                forall|j: int|
                    0 <= j < entries@.len() ==> m.contains_key(#[trigger] entries@[j].0)
                        && m[entries@[j].0] == entries@[j].1,
                forall|j: int, k: int|
                    0 <= j < entries@.len() && 0 <= k < entries@.len() && j != k
                        ==> (#[trigger] entries@[j]).0 != (#[trigger] entries@[k]).0,
                r@.len() == i,
                forall|j: int| 0 <= j < i ==> #[trigger] r@[j] == entries@[j].1,
            decreases entries@.len() - i,
        {
            let (_, node) = &entries[i];
            r.push(node.duplicate());
            i = i + 1;
        }
        proof {
            assert forall|j: int| 0 <= j < r@.len() implies (#[trigger] r@[j]).address == entries@[j].0 by {
                assert(m.contains_key(entries@[j].0));
            }
            assert(nodes_wf(r@)) by {
                assert forall|j: int, k: int|
                    0 <= j < r@.len() && 0 <= k < r@.len() && j != k implies (#[trigger] r@[j]).address
                    != (#[trigger] r@[k]).address by {
                    assert(r@[j].address == entries@[j].0);
                    assert(r@[k].address == entries@[k].0);
                    assert(entries@[j].0 != entries@[k].0);
                }
                assert forall|j: int| 0 <= j < r@.len() implies (#[trigger] r@[j]).address.port != 0 by {
                    assert(m.contains_key(entries@[j].0));
                }
            }
            let listed = addrs_of(r@).to_set();
            assert(addrs_of(r@).no_duplicates()) by {
                assert forall|j: int, k: int|
                    0 <= j < addrs_of(r@).len() && 0 <= k < addrs_of(r@).len() && j != k implies addrs_of(r@)[j]
                    != addrs_of(r@)[k] by {
                    assert(addrs_of(r@)[j] == r@[j].address);
                    assert(addrs_of(r@)[k] == r@[k].address);
                }
            }
            addrs_of(r@).unique_seq_to_set();
            assert(listed.subset_of(m.dom())) by {
                assert forall|a: NetAddress| listed.contains(a) implies m.dom().contains(a) by {
                    let j = choose|j: int| 0 <= j < addrs_of(r@).len() && addrs_of(r@)[j] == a;
                    assert(r@[j].address == a);
                }
            }
            vstd::set_lib::lemma_subset_equality(listed, m.dom());
            assert forall|k: NetAddress| #[trigger] m.contains_key(k) implies holds(r@, k) by {
                assert(listed.contains(k));
                let j = choose|j: int| 0 <= j < addrs_of(r@).len() && addrs_of(r@)[j] == k;
                assert(r@[j].address == k);
            }
        }
        r
    }

    /// Adds `addresses` observed at `now`. An address with port zero is skipped,
    /// and so is one that is not routable unless `accept_unroutable`. An unknown
    /// address becomes a new node; a known one has only its `last_seen` updated.
    /// Returns how many nodes were created.
    pub fn add_addresses(&mut self, addresses: &Vec<NetAddress>, now: u64, accept_unroutable: bool) -> (r: usize)
        requires
            old(self).wf(),
        ensures
            final(self).wf(),
            final(self).contents() == add_all(old(self).contents(), addresses@, now, accept_unroutable),
            r == final(self).contents().len() - old(self).contents().len(),
    {
        let base = table_len(&self.nodes);
        let mut i: usize = 0;
        while i < addresses.len()
            invariant
                i <= addresses@.len(),
                self.wf(),
                self.contents() == add_all(
                    old(self).contents(),
                    addresses@.subrange(0, i as int),
                    now,
                    accept_unroutable,
                ),
                old(self).contents().dom().subset_of(self.contents().dom()),
            decreases addresses@.len() - i,
        {
            let a = addresses[i];
            proof {
                let t = addresses@.subrange(0, i as int + 1);
                assert(t.drop_last() =~= addresses@.subrange(0, i as int));
                assert(t.last() == a);
            }
            if a.port != 0 && (accept_unroutable || is_routable(&a)) {
                match table_get(&self.nodes, &a) {
                    Some(node) => {
                        let mut node = node;
                        node.last_seen = now;
                        table_insert(&mut self.nodes, a, node);
                    },
                    None => {
                        table_insert(&mut self.nodes, a, Node::new(a, now));
                    },
                }
            }
            i = i + 1;
        }
        assert(addresses@.subrange(0, i as int) =~= addresses@);
        let after = table_len(&self.nodes);
        proof {
            vstd::set_lib::lemma_len_subset(old(self).contents().dom(), self.contents().dom());
        }
        after - base
    }

    /// Records an attempt to contact `address` at `now`.
    pub fn attempt(&mut self, address: &NetAddress, now: u64)
        requires
            old(self).wf(),
        ensures
            final(self).wf(),
            final(self).contents() == (if old(self).contents().contains_key(*address) {
                old(self).contents().insert(
                    *address,
                    Node { last_attempt: now, ..old(self).contents()[*address] },
                )
            } else {
                old(self).contents()
            }),
    {
        match table_get(&self.nodes, address) {
            Some(node) => {
                let mut node = node;
                node.last_attempt = now;
                table_insert(&mut self.nodes, *address, node);
            },
            None => {},
        }
    }

    /// Records a successful handshake with `address` at `now`, with what the
    /// peer told of itself.
    pub fn good(&mut self, address: &NetAddress, user_agent: Option<&str>, subnetwork_id: Option<&str>, now: u64)
        requires
            old(self).wf(),
        ensures
            final(self).wf(),
            final(self).contents().dom() == old(self).contents().dom(),
            forall|k: NetAddress|
                k != *address && #[trigger] old(self).contents().contains_key(k)
                    ==> final(self).contents()[k] == old(self).contents()[k],
            old(self).contents().contains_key(*address) ==> {
                let (o, n) = (old(self).contents()[*address], final(self).contents()[*address]);
                &&& n.address == o.address
                &&& n.last_seen == o.last_seen
                &&& n.last_attempt == o.last_attempt
                &&& n.last_success == now
                &&& n.services == o.services
                &&& opt_view(n.user_agent) == opt_str_view(user_agent)
                &&& opt_view(n.subnetwork_id) == opt_str_view(subnetwork_id)
            },
    {
        match table_get(&self.nodes, address) {
            Some(node) => {
                let mut node = node;
                node.user_agent = opt_to_string(user_agent);
                node.subnetwork_id = opt_to_string(subnetwork_id);
                node.last_success = now;
                table_insert(&mut self.nodes, *address, node);
                assert(self.contents().dom() =~= old(self).contents().dom());
            },
            None => {},
        }
    }

    /// The number of nodes.
    pub fn address_count(&self) -> (r: usize)
        ensures
            r == self.contents().len(),
    {
        table_len(&self.nodes)
    }

    /// At most `n` addresses due for a probe at `now`: nodes that never
    /// succeeded first, then the others; within each group in an order that the
    /// map chooses.
    pub fn addresses(&self, n: usize, now: u64) -> (r: Vec<NetAddress>)
        requires
            self.wf(),
        ensures
            exists|s: Seq<Node>| lists(s, self.contents()) && r@ == probe_selection(s, now, n as nat),
    {
        let s = self.get_all_nodes();
        let r = select_due(&s, n, now);
        assert(lists(s@, self.contents()) && r@ == probe_selection(s@, now, n as nat));
        r
    }

    /// The addresses of good nodes that answer a DNS query of type `qtype` at
    /// `now`, at most `DEFAULT_MAX_ANSWERS` of them, in an order that the map
    /// chooses. Only A (IPv4) and AAAA (IPv6) queries get addresses. Unless
    /// `include_all_subnetworks`, a node's subnetwork must equal `subnetwork_id`.
    pub fn good_addresses(&self, qtype: u16, include_all_subnetworks: bool, subnetwork_id: Option<&str>, now: u64) -> (r: Vec<NetAddress>)
        requires
            self.wf(),
        ensures
            exists|s: Seq<Node>|
                lists(s, self.contents()) && r@ == good_selection(
                    s,
                    now,
                    qtype,
                    include_all_subnetworks,
                    opt_str_view(subnetwork_id),
                ),
    {
        let s = self.get_all_nodes();
        let r = select_good(&s, qtype, include_all_subnetworks, subnetwork_id, now);
        assert(lists(s@, self.contents()) && r@ == good_selection(
            s@,
            now,
            qtype,
            include_all_subnetworks,
            opt_str_view(subnetwork_id),
        ));
        r
    }

    /// Removes the nodes expired at `now` and reports the states of all nodes.
    pub fn prune_peers(&mut self, now: u64) -> (r: PruneReport)
        requires
            old(self).wf(),
        ensures
            final(self).wf(),
            forall|k: NetAddress|
                #[trigger] final(self).contents().contains_key(k) <==> old(self).contents().contains_key(k)
                    && !is_expired(old(self).contents()[k], now),
            forall|k: NetAddress|
                #[trigger] final(self).contents().contains_key(k)
                    ==> final(self).contents()[k] == old(self).contents()[k],
            exists|s: Seq<Node>|
                lists(s, old(self).contents()) && r.pruned == count_class(s, now, NodeClass::Expired)
                    && r.good == count_class(s, now, NodeClass::Good) && r.stale == count_class(
                    s,
                    now,
                    NodeClass::Stale,
                ) && r.bad == count_class(s, now, NodeClass::Bad) && r.ipv4 == count_good_v4(s, now)
                    && r.ipv6 == r.good - r.ipv4,
            r.total == final(self).contents().len(),
    {
        let s = self.get_all_nodes();
        let ghost m = old(self).contents();
        let mut pruned: usize = 0;
        let mut good: usize = 0;
        let mut stale: usize = 0;
        let mut bad: usize = 0;
        let mut ipv4: usize = 0;
        let mut i: usize = 0;
        while i < s.len()
            invariant
                lists(s@, m),
                table_wf(m),
                self.wf(),
                i <= s@.len(),
                forall|k: NetAddress|
                    #[trigger] self.contents().contains_key(k) <==> m.contains_key(k) && !(exists|j: int|
                        0 <= j < i && (#[trigger] s@[j]).address == k && is_expired(s@[j], now)),
                forall|k: NetAddress|
                    #[trigger] self.contents().contains_key(k) ==> self.contents()[k] == m[k],
                pruned == count_class(s@.subrange(0, i as int), now, NodeClass::Expired),
                good == count_class(s@.subrange(0, i as int), now, NodeClass::Good),
                stale == count_class(s@.subrange(0, i as int), now, NodeClass::Stale),
                bad == count_class(s@.subrange(0, i as int), now, NodeClass::Bad),
                ipv4 == count_good_v4(s@.subrange(0, i as int), now),
                pruned + good + stale + bad == i,
                ipv4 <= good,
            decreases s@.len() - i,
        {
            let node = &s[i];
            proof {
                let t = s@.subrange(0, i as int + 1);
                assert(t.drop_last() =~= s@.subrange(0, i as int));
                assert(t.last() == s@[i as int]);
            }
            if node.expired_at(now) {
                pruned = pruned + 1;
                let ghost before = self.contents();
                table_remove(&mut self.nodes, &node.address);
                proof {
                    assert(self.contents().dom() =~= before.dom().remove(node.address));
                    assert forall|k: NetAddress|
                        #[trigger] self.contents().contains_key(k) <==> m.contains_key(k) && !(exists|j: int|
                            0 <= j < i + 1 && (#[trigger] s@[j]).address == k && is_expired(s@[j], now)) by {
                        if k == node.address {
                            assert(s@[i as int].address == k && is_expired(s@[i as int], now));
                        } else if exists|j: int|
                            0 <= j < i + 1 && (#[trigger] s@[j]).address == k && is_expired(s@[j], now) {
                            let j = choose|j: int|
                                0 <= j < i + 1 && (#[trigger] s@[j]).address == k && is_expired(s@[j], now);
                            assert(j != i);
                        }
                    }
                }
            } else {
                if node.good_at(now) {
                    good = good + 1;
                    if node.address.ip.is_ipv4() {
                        ipv4 = ipv4 + 1;
                    }
                } else if node.stale_at(now) {
                    stale = stale + 1;
                } else {
                    bad = bad + 1;
                }
                proof {
                    assert forall|k: NetAddress|
                        #[trigger] self.contents().contains_key(k) <==> m.contains_key(k) && !(exists|j: int|
                            0 <= j < i + 1 && (#[trigger] s@[j]).address == k && is_expired(s@[j], now)) by {
                        if exists|j: int|
                            0 <= j < i + 1 && (#[trigger] s@[j]).address == k && is_expired(s@[j], now) {
                            let j = choose|j: int|
                                0 <= j < i + 1 && (#[trigger] s@[j]).address == k && is_expired(s@[j], now);
                            assert(j != i);
                        }
                    }
                }
            }
            i = i + 1;
        }
        proof {
            assert(s@.subrange(0, i as int) =~= s@);
            assert forall|k: NetAddress|
                #[trigger] self.contents().contains_key(k) <==> m.contains_key(k) && !is_expired(m[k], now) by {
                if m.contains_key(k) {
                    assert(holds(s@, k));
                    let j = choose|j: int| 0 <= j < s@.len() && (#[trigger] s@[j]).address == k;
                    assert(s@[j] == m[k]);
                }
            }
        }
        let total = table_len(&self.nodes);
        PruneReport { pruned, good, stale, bad, ipv4, ipv6: good - ipv4, total }
    }

    /// Loads `records` read back from storage: each replaces the node of the same
    /// address, or is added; a record with port zero is dropped.
    pub fn restore(&mut self, records: &Vec<Node>)
        requires
            old(self).wf(),
        ensures
            final(self).wf(),
            final(self).contents() == load_all(old(self).contents(), records@),
    {
        let mut i: usize = 0;
        while i < records.len()
            invariant
                i <= records@.len(),
                self.wf(),
                self.contents() == load_all(old(self).contents(), records@.subrange(0, i as int)),
            decreases records@.len() - i,
        {
            let rec = &records[i];
            proof {
                let t = records@.subrange(0, i as int + 1);
                assert(t.drop_last() =~= records@.subrange(0, i as int));
                assert(t.last() == records@[i as int]);
            }
            if rec.address.port != 0 {
                table_insert(&mut self.nodes, rec.address, rec.duplicate());
            }
            i = i + 1;
        }
        assert(records@.subrange(0, i as int) =~= records@);
    }
}

/// The addresses due for a probe at `now` among `nodes`, new ones first, at most `n`.
fn select_due(nodes: &Vec<Node>, n: usize, now: u64) -> (r: Vec<NetAddress>)
    ensures
        r@ == probe_selection(nodes@, now, n as nat),
{
    let mut fresh: Vec<NetAddress> = Vec::new();
    let mut others: Vec<NetAddress> = Vec::new();
    let mut i: usize = 0;
    while i < nodes.len()
        invariant
            i <= nodes@.len(),
            fresh@ == due(nodes@.subrange(0, i as int), now, true),
            others@ == due(nodes@.subrange(0, i as int), now, false),
        decreases nodes@.len() - i,
    {
        let node = &nodes[i];
        proof {
            let t = nodes@.subrange(0, i as int + 1);
            assert(t.drop_last() =~= nodes@.subrange(0, i as int));
        }
        if node.stale_at(now) {
            if node.last_success == NEVER {
                fresh.push(node.address);
            } else {
                others.push(node.address);
            }
        }
        i = i + 1;
    }
    assert(nodes@.subrange(0, i as int) =~= nodes@);
    fresh.append(&mut others);
    take_prefix(&fresh, n)
}

/// The good-address selection among `nodes`.
fn select_good(nodes: &Vec<Node>, qtype: u16, include_all_subnetworks: bool, subnetwork_id: Option<&str>, now: u64) -> (r: Vec<NetAddress>)
    ensures
        r@ == good_selection(nodes@, now, qtype, include_all_subnetworks, opt_str_view(subnetwork_id)),
{
    if qtype != QTYPE_A && qtype != QTYPE_AAAA {
        return Vec::new();
    }
    let mut all: Vec<NetAddress> = Vec::new();
    let mut i: usize = 0;
    while i < nodes.len()
        invariant
            i <= nodes@.len(),
            all@ == answering(
                nodes@.subrange(0, i as int),
                now,
                qtype,
                include_all_subnetworks,
                opt_str_view(subnetwork_id),
            ),
        decreases nodes@.len() - i,
    {
        let node = &nodes[i];
        proof {
            let t = nodes@.subrange(0, i as int + 1);
            assert(t.drop_last() =~= nodes@.subrange(0, i as int));
        }
        let v4 = node.address.ip.is_ipv4();
        let family = (qtype == QTYPE_A && v4) || (qtype == QTYPE_AAAA && !v4);
        if family && node.good_at(now) && (include_all_subnetworks || same_subnetwork(
            &node.subnetwork_id,
            subnetwork_id,
        )) {
            all.push(node.address);
        }
        i = i + 1;
    }
    assert(nodes@.subrange(0, i as int) =~= nodes@);
    take_prefix(&all, DEFAULT_MAX_ANSWERS)
}

/// The first `n` addresses of `v`, or all of them when there are fewer.
fn take_prefix(v: &Vec<NetAddress>, n: usize) -> (r: Vec<NetAddress>)
    ensures
        r@ == (if v@.len() <= n {
            v@
        } else {
            v@.take(n as int)
        }),
{
    let mut r: Vec<NetAddress> = Vec::new();
    let mut i: usize = 0;
    while i < v.len() && i < n
        invariant
            i <= v@.len(),
            i <= n,
            r@ == v@.take(i as int),
        decreases v@.len() - i,
    {
        r.push(v[i]);
        i = i + 1;
        assert(r@ =~= v@.take(i as int));
    }
    if v.len() <= n {
        assert(v@.take(i as int) =~= v@);
    }
    r
}

/// Whether a node's subnetwork equals the one asked for.
fn same_subnetwork(a: &Option<String>, b: Option<&str>) -> (r: bool)
    ensures
        r == (opt_view(*a) == opt_str_view(b)),
{
    match (a, b) {
        (Some(x), Some(y)) => {
            let xs = chars_of(x.as_str());
            let ys = chars_of(y);
            chars_equal(xs.as_slice(), ys.as_slice())
        },
        (None, None) => true,
        _ => false,
    }
}

proof fn lemma_due_members(nodes: Seq<Node>, now: u64, new: bool, x: NetAddress)
    requires
        due(nodes, now, new).contains(x),
    ensures
        exists|j: int| 0 <= j < nodes.len() && (#[trigger] nodes[j]).address == x && is_stale(nodes[j], now),
    decreases nodes.len(),
{
    let prev = due(nodes.drop_last(), now, new);
    let n = nodes.last();
    if is_stale(n, now) && is_new(n) == new && x == n.address {
        assert(nodes[nodes.len() - 1].address == x);
    } else {
        if is_stale(n, now) && is_new(n) == new {
            let k = choose|k: int| 0 <= k < due(nodes, now, new).len() && due(nodes, now, new)[k] == x;
            assert(prev[k] == x);
        }
        lemma_due_members(nodes.drop_last(), now, new, x);
        let j = choose|j: int| 0 <= j < nodes.drop_last().len() && (#[trigger] nodes.drop_last()[j]).address == x && is_stale(nodes.drop_last()[j], now);
        assert(nodes[j] == nodes.drop_last()[j]);
    }
}

/// A good node is never selected for a probe.
pub proof fn lemma_good_not_selected(nodes: Seq<Node>, now: u64, n: nat, i: int)
    requires
        nodes_wf(nodes),
        0 <= i < nodes.len(),
        is_good(nodes[i], now),
    ensures
        !probe_selection(nodes, now, n).contains(nodes[i].address),
{
    let x = nodes[i].address;
    let all = due(nodes, now, true) + due(nodes, now, false);
    if probe_selection(nodes, now, n).contains(x) {
        let k = choose|k: int| 0 <= k < probe_selection(nodes, now, n).len() && probe_selection(nodes, now, n)[k] == x;
        assert(all[k] == x);
        if k < due(nodes, now, true).len() {
            assert(due(nodes, now, true)[k] == x);
            lemma_due_members(nodes, now, true, x);
        } else {
            assert(due(nodes, now, false)[k - due(nodes, now, true).len()] == x);
            lemma_due_members(nodes, now, false, x);
        }
        let j = choose|j: int| 0 <= j < nodes.len() && (#[trigger] nodes[j]).address == x && is_stale(nodes[j], now);
        assert(j == i);
    }
}

proof fn lemma_add_one(m: Map<NetAddress, Node>, a: NetAddress, now: u64)
    requires
        table_wf(m),
        a.port != 0,
    ensures
        table_wf(add_one(m, a, now)),
        add_one(m, a, now).dom() == m.dom().insert(a),
{
    assert(add_one(m, a, now).dom() =~= m.dom().insert(a));
}

/// `add` keeps the catalog well formed and adds exactly the accepted addresses
/// to its keys.
pub proof fn lemma_add_all(m: Map<NetAddress, Node>, addrs: Seq<NetAddress>, now: u64, accept_unroutable: bool)
    requires
        table_wf(m),
    ensures
        table_wf(add_all(m, addrs, now, accept_unroutable)),
        add_all(m, addrs, now, accept_unroutable).dom() == m.dom().union(
            accepted_set(addrs, accept_unroutable),
        ),
    decreases addrs.len(),
{
    if addrs.len() > 0 {
        let prev = add_all(m, addrs.drop_last(), now, accept_unroutable);
        lemma_add_all(m, addrs.drop_last(), now, accept_unroutable);
        let a = addrs.last();
        if accepted(a, accept_unroutable) {
            lemma_add_one(prev, a, now);
        }
        assert forall|x: NetAddress| #[trigger] accepted_set(addrs, accept_unroutable).contains(x)
            <==> accepted_set(addrs.drop_last(), accept_unroutable).contains(x) || (x == a
            && accepted(a, accept_unroutable)) by {
            if addrs.contains(x) && x != a {
                let k = choose|k: int| 0 <= k < addrs.len() && addrs[k] == x;
                assert(addrs.drop_last()[k] == x);
            }
            if addrs.drop_last().contains(x) {
                let k = choose|k: int| 0 <= k < addrs.drop_last().len() && addrs.drop_last()[k] == x;
                assert(addrs[k] == x);
            }
            if x == a {
                assert(addrs[addrs.len() - 1] == x);
            }
        }
        assert(add_all(m, addrs, now, accept_unroutable).dom() =~= m.dom().union(
            accepted_set(addrs, accept_unroutable),
        ));
    }
}

/// Every listing of a catalog holds as many nodes as the catalog has keys.
pub proof fn lemma_count_is_distinct_keys(s: Seq<Node>, m: Map<NetAddress, Node>)
    requires
        table_wf(m),
        lists(s, m),
    ensures
        s.len() == m.len(),
{
    let a = addrs_of(s);
    assert(a.no_duplicates()) by {
        assert forall|i: int, j: int| 0 <= i < a.len() && 0 <= j < a.len() && i != j implies a[i]
            != a[j] by {
            assert(a[i] == s[i].address && a[j] == s[j].address);
        }
    }
    a.unique_seq_to_set();
    assert(a.to_set() =~= m.dom()) by {
        assert forall|x: NetAddress| a.to_set().contains(x) <==> m.dom().contains(x) by {
            if a.contains(x) {
                let i = choose|i: int| 0 <= i < a.len() && a[i] == x;
                assert(s[i].address == x);
            }
            if m.contains_key(x) {
                assert(holds(s, x));
                let i = choose|i: int| 0 <= i < s.len() && (#[trigger] s[i]).address == x;
                assert(a[i] == x);
            }
        }
    }
}

/// Two `add` calls: the counts they return sum to the number of keys that they
/// brought in, which are the accepted addresses of either list not known before.
pub proof fn lemma_two_adds(m: Map<NetAddress, Node>, xs: Seq<NetAddress>, ys: Seq<NetAddress>, t1: u64, t2: u64, accept_unroutable: bool)
    requires
        table_wf(m),
    ensures
        ({
            let mid = add_all(m, xs, t1, accept_unroutable);
            let fin = add_all(mid, ys, t2, accept_unroutable);
            &&& fin.dom() == m.dom().union(accepted_set(xs, accept_unroutable)).union(
                accepted_set(ys, accept_unroutable),
            )
            &&& (mid.len() - m.len()) + (fin.len() - mid.len()) == fin.len() - m.len()
        }),
{
    let mid = add_all(m, xs, t1, accept_unroutable);
    lemma_add_all(m, xs, t1, accept_unroutable);
    lemma_add_all(mid, ys, t2, accept_unroutable);
}

proof fn lemma_due_contains(s: Seq<Node>, now: u64, new: bool, j: int)
    requires
        0 <= j < s.len(),
        is_stale(s[j], now),
        is_new(s[j]) == new,
    ensures
        due(s, now, new).contains(s[j].address),
    decreases s.len(),
{
    let prev = due(s.drop_last(), now, new);
    if j == s.len() - 1 {
        assert(due(s, now, new) == prev.push(s[j].address));
        assert(due(s, now, new)[prev.len() as int] == s[j].address);
    } else {
        assert(s.drop_last()[j] == s[j]);
        lemma_due_contains(s.drop_last(), now, new, j);
        let k = choose|k: int| 0 <= k < prev.len() && prev[k] == s[j].address;
        if is_stale(s.last(), now) && is_new(s.last()) == new {
            assert(due(s, now, new)[k] == s[j].address);
        }
    }
}

/// The number of nodes that never succeeded.
pub open spec fn new_count(s: Seq<Node>) -> nat
    decreases s.len(),
{
    if s.len() == 0 {
        0
    } else {
        new_count(s.drop_last()) + if is_new(s.last()) {
            1nat
        } else {
            0nat
        }
    }
}

proof fn lemma_due_new_len(s: Seq<Node>, now: u64)
    ensures
        due(s, now, true).len() <= new_count(s),
    decreases s.len(),
{
    if s.len() > 0 {
        lemma_due_new_len(s.drop_last(), now);
    }
}

/// A node that was just added is due for a probe without any attempt, and is
/// selected when the catalog holds at most `n` nodes that never succeeded.
pub proof fn lemma_new_node_selected(m: Map<NetAddress, Node>, a: NetAddress, now: u64, accept_unroutable: bool, s: Seq<Node>, n: nat)
    requires
        table_wf(m),
        !m.contains_key(a),
        accepted(a, accept_unroutable),
        lists(s, add_all(m, seq![a], now, accept_unroutable)),
        new_count(s) <= n,
    ensures
        is_stale(fresh_node(a, now), now),
        probe_selection(s, now, n).contains(a),
{
    let one = seq![a];
    assert(one.drop_last() =~= Seq::<NetAddress>::empty());
    assert(add_all(m, one.drop_last(), now, accept_unroutable) == m);
    assert(one.last() == a);
    let after = add_all(m, one, now, accept_unroutable);
    assert(after == m.insert(a, fresh_node(a, now)));
    assert(after.contains_key(a));
    assert(holds(s, a));
    let j = choose|j: int| 0 <= j < s.len() && (#[trigger] s[j]).address == a;
    assert(s[j] == after[a]);
    lemma_due_contains(s, now, true, j);
    lemma_due_new_len(s, now);
    let fresh = due(s, now, true);
    let all = fresh + due(s, now, false);
    let k = choose|k: int| 0 <= k < fresh.len() && fresh[k] == a;
    assert(all[k] == a);
    if all.len() > n {
        assert(probe_selection(s, now, n)[k] == a);
    }
}

/// Loading the records that a dump of a catalog wrote, into an empty catalog,
/// gives back that catalog, node for node.
pub proof fn lemma_dump_load_round_trip(m: Map<NetAddress, Node>, s: Seq<Node>)
    requires
        table_wf(m),
        lists(s, m),
    ensures
        load_all(Map::empty(), s) == m,
    decreases s.len(),
{
    if s.len() == 0 {
        assert forall|k: NetAddress| !m.contains_key(k) by {
            if m.contains_key(k) {
                assert(holds(s, k));
            }
        }
        assert(load_all(Map::empty(), s) =~= m);
    } else {
        let last = s.last();
        let a = last.address;
        let prev = s.drop_last();
        let mr = m.remove(a);
        assert(s[s.len() - 1] == last);
        assert(nodes_wf(prev)) by {
            assert forall|i: int, j: int|
                0 <= i < prev.len() && 0 <= j < prev.len() && i != j implies (#[trigger] prev[i]).address
                != (#[trigger] prev[j]).address by {
                assert(prev[i] == s[i] && prev[j] == s[j]);
            }
            assert forall|i: int| 0 <= i < prev.len() implies (#[trigger] prev[i]).address.port != 0 by {
                assert(prev[i] == s[i]);
            }
        }
        assert forall|i: int| 0 <= i < prev.len() implies mr.contains_key((#[trigger] prev[i]).address)
            && mr[prev[i].address] == prev[i] by {
            assert(prev[i] == s[i]);
            assert(s[i].address != s[s.len() - 1].address);
        }
        assert forall|k: NetAddress| #[trigger] mr.contains_key(k) implies holds(prev, k) by {
            assert(holds(s, k));
            let j = choose|j: int| 0 <= j < s.len() && (#[trigger] s[j]).address == k;
            assert(j != s.len() - 1);
            assert(prev[j] == s[j]);
        }
        assert(table_wf(mr)) by {
            assert(mr.dom() =~= m.dom().remove(a));
        }
        lemma_dump_load_round_trip(mr, prev);
        assert(m.contains_key(a) && m[a] == last);
        assert(load_all(Map::empty(), s) =~= m);
    }
}

} // verus!
