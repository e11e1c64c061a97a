//! Seed discovery: which host names to resolve for a network, and how the
//! resolved addresses become candidates. Name resolution itself happens
//! around these functions.
use vstd::prelude::*;
use crate::config::NetworkParams;
use crate::dns_seed_config::names;
use crate::errors::text;
use crate::net::{IpAddress, NetAddress};
use crate::text::{decimal_text, push_decimal, push_str, string_from_chars};

verus! {

/// The name of the dedicated seed of testnet `suffix`.
pub open spec fn testnet_seed_name(suffix: u16) -> Seq<char> {
    "seed"@ + decimal_text(suffix as nat) + ".testnet.kaspa.org"@
}

/// Whether a resolved candidate is usable: a non-zero port, and an address
/// that is not loopback, unspecified or multicast.
pub open spec fn seed_ok(a: NetAddress) -> bool {
    a.port != 0 && match a.ip {
        IpAddress::V4(x, y, z, w) => !(x == 127 || (x == 0 && y == 0 && z == 0 && w == 0) || (224
            <= x <= 239)),
        IpAddress::V6(s0, s1, s2, s3, s4, s5, s6, s7) => {
            let zero_head = s0 == 0 && s1 == 0 && s2 == 0 && s3 == 0 && s4 == 0 && s5 == 0 && s6
                == 0;
            !((zero_head && (s7 == 0 || s7 == 1)) || s0 >= 0xff00)
        },
    }
}

/// The usable candidates of `s`, each once, in order of first appearance.
pub open spec fn distinct_usable(s: Seq<NetAddress>) -> Seq<NetAddress>
    decreases s.len(),
{
    if s.len() == 0 {
        s
    } else {
        let prev = distinct_usable(s.drop_last());
        if prev.contains(s.last()) || !seed_ok(s.last()) {
            prev
        } else {
            prev.push(s.last())
        }
    }
}

fn seed_ok_exec(a: &NetAddress) -> (r: bool)
    ensures
        r == seed_ok(*a),
{
    if a.port == 0 {
        return false;
    }
    match a.ip {
        IpAddress::V4(x, y, z, w) => !(x == 127 || (x == 0 && y == 0 && z == 0 && w == 0) || (224
            <= x && x <= 239)),
        IpAddress::V6(s0, s1, s2, s3, s4, s5, s6, s7) => {
            let zero_head = s0 == 0 && s1 == 0 && s2 == 0 && s3 == 0 && s4 == 0 && s5 == 0 && s6
                == 0;
            !((zero_head && (s7 == 0 || s7 == 1)) || s0 >= 0xff00)
        },
    }
}

fn contains_address(v: &Vec<NetAddress>, a: &NetAddress) -> (r: bool)
    ensures
        r == v@.contains(*a),
{
    let mut i: usize = 0;
    while i < v.len()
        invariant
            i <= v@.len(),
            forall|k: int| 0 <= k < i ==> v@[k] != *a,
        decreases v@.len() - i,
    {
        if v[i] == *a {
            return true;
        }
        i = i + 1;
    }
    false
}

/// Discovery of seed candidates.
pub struct DnsSeedDiscovery;

impl DnsSeedDiscovery {
    /// The seed host names to resolve for a network.
    pub fn get_dns_seeders_from_network_params(params: &NetworkParams) -> (r: Vec<String>)
        ensures
            names(r@) == match *params {
                NetworkParams::Mainnet { .. } => seq![
                    "seeder1.kaspad.net"@,
                    "seeder2.kaspad.net"@,
                    "seeder3.kaspad.net"@,
                    "dnsseed.kaspa.org"@,
                    "seed.kaspa.org"@,
                ],
                NetworkParams::Testnet { suffix, .. } => seq![
                    testnet_seed_name(suffix),
                    "seeder1.kaspad.net"@,
                    "seeder2.kaspad.net"@,
                ],
            },
    {
        let mut r: Vec<String> = Vec::new();
        match params {
            NetworkParams::Mainnet { .. } => {
                r.push(text("seeder1.kaspad.net"));
                r.push(text("seeder2.kaspad.net"));
                r.push(text("seeder3.kaspad.net"));
                r.push(text("dnsseed.kaspa.org"));
                r.push(text("seed.kaspa.org"));
                assert(names(r@) =~= seq![
                    "seeder1.kaspad.net"@,
                    "seeder2.kaspad.net"@,
                    "seeder3.kaspad.net"@,
                    "dnsseed.kaspa.org"@,
                    "seed.kaspa.org"@,
                ]);
            },
            NetworkParams::Testnet { suffix, .. } => {
                let mut name: Vec<char> = Vec::new();
                push_str(&mut name, "seed");
                push_decimal(&mut name, *suffix as u64);
                push_str(&mut name, ".testnet.kaspa.org");
                assert(name@ =~= testnet_seed_name(*suffix));
                r.push(string_from_chars(&name));
                r.push(text("seeder1.kaspad.net"));
                r.push(text("seeder2.kaspad.net"));
                assert(names(r@) =~= seq![
                    testnet_seed_name(*suffix),
                    "seeder1.kaspad.net"@,
                    "seeder2.kaspad.net"@,
                ]);
            },
        }
        r
    }

    /// The candidates for the addresses that a seed name resolved to, each
    /// with the network's default port.
    pub fn seed_addresses(ips: &Vec<IpAddress>, default_port: u16) -> (r: Vec<NetAddress>)
        ensures
            r@ == ips@.map_values(|ip: IpAddress| NetAddress { ip, port: default_port }),
    {
        let mut r: Vec<NetAddress> = Vec::new();
        let mut i: usize = 0;
        while i < ips.len()
            invariant
                i <= ips@.len(),
                r@ == ips@.take(i as int).map_values(
                    |ip: IpAddress| NetAddress { ip, port: default_port },
                ),
            decreases ips@.len() - i,
        {
            r.push(NetAddress { ip: ips[i], port: default_port });
            i = i + 1;
            assert(r@ =~= ips@.take(i as int).map_values(
                |ip: IpAddress| NetAddress { ip, port: default_port },
            ));
        }
        assert(ips@.take(i as int) =~= ips@);
        r
    }

    /// The usable candidates, each once, in order of first appearance.
    pub fn deduplicate_and_filter_addresses(addresses: Vec<NetAddress>) -> (r: Vec<NetAddress>)
        ensures
            r@ == distinct_usable(addresses@),
            r@.no_duplicates(),
            forall|a: NetAddress| #[trigger] r@.contains(a) <==> addresses@.contains(a) && seed_ok(a),
    {
        proof {
            lemma_distinct_usable(addresses@);
        }
        let mut r: Vec<NetAddress> = Vec::new();
        let mut i: usize = 0;
        while i < addresses.len()
            invariant
                i <= addresses@.len(),
                r@ == distinct_usable(addresses@.subrange(0, i as int)),
            decreases addresses@.len() - i,
        {
            proof {
                let t = addresses@.subrange(0, i as int + 1);
                assert(t.drop_last() =~= addresses@.subrange(0, i as int));
                assert(t.last() == addresses@[i as int]);
            }
            let a = addresses[i];
            if !contains_address(&r, &a) && seed_ok_exec(&a) {
                r.push(a);
            }
            i = i + 1;
        }
        assert(addresses@.subrange(0, i as int) =~= addresses@);
        r
    }
}

/// The usable candidates hold no address twice, and hold every usable one.
proof fn lemma_distinct_usable(s: Seq<NetAddress>)
    ensures
        distinct_usable(s).no_duplicates(),
        forall|a: NetAddress| #[trigger] distinct_usable(s).contains(a) <==> s.contains(a) && seed_ok(a),
    decreases s.len(),
{
    if s.len() > 0 {
        lemma_distinct_usable(s.drop_last());
        let prev = distinct_usable(s.drop_last());
        assert forall|a: NetAddress| #[trigger] distinct_usable(s).contains(a) <==> s.contains(a) && seed_ok(a) by {
            if s.drop_last().contains(a) {
                let k = choose|k: int| 0 <= k < s.drop_last().len() && s.drop_last()[k] == a;
                assert(s[k] == a);
            }
            if s.contains(a) && a != s.last() {
                let k = choose|k: int| 0 <= k < s.len() && s[k] == a;
                assert(s.drop_last()[k] == a);
            }
            if a == s.last() {
                assert(s[s.len() - 1] == a);
            }
            if !(prev.contains(s.last()) || !seed_ok(s.last())) {
                if prev.push(s.last()).contains(a) && a != s.last() {
                    let k = choose|k: int| 0 <= k < prev.push(s.last()).len() && prev.push(s.last())[k] == a;
                    assert(prev[k] == a);
                }
                if prev.contains(a) {
                    let k = choose|k: int| 0 <= k < prev.len() && prev[k] == a;
                    assert(prev.push(s.last())[k] == a);
                }
                assert(prev.push(s.last())[prev.len() as int] == s.last());
            }
        }
    }
}

} // verus!
