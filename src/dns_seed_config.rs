//! The table of DNS seed host names, per network.
use vstd::prelude::*;
use std::collections::HashMap;
use crate::errors::text;
use crate::text::{chars_equal, chars_of};

verus! {

broadcast use vstd::std_specs::hash::group_hash_axioms;

/// The texts of a list of names.
pub open spec fn names(v: Seq<String>) -> Seq<Seq<char>> {
    v.map_values(|s: String| s@)
}

/// `v` with `s` appended, unless a name of the same text is there.
pub open spec fn with_name(v: Seq<String>, s: String) -> Seq<String> {
    if names(v).contains(s@) {
        v
    } else {
        v.push(s)
    }
}

/// `v` without the names whose text is `s`.
pub open spec fn without_name(v: Seq<String>, s: Seq<char>) -> Seq<String>
    decreases v.len(),
{
    if v.len() == 0 {
        v
    } else {
        let prev = without_name(v.drop_last(), s);
        if v.last()@ == s {
            prev
        } else {
            prev.push(v.last())
        }
    }
}

fn has_name(v: &Vec<String>, s: &str) -> (r: bool)
    ensures
        r == names(v@).contains(s@),
{
    let target = chars_of(s);
    let mut i: usize = 0;
    while i < v.len()
        invariant
            i <= v@.len(),
            target@ == s@,
            forall|k: int| 0 <= k < i ==> (#[trigger] v@[k])@ != s@,
        decreases v@.len() - i,
    {
        let c = chars_of(v[i].as_str());
        if chars_equal(c.as_slice(), target.as_slice()) {
            assert(names(v@)[i as int] == s@);
            return true;
        }
        i = i + 1;
    }
    assert forall|k: int| 0 <= k < names(v@).len() implies names(v@)[k] != s@ by {
        assert(names(v@)[k] == v@[k]@);
    }
    false
}

fn remove_name(v: &Vec<String>, s: &str) -> (r: Vec<String>)
    ensures
        r@ == without_name(v@, s@),
{
    let target = chars_of(s);
    let mut r: Vec<String> = Vec::new();
    let mut i: usize = 0;
    while i < v.len()
        invariant
            i <= v@.len(),
            target@ == s@,
            r@ == without_name(v@.subrange(0, i as int), s@),
        decreases v@.len() - i,
    {
        proof {
            let t = v@.subrange(0, i as int + 1);
            assert(t.drop_last() =~= v@.subrange(0, i as int));
            assert(t.last() == v@[i as int]);
        }
        let c = chars_of(v[i].as_str());
        if !chars_equal(c.as_slice(), target.as_slice()) {
            r.push(v[i].clone());
        }
        i = i + 1;
    }
    assert(v@.subrange(0, i as int) =~= v@);
    r
}

/// The seeds of testnet `k`, none when it has no entry.
pub open spec fn listed(m: Map<u16, Vec<String>>, k: u16) -> Seq<String> {
    if m.contains_key(k) {
        m[k]@
    } else {
        Seq::empty()
    }
}

/// DNS seed host names of the main network and of each testnet suffix.
pub struct DnsSeedConfig {
    pub mainnet_servers: Vec<String>,
    pub testnet_servers: HashMap<u16, Vec<String>>,
}

impl DnsSeedConfig {
    /// The built-in table.
    pub fn default() -> (r: DnsSeedConfig)
        ensures
            names(r.mainnet_servers@) == seq![
                "seeder1.kaspad.net"@,
                "seeder2.kaspad.net"@,
                "seeder3.kaspad.net"@,
                "seeder4.kaspad.net"@,
                "kaspadns.kaspacalc.net"@,
                "n-mainnet.kaspa.ws"@,
                "dnsseeder-kaspa-mainnet.x-con.at"@,
            ],
            r.testnet_servers@.dom() == set![10u16, 11u16],
            names(r.testnet_servers@[10]@) == seq!["seed.testnet.kaspa.org"@, "seed1-testnet.kaspad.net"@],
            names(r.testnet_servers@[11]@) == seq!["seed.testnet.kaspa.org"@, "seed1-testnet.kaspad.net"@],
    {
        let mut mainnet: Vec<String> = Vec::new();
        mainnet.push(text("seeder1.kaspad.net"));
        mainnet.push(text("seeder2.kaspad.net"));
        mainnet.push(text("seeder3.kaspad.net"));
        mainnet.push(text("seeder4.kaspad.net"));
        mainnet.push(text("kaspadns.kaspacalc.net"));
        mainnet.push(text("n-mainnet.kaspa.ws"));
        mainnet.push(text("dnsseeder-kaspa-mainnet.x-con.at"));
        let mut t10: Vec<String> = Vec::new();
        t10.push(text("seed.testnet.kaspa.org"));
        t10.push(text("seed1-testnet.kaspad.net"));
        let mut t11: Vec<String> = Vec::new();
        t11.push(text("seed.testnet.kaspa.org"));
        t11.push(text("seed1-testnet.kaspad.net"));
        let mut testnet: HashMap<u16, Vec<String>> = HashMap::new();
        testnet.insert(10, t10);
        testnet.insert(11, t11);
        assert(names(mainnet@) =~= seq![
            "seeder1.kaspad.net"@,
            "seeder2.kaspad.net"@,
            "seeder3.kaspad.net"@,
            "seeder4.kaspad.net"@,
            "kaspadns.kaspacalc.net"@,
            "n-mainnet.kaspa.ws"@,
            "dnsseeder-kaspa-mainnet.x-con.at"@,
        ]);
        assert(testnet@.dom() =~= set![10u16, 11u16]);
        assert(names(testnet@[10]@) =~= seq!["seed.testnet.kaspa.org"@, "seed1-testnet.kaspad.net"@]);
        assert(names(testnet@[11]@) =~= seq!["seed.testnet.kaspa.org"@, "seed1-testnet.kaspad.net"@]);
        DnsSeedConfig { mainnet_servers: mainnet, testnet_servers: testnet }
    }

    /// The main network's seeds.
    pub fn get_mainnet_servers(&self) -> (r: &[String])
        ensures
            r@ == self.mainnet_servers@,
    {
        self.mainnet_servers.as_slice()
    }

    /// The seeds of testnet `suffix`, if it has an entry.
    pub fn get_testnet_servers(&self, suffix: u16) -> (r: Option<&[String]>)
        ensures
            match r {
                Some(v) => self.testnet_servers@.contains_key(suffix) && v@
                    == self.testnet_servers@[suffix]@,
                None => !self.testnet_servers@.contains_key(suffix),
            },
    {
        match self.testnet_servers.get(&suffix) {
            Some(v) => Some(v.as_slice()),
            None => None,
        }
    }

    /// Adds a main-network seed unless one of the same name is there.
    pub fn add_mainnet_server(&mut self, server: String)
        ensures
            final(self).mainnet_servers@ == with_name(old(self).mainnet_servers@, server),
            final(self).testnet_servers@ == old(self).testnet_servers@,
    {
        if !has_name(&self.mainnet_servers, server.as_str()) {
            self.mainnet_servers.push(server);
        }
    }

    /// Adds a seed of testnet `suffix`, creating its entry if needed, unless
    /// one of the same name is there.
    pub fn add_testnet_server(&mut self, suffix: u16, server: String)
        ensures
            final(self).mainnet_servers@ == old(self).mainnet_servers@,
            final(self).testnet_servers@.dom() == old(self).testnet_servers@.dom().insert(suffix),
            final(self).testnet_servers@[suffix]@ == with_name(
                listed(old(self).testnet_servers@, suffix),
                server,
            ),
            forall|k: u16|
                k != suffix && #[trigger] old(self).testnet_servers@.contains_key(k)
                    ==> final(self).testnet_servers@[k] == old(self).testnet_servers@[k],
    {
        let mut list: Vec<String> = match self.testnet_servers.remove(&suffix) {
            Some(v) => v,
            None => Vec::new(),
        };
        if !has_name(&list, server.as_str()) {
            list.push(server);
        }
        self.testnet_servers.insert(suffix, list);
        assert(self.testnet_servers@.dom() =~= old(self).testnet_servers@.dom().insert(suffix));
    }

    /// Removes the main-network seeds named `server`.
    pub fn remove_mainnet_server(&mut self, server: &str)
        ensures
            final(self).mainnet_servers@ == without_name(old(self).mainnet_servers@, server@),
            final(self).testnet_servers@ == old(self).testnet_servers@,
    {
        self.mainnet_servers = remove_name(&self.mainnet_servers, server);
    }

    /// Removes the seeds named `server` from testnet `suffix`, if it has an entry.
    pub fn remove_testnet_server(&mut self, suffix: u16, server: &str)
        ensures
            final(self).mainnet_servers@ == old(self).mainnet_servers@,
            final(self).testnet_servers@.dom() == old(self).testnet_servers@.dom(),
            forall|k: u16|
                #[trigger] old(self).testnet_servers@.contains_key(k) ==> final(self).testnet_servers@[k]@
                    == if k == suffix {
                    without_name(old(self).testnet_servers@[k]@, server@)
                } else {
                    old(self).testnet_servers@[k]@
                },
    {
        match self.testnet_servers.remove(&suffix) {
            Some(v) => {
                let kept = remove_name(&v, server);
                self.testnet_servers.insert(suffix, kept);
                assert(self.testnet_servers@.dom() =~= old(self).testnet_servers@.dom());
            },
            None => {
                assert(self.testnet_servers@ =~= old(self).testnet_servers@);
            },
        }
    }
}

} // verus!
