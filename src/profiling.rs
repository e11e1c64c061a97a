//! Facts that the profiling server reports.
use vstd::prelude::*;
use crate::errors::text;
use crate::text::{chars_equal, chars_of};

verus! {

/// Version of this library.
pub const VERSION: &'static str = "0.1.0";

/// Relies on chrono's `From<SystemTime> for DateTime<Utc>` and
/// `DateTime::to_rfc3339`: the current time as RFC 3339 text, also for a clock
/// set before the Unix epoch. Nothing is known of the value.
#[verifier::external_body]
fn now_rfc3339() -> (r: String) {
    chrono::DateTime::<chrono::Utc>::from(std::time::SystemTime::now()).to_rfc3339()
}

/// The texts of the keys of a list of facts.
pub open spec fn stat_keys(v: Seq<(String, String)>) -> Seq<Seq<char>> {
    v.map_values(|p: (String, String)| p.0@)
}

/// The texts of the values of a list of facts.
pub open spec fn stat_values(v: Seq<(String, String)>) -> Seq<Seq<char>> {
    v.map_values(|p: (String, String)| p.1@)
}

/// Facts about the running seeder: its start time and version.
pub struct ProfilingServer {
    stats: Vec<(String, String)>,
}

impl ProfilingServer {
    pub closed spec fn keys(&self) -> Seq<Seq<char>> {
        stat_keys(self.stats@)
    }

    /// The values of the facts, in the order of `keys`.
    pub closed spec fn values(&self) -> Seq<Seq<char>> {
        stat_values(self.stats@)
    }

    /// The facts at start: `start_time` (now, RFC 3339) and `version`.
    pub fn new() -> (r: ProfilingServer)
        ensures
            r.keys() == seq!["start_time"@, "version"@],
            r.values().len() == 2,
            r.values()[1] == VERSION@,
    {
        let mut stats: Vec<(String, String)> = Vec::new();
        stats.push((text("start_time"), now_rfc3339()));
        stats.push((text("version"), text(VERSION)));
        assert(stat_keys(stats@) =~= seq!["start_time"@, "version"@]);
        assert(stat_values(stats@)[1] == VERSION@);
        ProfilingServer { stats }
    }

    /// Whether a fact named `key` is reported.
    pub fn contains_key(&self, key: &str) -> (r: bool)
        ensures
            r == self.keys().contains(key@),
    {
        let k = chars_of(key);
        let mut i: usize = 0;
        while i < self.stats.len()
            invariant
                i <= self.stats@.len(),
                k@ == key@,
                forall|j: int| 0 <= j < i ==> (#[trigger] self.stats@[j]).0@ != key@,
            decreases self.stats@.len() - i,
        {
            let name = chars_of(self.stats[i].0.as_str());
            if chars_equal(name.as_slice(), k.as_slice()) {
                assert(self.keys()[i as int] == key@);
                return true;
            }
            i = i + 1;
        }
        assert forall|j: int| 0 <= j < self.keys().len() implies self.keys()[j] != key@ by {
            assert(self.keys()[j] == self.stats@[j].0@);
        }
        false
    }

    /// The value of the first fact named `key`, if reported.
    pub fn get(&self, key: &str) -> (r: Option<String>)
        ensures
            r is Some == self.keys().contains(key@),
            r matches Some(v) ==> exists|i: int|
                0 <= i < self.keys().len() && self.keys()[i] == key@ && v@ == self.values()[i]
                    && forall|j: int| 0 <= j < i ==> self.keys()[j] != key@,
    {
        let k = chars_of(key);
        let mut i: usize = 0;
        while i < self.stats.len()
            invariant
                i <= self.stats@.len(),
                k@ == key@,
                forall|j: int| 0 <= j < i ==> (#[trigger] self.stats@[j]).0@ != key@,
            decreases self.stats@.len() - i,
        {
            let name = chars_of(self.stats[i].0.as_str());
            if chars_equal(name.as_slice(), k.as_slice()) {
                assert(self.keys()[i as int] == key@);
                let v = self.stats[i].1.clone();
                assert(v@ == self.values()[i as int]);
                assert(forall|j: int| 0 <= j < i ==> self.keys()[j] != key@);
                return Some(v);
            }
            i = i + 1;
        }
        assert forall|j: int| 0 <= j < self.keys().len() implies self.keys()[j] != key@ by {
            assert(self.keys()[j] == self.stats@[j].0@);
        }
        None
    }
}

} // verus!
