//! Settings of the seeder: defaults, values from a configuration file and
//! from the command line, and their validation.
use vstd::prelude::*;
use crate::errors::{text, KaseederError, Result};
use crate::net::{ipv4_of_text, ipv6_ok, ipv6_text_ok, parse_ipv4};
use crate::text::{
    all_digits, chars_equal, chars_of, contains_char, parse_unsigned, parse_unsigned_chars, split_chars,
    split_spec, views,
};

verus! {

/// What `char::is_alphanumeric` says of a character.
pub uninterp spec fn alnum(c: char) -> bool;

/// What `str::to_lowercase` gives for a string.
pub uninterp spec fn lower_of(s: Seq<char>) -> Seq<char>;

/// Relies on `char::is_alphanumeric`: whether `c` is a letter or a digit.
#[verifier::external_body]
fn is_alnum(c: char) -> (r: bool)
    ensures
        r == alnum(c),
{
    c.is_alphanumeric()
}

/// Relies on `str::to_lowercase`: the lower-case form of `s`, which depends on
/// the characters of `s` alone.
#[verifier::external_body]
fn lowercase(s: &str) -> (r: String)
    ensures
        r@ == lower_of(s@),
{
    s.to_lowercase()
}

/// Parameters of the network that the seeder serves.
#[derive(Debug, Clone, Copy, PartialEq, Eq, Structural)]
pub enum NetworkParams {
    Mainnet { default_port: u16 },
    Testnet { suffix: u16, default_port: u16 },
}

impl NetworkParams {
    /// The port that peers of the network listen on.
    pub fn default_port(&self) -> (r: u16)
        ensures
            r == match *self {
                NetworkParams::Mainnet { default_port } => default_port,
                NetworkParams::Testnet { default_port, .. } => default_port,
            },
    {
        match self {
            NetworkParams::Mainnet { default_port } => *default_port,
            NetworkParams::Testnet { default_port, .. } => *default_port,
        }
    }
}

/// Values of a configuration file; each may be missing. `peers` and
/// `default_seeder` are other names of `known_peers` and `seeder`.
pub struct ConfigFile {
    pub host: Option<String>,
    pub nameserver: Option<String>,
    pub listen: Option<String>,
    pub grpc_listen: Option<String>,
    pub app_dir: Option<String>,
    pub seeder: Option<String>,
    pub known_peers: Option<String>,
    pub threads: Option<u8>,
    pub min_proto_ver: Option<u16>,
    pub min_ua_ver: Option<String>,
    pub testnet: Option<bool>,
    pub net_suffix: Option<u16>,
    pub log_level: Option<String>,
    pub nologfiles: Option<bool>,
    pub error_log_file: Option<String>,
    pub profile: Option<String>,
    pub peers: Option<String>,
    pub default_seeder: Option<String>,
}

/// Values given on the command line; each may be missing.
pub struct CliOverrides {
    pub host: Option<String>,
    pub nameserver: Option<String>,
    pub listen: Option<String>,
    pub grpc_listen: Option<String>,
    pub app_dir: Option<String>,
    pub seeder: Option<String>,
    pub known_peers: Option<String>,
    pub threads: Option<u8>,
    pub min_proto_ver: Option<u16>,
    pub min_ua_ver: Option<String>,
    pub testnet: Option<bool>,
    pub net_suffix: Option<u16>,
    pub log_level: Option<String>,
    pub nologfiles: Option<bool>,
    pub profile: Option<String>,
}

impl Default for CliOverrides {
    fn default() -> (r: CliOverrides)
        ensures
            r.host.is_none() && r.nameserver.is_none() && r.listen.is_none() && r.grpc_listen.is_none()
                && r.app_dir.is_none() && r.seeder.is_none() && r.known_peers.is_none()
                && r.threads.is_none() && r.min_proto_ver.is_none() && r.min_ua_ver.is_none()
                && r.testnet.is_none() && r.net_suffix.is_none() && r.log_level.is_none()
                && r.nologfiles.is_none() && r.profile.is_none(),
    {
        CliOverrides {
            host: None,
            nameserver: None,
            listen: None,
            grpc_listen: None,
            app_dir: None,
            seeder: None,
            known_peers: None,
            threads: None,
            min_proto_ver: None,
            min_ua_ver: None,
            testnet: None,
            net_suffix: None,
            log_level: None,
            nologfiles: None,
            profile: None,
        }
    }
}

/// Settings of the seeder.
pub struct Config {
    /// The name that the DNS server answers for.
    pub host: String,
    /// The name server announced in NS answers.
    pub nameserver: String,
    /// Socket address of the DNS server.
    pub listen: String,
    /// Socket address of the query service.
    pub grpc_listen: String,
    /// Directory of the catalog file.
    pub app_dir: String,
    pub seeder: Option<String>,
    /// Comma-separated `ip:port` list of peers trusted by the operator.
    pub known_peers: Option<String>,
    /// Number of crawler workers.
    pub threads: u8,
    /// Lowest protocol version accepted; zero for none.
    pub min_proto_ver: u16,
    /// Lowest user-agent version accepted.
    pub min_ua_ver: Option<String>,
    pub testnet: bool,
    pub net_suffix: u16,
    pub log_level: String,
    pub nologfiles: bool,
    pub error_log_file: Option<String>,
    /// Port of the profiling server.
    pub profile: Option<String>,
}

/// `o` if given, else `d`.
pub open spec fn pick<T>(o: Option<T>, d: T) -> T {
    match o {
        Some(v) => v,
        None => d,
    }
}

/// `o` if given, else `d`.
pub open spec fn pick_opt<T>(o: Option<T>, d: Option<T>) -> Option<T> {
    match o {
        Some(v) => Some(v),
        None => d,
    }
}

/// A port as `str::parse::<u16>` reads it, when it is not zero.
pub open spec fn port_ok(p: Seq<char>) -> bool {
    parse_unsigned(p, 65535) is Some && parse_unsigned(p, 65535)->0 != 0
}

/// A profiling port: a `u16` of at least 1024.
pub open spec fn profile_port_ok(p: Seq<char>) -> bool {
    parse_unsigned(p, 65535) is Some && parse_unsigned(p, 65535)->0 >= 1024
}

/// A port of a socket address: decimal digits, at most 65535.
pub open spec fn socket_port_ok(p: Seq<char>) -> bool {
    p.len() > 0 && all_digits(p) && parse_unsigned(p, 65535) is Some
}

/// A socket address: dotted-quad IPv4 text, a colon and a port; or IPv6 text
/// in brackets, a colon and a port.
pub open spec fn socket_addr_ok(s: Seq<char>) -> bool {
    let parts = split_spec(s, ':');
    let halves = split_spec(s, ']');
    (parts.len() == 2 && ipv4_of_text(parts[0]) is Some && socket_port_ok(parts[1])) || (halves.len()
        == 2 && halves[0].len() > 0 && halves[0][0] == '[' && ipv6_text_ok(halves[0].drop_first())
        && halves[1].len() > 0 && halves[1][0] == ':' && socket_port_ok(halves[1].drop_first()))
}

/// A host name: letters, digits, dots and hyphens, with a dot inside and none
/// at either end.
pub open spec fn hostname_ok(s: Seq<char>) -> bool {
    s.len() > 0 && s.contains('.') && (forall|i: int|
        0 <= i < s.len() ==> alnum(#[trigger] s[i]) || s[i] == '.' || s[i] == '-') && s[0] != '.'
        && s.last() != '.'
}

/// An address: an IP address, a socket address, `host:port`, or a host name.
pub open spec fn address_ok(s: Seq<char>) -> bool {
    if ipv4_of_text(s) is Some || ipv6_text_ok(s) {
        true
    } else if s.contains(':') {
        socket_addr_ok(s) || {
            let parts = split_spec(s, ':');
            parts.len() == 2 && port_ok(parts[1]) && parts[0].len() > 0
        }
    } else {
        hostname_ok(s)
    }
}

/// The log levels accepted, in lower case.
pub open spec fn log_level_ok(level: Seq<char>) -> bool {
    let l = lower_of(level);
    l == "trace"@ || l == "debug"@ || l == "info"@ || l == "warn"@ || l == "error"@
}

/// Characters that `char::is_whitespace` accepts: the Unicode White_Space set.
pub open spec fn whitespace(c: char) -> bool {
    let u = c as u32;
    (0x9 <= u <= 0xd) || u == 0x20 || u == 0x85 || u == 0xa0 || u == 0x1680 || (0x2000 <= u
        <= 0x200a) || u == 0x2028 || u == 0x2029 || u == 0x202f || u == 0x205f || u == 0x3000
}

fn is_whitespace(c: char) -> (r: bool)
    ensures
        r == whitespace(c),
{
    let u = c as u32;
    (0x9 <= u && u <= 0xd) || u == 0x20 || u == 0x85 || u == 0xa0 || u == 0x1680 || (0x2000 <= u
        && u <= 0x200a) || u == 0x2028 || u == 0x2029 || u == 0x202f || u == 0x205f || u == 0x3000
}

/// The characters of `s` without leading and trailing whitespace.
pub open spec fn trimmed(s: Seq<char>) -> Seq<char>
    decreases s.len(),
{
    if s.len() > 0 && whitespace(s[0]) {
        trimmed(s.drop_first())
    } else if s.len() > 0 && whitespace(s.last()) {
        trimmed(s.drop_last())
    } else {
        s
    }
}

fn trim_chars(s: &[char]) -> (r: Vec<char>)
    ensures
        r@ == trimmed(s@),
{
    let mut lo: usize = 0;
    let mut hi: usize = s.len();
    let mut done = false;
    assert(s@.subrange(0, s@.len() as int) =~= s@);
    while lo < hi && !done
        invariant
            lo <= hi <= s@.len(),
            hi == s@.len(),
            done ==> lo < hi && !whitespace(s@[lo as int]),
            trimmed(s@) == trimmed(s@.subrange(lo as int, hi as int)),
        decreases hi - lo + if done { 0int } else { 1int },
    {
        if is_whitespace(s[lo]) {
            assert(s@.subrange(lo as int, hi as int).drop_first() =~= s@.subrange(lo as int + 1, hi as int));
            lo = lo + 1;
        } else {
            done = true;
        }
    }
    let mut done2 = false;
    while lo < hi && !done2
        invariant
            lo <= hi <= s@.len(),
            lo < hi ==> !whitespace(s@[lo as int]),
            done2 ==> lo < hi && !whitespace(s@[hi - 1]),
            trimmed(s@) == trimmed(s@.subrange(lo as int, hi as int)),
        decreases hi - lo + if done2 { 0int } else { 1int },
    {
        if is_whitespace(s[hi - 1]) {
            let ghost t = s@.subrange(lo as int, hi as int);
            assert(t.drop_last() =~= s@.subrange(lo as int, hi as int - 1));
            assert(t[0] == s@[lo as int]);
            hi = hi - 1;
        } else {
            done2 = true;
        }
    }
    let ghost t = s@.subrange(lo as int, hi as int);
    if lo < hi {
        assert(t[0] == s@[lo as int]);
        assert(t.last() == s@[hi - 1]);
    }
    assert(trimmed(t) == t);
    crate::text::slice_chars(s, lo, hi)
}

/// Entries of a comma-separated peer list, trimmed, that are not empty, are addresses.
pub open spec fn peer_list_ok(s: Seq<char>) -> bool {
    forall|i: int|
        0 <= i < split_spec(s, ',').len() ==> trimmed(#[trigger] split_spec(s, ',')[i]).len() == 0
            || address_ok(trimmed(split_spec(s, ',')[i]))
}

pub open spec fn opt_ok(o: Option<String>, f: spec_fn(Seq<char>) -> bool) -> bool {
    match o {
        Some(s) => f(s@),
        None => true,
    }
}

/// Whether settings are valid: names given, socket addresses well formed, one
/// to 32 workers, a supported testnet suffix (none, 10 or 11), a known log
/// level, and well-formed seeder, peer list and profiling port when given.
pub open spec fn config_ok(c: Config) -> bool {
    &&& c.host@.len() > 0
    &&& c.nameserver@.len() > 0
    &&& socket_addr_ok(c.listen@)
    &&& socket_addr_ok(c.grpc_listen@)
    &&& 1 <= c.threads <= 32
    &&& (c.testnet ==> c.net_suffix == 0 || c.net_suffix == 10 || c.net_suffix == 11)
    &&& log_level_ok(c.log_level@)
    &&& opt_ok(c.seeder, |s: Seq<char>| address_ok(s))
    &&& opt_ok(c.known_peers, |s: Seq<char>| peer_list_ok(s))
    &&& opt_ok(c.profile, |s: Seq<char>| profile_port_ok(s))
}

fn invalid(field: &str, value: &str, expected: &str) -> (r: KaseederError)
    ensures
        r is InvalidConfigValue,
{
    KaseederError::InvalidConfigValue { field: text(field), value: text(value), expected: text(expected) }
}

fn copy_opt(o: &Option<String>) -> (r: Option<String>)
    ensures
        r == *o,
{
    match o {
        Some(s) => Some(s.clone()),
        None => None,
    }
}

fn port_chars_ok(p: &[char]) -> (r: bool)
    ensures
        r == port_ok(p@),
{
    match parse_unsigned_chars(p, 65535) {
        Some(v) => v != 0,
        None => false,
    }
}

fn socket_port_chars_ok(p: &[char]) -> (r: bool)
    ensures
        r == socket_port_ok(p@),
{
    if p.len() == 0 || p[0] == '+' {
        assert(p@.len() > 0 ==> !crate::text::is_digit(p@[0]));
        return false;
    }
    parse_unsigned_chars(p, 65535).is_some()
}

fn socket_chars_ok(s: &[char]) -> (r: bool)
    ensures
        r == socket_addr_ok(s@),
{
    let parts = split_chars(s, ':');
    let v4 = if parts.len() == 2 {
        assert(parts@[0]@ == views(parts@)[0] && parts@[1]@ == views(parts@)[1]);
        parse_ipv4(parts[0].as_slice()).is_some() && socket_port_chars_ok(parts[1].as_slice())
    } else {
        false
    };
    if v4 {
        return true;
    }
    let halves = split_chars(s, ']');
    if halves.len() != 2 {
        return false;
    }
    assert(halves@[0]@ == views(halves@)[0] && halves@[1]@ == views(halves@)[1]);
    let h0 = halves[0].as_slice();
    let h1 = halves[1].as_slice();
    if h0.len() == 0 || h0[0] != '[' || h1.len() == 0 || h1[0] != ':' {
        return false;
    }
    let inner = crate::text::slice_chars(h0, 1, h0.len());
    let port = crate::text::slice_chars(h1, 1, h1.len());
    assert(inner@ =~= h0@.drop_first());
    assert(port@ =~= h1@.drop_first());
    ipv6_ok(inner.as_slice()) && socket_port_chars_ok(port.as_slice())
}

fn hostname_chars_ok(s: &[char]) -> (r: bool)
    ensures
        r == hostname_ok(s@),
{
    if s.len() == 0 || !contains_char(s, '.') || s[0] == '.' || s[s.len() - 1] == '.' {
        return false;
    }
    let mut i: usize = 0;
    while i < s.len()
        invariant
            i <= s@.len(),
            forall|k: int| 0 <= k < i ==> alnum(#[trigger] s@[k]) || s@[k] == '.' || s@[k] == '-',
        decreases s@.len() - i,
    {
        let c = s[i];
        if !(is_alnum(c) || c == '.' || c == '-') {
            return false;
        }
        i = i + 1;
    }
    true
}

fn address_chars_ok(s: &[char]) -> (r: bool)
    ensures
        r == address_ok(s@),
{
    if parse_ipv4(s).is_some() || ipv6_ok(s) {
        return true;
    }
    if contains_char(s, ':') {
        if socket_chars_ok(s) {
            return true;
        }
        let parts = split_chars(s, ':');
        if parts.len() == 2 {
            assert(parts@[0]@ == views(parts@)[0] && parts@[1]@ == views(parts@)[1]);
            port_chars_ok(parts[1].as_slice()) && parts[0].len() > 0
        } else {
            false
        }
    } else {
        hostname_chars_ok(s)
    }
}

fn same_text(a: &str, b: &str) -> (r: bool)
    ensures
        r == (a@ == b@),
{
    let x = chars_of(a);
    let y = chars_of(b);
    chars_equal(x.as_slice(), y.as_slice())
}

impl Config {
    /// The default settings.
    pub fn new() -> (r: Config)
        ensures
            r.host@ == "seed.kaspa.org"@,
            r.nameserver@ == "ns1.kaspa.org"@,
            r.listen@ == "127.0.0.1:5354"@,
            r.grpc_listen@ == "127.0.0.1:3737"@,
            r.app_dir@ == "./data"@,
            r.seeder.is_none(),
            r.known_peers.is_none(),
            r.threads == 8,
            r.min_proto_ver == 0,
            r.min_ua_ver.is_none(),
            !r.testnet,
            r.net_suffix == 0,
            r.log_level@ == "info"@,
            !r.nologfiles,
            r.error_log_file is Some && r.error_log_file->0@ == "logs/kaseeder_error.log"@,
            r.profile.is_none(),
    {
        Config {
            host: text("seed.kaspa.org"),
            nameserver: text("ns1.kaspa.org"),
            listen: text("127.0.0.1:5354"),
            grpc_listen: text("127.0.0.1:3737"),
            app_dir: text("./data"),
            seeder: None,
            known_peers: None,
            threads: 8,
            min_proto_ver: 0,
            min_ua_ver: None,
            testnet: false,
            net_suffix: 0,
            log_level: text("info"),
            nologfiles: false,
            error_log_file: Some(text("logs/kaseeder_error.log")),
            profile: None,
        }
    }

    /// Checks a socket address: an IPv4 address and a port, or an IPv6 address
    /// in brackets and a port.
    pub fn validate_socket_addr(&self, addr: &str, field: &str) -> (r: Result<()>)
        ensures
            r.is_ok() == socket_addr_ok(addr@),
            r matches Err(e) ==> e is InvalidConfigValue,
    {
        let cs = chars_of(addr);
        if socket_chars_ok(cs.as_slice()) {
            Ok(())
        } else {
            Err(invalid(field, addr, "valid socket address (IP:port)"))
        }
    }

    /// Checks an address: an IP address, a socket address, `host:port`, or a
    /// host name.
    pub fn validate_address(&self, addr: &str, field: &str) -> (r: Result<()>)
        ensures
            r.is_ok() == address_ok(addr@),
            r matches Err(e) ==> e is InvalidConfigValue,
    {
        let cs = chars_of(addr);
        if address_chars_ok(cs.as_slice()) {
            Ok(())
        } else {
            Err(invalid(field, addr, "valid IP address, socket address or hostname"))
        }
    }

    /// Checks a port number: a `u16` other than zero.
    pub fn validate_port(&self, port: &str, field: &str) -> (r: Result<()>)
        ensures
            r.is_ok() == port_ok(port@),
            r matches Err(e) ==> e is InvalidConfigValue,
    {
        let cs = chars_of(port);
        if port_chars_ok(cs.as_slice()) {
            Ok(())
        } else {
            Err(invalid(field, port, "valid port number (1-65535)"))
        }
    }

    /// Checks the profiling port: a `u16` of at least 1024.
    pub fn validate_profile_port(&self, port: &str, field: &str) -> (r: Result<()>)
        ensures
            r.is_ok() == profile_port_ok(port@),
            r matches Err(e) ==> e is InvalidConfigValue,
    {
        let cs = chars_of(port);
        match parse_unsigned_chars(cs.as_slice(), 65535) {
            Some(v) => {
                if v >= 1024 {
                    Ok(())
                } else {
                    Err(invalid(field, port, "port number between 1024 and 65535"))
                }
            },
            None => Err(invalid(field, port, "valid port number (1024-65535)")),
        }
    }

    /// Checks a log level: trace, debug, info, warn or error, in any case.
    pub fn validate_log_level(&self, level: &str) -> (r: Result<()>)
        ensures
            r.is_ok() == log_level_ok(level@),
            r matches Err(e) ==> e is InvalidConfigValue,
    {
        let l = lowercase(level);
        let ls = l.as_str();
        proof {
            reveal_strlit("trace");
            reveal_strlit("debug");
            reveal_strlit("info");
            reveal_strlit("warn");
            reveal_strlit("error");
        }
        if same_text(ls, "trace") || same_text(ls, "debug") || same_text(ls, "info") || same_text(
            ls,
            "warn",
        ) || same_text(ls, "error") {
            Ok(())
        } else {
            Err(invalid("log_level", level, "one of: trace, debug, info, warn, error"))
        }
    }

    /// Checks a comma-separated peer list: each entry, trimmed, is empty or an
    /// address.
    pub fn validate_peer_list(&self, peers: &str) -> (r: Result<()>)
        ensures
            r.is_ok() == peer_list_ok(peers@),
            r matches Err(e) ==> e is InvalidConfigValue,
    {
        let cs = chars_of(peers);
        let entries = split_chars(cs.as_slice(), ',');
        let mut i: usize = 0;
        while i < entries.len()
            invariant
                i <= entries@.len(),
                views(entries@) == split_spec(peers@, ','),
                forall|k: int|
                    0 <= k < i ==> trimmed(#[trigger] split_spec(peers@, ',')[k]).len() == 0
                        || address_ok(trimmed(split_spec(peers@, ',')[k])),
            decreases entries@.len() - i,
        {
            assert(entries@[i as int]@ == split_spec(peers@, ',')[i as int]);
            let t = trim_chars(entries[i].as_slice());
            if t.len() > 0 && !address_chars_ok(t.as_slice()) {
                return Err(invalid("known_peers", peers, "comma-separated addresses"));
            }
            i = i + 1;
        }
        Ok(())
    }

    /// Checks all settings. Whether `app_dir` names a directory is a question
    /// for the file system, asked where the settings are loaded.
    pub fn validate(&self) -> (r: Result<()>)
        ensures
            r.is_ok() == config_ok(*self),
            r matches Err(e) ==> e is InvalidConfigValue,
    {
        if self.host.as_str().unicode_len() == 0 {
            return Err(invalid("host", self.host.as_str(), "non-empty hostname"));
        }
        if self.nameserver.as_str().unicode_len() == 0 {
            return Err(invalid("nameserver", self.nameserver.as_str(), "non-empty nameserver"));
        }
        if self.validate_socket_addr(self.listen.as_str(), "listen").is_err() {
            return Err(invalid("listen", self.listen.as_str(), "valid socket address (IP:port)"));
        }
        if self.validate_socket_addr(self.grpc_listen.as_str(), "grpc_listen").is_err() {
            return Err(
                invalid("grpc_listen", self.grpc_listen.as_str(), "valid socket address (IP:port)"),
            );
        }
        if self.threads == 0 || self.threads > 32 {
            return Err(invalid("threads", "out of range", "1-32"));
        }
        if self.testnet && self.net_suffix != 0 && self.net_suffix != 10 && self.net_suffix != 11 {
            return Err(invalid("net_suffix", "unsupported", "testnet suffix 10 or 11"));
        }
        if self.validate_log_level(self.log_level.as_str()).is_err() {
            return Err(invalid("log_level", self.log_level.as_str(), "a known log level"));
        }
        match &self.seeder {
            Some(s) => {
                if self.validate_address(s.as_str(), "seeder").is_err() {
                    return Err(invalid("seeder", s.as_str(), "valid address"));
                }
            },
            None => {},
        }
        match &self.known_peers {
            Some(p) => {
                if self.validate_peer_list(p.as_str()).is_err() {
                    return Err(invalid("known_peers", p.as_str(), "comma-separated addresses"));
                }
            },
            None => {},
        }
        match &self.profile {
            Some(p) => {
                if self.validate_profile_port(p.as_str(), "profile").is_err() {
                    return Err(invalid("profile", p.as_str(), "port number between 1024 and 65535"));
                }
            },
            None => {},
        }
        Ok(())
    }

    /// The network parameters: testnet ports are 16311 for suffix 11 and 16211
    /// otherwise; the mainnet port is 16111.
    pub fn network_params(&self) -> (r: NetworkParams)
        ensures
            r == (if self.testnet {
                NetworkParams::Testnet {
                    suffix: self.net_suffix,
                    default_port: if self.net_suffix == 11 {
                        16311u16
                    } else {
                        16211u16
                    },
                }
            } else {
                NetworkParams::Mainnet { default_port: 16111 }
            }),
    {
        if self.testnet {
            NetworkParams::Testnet {
                suffix: self.net_suffix,
                default_port: if self.net_suffix == 11 {
                    16311
                } else {
                    16211
                },
            }
        } else {
            NetworkParams::Mainnet { default_port: 16111 }
        }
    }

    /// The port that peers of the configured network listen on.
    pub fn default_port(&self) -> (r: u16)
        ensures
            r == (if !self.testnet {
                16111u16
            } else if self.net_suffix == 11 {
                16311u16
            } else {
                16211u16
            }),
    {
        self.network_params().default_port()
    }

    /// The network's name, which also names the catalog's directory.
    pub fn network_name(&self) -> (r: String)
        ensures
            r@ == (if !self.testnet {
                "kaspa-mainnet"@
            } else if self.net_suffix == 11 {
                "kaspa-testnet-11"@
            } else {
                "kaspa-testnet"@
            }),
    {
        if self.testnet {
            if self.net_suffix == 11 {
                text("kaspa-testnet-11")
            } else {
                text("kaspa-testnet")
            }
        } else {
            text("kaspa-mainnet")
        }
    }
}

/// The settings `c` with the command-line values given in `o` in place of its own.
pub open spec fn with_overrides(c: Config, o: CliOverrides) -> Config {
    Config {
        host: pick(o.host, c.host),
        nameserver: pick(o.nameserver, c.nameserver),
        listen: pick(o.listen, c.listen),
        grpc_listen: pick(o.grpc_listen, c.grpc_listen),
        app_dir: pick(o.app_dir, c.app_dir),
        seeder: pick_opt(o.seeder, c.seeder),
        known_peers: pick_opt(o.known_peers, c.known_peers),
        threads: pick(o.threads, c.threads),
        min_proto_ver: pick(o.min_proto_ver, c.min_proto_ver),
        min_ua_ver: pick_opt(o.min_ua_ver, c.min_ua_ver),
        testnet: pick(o.testnet, c.testnet),
        net_suffix: pick(o.net_suffix, c.net_suffix),
        log_level: pick(o.log_level, c.log_level),
        nologfiles: pick(o.nologfiles, c.nologfiles),
        error_log_file: c.error_log_file,
        profile: pick_opt(o.profile, c.profile),
    }
}

/// The settings `c` with the values of a configuration file in place of its
/// own; `seeder` and `known_peers` fall back on their other names.
pub open spec fn with_file(c: Config, f: ConfigFile) -> Config {
    Config {
        host: pick(f.host, c.host),
        nameserver: pick(f.nameserver, c.nameserver),
        listen: pick(f.listen, c.listen),
        grpc_listen: pick(f.grpc_listen, c.grpc_listen),
        app_dir: pick(f.app_dir, c.app_dir),
        seeder: pick_opt(pick_opt(f.seeder, f.default_seeder), c.seeder),
        known_peers: pick_opt(pick_opt(f.known_peers, f.peers), c.known_peers),
        threads: pick(f.threads, c.threads),
        min_proto_ver: pick(f.min_proto_ver, c.min_proto_ver),
        min_ua_ver: pick_opt(f.min_ua_ver, c.min_ua_ver),
        testnet: pick(f.testnet, c.testnet),
        net_suffix: pick(f.net_suffix, c.net_suffix),
        log_level: pick(f.log_level, c.log_level),
        nologfiles: pick(f.nologfiles, c.nologfiles),
        error_log_file: pick_opt(f.error_log_file, c.error_log_file),
        profile: pick_opt(f.profile, c.profile),
    }
}

/// Whether `c` holds the default settings.
pub open spec fn is_default(c: Config) -> bool {
    &&& c.host@ == "seed.kaspa.org"@
    &&& c.nameserver@ == "ns1.kaspa.org"@
    &&& c.listen@ == "127.0.0.1:5354"@
    &&& c.grpc_listen@ == "127.0.0.1:3737"@
    &&& c.app_dir@ == "./data"@
    &&& c.seeder.is_none()
    &&& c.known_peers.is_none()
    &&& c.threads == 8
    &&& c.min_proto_ver == 0
    &&& c.min_ua_ver.is_none()
    &&& !c.testnet
    &&& c.net_suffix == 0
    &&& c.log_level@ == "info"@
    &&& !c.nologfiles
    &&& c.error_log_file is Some && c.error_log_file->0@ == "logs/kaseeder_error.log"@
    &&& c.profile.is_none()
}

fn take_or<T>(o: Option<T>, d: T) -> (r: T)
    ensures
        r == pick(o, d),
{
    match o {
        Some(v) => v,
        None => d,
    }
}

fn take_or_opt<T>(o: Option<T>, d: Option<T>) -> (r: Option<T>)
    ensures
        r == pick_opt(o, d),
{
    match o {
        Some(v) => Some(v),
        None => d,
    }
}

impl Config {
    /// These settings with the command-line values in place, if the result
    /// is valid.
    pub fn with_cli_overrides(self, overrides: CliOverrides) -> (r: Result<Config>)
        ensures
            r.is_ok() == config_ok(with_overrides(self, overrides)),
            r matches Ok(c) ==> c == with_overrides(self, overrides),
            r matches Err(e) ==> e is InvalidConfigValue,
    {
        let o = overrides;
        let c = Config {
            host: take_or(o.host, self.host),
            nameserver: take_or(o.nameserver, self.nameserver),
            listen: take_or(o.listen, self.listen),
            grpc_listen: take_or(o.grpc_listen, self.grpc_listen),
            app_dir: take_or(o.app_dir, self.app_dir),
            seeder: take_or_opt(o.seeder, self.seeder),
            known_peers: take_or_opt(o.known_peers, self.known_peers),
            threads: take_or(o.threads, self.threads),
            min_proto_ver: take_or(o.min_proto_ver, self.min_proto_ver),
            min_ua_ver: take_or_opt(o.min_ua_ver, self.min_ua_ver),
            testnet: take_or(o.testnet, self.testnet),
            net_suffix: take_or(o.net_suffix, self.net_suffix),
            log_level: take_or(o.log_level, self.log_level),
            nologfiles: take_or(o.nologfiles, self.nologfiles),
            error_log_file: self.error_log_file,
            profile: take_or_opt(o.profile, self.profile),
        };
        match c.validate() {
            Ok(()) => Ok(c),
            Err(e) => Err(e),
        }
    }

    /// Settings from the values of a configuration file over the defaults, if
    /// the result is valid.
    pub fn load_from_file(file: ConfigFile) -> (r: Result<Config>)
        ensures
            exists|d: Config|
                is_default(d) && (r.is_ok() == config_ok(with_file(d, file))) && (r matches Ok(c)
                    ==> c == with_file(d, file)),
            r matches Err(e) ==> e is InvalidConfigValue,
    {
        let d = Config::new();
        let ghost dg = d;
        let f = file;
        let ghost fg = f;
        let c = Config {
            host: take_or(f.host, d.host),
            nameserver: take_or(f.nameserver, d.nameserver),
            listen: take_or(f.listen, d.listen),
            grpc_listen: take_or(f.grpc_listen, d.grpc_listen),
            app_dir: take_or(f.app_dir, d.app_dir),
            seeder: take_or_opt(take_or_opt(f.seeder, f.default_seeder), d.seeder),
            known_peers: take_or_opt(take_or_opt(f.known_peers, f.peers), d.known_peers),
            threads: take_or(f.threads, d.threads),
            min_proto_ver: take_or(f.min_proto_ver, d.min_proto_ver),
            min_ua_ver: take_or_opt(f.min_ua_ver, d.min_ua_ver),
            testnet: take_or(f.testnet, d.testnet),
            net_suffix: take_or(f.net_suffix, d.net_suffix),
            log_level: take_or(f.log_level, d.log_level),
            nologfiles: take_or(f.nologfiles, d.nologfiles),
            error_log_file: take_or_opt(f.error_log_file, d.error_log_file),
            profile: take_or_opt(f.profile, d.profile),
        };
        assert(c == with_file(dg, fg));
        assert(is_default(dg));
        let r = match c.validate() {
            Ok(()) => Ok(c),
            Err(e) => Err(e),
        };
        assert(is_default(dg) && (r.is_ok() == config_ok(with_file(dg, fg))) && (r matches Ok(c)
            ==> c == with_file(dg, fg)));
        r
    }
}

} // verus!
