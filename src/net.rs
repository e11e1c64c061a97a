//! Network addresses and the routability oracle.
use vstd::prelude::*;
use crate::text::{
    chars_of, decimal_text, hex_text, parse_unsigned, parse_unsigned_chars, push_decimal,
    push_hex, split_chars, split_spec, string_from_chars, views,
};

verus! {

/// An IP address: four octets, or eight 16-bit segments.
#[derive(Clone, Copy, Debug, PartialEq, Eq, Hash, Structural)]
pub enum IpAddress {
    V4(u8, u8, u8, u8),
    V6(u16, u16, u16, u16, u16, u16, u16, u16),
}

/// An address of a peer: an IP address and a port.
#[derive(Clone, Copy, Debug, PartialEq, Eq, Hash, Structural)]
pub struct NetAddress {
    pub ip: IpAddress,
    pub port: u16,
}

impl IpAddress {
    pub open spec fn is_v4(self) -> bool {
        self is V4
    }

    /// Whether this is an IPv4 address.
    pub fn is_ipv4(&self) -> (r: bool)
        ensures
            r == self.is_v4(),
    {
        match self {
            IpAddress::V4(..) => true,
            IpAddress::V6(..) => false,
        }
    }
}

/// IPv4 ranges that are not publicly routable.
pub open spec fn ipv4_reserved(a: u8, b: u8, c: u8, d: u8) -> bool {
    // private networks
    a == 10 || (a == 172 && 16 <= b <= 31) || (a == 192 && b == 168)
    // loopback
    || a == 127
    // unspecified
    || (a == 0 && b == 0 && c == 0 && d == 0)
    // link-local
    || (a == 169 && b == 254)
    // multicast
    || (224 <= a <= 239)
    // broadcast
    || (a == 255 && b == 255 && c == 255 && d == 255)
    // documentation: TEST-NET-1, TEST-NET-2, TEST-NET-3
    || (a == 192 && b == 0 && c == 2) || (a == 198 && b == 51 && c == 100) || (a == 203 && b == 0
        && c == 113)
    // benchmarking, 198.18.0.0/15
    || (a == 198 && 18 <= b <= 19)
}

/// IPv6 ranges that are not publicly routable.
pub open spec fn ipv6_reserved(s0: u16, s1: u16, s2: u16, s3: u16, s4: u16, s5: u16, s6: u16, s7: u16) -> bool {
    let zero_head = s0 == 0 && s1 == 0 && s2 == 0 && s3 == 0 && s4 == 0 && s5 == 0 && s6 == 0;
    // loopback and unspecified
    (zero_head && (s7 == 0 || s7 == 1))
    // multicast, ff00::/8
    || s0 >= 0xff00
    // unique local, fc00::/7
    || (0xfc00 <= s0 <= 0xfdff)
    // link-local, fe80::/10
    || (0xfe80 <= s0 <= 0xfebf)
    // documentation, 2001:db8::/32
    || (s0 == 0x2001 && s1 == 0x0db8)
    // benchmarking, 2001:2::/48
    || (s0 == 0x2001 && s1 == 0x0002 && s2 == 0)
}

/// Whether an address is publicly routable: a non-zero port and an IP address
/// outside every reserved range.
pub open spec fn routable(a: NetAddress) -> bool {
    a.port != 0 && match a.ip {
        IpAddress::V4(x, y, z, w) => !ipv4_reserved(x, y, z, w),
        IpAddress::V6(s0, s1, s2, s3, s4, s5, s6, s7) => !ipv6_reserved(
            s0,
            s1,
            s2,
            s3,
            s4,
            s5,
            s6,
            s7,
        ),
    }
}

/// Classifies `address` as publicly routable or not.
pub fn is_routable(address: &NetAddress) -> (r: bool)
    ensures
        r == routable(*address),
{
    if address.port == 0 {
        return false;
    }
    match address.ip {
        IpAddress::V4(a, b, c, d) => {
            let private = a == 10 || (a == 172 && 16 <= b && b <= 31) || (a == 192 && b == 168);
            let loopback = a == 127;
            let unspecified = a == 0 && b == 0 && c == 0 && d == 0;
            let link_local = a == 169 && b == 254;
            let multicast = 224 <= a && a <= 239;
            let broadcast = a == 255 && b == 255 && c == 255 && d == 255;
            let documentation = (a == 192 && b == 0 && c == 2) || (a == 198 && b == 51 && c == 100)
                || (a == 203 && b == 0 && c == 113);
            let benchmarking = a == 198 && 18 <= b && b <= 19;
            !(private || loopback || unspecified || link_local || multicast || broadcast
                || documentation || benchmarking)
        },
        IpAddress::V6(s0, s1, s2, s3, s4, s5, s6, s7) => {
            let zero_head = s0 == 0 && s1 == 0 && s2 == 0 && s3 == 0 && s4 == 0 && s5 == 0 && s6
                == 0;
            let loopback_or_unspecified = zero_head && (s7 == 0 || s7 == 1);
            let multicast = s0 >= 0xff00;
            let unique_local = 0xfc00 <= s0 && s0 <= 0xfdff;
            let link_local = 0xfe80 <= s0 && s0 <= 0xfebf;
            let documentation = s0 == 0x2001 && s1 == 0x0db8;
            let benchmarking = s0 == 0x2001 && s1 == 0x0002 && s2 == 0;
            !(loopback_or_unspecified || multicast || unique_local || link_local || documentation
                || benchmarking)
        },
    }
}

/// Text of an IPv4 address in dotted-quad form.
pub open spec fn ipv4_text(a: u8, b: u8, c: u8, d: u8) -> Seq<char> {
    decimal_text(a as nat) + seq!['.'] + decimal_text(b as nat) + seq!['.'] + decimal_text(
        c as nat,
    ) + seq!['.'] + decimal_text(d as nat)
}

/// Hexadecimal groups of the segments, separated by colons.
pub open spec fn hex_groups(segs: Seq<u16>) -> Seq<char>
    decreases segs.len(),
{
    if segs.len() == 0 {
        Seq::empty()
    } else if segs.len() == 1 {
        hex_text(segs[0] as nat)
    } else {
        hex_groups(segs.drop_last()) + seq![':'] + hex_text(segs.last() as nat)
    }
}

/// The number of zero segments from position `i` on, up to the first non-zero one.
pub open spec fn zero_run(segs: Seq<u16>, i: int) -> nat
    decreases segs.len() - i,
{
    if i < 0 || i >= segs.len() || segs[i] != 0 {
        0
    } else {
        1 + zero_run(segs, i + 1)
    }
}

/// Start and length of the first longest run of zero segments from position
/// `i` on; length zero when there is none.
pub open spec fn longest_zero_run(segs: Seq<u16>, i: int) -> (int, nat)
    decreases segs.len() - i,
{
    if i < 0 || i >= segs.len() {
        (0, 0)
    } else {
        let rest = longest_zero_run(segs, i + 1);
        if zero_run(segs, i) > 0 && zero_run(segs, i) >= rest.1 {
            (i, zero_run(segs, i))
        } else {
            rest
        }
    }
}

/// Text of an IPv6 address: hexadecimal groups separated by colons, the first
/// longest run of two or more zero groups written `::`; an IPv4-mapped address
/// is `::ffff:` and the dotted quad.
pub open spec fn ipv6_text(segs: Seq<u16>) -> Seq<char> {
    if segs[0] == 0 && segs[1] == 0 && segs[2] == 0 && segs[3] == 0 && segs[4] == 0 && segs[5]
        == 0xffff {
        "::ffff:"@ + ipv4_text(
            (segs[6] / 256) as u8,
            (segs[6] % 256) as u8,
            (segs[7] / 256) as u8,
            (segs[7] % 256) as u8,
        )
    } else {
        let (start, len) = longest_zero_run(segs, 0);
        if len > 1 {
            hex_groups(segs.take(start)) + "::"@ + hex_groups(segs.skip(start + len))
        } else {
            hex_groups(segs)
        }
    }
}

pub open spec fn ip_text(ip: IpAddress) -> Seq<char> {
    match ip {
        IpAddress::V4(a, b, c, d) => ipv4_text(a, b, c, d),
        IpAddress::V6(s0, s1, s2, s3, s4, s5, s6, s7) => ipv6_text(
            seq![s0, s1, s2, s3, s4, s5, s6, s7],
        ),
    }
}

/// The catalog key of an address: `ip:port`.
pub open spec fn key_text(a: NetAddress) -> Seq<char> {
    ip_text(a.ip) + seq![':'] + decimal_text(a.port as nat)
}

fn push_ip(out: &mut Vec<char>, ip: &IpAddress)
    ensures
        final(out)@ == old(out)@ + ip_text(*ip),
{
    match *ip {
        IpAddress::V4(a, b, c, d) => {
            push_decimal(out, a as u64);
            out.push('.');
            push_decimal(out, b as u64);
            out.push('.');
            push_decimal(out, c as u64);
            out.push('.');
            push_decimal(out, d as u64);
            assert(out@ =~= old(out)@ + ip_text(*ip));
        },
        IpAddress::V6(s0, s1, s2, s3, s4, s5, s6, s7) => {
            let ghost all = seq![s0, s1, s2, s3, s4, s5, s6, s7];
            let segs: [u16; 8] = [s0, s1, s2, s3, s4, s5, s6, s7];
            assert(segs@ =~= all);
            if s0 == 0 && s1 == 0 && s2 == 0 && s3 == 0 && s4 == 0 && s5 == 0xffff {
                crate::text::push_str(out, "::ffff:");
                proof {
                    reveal_strlit("::ffff:");
                }
                let ghost mid = out@;
                push_decimal(out, (s6 / 256) as u64);
                out.push('.');
                push_decimal(out, (s6 % 256) as u64);
                out.push('.');
                push_decimal(out, (s7 / 256) as u64);
                out.push('.');
                push_decimal(out, (s7 % 256) as u64);
                assert(out@ =~= old(out)@ + ip_text(*ip));
            } else {
                let (start, len) = longest_run(&segs);
                if len > 1 {
                    push_groups(out, &segs, 0, start);
                    out.push(':');
                    out.push(':');
                    let ghost mid = out@;
                    push_groups(out, &segs, start + len, 8);
                    proof {
                        reveal_strlit("::");
                        assert(all.subrange(0, start as int) =~= all.take(start as int));
                        assert(all.subrange(start + len, 8) =~= all.skip(start + len));
                    }
                    assert(out@ =~= old(out)@ + ip_text(*ip));
                } else {
                    push_groups(out, &segs, 0, 8);
                    assert(all.subrange(0, 8) =~= all);
                    assert(out@ =~= old(out)@ + ip_text(*ip));
                }
            }
        },
    }
}

/// Start and length of the first longest run of zero segments.
fn longest_run(segs: &[u16; 8]) -> (r: (usize, usize))
    ensures
        r.0 as int == longest_zero_run(segs@, 0).0,
        r.1 as nat == longest_zero_run(segs@, 0).1,
        r.0 + r.1 <= 8,
{
    let mut i: usize = 8;
    let mut run: usize = 0;
    let mut best: (usize, usize) = (0, 0);
    while i > 0
        invariant
            segs@.len() == 8,
            i <= 8,
            run as nat == zero_run(segs@, i as int),
            i + run <= 8,
            best.0 as int == longest_zero_run(segs@, i as int).0,
            best.1 as nat == longest_zero_run(segs@, i as int).1,
            best.0 + best.1 <= 8,
            best.1 > 0 ==> best.0 >= i,
        decreases i,
    {
        i = i - 1;
        if segs[i] == 0 {
            run = run + 1;
        } else {
            run = 0;
        }
        if run > 0 && run >= best.1 {
            best = (i, run);
        }
    }
    best
}

/// Appends the hexadecimal groups of `segs` from `from` up to `to`, separated by colons.
fn push_groups(out: &mut Vec<char>, segs: &[u16; 8], from: usize, to: usize)
    requires
        from <= to <= 8,
    ensures
        final(out)@ == old(out)@ + hex_groups(segs@.subrange(from as int, to as int)),
{
    let mut i: usize = from;
    while i < to
        invariant
            from <= i <= to <= 8,
            segs@.len() == 8,
            out@ == old(out)@ + hex_groups(segs@.subrange(from as int, i as int)),
        decreases to - i,
    {
        if i > from {
            out.push(':');
        }
        push_hex(out, segs[i] as u64);
        proof {
            let t = segs@.subrange(from as int, i as int + 1);
            assert(t.drop_last() =~= segs@.subrange(from as int, i as int));
            assert(out@ =~= old(out)@ + hex_groups(t));
        }
        i = i + 1;
    }
}

impl NetAddress {
    pub fn new(ip: IpAddress, port: u16) -> (r: NetAddress)
        ensures
            r.ip == ip,
            r.port == port,
    {
        NetAddress { ip, port }
    }

    /// The text `ip:port`.
    pub fn to_string(&self) -> (r: String)
        ensures
            r@ == key_text(*self),
    {
        let mut out: Vec<char> = Vec::new();
        push_ip(&mut out, &self.ip);
        out.push(':');
        push_decimal(&mut out, self.port as u64);
        assert(out@ =~= key_text(*self));
        string_from_chars(&out)
    }

    /// Whether `last_seen` lies less than `threshold` seconds before `now`.
    pub fn is_recently_seen(&self, now: u64, last_seen: u64, threshold: u64) -> (r: bool)
        ensures
            r == (last_seen <= now && now - last_seen < threshold),
    {
        last_seen <= now && now - last_seen < threshold
    }

    /// Whether a peer with these counts is good: it has succeeded, and been tried
    /// fewer than ten times.
    pub fn is_good(&self, attempts: u32, successes: u32) -> (r: bool)
        ensures
            r == (successes > 0 && attempts < 10),
    {
        successes > 0 && attempts < 10
    }

    /// Whether a retry is due: never attempted, or at least `min_interval` seconds
    /// since the last attempt. An attempt dated after `now` gives no elapsed time
    /// to measure, and a retry is allowed.
    pub fn should_retry(&self, now: u64, last_attempt: Option<u64>, min_interval: u64) -> (r: bool)
        ensures
            r == match last_attempt {
                None => true,
                Some(t) => t > now || now - t >= min_interval,
            },
    {
        match last_attempt {
            None => true,
            Some(t) => {
                if t <= now {
                    now - t >= min_interval
                } else {
                    true
                }
            },
        }
    }
}

/// A part of dotted-quad text: decimal digits without a sign or a leading zero.
pub open spec fn octet_text_ok(p: Seq<char>) -> bool {
    p.len() > 0 && p[0] != '+' && (p.len() == 1 || p[0] != '0')
}

/// The IPv4 address that dotted-quad text denotes: four decimal parts, each
/// between 0 and 255, without leading zeros.
pub open spec fn ipv4_of_text(s: Seq<char>) -> Option<IpAddress> {
    let parts = split_spec(s, '.');
    if parts.len() == 4 && parse_unsigned(parts[0], 255) is Some && parse_unsigned(parts[1], 255) is Some
        && parse_unsigned(parts[2], 255) is Some && parse_unsigned(parts[3], 255) is Some
        && (forall|i: int| 0 <= i < 4 ==> octet_text_ok(#[trigger] parts[i])) {
        Some(
            IpAddress::V4(
                parse_unsigned(parts[0], 255)->0 as u8,
                parse_unsigned(parts[1], 255)->0 as u8,
                parse_unsigned(parts[2], 255)->0 as u8,
                parse_unsigned(parts[3], 255)->0 as u8,
            ),
        )
    } else {
        None
    }
}

/// Parses dotted-quad IPv4 text.
pub fn parse_ipv4(s: &[char]) -> (r: Option<IpAddress>)
    ensures
        r == ipv4_of_text(s@),
{
    let parts = split_chars(s, '.');
    if parts.len() != 4 {
        return None;
    }
    let mut vals: Vec<u8> = Vec::new();
    let mut i: usize = 0;
    while i < 4
        invariant
            i <= 4,
            parts@.len() == 4,
            views(parts@) == split_spec(s@, '.'),
            vals@.len() == i,
            forall|j: int|
                0 <= j < i ==> parse_unsigned(#[trigger] views(parts@)[j], 255) is Some
                    && octet_text_ok(views(parts@)[j])
                    && vals@[j] == parse_unsigned(views(parts@)[j], 255)->0 as u8,
        decreases 4 - i,
    {
        let part = &parts[i];
        assert(part@ == views(parts@)[i as int]);
        if part.len() == 0 || part[0] == '+' || (part.len() > 1 && part[0] == '0') {
            return None;
        }
        match parse_unsigned_chars(part.as_slice(), 255) {
            None => {
                return None;
            },
            Some(v) => {
                vals.push(v as u8);
            },
        }
        i = i + 1;
    }
    let ghost ps = split_spec(s@, '.');
    assert(forall|j: int| 0 <= j < 4 ==> octet_text_ok(#[trigger] ps[j]));
    Some(IpAddress::V4(vals[0], vals[1], vals[2], vals[3]))
}

pub open spec fn is_hex_digit(c: char) -> bool {
    ('0' <= c && c <= '9') || ('a' <= c && c <= 'f') || ('A' <= c && c <= 'F')
}

/// A group of IPv6 text: one to four hexadecimal digits.
pub open spec fn hex_group_ok(p: Seq<char>) -> bool {
    1 <= p.len() <= 4 && forall|i: int| 0 <= i < p.len() ==> is_hex_digit(#[trigger] p[i])
}

/// The number of colon-separated groups of `p`, when all are well formed; the
/// empty text has none.
pub open spec fn group_count(p: Seq<char>) -> Option<nat> {
    if p.len() == 0 {
        Some(0)
    } else if forall|i: int|
        0 <= i < split_spec(p, ':').len() ==> hex_group_ok(#[trigger] split_spec(p, ':')[i]) {
        Some(split_spec(p, ':').len())
    } else {
        None
    }
}

/// Whether `::` starts at position `i`.
pub open spec fn double_colon_at(s: Seq<char>, i: int) -> bool {
    0 <= i && i + 1 < s.len() && s[i] == ':' && s[i + 1] == ':'
}

/// Whether the first `::` starts at position `i`.
pub open spec fn first_double_colon(s: Seq<char>, i: int) -> bool {
    double_colon_at(s, i) && forall|j: int| 0 <= j < i ==> !double_colon_at(s, j)
}

/// IPv6 text: eight groups of hexadecimal digits separated by colons, or
/// fewer around one `::` that stands for the missing zero groups.
pub open spec fn ipv6_text_ok(s: Seq<char>) -> bool {
    if exists|i: int| double_colon_at(s, i) {
        let i = choose|i: int| first_double_colon(s, i);
        group_count(s.take(i)) is Some && group_count(s.skip(i + 2)) is Some && group_count(
            s.take(i),
        )->0 + group_count(s.skip(i + 2))->0 <= 7
    } else {
        group_count(s) == Some(8nat)
    }
}

fn hex_digit_exec(c: char) -> (r: bool)
    ensures
        r == is_hex_digit(c),
{
    ('0' <= c && c <= '9') || ('a' <= c && c <= 'f') || ('A' <= c && c <= 'F')
}

fn group_count_exec(p: &[char]) -> (r: Option<usize>)
    ensures
        match group_count(p@) {
            Some(n) => r is Some && r->0 as nat == n,
            None => r.is_none(),
        },
{
    if p.len() == 0 {
        return Some(0);
    }
    let parts = split_chars(p, ':');
    let mut i: usize = 0;
    while i < parts.len()
        invariant
            i <= parts@.len(),
            views(parts@) == split_spec(p@, ':'),
            split_spec(p@, ':').len() == parts@.len(),
            p@.len() > 0,
            forall|k: int| 0 <= k < i ==> hex_group_ok(#[trigger] split_spec(p@, ':')[k]),
        decreases parts@.len() - i,
    {
        let g = parts[i].as_slice();
        assert(g@ == split_spec(p@, ':')[i as int]);
        if g.len() < 1 || g.len() > 4 {
            assert(!hex_group_ok(split_spec(p@, ':')[i as int]));
            return None;
        }
        let mut j: usize = 0;
        while j < g.len()
            invariant
                j <= g@.len(),
                i < parts@.len(),
                split_spec(p@, ':').len() == parts@.len(),
                p@.len() > 0,
                g@ == split_spec(p@, ':')[i as int],
                views(parts@) == split_spec(p@, ':'),
                forall|k: int| 0 <= k < i ==> hex_group_ok(#[trigger] split_spec(p@, ':')[k]),
                forall|k: int| 0 <= k < j ==> is_hex_digit(#[trigger] g@[k]),
            decreases g@.len() - j,
        {
            if !hex_digit_exec(g[j]) {
                assert(!hex_group_ok(split_spec(p@, ':')[i as int]));
                return None;
            }
            j = j + 1;
        }
        assert(hex_group_ok(split_spec(p@, ':')[i as int]));
        i = i + 1;
    }
    assert(views(parts@).len() == parts@.len());
    Some(parts.len())
}

/// Whether `s` is IPv6 text.
pub fn ipv6_ok(s: &[char]) -> (r: bool)
    ensures
        r == ipv6_text_ok(s@),
{
    let mut i: usize = 0;
    let mut found = false;
    while i < s.len() && i + 1 < s.len() && !found
        invariant
            i <= s@.len(),
            found ==> first_double_colon(s@, i as int),
            !found ==> forall|j: int| 0 <= j < i ==> !double_colon_at(s@, j),
        decreases s@.len() - i + if found { 0int } else { 1int },
    {
        if s[i] == ':' && s[i + 1] == ':' {
            found = true;
        } else {
            i = i + 1;
        }
    }
    if found {
        proof {
            assert(exists|j: int| double_colon_at(s@, j));
            assert(exists|j: int| first_double_colon(s@, j));
            let k = choose|k: int| first_double_colon(s@, k);
            assert(first_double_colon(s@, i as int));
            if k < i {
                assert(!double_colon_at(s@, k));
            } else if k > i {
                assert(!double_colon_at(s@, i as int));
            }
        }
        let left = crate::text::slice_chars(s, 0, i);
        let right = crate::text::slice_chars(s, i + 2, s.len());
        assert(left@ =~= s@.take(i as int));
        assert(right@ =~= s@.skip(i as int + 2));
        let ghost k = choose|k: int| first_double_colon(s@, k);
        assert(k == i as int);
        let gl = group_count_exec(left.as_slice());
        let gr = group_count_exec(right.as_slice());
        match (gl, gr) {
            (Some(a), Some(b)) => a <= 7 && b <= 7 - a,
            _ => false,
        }
    } else {
        assert forall|j: int| !double_colon_at(s@, j) by {
            if 0 <= j < i {
            }
        }
        match group_count_exec(s) {
            Some(n) => n == 8,
            None => false,
        }
    }
}

} // verus!
