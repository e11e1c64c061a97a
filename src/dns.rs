//! The DNS responder's decisions: which queries it answers, and with what.
//! Reading and writing the wire format happens around these functions.
use vstd::prelude::*;
use crate::manager::{good_selection, lists, opt_str_view, AddressManager, Node, QTYPE_A, QTYPE_AAAA};
use crate::net::{IpAddress, NetAddress};
use crate::text::chars_of;

verus! {

/// Most address records in one answer.
pub const DNS_ANSWER_CAP: usize = 8;

/// Time to live of address records, in seconds.
pub const A_TTL: u32 = 30;

/// Time to live of the name-server record, in seconds.
pub const NS_TTL: u32 = 86400;

/// DNS query type of a name-server record.
pub const QTYPE_NS: u16 = 2;

/// DNS class of the Internet.
pub const CLASS_IN: u16 = 1;

/// Response code of an answered query.
pub const RCODE_NO_ERROR: u16 = 0;

/// Response code of a query that the server cannot answer.
pub const RCODE_SERVFAIL: u16 = 2;

/// Operation code of a standard query.
pub const OPCODE_QUERY: u8 = 0;

/// The address of the AAAA record sent when no IPv6 node is good: `0100::`.
pub open spec fn ipv6_placeholder() -> IpAddress {
    IpAddress::V6(0x100, 0, 0, 0, 0, 0, 0, 0)
}

/// Type of a DNS record.
#[derive(Clone, Copy, Debug, PartialEq, Eq, Structural)]
pub enum DnsRecordType {
    A,
    AAAA,
    TXT,
}

impl DnsRecordType {
    /// The record type's number on the wire.
    pub fn to_u16(&self) -> (r: u16)
        ensures
            r == match *self {
                DnsRecordType::A => 1u16,
                DnsRecordType::AAAA => 28u16,
                DnsRecordType::TXT => 16u16,
            },
    {
        match self {
            DnsRecordType::A => 1,
            DnsRecordType::AAAA => 28,
            DnsRecordType::TXT => 16,
        }
    }
}

/// A DNS record in text form.
pub struct DnsRecord {
    pub name: String,
    pub record_type: DnsRecordType,
    pub ttl: u32,
    pub data: String,
}

/// The question of a query.
pub struct Question {
    pub name: String,
    pub qtype: u16,
    pub qclass: u16,
}

/// The parts of a DNS message that the responder reads.
pub struct DnsQuery {
    pub id: u16,
    pub is_response: bool,
    pub opcode: u8,
    pub recursion_desired: bool,
    pub questions: Vec<Question>,
}

/// The data of an answer record; its name is the question's.
pub enum RecordData {
    Addr(IpAddress),
    Ns(String),
}

pub struct Answer {
    pub data: RecordData,
    pub ttl: u32,
}

/// The reply to send.
pub struct DnsReply {
    pub id: u16,
    pub authoritative: bool,
    pub recursion_desired: bool,
    pub recursion_available: bool,
    pub rcode: u16,
    pub answers: Vec<Answer>,
}

/// A character's code with ASCII upper case folded to lower case.
pub open spec fn fold(c: char) -> u32 {
    if 'A' <= c && c <= 'Z' {
        (c as u32 + 32) as u32
    } else {
        c as u32
    }
}

/// A name without one trailing dot.
pub open spec fn strip_dot(s: Seq<char>) -> Seq<char> {
    if s.len() > 0 && s.last() == '.' {
        s.drop_last()
    } else {
        s
    }
}

/// Whether two names are the same, ignoring ASCII case and a trailing dot.
pub open spec fn names_match(a: Seq<char>, b: Seq<char>) -> bool {
    strip_dot(a).len() == strip_dot(b).len() && forall|i: int|
        0 <= i < strip_dot(a).len() ==> fold(#[trigger] strip_dot(a)[i]) == fold(strip_dot(b)[i])
}

fn fold_exec(c: char) -> (r: u32)
    ensures
        r == fold(c),
{
    if 'A' <= c && c <= 'Z' {
        c as u32 + 32
    } else {
        c as u32
    }
}

/// Whether `name` is `hostname`, ignoring ASCII case and a trailing dot.
pub fn is_our_domain(name: &str, hostname: &str) -> (r: bool)
    ensures
        r == names_match(name@, hostname@),
{
    let a = chars_of(name);
    let b = chars_of(hostname);
    let la: usize = if a.len() > 0 && a[a.len() - 1] == '.' { a.len() - 1 } else { a.len() };
    let lb: usize = if b.len() > 0 && b[b.len() - 1] == '.' { b.len() - 1 } else { b.len() };
    let ghost x = strip_dot(name@);
    let ghost y = strip_dot(hostname@);
    assert(x =~= a@.subrange(0, la as int));
    assert(y =~= b@.subrange(0, lb as int));
    if la != lb {
        assert(x.len() != y.len());
        return false;
    }
    let mut i: usize = 0;
    while i < la
        invariant
            la == lb,
            la <= a@.len(),
            lb <= b@.len(),
            x == a@.subrange(0, la as int),
            y == b@.subrange(0, lb as int),
            x == strip_dot(name@),
            y == strip_dot(hostname@),
            i <= la,
            forall|k: int| 0 <= k < i ==> fold(#[trigger] x[k]) == fold(y[k]),
        decreases la - i,
    {
        if fold_exec(a[i]) != fold_exec(b[i]) {
            assert(fold(x[i as int]) != fold(y[i as int]));
            return false;
        }
        i = i + 1;
    }
    assert(x.len() == y.len());
    assert(forall|k: int| 0 <= k < x.len() ==> fold(#[trigger] x[k]) == fold(y[k]));
    true
}

/// Address records for `addrs`, at most `DNS_ANSWER_CAP`.
pub open spec fn capped_records(addrs: Seq<NetAddress>) -> Seq<Answer> {
    let s = if addrs.len() <= DNS_ANSWER_CAP {
        addrs
    } else {
        addrs.take(DNS_ANSWER_CAP as int)
    };
    s.map_values(|a: NetAddress| Answer { data: RecordData::Addr(a.ip), ttl: A_TTL })
}

/// The answers to an A or AAAA query, given the good addresses of that family:
/// at most `DNS_ANSWER_CAP` records; for AAAA with no address, one record of
/// the placeholder.
pub open spec fn address_answers(qtype: u16, good: Seq<NetAddress>) -> Seq<Answer> {
    if qtype == QTYPE_AAAA && good.len() == 0 {
        seq![Answer { data: RecordData::Addr(ipv6_placeholder()), ttl: A_TTL }]
    } else {
        capped_records(good)
    }
}

/// Answer records of an A or AAAA query for the good addresses `good`.
pub fn address_records(qtype: u16, good: &Vec<NetAddress>) -> (r: Vec<Answer>)
    ensures
        r@ == address_answers(qtype, good@),
{
    let mut r: Vec<Answer> = Vec::new();
    if qtype == QTYPE_AAAA && good.len() == 0 {
        r.push(Answer { data: RecordData::Addr(IpAddress::V6(0x100, 0, 0, 0, 0, 0, 0, 0)), ttl: A_TTL });
        assert(r@ =~= address_answers(qtype, good@));
        return r;
    }
    let mut i: usize = 0;
    while i < good.len() && i < DNS_ANSWER_CAP
        invariant
            i <= good@.len(),
            i <= DNS_ANSWER_CAP,
            r@ == good@.take(i as int).map_values(
                |a: NetAddress| Answer { data: RecordData::Addr(a.ip), ttl: A_TTL },
            ),
        decreases good@.len() - i,
    {
        r.push(Answer { data: RecordData::Addr(good[i].ip), ttl: A_TTL });
        i = i + 1;
        assert(r@ =~= good@.take(i as int).map_values(
            |a: NetAddress| Answer { data: RecordData::Addr(a.ip), ttl: A_TTL },
        ));
    }
    if good.len() <= DNS_ANSWER_CAP {
        assert(good@.take(i as int) =~= good@);
    }
    r
}

/// Whether the responder answers `q` for `hostname`: a standard query with
/// exactly one question, about `hostname`.
pub open spec fn served(q: DnsQuery, hostname: Seq<char>) -> bool {
    !q.is_response && q.opcode == OPCODE_QUERY && q.questions@.len() == 1 && names_match(
        q.questions@[0].name@,
        hostname,
    )
}

/// The reply to `query` for the zone `hostname`, whose name server is
/// `nameserver`, from the catalog at `now`; `None` when the query is dropped.
/// A and AAAA queries get good addresses of their family, NS queries the name
/// server; other types or classes get SERVFAIL.
pub fn plan_reply(query: &DnsQuery, hostname: &str, nameserver: &str, catalog: &AddressManager, now: u64) -> (r: Option<DnsReply>)
    requires
        catalog.wf(),
    ensures
        r is Some == served(*query, hostname@),
        r is Some ==> ({
            let reply = r->0;
            let q = query.questions@[0];
            &&& reply.id == query.id
            &&& reply.authoritative
            &&& !reply.recursion_available
            &&& reply.recursion_desired == query.recursion_desired
            &&& if q.qclass == CLASS_IN && (q.qtype == QTYPE_A || q.qtype == QTYPE_AAAA) {
                &&& reply.rcode == RCODE_NO_ERROR
                &&& exists|s: Seq<Node>|
                    lists(s, catalog.contents()) && reply.answers@ == address_answers(
                        q.qtype,
                        good_selection(s, now, q.qtype, true, None),
                    )
            } else if q.qclass == CLASS_IN && q.qtype == QTYPE_NS {
                &&& reply.rcode == RCODE_NO_ERROR
                &&& reply.answers@.len() == 1
                &&& reply.answers@[0].ttl == NS_TTL
                &&& reply.answers@[0].data matches RecordData::Ns(n) && n@ == nameserver@
            } else {
                reply.rcode == RCODE_SERVFAIL && reply.answers@.len() == 0
            }
        }),
{
    if query.is_response || query.opcode != OPCODE_QUERY || query.questions.len() != 1 {
        return None;
    }
    let q = &query.questions[0];
    if !is_our_domain(q.name.as_str(), hostname) {
        return None;
    }
    let mut reply = DnsReply {
        id: query.id,
        authoritative: true,
        recursion_desired: query.recursion_desired,
        recursion_available: false,
        rcode: RCODE_NO_ERROR,
        answers: Vec::new(),
    };
    if q.qclass != CLASS_IN {
        reply.rcode = RCODE_SERVFAIL;
    } else if q.qtype == QTYPE_A || q.qtype == QTYPE_AAAA {
        let good = catalog.good_addresses(q.qtype, true, None, now);
        assert(opt_str_view(None) == None::<Seq<char>>);
        let ghost s = choose|s: Seq<Node>|
            lists(s, catalog.contents()) && good@ == good_selection(s, now, q.qtype, true, None);
        reply.answers = address_records(q.qtype, &good);
        assert(lists(s, catalog.contents()) && reply.answers@ == address_answers(
            q.qtype,
            good_selection(s, now, q.qtype, true, None),
        ));
    } else if q.qtype == QTYPE_NS {
        reply.answers.push(Answer { data: RecordData::Ns(String::from_str(nameserver)), ttl: NS_TTL });
    } else {
        reply.rcode = RCODE_SERVFAIL;
    }
    Some(reply)
}

} // verus!
