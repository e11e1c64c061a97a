//! Checks of a peer's protocol version and user-agent version.
use vstd::prelude::*;
use core::cmp::Ordering;
use crate::errors::{text, KaseederError};
use crate::text::{chars_of, parse_unsigned, parse_unsigned_chars, split_chars, split_spec, views};

verus! {

/// Largest protocol version that a peer may plausibly announce.
pub const MAX_PROTOCOL_VERSION: u32 = 100;

/// The numbers of the dot-separated parts that parse as `u32`, in order; the
/// others are skipped.
pub open spec fn numeric_parts(pieces: Seq<Seq<char>>) -> Seq<nat>
    decreases pieces.len(),
{
    if pieces.len() == 0 {
        Seq::empty()
    } else {
        let prev = numeric_parts(pieces.drop_last());
        match parse_unsigned(pieces.last(), u32::MAX as nat) {
            Some(v) => prev.push(v),
            None => prev,
        }
    }
}

pub open spec fn version_parts(s: Seq<char>) -> Seq<nat> {
    numeric_parts(split_spec(s, '.'))
}

/// The `i`-th part, or zero past the end.
pub open spec fn part_at(p: Seq<nat>, i: int) -> nat {
    if 0 <= i < p.len() {
        p[i]
    } else {
        0
    }
}

/// Compares two lists of parts from position `i` on, a missing part counting as zero.
pub open spec fn compare_from(p: Seq<nat>, q: Seq<nat>, i: nat) -> Ordering
    decreases (if p.len() > q.len() { p.len() } else { q.len() }) - i,
{
    if i >= p.len() && i >= q.len() {
        Ordering::Equal
    } else if part_at(p, i as int) < part_at(q, i as int) {
        Ordering::Less
    } else if part_at(p, i as int) > part_at(q, i as int) {
        Ordering::Greater
    } else {
        compare_from(p, q, i + 1)
    }
}

/// The order of two dotted versions, or `None` when either has no numeric part.
pub open spec fn version_order(a: Seq<char>, b: Seq<char>) -> Option<Ordering> {
    if version_parts(a).len() == 0 || version_parts(b).len() == 0 {
        None
    } else {
        Some(compare_from(version_parts(a), version_parts(b), 0))
    }
}

/// Whether a peer's user-agent version falls below the minimum: both are given,
/// both compare, and the minimum is the greater.
pub open spec fn below_minimum(min: Seq<char>, peer: Seq<char>) -> bool {
    min.len() > 0 && peer.len() > 0 && version_order(min, peer) == Some(Ordering::Greater)
}

/// Whether a protocol version is refused for the minimum `min` (zero: none).
pub open spec fn protocol_refused(peer: u32, min: u16) -> bool {
    min != 0 && (peer < min as u32 || peer > MAX_PROTOCOL_VERSION)
}

fn numeric_parts_of(s: &str) -> (r: Vec<u32>)
    ensures
        r@.map_values(|x: u32| x as nat) == version_parts(s@),
{
    let cs = chars_of(s);
    let pieces = split_chars(cs.as_slice(), '.');
    let mut r: Vec<u32> = Vec::new();
    let mut i: usize = 0;
    while i < pieces.len()
        invariant
            i <= pieces@.len(),
            views(pieces@) == split_spec(s@, '.'),
            r@.map_values(|x: u32| x as nat) == numeric_parts(views(pieces@).subrange(0, i as int)),
        decreases pieces@.len() - i,
    {
        proof {
            let t = views(pieces@).subrange(0, i as int + 1);
            assert(t.drop_last() =~= views(pieces@).subrange(0, i as int));
            assert(t.last() == pieces@[i as int]@);
        }
        let ghost before = r@;
        match parse_unsigned_chars(pieces[i].as_slice(), u32::MAX as u64) {
            Some(v) => {
                r.push(v as u32);
                assert(r@.map_values(|x: u32| x as nat) =~= before.map_values(|x: u32| x as nat).push(v as nat));
            },
            None => {},
        }
        i = i + 1;
    }
    assert(views(pieces@).subrange(0, i as int) =~= views(pieces@));
    r
}

/// Version checks of peers.
pub struct VersionChecker;

impl VersionChecker {
    /// Accepts a peer whose user-agent version `peer_version` is at least
    /// `min_version`. An empty side, or a side without a numeric part, accepts.
    pub fn check_version(min_version: &str, peer_version: &str) -> (r: Result<(), KaseederError>)
        ensures
            r.is_err() == below_minimum(min_version@, peer_version@),
    {
        if min_version.unicode_len() == 0 || peer_version.unicode_len() == 0 {
            return Ok(());
        }
        match Self::compare_semantic_versions(min_version, peer_version) {
            Ok(Ordering::Greater) => Err(
                KaseederError::Validation(text("user agent version is below the minimum")),
            ),
            Ok(_) => Ok(()),
            Err(_) => Ok(()),
        }
    }

    /// Compares two dotted versions part by part as numbers, a missing part
    /// counting as zero. Parts that are not numbers are skipped; a version with
    /// no numeric part is an error.
    pub fn compare_semantic_versions(version1: &str, version2: &str) -> (r: Result<Ordering, KaseederError>)
        ensures
            match version_order(version1@, version2@) {
                Some(o) => r == Ok::<Ordering, KaseederError>(o),
                None => r.is_err(),
            },
    {
        let p = numeric_parts_of(version1);
        let q = numeric_parts_of(version2);
        let ghost ps = version_parts(version1@);
        let ghost qs = version_parts(version2@);
        if p.len() == 0 || q.len() == 0 {
            return Err(KaseederError::Validation(text("invalid version format")));
        }
        let max_len: usize = if p.len() > q.len() { p.len() } else { q.len() };
        let mut i: usize = 0;
        while i < max_len
            invariant
                max_len == (if ps.len() > qs.len() { ps.len() } else { qs.len() }),
                p@.len() == ps.len(),
                q@.len() == qs.len(),
                forall|k: int| 0 <= k < p@.len() ==> p@[k] as nat == #[trigger] ps[k],
                forall|k: int| 0 <= k < q@.len() ==> q@[k] as nat == #[trigger] qs[k],
                i <= max_len,
                compare_from(ps, qs, 0) == compare_from(ps, qs, i as nat),
                ps.len() > 0,
                version_order(version1@, version2@) == Some(compare_from(ps, qs, 0)),
            decreases max_len - i,
        {
            let a: u32 = if i < p.len() { p[i] } else { 0 };
            let b: u32 = if i < q.len() { q[i] } else { 0 };
            assert(a as nat == part_at(ps, i as int));
            assert(b as nat == part_at(qs, i as int));
            if a < b {
                return Ok(Ordering::Less);
            }
            if a > b {
                return Ok(Ordering::Greater);
            }
            i = i + 1;
        }
        Ok(Ordering::Equal)
    }

    /// Accepts a peer's protocol version: with a minimum set (non-zero), it must
    /// be at least the minimum and at most `MAX_PROTOCOL_VERSION`.
    pub fn check_protocol_version(peer_version: u32, min_version: u16) -> (r: Result<(), KaseederError>)
        ensures
            r.is_err() == protocol_refused(peer_version, min_version),
    {
        if min_version == 0 {
            return Ok(());
        }
        if peer_version < min_version as u32 {
            return Err(
                KaseederError::ProtocolVersionMismatch(text("protocol version is below the minimum")),
            );
        }
        if peer_version > MAX_PROTOCOL_VERSION {
            return Err(
                KaseederError::ProtocolVersionMismatch(text("protocol version is unreasonably high")),
            );
        }
        Ok(())
    }
}

} // verus!
