//! HeaderKey codec: parses a raw captured frame into the normalized key that
//! the aggregation buffer counts traffic under.
//!
//! A frame is keyed by its link-layer header (destination and source hardware
//! address, EtherType) and, when the payload declares IPv4 or IPv6, by the
//! network-layer addresses and next-protocol number as well. A frame too short
//! for the link-layer header, or an IP frame whose payload is too short for
//! the network header, yields no key and is dropped from statistics.

use vstd::prelude::*;

verus! {

/// EtherType value declaring an IPv4 payload.
pub const ETHER_TYPE_IPV4: u16 = 0x0800;

/// EtherType value declaring an IPv6 payload.
pub const ETHER_TYPE_IPV6: u16 = 0x86DD;

/// Bytes in a link-layer (Ethernet) header: two 6-byte hardware addresses
/// and a 2-byte EtherType.
pub const ETHERNET_HEADER_LEN: usize = 14;

/// Minimum bytes in an IPv4 header.
pub const IPV4_HEADER_LEN: usize = 20;

/// Bytes in the fixed IPv6 header.
pub const IPV6_HEADER_LEN: usize = 40;

/// A network-layer address: IPv4 as its 32-bit value, IPv6 as its 128-bit
/// value, both big-endian as on the wire.
#[derive(Clone, Copy, PartialEq, Eq, Hash, Debug, Structural)]
pub enum IpAddress {
    V4(u32),
    V6(u128),
}

/// Network-layer part of a key, present only for IPv4/IPv6 frames whose
/// header parsed successfully.
#[derive(Clone, Copy, PartialEq, Eq, Hash, Debug, Structural)]
pub struct NetworkHeader {
    pub source: IpAddress,
    pub destination: IpAddress,
    /// Transport protocol number (IPv4 "protocol" / IPv6 "next header").
    pub next_protocol: u8,
}

/// Normalized identity of one traffic class. Two frames with equal fields are
/// the same class and accumulate under one count. Hardware addresses are the
/// 48-bit values of the 6 wire bytes, big-endian.
#[derive(Clone, Copy, PartialEq, Eq, Hash, Debug, Structural)]
pub struct HeaderKey {
    pub ether_type: u16,
    pub source_mac: u64,
    pub destination_mac: u64,
    pub network: Option<NetworkHeader>,
}

/// The value of a big-endian byte string: the first byte is most significant.
pub open spec fn be_bytes(b: Seq<u8>) -> nat
    decreases b.len(),
{
    if b.len() == 0 {
        0
    } else {
        (be_bytes(b.drop_last()) * 256 + b.last()) as nat
    }
}

/// 256 to the power `n`: the number of values a byte string of length `n` can take.
pub open spec fn pow256(n: nat) -> nat
    decreases n,
{
    if n == 0 {
        1
    } else {
        256 * pow256((n - 1) as nat)
    }
}

pub proof fn lemma_be_bytes_bound(b: Seq<u8>)
    ensures
        be_bytes(b) < pow256(b.len()),
    decreases b.len(),
{
    if b.len() > 0 {
        lemma_be_bytes_bound(b.drop_last());
    }
}

proof fn lemma_pow256_increases(m: nat, n: nat)
    requires
        m <= n,
    ensures
        pow256(m) <= pow256(n),
    decreases n,
{
    if m < n {
        lemma_pow256_increases(m, (n - 1) as nat);
    }
}

/// Reads `count` big-endian bytes of `frame` starting at `start`.
fn read_be(frame: &[u8], start: usize, count: usize) -> (r: u128)
    requires
        start + count <= frame.len(),
        count <= 16,
    ensures
        r == be_bytes(frame@.subrange(start as int, (start + count) as int)),
{
    let mut acc: u128 = 0;
    let mut i: usize = 0;
    proof {
        assert(frame@.subrange(start as int, start as int) =~= Seq::<u8>::empty());
    }
    while i < count
        invariant
            i <= count,
            count <= 16,
            start + count <= frame.len(),
            acc == be_bytes(frame@.subrange(start as int, (start + i) as int)),
            acc < pow256(i as nat),
        decreases count - i,
    {
        let b = frame[start + i];
        proof {
            assert(pow256(16) == 0x100000000000000000000000000000000nat) by {
                reveal_with_fuel(pow256, 17);
            }
            lemma_pow256_increases((i + 1) as nat, 16);
            assert(frame@.subrange(start as int, (start + i + 1) as int).drop_last() =~= frame@
                .subrange(start as int, (start + i) as int));
            assert(frame@.subrange(start as int, (start + i + 1) as int).last() == frame@[start + i]);
        }
        acc = acc * 256 + (b as u128);
        i = i + 1;
    }
    acc
}

/// What the network part of an IPv4 frame's key is: `None` when the payload
/// is shorter than an IPv4 header, else the source and destination addresses
/// (bytes 12..16 and 16..20) and the protocol number (byte 9).
pub open spec fn spec_parse_ipv4(p: Seq<u8>) -> Option<NetworkHeader> {
    if p.len() < IPV4_HEADER_LEN {
        None
    } else {
        Some(
            NetworkHeader {
                source: IpAddress::V4(be_bytes(p.subrange(12, 16)) as u32),
                destination: IpAddress::V4(be_bytes(p.subrange(16, 20)) as u32),
                next_protocol: p[9],
            },
        )
    }
}

/// What the network part of an IPv6 frame's key is: `None` when the payload
/// is shorter than the fixed IPv6 header, else the source and destination
/// addresses (bytes 8..24 and 24..40) and the next-header number (byte 6).
pub open spec fn spec_parse_ipv6(p: Seq<u8>) -> Option<NetworkHeader> {
    if p.len() < IPV6_HEADER_LEN {
        None
    } else {
        Some(
            NetworkHeader {
                source: IpAddress::V6(be_bytes(p.subrange(8, 24)) as u128),
                destination: IpAddress::V6(be_bytes(p.subrange(24, 40)) as u128),
                next_protocol: p[6],
            },
        )
    }
}

/// What key a raw frame parses to. A frame shorter than the link-layer header
/// has no key. The EtherType is bytes 12..14, the destination address bytes
/// 0..6, the source address bytes 6..12. For an IPv4 or IPv6 EtherType the
/// network header is parsed from the rest of the frame; if that fails the
/// whole frame has no key rather than an under-specified one.
pub open spec fn spec_parse_frame(f: Seq<u8>) -> Option<HeaderKey> {
    if f.len() < ETHERNET_HEADER_LEN {
        None
    } else {
        let ether_type = (be_bytes(f.subrange(12, 14)) as u16);
        let destination_mac = (be_bytes(f.subrange(0, 6)) as u64);
        let source_mac = (be_bytes(f.subrange(6, 12)) as u64);
        let payload = f.skip(ETHERNET_HEADER_LEN as int);
        if ether_type == ETHER_TYPE_IPV4 {
            match spec_parse_ipv4(payload) {
                None => None,
                Some(nh) => Some(
                    HeaderKey { ether_type, source_mac, destination_mac, network: Some(nh) },
                ),
            }
        } else if ether_type == ETHER_TYPE_IPV6 {
            match spec_parse_ipv6(payload) {
                None => None,
                Some(nh) => Some(
                    HeaderKey { ether_type, source_mac, destination_mac, network: Some(nh) },
                ),
            }
        } else {
            Some(HeaderKey { ether_type, source_mac, destination_mac, network: None })
        }
    }
}

/// Parses a raw captured frame into its traffic-class key.
pub fn parse_frame(frame: &[u8]) -> (r: Option<HeaderKey>)
    ensures
        r == spec_parse_frame(frame@),
{
    if frame.len() < ETHERNET_HEADER_LEN {
        return None;
    }
    let ether_type = read_be(frame, 12, 2) as u16;
    let destination_mac = read_be(frame, 0, 6) as u64;
    let source_mac = read_be(frame, 6, 6) as u64;
    proof {
        lemma_be_bytes_bound(frame@.subrange(12, 14));
        lemma_be_bytes_bound(frame@.subrange(0, 6));
        lemma_be_bytes_bound(frame@.subrange(6, 12));
        assert(pow256(2) == 0x10000nat) by {
            reveal_with_fuel(pow256, 3);
        }
        assert(pow256(6) == 0x1000000000000nat) by {
            reveal_with_fuel(pow256, 7);
        }
    }
    if ether_type == ETHER_TYPE_IPV4 {
        match parse_ipv4_at(frame, ETHERNET_HEADER_LEN) {
            None => None,
            Some(nh) => Some(HeaderKey { ether_type, source_mac, destination_mac, network: Some(nh) }),
        }
    } else if ether_type == ETHER_TYPE_IPV6 {
        match parse_ipv6_at(frame, ETHERNET_HEADER_LEN) {
            None => None,
            Some(nh) => Some(HeaderKey { ether_type, source_mac, destination_mac, network: Some(nh) }),
        }
    } else {
        Some(HeaderKey { ether_type, source_mac, destination_mac, network: None })
    }
}

/// Parses an IPv4 header from `frame` starting at `base`.
fn parse_ipv4_at(frame: &[u8], base: usize) -> (r: Option<NetworkHeader>)
    requires
        base <= frame.len(),
    ensures
        r == spec_parse_ipv4(frame@.skip(base as int)),
{
    if frame.len() - base < IPV4_HEADER_LEN {
        return None;
    }
    let source = read_be(frame, base + 12, 4) as u32;
    let destination = read_be(frame, base + 16, 4) as u32;
    let next_protocol = frame[base + 9];
    proof {
        let p = frame@.skip(base as int);
        lemma_be_bytes_bound(p.subrange(12, 16));
        lemma_be_bytes_bound(p.subrange(16, 20));
        assert(pow256(4) == 0x100000000nat) by {
            reveal_with_fuel(pow256, 5);
        }
        assert(frame@.subrange(base + 12, base + 16) =~= p.subrange(12, 16));
        assert(frame@.subrange(base + 16, base + 20) =~= p.subrange(16, 20));
        assert(frame@[base + 9] == p[9]);
    }
    Some(
        NetworkHeader {
            source: IpAddress::V4(source),
            destination: IpAddress::V4(destination),
            next_protocol,
        },
    )
}

/// Parses the fixed IPv6 header from `frame` starting at `base`.
fn parse_ipv6_at(frame: &[u8], base: usize) -> (r: Option<NetworkHeader>)
    requires
        base <= frame.len(),
    ensures
        r == spec_parse_ipv6(frame@.skip(base as int)),
{
    if frame.len() - base < IPV6_HEADER_LEN {
        return None;
    }
    let source = read_be(frame, base + 8, 16);
    let destination = read_be(frame, base + 24, 16);
    let next_protocol = frame[base + 6];
    proof {
        let p = frame@.skip(base as int);
        lemma_be_bytes_bound(p.subrange(8, 24));
        lemma_be_bytes_bound(p.subrange(24, 40));
        assert(frame@.subrange(base + 8, base + 24) =~= p.subrange(8, 24));
        assert(frame@.subrange(base + 24, base + 40) =~= p.subrange(24, 40));
        assert(frame@[base + 6] == p[6]);
    }
    Some(
        NetworkHeader {
            source: IpAddress::V6(source),
            destination: IpAddress::V6(destination),
            next_protocol,
        },
    )
}

/// The codec's case analysis: a frame shorter than the link-layer header has
/// no key; a long-enough IPv4 or IPv6 frame has a key with the network part
/// present; a long-enough frame of any other EtherType has a key with no
/// network part.
pub proof fn lemma_parse_frame_cases(f: Seq<u8>)
    ensures
        f.len() < ETHERNET_HEADER_LEN ==> spec_parse_frame(f) is None,
        (f.len() >= ETHERNET_HEADER_LEN + IPV4_HEADER_LEN && be_bytes(f.subrange(12, 14))
            == ETHER_TYPE_IPV4) ==> (spec_parse_frame(f) matches Some(k) && k.network is Some),
        (f.len() >= ETHERNET_HEADER_LEN + IPV6_HEADER_LEN && be_bytes(f.subrange(12, 14))
            == ETHER_TYPE_IPV6) ==> (spec_parse_frame(f) matches Some(k) && k.network is Some),
        (f.len() >= ETHERNET_HEADER_LEN && be_bytes(f.subrange(12, 14)) != ETHER_TYPE_IPV4
            && be_bytes(f.subrange(12, 14)) != ETHER_TYPE_IPV6) ==> (spec_parse_frame(f)
            matches Some(k) && k.network is None),
{
    if f.len() >= ETHERNET_HEADER_LEN {
        lemma_be_bytes_bound(f.subrange(12, 14));
        assert(pow256(2) == 0x10000nat) by {
            reveal_with_fuel(pow256, 3);
        }
    }
}

} // verus!
