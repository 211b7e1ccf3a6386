//! Decoding of the IPv4 / IPv6 headers of a captured packet and of the
//! TCP / UDP ports that follow them.
use vstd::prelude::*;

verus! {

/// IP protocol number of TCP.
pub const PROTO_TCP: u8 = 6;

/// IP protocol number of UDP.
pub const PROTO_UDP: u8 = 17;

/// Direction of the packet relative to the local machine.
#[derive(Debug, Clone, Copy, PartialEq, Eq, Structural)]
pub enum Direction {
    Inbound,
    Outbound,
}

/// An IP address, held as the big-endian number its octets spell
/// (the value of `u32::from(Ipv4Addr)` / `u128::from(Ipv6Addr)`).
#[derive(Debug, Clone, Copy, PartialEq, Eq, Structural)]
pub enum IpAddr {
    V4(u32),
    V6(u128),
}

/// Parsed network packet information.
#[derive(Debug, Clone, Copy, PartialEq, Eq, Structural)]
pub struct ParsedPacket {
    pub src_ip: IpAddr,
    pub dst_ip: IpAddr,
    pub src_port: u16,
    pub dst_port: u16,
    /// 6 = TCP, 17 = UDP
    pub protocol: u8,
    /// Length of the IP packet as its header states it.
    pub length: usize,
    pub direction: Direction,
}

/// The direction that the capture layer's `outbound` flag stands for.
pub open spec fn spec_direction(outbound: bool) -> Direction {
    if outbound {
        Direction::Outbound
    } else {
        Direction::Inbound
    }
}

/// The unsigned number that a byte sequence spells in big-endian order.
pub open spec fn be_value(s: Seq<u8>) -> nat
    decreases s.len(),
{
    if s.len() == 0 {
        0
    } else {
        be_value(s.drop_last()) * 256 + s.last() as nat
    }
}

/// `256` to the power `n`.
pub open spec fn pow256(n: nat) -> nat
    decreases n,
{
    if n == 0 {
        1
    } else {
        pow256((n - 1) as nat) * 256
    }
}

/// The big-endian number held by `n` bytes of `d` from `start` on.
pub open spec fn be_at(d: Seq<u8>, start: int, n: int) -> nat {
    be_value(d.subrange(start, start + n))
}

/// A protocol that the accounting follows: TCP or UDP.
pub open spec fn is_tracked_protocol(p: u8) -> bool {
    p == PROTO_TCP || p == PROTO_UDP
}

/// IPv4: the header length in bytes that the IHL nibble states.
pub open spec fn ipv4_header_len(d: Seq<u8>) -> int {
    (d[0] % 16) * 4
}

/// What an IPv4 packet decodes to: `None` when the data is shorter than
/// the 20-byte fixed header, when the IHL field states a header shorter
/// than that (malformed) or longer than the data, when the protocol is
/// neither TCP nor UDP, or when the ports do not fit after the header.
pub open spec fn spec_parse_ipv4(d: Seq<u8>, outbound: bool) -> Option<ParsedPacket> {
    let ihl = ipv4_header_len(d);
    if d.len() < 20 || ihl < 20 || d.len() < ihl || !is_tracked_protocol(d[9]) || d.len() - ihl
        < 4 {
        None
    } else {
        Some(
            ParsedPacket {
                src_ip: IpAddr::V4(be_at(d, 12, 4) as u32),
                dst_ip: IpAddr::V4(be_at(d, 16, 4) as u32),
                src_port: be_at(d, ihl, 2) as u16,
                dst_port: be_at(d, ihl + 2, 2) as u16,
                protocol: d[9],
                length: be_at(d, 2, 2) as usize,
                direction: spec_direction(outbound),
            },
        )
    }
}

/// What an IPv6 packet decodes to (the fixed 40-byte header only).
pub open spec fn spec_parse_ipv6(d: Seq<u8>, outbound: bool) -> Option<ParsedPacket> {
    if d.len() < 44 || !is_tracked_protocol(d[6]) {
        None
    } else {
        Some(
            ParsedPacket {
                src_ip: IpAddr::V6(be_at(d, 8, 16) as u128),
                dst_ip: IpAddr::V6(be_at(d, 24, 16) as u128),
                src_port: be_at(d, 40, 2) as u16,
                dst_port: be_at(d, 42, 2) as u16,
                protocol: d[6],
                length: (40 + be_at(d, 4, 2)) as usize,
                direction: spec_direction(outbound),
            },
        )
    }
}

/// What a raw IP packet decodes to: `None` for anything that is not a
/// well-formed IPv4 or IPv6 packet carrying TCP or UDP.
pub open spec fn spec_parse_packet(d: Seq<u8>, outbound: bool) -> Option<ParsedPacket> {
    if d.len() == 0 {
        None
    } else if d[0] / 16 == 4 {
        spec_parse_ipv4(d, outbound)
    } else if d[0] / 16 == 6 {
        spec_parse_ipv6(d, outbound)
    } else {
        None
    }
}

/// A big-endian number of `n` bytes is below `256^n`.
pub proof fn lemma_be_value_bound(s: Seq<u8>)
    ensures
        be_value(s) < pow256(s.len()),
    decreases s.len(),
{
    if s.len() > 0 {
        lemma_be_value_bound(s.drop_last());
    }
}

/// Maps the capture layer's `outbound` flag to a [`Direction`].
pub fn direction_of(outbound: bool) -> (d: Direction)
    ensures
        d == spec_direction(outbound),
{
    if outbound {
        Direction::Outbound
    } else {
        Direction::Inbound
    }
}

/// Reads `n` bytes of `data` from `start` on as a big-endian number.
pub(crate) fn read_be(data: &[u8], start: usize, n: usize) -> (v: u128)
    requires
        n <= 16,
        start + n <= data@.len(),
    ensures
        v == be_at(data@, start as int, n as int),
        v < pow256(n as nat),
{
    let mut acc: u128 = 0;
    let mut i: usize = 0;
    let len = data.len();
    proof {
        reveal_with_fuel(pow256, 17);
        assert(data@.subrange(start as int, start as int) =~= Seq::<u8>::empty());
    }
    while i < n
        invariant
            n <= 16,
            start + n <= data@.len(),
            i <= n,
            acc == be_at(data@, start as int, i as int),
            acc < pow256(i as nat),
            pow256(15) == 0x1000000000000000000000000000000u128,
            data@.len() <= usize::MAX,
        decreases n - i,
    {
        proof {
            let s = data@.subrange(start as int, start + i + 1);
            assert(s.drop_last() =~= data@.subrange(start as int, start + i));
            assert(pow256(i as nat) <= pow256(15)) by {
                lemma_pow256_monotone(i as nat, 15);
            }
        }
        acc = acc * 256 + data[start + i] as u128;
        i = i + 1;
    }
    acc
}

/// `pow256` grows with its exponent.
proof fn lemma_pow256_monotone(a: nat, b: nat)
    requires
        a <= b,
    ensures
        pow256(a) <= pow256(b),
    decreases b,
{
    if a < b {
        lemma_pow256_monotone(a, (b - 1) as nat);
    }
}

/// Parse raw IP packet bytes into structured info.
/// Returns None if the packet is not TCP/UDP or is malformed: empty, of
/// an IP version other than 4 or 6, shorter than its fixed header, with an
/// IPv4 header length field below 5 words or beyond the data, or without
/// room for the ports after the header.
pub fn parse_packet(data: &[u8], outbound: bool) -> (r: Option<ParsedPacket>)
    ensures
        r == spec_parse_packet(data@, outbound),
{
    if data.len() == 0 {
        return None;
    }
    let first = data[0];
    let version = (first >> 4) & 0x0F;
    assert(version == first / 16) by (bit_vector)
        requires
            version == (first >> 4) & 0x0F,
    ;
    if version == 4 {
        parse_ipv4(data, outbound)
    } else if version == 6 {
        parse_ipv6(data, outbound)
    } else {
        None
    }
}

fn parse_ipv4(data: &[u8], outbound: bool) -> (r: Option<ParsedPacket>)
    requires
        data@.len() > 0,
    ensures
        r == spec_parse_ipv4(data@, outbound),
{
    if data.len() < 20 {
        return None;
    }
    let first = data[0];
    let nibble = first & 0x0F;
    assert(nibble == first % 16) by (bit_vector)
        requires
            nibble == first & 0x0F,
    ;
    let ihl = (nibble as usize) * 4;
    // A header length below the 20-byte fixed header is malformed
    if ihl < 20 || data.len() < ihl {
        return None;
    }
    let total_length = read_be(data, 2, 2);
    let protocol = data[9];
    let src = read_be(data, 12, 4);
    let dst = read_be(data, 16, 4);
    proof {
        reveal_with_fuel(pow256, 5);
    }
    // Only handle TCP (6) and UDP (17)
    if protocol != PROTO_TCP && protocol != PROTO_UDP {
        return None;
    }
    if data.len() - ihl < 4 {
        return None;
    }
    let src_port = read_be(data, ihl, 2);
    let dst_port = read_be(data, ihl + 2, 2);
    Some(
        ParsedPacket {
            src_ip: IpAddr::V4(src as u32),
            dst_ip: IpAddr::V4(dst as u32),
            src_port: src_port as u16,
            dst_port: dst_port as u16,
            protocol,
            length: total_length as usize,
            direction: direction_of(outbound),
        },
    )
}

fn parse_ipv6(data: &[u8], outbound: bool) -> (r: Option<ParsedPacket>)
    ensures
        r == spec_parse_ipv6(data@, outbound),
{
    if data.len() < 40 {
        return None;
    }
    let payload_length = read_be(data, 4, 2);
    let next_header = data[6];
    // Only handle TCP (6) and UDP (17)
    if next_header != PROTO_TCP && next_header != PROTO_UDP {
        return None;
    }
    let src = read_be(data, 8, 16);
    let dst = read_be(data, 24, 16);
    if data.len() - 40 < 4 {
        return None;
    }
    proof {
        reveal_with_fuel(pow256, 3);
    }
    let src_port = read_be(data, 40, 2);
    let dst_port = read_be(data, 42, 2);
    Some(
        ParsedPacket {
            src_ip: IpAddr::V6(src),
            dst_ip: IpAddr::V6(dst),
            src_port: src_port as u16,
            dst_port: dst_port as u16,
            protocol: next_header,
            length: (40 + payload_length) as usize,
            direction: direction_of(outbound),
        },
    )
}


/// Only TCP and UDP packets are decoded, and a decoded packet carries the
/// direction that the capture layer reported.
pub proof fn law_parsed_packets_are_tcp_or_udp(d: Seq<u8>, outbound: bool)
    ensures
        spec_parse_packet(d, outbound) matches Some(p) ==> is_tracked_protocol(p.protocol)
            && p.direction == spec_direction(outbound),
{
}

/// A packet decodes the same way whichever direction it travels, but for
/// its direction.
pub proof fn law_direction_only_sets_direction(d: Seq<u8>)
    ensures
        spec_parse_packet(d, true) is Some == spec_parse_packet(d, false) is Some,
        spec_parse_packet(d, true) matches Some(p) ==> spec_parse_packet(d, false) == Some(
            ParsedPacket { direction: Direction::Inbound, ..p },
        ),
{
}

/// Two bytes read big-endian: the first one is the high byte.
proof fn lemma_be_pair(d: Seq<u8>, i: int)
    requires
        0 <= i,
        i + 2 <= d.len(),
    ensures
        be_at(d, i, 2) == d[i] as nat * 256 + d[i + 1] as nat,
{
    let s = d.subrange(i, i + 2);
    assert(s.drop_last().drop_last() =~= Seq::<u8>::empty());
    assert(s.drop_last().last() == d[i]);
    assert(s.last() == d[i + 1]);
    assert(be_value(s.drop_last().drop_last()) == 0);
    assert(be_value(s.drop_last()) == d[i] as nat);
    assert(be_value(s) == d[i] as nat * 256 + d[i + 1] as nat);
}

/// Every IPv6 packet that carries TCP (next header 6) or UDP (next
/// header 17) and holds its 40-byte header and the four port bytes is
/// decoded: the addresses are the 16-byte fields at bytes 8 and 24, the
/// ports the two big-endian 16-bit fields at bytes 40 and 42, the protocol
/// the next-header byte, and the length the payload length plus the
/// 40-byte header.
pub proof fn law_ipv6_tcp_and_udp_are_decoded(d: Seq<u8>, outbound: bool)
    requires
        d.len() >= 44,
        d[0] / 16 == 6,
        d[6] == 6 || d[6] == 17,
    ensures
        spec_parse_packet(d, outbound) == Some(
            ParsedPacket {
                src_ip: IpAddr::V6(be_value(d.subrange(8, 24)) as u128),
                dst_ip: IpAddr::V6(be_value(d.subrange(24, 40)) as u128),
                src_port: (d[40] as nat * 256 + d[41] as nat) as u16,
                dst_port: (d[42] as nat * 256 + d[43] as nat) as u16,
                protocol: d[6],
                length: (40 + d[4] as nat * 256 + d[5] as nat) as usize,
                direction: if outbound {
                    Direction::Outbound
                } else {
                    Direction::Inbound
                },
            },
        ),
{
    lemma_be_pair(d, 40);
    lemma_be_pair(d, 42);
    lemma_be_pair(d, 4);
}

/// Every IPv4 packet that carries TCP (protocol 6) or UDP (protocol 17),
/// whose header length field states at least the 20-byte fixed header,
/// and whose data holds that header and the four port bytes after it, is
/// decoded: the addresses are the 4-byte fields at bytes 12 and 16, the
/// ports the two big-endian 16-bit fields right after the header, the
/// protocol byte 9, and the length the total-length field.
pub proof fn law_ipv4_tcp_and_udp_are_decoded(d: Seq<u8>, outbound: bool)
    requires
        d.len() >= 20,
        d[0] / 16 == 4,
        (d[0] % 16) * 4 >= 20,
        d.len() >= (d[0] % 16) * 4 + 4,
        d[9] == 6 || d[9] == 17,
    ensures
        ({
            let h = (d[0] % 16) * 4;
            spec_parse_packet(d, outbound) == Some(
                ParsedPacket {
                    src_ip: IpAddr::V4(be_value(d.subrange(12, 16)) as u32),
                    dst_ip: IpAddr::V4(be_value(d.subrange(16, 20)) as u32),
                    src_port: (d[h] as nat * 256 + d[h + 1] as nat) as u16,
                    dst_port: (d[h + 2] as nat * 256 + d[h + 3] as nat) as u16,
                    protocol: d[9],
                    length: (d[2] as nat * 256 + d[3] as nat) as usize,
                    direction: if outbound {
                        Direction::Outbound
                    } else {
                        Direction::Inbound
                    },
                },
            )
        }),
{
    let h = (d[0] % 16) * 4;
    lemma_be_pair(d, h);
    lemma_be_pair(d, h + 2);
    lemma_be_pair(d, 2);
}

} // verus!
