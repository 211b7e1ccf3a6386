use netlimiter::packet::{parse_packet, Direction, IpAddr, ParsedPacket};

fn ipv4_tcp() -> Vec<u8> {
    let mut p = vec![
        0x45, 0x00, 0x00, 0x3c, // version 4, IHL 5, total length 60
        0x1c, 0x46, 0x40, 0x00, // id, flags
        0x40, 0x06, 0x00, 0x00, // TTL, protocol TCP, checksum
        192, 168, 1, 10, // source
        93, 184, 216, 34, // destination
        0xc3, 0x50, 0x01, 0xbb, // ports 50000 -> 443
    ];
    p.extend_from_slice(&[0u8; 16]);
    p
}

#[test]
fn parses_ipv4_tcp() {
    let p = parse_packet(&ipv4_tcp(), true).expect("tcp packet");
    assert_eq!(
        p,
        ParsedPacket {
            src_ip: IpAddr::V4(0xC0A8_010A),
            dst_ip: IpAddr::V4(0x5DB8_D822),
            src_port: 50000,
            dst_port: 443,
            protocol: 6,
            length: 60,
            direction: Direction::Outbound,
        }
    );
}

#[test]
fn parses_ipv6_udp() {
    let mut d = vec![0x60, 0, 0, 0, 0x00, 0x20, 17, 64];
    let src: [u8; 16] = [0x20, 0x01, 0x0d, 0xb8, 0, 0, 0, 0, 0, 0, 0, 0, 0, 0, 0, 1];
    let dst: [u8; 16] = [0xfe, 0x80, 0, 0, 0, 0, 0, 0, 0, 0, 0, 0, 0, 0, 0xab, 0xcd];
    d.extend_from_slice(&src);
    d.extend_from_slice(&dst);
    d.extend_from_slice(&[0x00, 0x35, 0xd4, 0x31]); // 53 -> 54321
    let p = parse_packet(&d, false).expect("udp packet");
    assert_eq!(p.src_ip, IpAddr::V6(u128::from_be_bytes(src)));
    assert_eq!(p.dst_ip, IpAddr::V6(u128::from_be_bytes(dst)));
    assert_eq!(p.src_port, 53);
    assert_eq!(p.dst_port, 54321);
    assert_eq!(p.protocol, 17);
    assert_eq!(p.length, 40 + 0x20);
    assert_eq!(p.direction, Direction::Inbound);
}

#[test]
fn ignores_non_tcp_udp() {
    let mut p = ipv4_tcp();
    p[9] = 1; // ICMP
    assert!(parse_packet(&p, true).is_none());
    let mut d = vec![0x60, 0, 0, 0, 0, 8, 58, 64];
    d.extend_from_slice(&[0u8; 40]);
    assert!(parse_packet(&d, true).is_none());
}

#[test]
fn rejects_malformed_packets() {
    assert!(parse_packet(&[], true).is_none());
    // unknown IP version
    let mut p = ipv4_tcp();
    p[0] = 0x55;
    assert!(parse_packet(&p, true).is_none());
    // shorter than the IPv4 header
    assert!(parse_packet(&ipv4_tcp()[..19], true).is_none());
    // header length beyond the data
    let mut p = ipv4_tcp()[..24].to_vec();
    p[0] = 0x4f; // IHL 15 -> 60 bytes
    assert!(parse_packet(&p, true).is_none());
    // no room for the ports
    assert!(parse_packet(&ipv4_tcp()[..23], true).is_none());
    // IPv6 shorter than its header plus ports
    let d = vec![0x60, 0, 0, 0, 0, 0, 6, 64];
    assert!(parse_packet(&d, true).is_none());
}

#[test]
fn ipv4_ports_follow_the_stated_header_length() {
    let mut p = ipv4_tcp();
    p[0] = 0x46; // IHL 6: ports start at byte 24
    p[24] = 0x00;
    p[25] = 0x50;
    p[26] = 0x1f;
    p[27] = 0x90;
    let parsed = parse_packet(&p, false).unwrap();
    assert_eq!((parsed.src_port, parsed.dst_port), (80, 8080));
    assert_eq!(parsed.direction, Direction::Inbound);
}

#[test]
fn direction_flag_only_sets_the_direction() {
    let out = parse_packet(&ipv4_tcp(), true).unwrap();
    let inb = parse_packet(&ipv4_tcp(), false).unwrap();
    assert_eq!(out.direction, Direction::Outbound);
    assert_eq!(inb, ParsedPacket { direction: Direction::Inbound, ..out });
}

#[test]
fn rejects_ipv4_header_length_below_five_words() {
    let data = [0x40, 0, 0, 24, 0, 0, 0, 0, 64, 6, 0, 0, 10, 0, 0, 1, 10, 0, 0, 2, 0, 80, 1, 187];
    assert!(parse_packet(&data, true).is_none());
    let mut p = ipv4_tcp();
    p[0] = 0x44; // IHL 4 -> 16 bytes
    assert!(parse_packet(&p, true).is_none());
}
