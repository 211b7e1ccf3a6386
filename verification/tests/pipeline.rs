use netlimiter::flow::{FlowAggregator, ProcessCategory};
use netlimiter::packet::{Direction, IpAddr, ParsedPacket};
use netlimiter::pid_map::{process_info_from_path, ConnectionTables, PidMapper, ServiceRecord, TcpRow};
use netlimiter::pipeline::{process_packet, traffic_split, PacketOutcome};

const SEC: u64 = 1_000_000_000;

fn packet(direction: Direction, length: usize) -> ParsedPacket {
    let local = IpAddr::V4(0xC0A8_010A);
    let remote = IpAddr::V4(0x5DB8_D822);
    match direction {
        Direction::Outbound => ParsedPacket { src_ip: local, dst_ip: remote, src_port: 50000, dst_port: 443, protocol: 6, length, direction },
        Direction::Inbound => ParsedPacket { src_ip: remote, dst_ip: local, src_port: 443, dst_port: 50000, protocol: 6, length, direction },
    }
}

fn mapper(services: Vec<ServiceRecord>) -> PidMapper {
    let tables = ConnectionTables {
        tcp_v4: Some(vec![TcpRow { local_addr: 0xC0A8_010A, local_port: 50000, remote_addr: 0x5DB8_D822, remote_port: 443, owning_pid: 4242 }]),
        tcp_v6: None,
        udp_v4: None,
        udp_v6: None,
    };
    PidMapper::new(&services, &tables, 0)
}

#[test]
fn traffic_counts_by_direction() {
    assert_eq!(traffic_split(&packet(Direction::Outbound, 1500)), (1500, 0));
    assert_eq!(traffic_split(&packet(Direction::Inbound, 60)), (0, 60));
}

#[test]
fn packets_of_a_process_are_recorded_once_it_is_known() {
    let mut m = mapper(vec![]);
    let mut agg = FlowAggregator::new(0);
    let out = packet(Direction::Outbound, 1500);
    assert_eq!(process_packet(&out, &mut m, &mut agg, SEC), PacketOutcome::NeedsProcessInfo(4242));
    assert!(agg.get_entry(4242).is_none());
    let info = process_info_from_path(4242, Some(String::from("C:\\Apps\\Chrome\\chrome.exe")));
    m.record_process_info(4242, info);
    assert_eq!(process_packet(&out, &mut m, &mut agg, SEC), PacketOutcome::Recorded(4242));
    assert_eq!(process_packet(&packet(Direction::Inbound, 60), &mut m, &mut agg, 2 * SEC), PacketOutcome::Recorded(4242));
    let e = agg.get_entry(4242).unwrap();
    assert_eq!(e.name, "chrome.exe");
    assert_eq!(e.category, ProcessCategory::User);
    assert_eq!((e.total_upload, e.total_download), (1500, 60));
    assert_eq!(e.last_seen, 2 * SEC);
}

#[test]
fn stale_services_are_refreshed_before_classifying() {
    let mut m = mapper(vec![]);
    let mut agg = FlowAggregator::new(0);
    let info = process_info_from_path(4242, Some(String::from("C:\\Windows\\System32\\svchost.exe")));
    m.record_process_info(4242, info);
    let p = packet(Direction::Outbound, 100);
    assert_eq!(process_packet(&p, &mut m, &mut agg, 40 * SEC), PacketOutcome::NeedsServiceRefresh);
    m.refresh_service_pids(&vec![ServiceRecord { pid: 4242, display_name: Some(String::from("DNS Client")), service_name: None }], 40 * SEC);
    assert_eq!(process_packet(&p, &mut m, &mut agg, 40 * SEC), PacketOutcome::Recorded(4242));
    let e = agg.get_entry(4242).unwrap();
    assert_eq!(e.category, ProcessCategory::Service);
    // the name was cached before the service list was known
    assert_eq!(e.name, "svchost.exe");
}

#[test]
fn packets_without_a_connection_are_not_recorded() {
    let mut m = mapper(vec![]);
    let mut agg = FlowAggregator::new(0);
    let mut p = packet(Direction::Outbound, 100);
    p.src_port = 1;
    assert_eq!(process_packet(&p, &mut m, &mut agg, SEC), PacketOutcome::NoOwner);
    assert!(agg.snapshot(SEC).is_empty());
}
