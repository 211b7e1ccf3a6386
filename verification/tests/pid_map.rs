use netlimiter::flow::ProcessCategory;
use netlimiter::packet::IpAddr;
use netlimiter::pid_map::{
    builtin_process_info, classify_by_path, connection_key, merge_service_records,
    process_info_from_path, row_ipv4, row_ipv6, row_port, CategoryStep, ConnectionTables,
    PidMapper, ProcessInfo,
    ServiceRecord, TcpRow, UdpRow,
};

const SEC: u64 = 1_000_000_000;

fn no_tables() -> ConnectionTables {
    ConnectionTables { tcp_v4: None, tcp_v6: None, udp_v4: None, udp_v6: None }
}

fn tables() -> ConnectionTables {
    ConnectionTables {
        tcp_v4: Some(vec![
            TcpRow { local_addr: 0xC0A8_010A, local_port: 50000, remote_addr: 0x5DB8_D822, remote_port: 443, owning_pid: 100 },
            TcpRow { local_addr: 0xC0A8_010A, local_port: 50001, remote_addr: 0x5DB8_D822, remote_port: 443, owning_pid: 101 },
            // a later row for the same connection wins
            TcpRow { local_addr: 0xC0A8_010A, local_port: 50001, remote_addr: 0x5DB8_D822, remote_port: 443, owning_pid: 102 },
        ]),
        tcp_v6: Some(vec![TcpRow { local_addr: 1, local_port: 8080, remote_addr: 2, remote_port: 9090, owning_pid: 200 }]),
        udp_v4: Some(vec![UdpRow { local_addr: 0x7F00_0001, local_port: 53, owning_pid: 300 }]),
        udp_v6: None,
    }
}

fn service(pid: u32, display: Option<&str>, name: Option<&str>) -> ServiceRecord {
    ServiceRecord {
        pid,
        display_name: display.map(String::from),
        service_name: name.map(String::from),
    }
}

#[test]
fn lookup_matches_tcp_connections_in_either_direction() {
    let m = PidMapper::new(&vec![], &tables(), 0);
    let local = IpAddr::V4(0xC0A8_010A);
    let remote = IpAddr::V4(0x5DB8_D822);
    assert_eq!(m.lookup_pid(local, 50000, remote, 443, 6, true), Some(100));
    assert_eq!(m.lookup_pid(remote, 443, local, 50000, 6, false), Some(100));
    assert_eq!(m.lookup_pid(local, 50001, remote, 443, 6, true), Some(102));
    // wrong direction flag: the endpoints do not match any row
    assert_eq!(m.lookup_pid(local, 50000, remote, 443, 6, false), None);
    // same endpoints over UDP are not a TCP connection
    assert_eq!(m.lookup_pid(local, 50000, remote, 443, 17, true), None);
    // other protocols are never matched
    assert_eq!(m.lookup_pid(local, 50000, remote, 443, 1, true), None);
}

#[test]
fn lookup_matches_udp_by_local_endpoint_and_ipv6_tcp() {
    let m = PidMapper::new(&vec![], &tables(), 0);
    let lo = IpAddr::V4(0x7F00_0001);
    assert_eq!(m.lookup_pid(IpAddr::V4(0x0A00_0001), 5353, lo, 53, 17, false), Some(300));
    assert_eq!(m.lookup_pid(lo, 53, IpAddr::V4(0x0808_0808), 53, 17, true), Some(300));
    assert_eq!(m.lookup_pid(IpAddr::V6(1), 8080, IpAddr::V6(2), 9090, 6, true), Some(200));
    // mixed address families never match
    assert_eq!(m.lookup_pid(IpAddr::V6(1), 8080, IpAddr::V4(2), 9090, 6, true), None);
    // IPv6 UDP table was unavailable
    assert_eq!(m.lookup_pid(IpAddr::V6(1), 53, IpAddr::V6(2), 53, 17, true), None);
}

#[test]
fn connection_key_orients_by_direction() {
    let a = IpAddr::V4(1);
    let b = IpAddr::V4(2);
    let out = connection_key(a, 10, b, 20, 6, true);
    let inb = connection_key(b, 20, a, 10, 6, false);
    assert_eq!(out, inb);
    assert_eq!((out.local_ip, out.local_port, out.remote_ip, out.remote_port), (a, 10, b, 20));
}

#[test]
fn tables_are_rebuilt_when_due_and_pid_cache_expires() {
    let mut m = PidMapper::new(&vec![], &no_tables(), 0);
    assert!(!m.maybe_refresh_tables(SEC / 4));
    assert!(m.maybe_refresh_tables(SEC / 2));
    m.rebuild_table_indexes(&tables(), SEC / 2);
    assert!(!m.maybe_refresh_tables(SEC / 2 + 1));
    assert_eq!(m.lookup_pid(IpAddr::V6(1), 8080, IpAddr::V6(2), 9090, 6, true), Some(200));

    let info = ProcessInfo { name: String::from("app.exe"), path: String::from("C:\\apps\\app.exe") };
    assert_eq!(m.record_process_info(42, info), "app.exe");
    assert_eq!(m.get_process_name(42).as_deref(), Some("app.exe"));
    m.maybe_refresh_tables(59 * SEC);
    assert_eq!(m.get_process_name(42).as_deref(), Some("app.exe"));
    m.maybe_refresh_tables(60 * SEC);
    assert_eq!(m.get_process_name(42), None);
}

#[test]
fn service_pids_show_their_service_name() {
    let services = vec![service(880, Some("DNS Client"), Some("Dnscache"))];
    let mut m = PidMapper::new(&services, &no_tables(), 0);
    let info = ProcessInfo { name: String::from("svchost.exe"), path: String::from("C:\\Windows\\System32\\svchost.exe") };
    assert_eq!(m.record_process_info(880, info), "DNS Client");
    assert_eq!(m.get_process_name(880).as_deref(), Some("DNS Client"));
    assert_eq!(m.get_process_category(880, SEC), CategoryStep::Ready(ProcessCategory::Service));
}

#[test]
fn category_steps_ask_for_what_is_missing() {
    let mut m = PidMapper::new(&vec![], &no_tables(), 0);
    assert_eq!(m.get_process_category(0, 0), CategoryStep::Ready(ProcessCategory::System));
    assert_eq!(m.get_process_category(4, 100 * SEC), CategoryStep::Ready(ProcessCategory::System));
    assert_eq!(m.get_process_category(1234, SEC), CategoryStep::NeedsProcessInfo);
    assert_eq!(m.get_process_category(1234, 31 * SEC), CategoryStep::NeedsServiceRefresh);
    m.refresh_service_pids(&vec![service(77, Some("Print Spooler"), None)], 31 * SEC);
    assert_eq!(m.get_process_category(77, 31 * SEC), CategoryStep::Ready(ProcessCategory::Service));
    let info = process_info_from_path(1234, Some(String::from("C:\\Program Files\\App\\APP.EXE")));
    m.record_process_info(1234, info);
    assert_eq!(m.get_process_category(1234, 32 * SEC), CategoryStep::Ready(ProcessCategory::User));
    let win = process_info_from_path(555, Some(String::from("C:\\WINDOWS\\ImmersiveControlPanel\\SystemSettings.exe")));
    m.record_process_info(555, win);
    assert_eq!(m.get_process_category(555, 32 * SEC), CategoryStep::Ready(ProcessCategory::System));
    let unknown = process_info_from_path(556, None);
    m.record_process_info(556, unknown);
    assert_eq!(m.get_process_category(556, 32 * SEC), CategoryStep::Ready(ProcessCategory::Unknown));
    // categories are cached: a stale service list does not matter any more
    assert_eq!(m.get_process_category(1234, 1000 * SEC), CategoryStep::Ready(ProcessCategory::User));
}

#[test]
fn classify_by_path_examples() {
    assert_eq!(classify_by_path(""), ProcessCategory::Unknown);
    assert_eq!(classify_by_path("c:\\windows\\system32\\svchost.exe"), ProcessCategory::System);
    assert_eq!(classify_by_path("c:\\windows\\syswow64\\a.exe"), ProcessCategory::System);
    assert_eq!(classify_by_path("c:\\windows\\systemapps\\b.exe"), ProcessCategory::System);
    assert_eq!(classify_by_path("c:\\windows\\explorer.exe"), ProcessCategory::System);
    assert_eq!(classify_by_path("c:\\windows\\immersivecontrolpanel\\x.exe"), ProcessCategory::System);
    assert_eq!(classify_by_path("c:\\program files\\x\\x.exe"), ProcessCategory::User);
    assert_eq!(classify_by_path("c:\\windowsapps\\x.exe"), ProcessCategory::User);
    // the check is on lowercase paths
    assert_eq!(classify_by_path("C:\\WINDOWS\\x.exe"), ProcessCategory::User);
}

#[test]
fn process_names_come_from_paths() {
    let i = builtin_process_info(0).unwrap();
    assert_eq!((i.name.as_str(), i.path.as_str()), ("System Idle", ""));
    let i = builtin_process_info(4).unwrap();
    assert_eq!((i.name.as_str(), i.path.as_str()), ("System", "C:\\Windows\\System32\\ntoskrnl.exe"));
    assert!(builtin_process_info(8).is_none());
    let i = process_info_from_path(8, Some(String::from("C:\\Program Files\\Mozilla\\firefox.exe")));
    assert_eq!((i.name.as_str(), i.path.as_str()), ("firefox.exe", "C:\\Program Files\\Mozilla\\firefox.exe"));
    let i = process_info_from_path(8, Some(String::from("noslash.exe")));
    assert_eq!(i.name, "noslash.exe");
    let i = process_info_from_path(8, Some(String::from("C:\\dir\\")));
    assert_eq!(i.name, "");
    let i = process_info_from_path(4294967295, None);
    assert_eq!((i.name.as_str(), i.path.as_str()), ("PID:4294967295", ""));
    let i = process_info_from_path(7, Some(String::new()));
    assert_eq!((i.name.as_str(), i.path.as_str()), ("PID:7", ""));
}

#[test]
fn services_sharing_a_pid_are_joined() {
    let records = vec![
        service(0, Some("Idle"), None),
        service(900, Some("DCOM Server Process Launcher"), Some("DcomLaunch")),
        service(900, None, Some("PlugPlay")),
        service(900, Some(""), Some("Power")),
        service(901, None, None),
        service(902, Some("Windows Audio"), None),
    ];
    let m = merge_service_records(&records);
    assert_eq!(m.len(), 2);
    assert_eq!(m.get(&900).map(String::as_str), Some("DCOM Server Process Launcher, PlugPlay"));
    assert_eq!(m.get(&902).map(String::as_str), Some("Windows Audio"));
}

#[test]
fn joined_service_names_stop_growing_past_the_limit() {
    let long = "x".repeat(80);
    let records = vec![service(5, Some(&long), None), service(5, Some("More"), None)];
    let m = merge_service_records(&records);
    assert_eq!(m.get(&5).map(String::len), Some(80));
    let shorter = "y".repeat(79);
    let records = vec![service(5, Some(&shorter), None), service(5, Some("More"), None)];
    let m = merge_service_records(&records);
    assert_eq!(m.get(&5).map(String::len), Some(79 + 2 + 4));
}

#[test]
fn table_fields_are_read_in_network_byte_order() {
    // port 443 stored big-endian in the low two bytes of the field
    assert_eq!(row_port([0x01, 0xBB, 0x00, 0x00]), 443);
    assert_eq!(row_port([0xC3, 0x50, 0xFF, 0xFF]), 50000);
    assert_eq!(row_ipv4([192, 168, 1, 10]), 0xC0A8_010A);
    assert_eq!(row_ipv4([0, 0, 0, 1]), 1);
    let mut v6 = [0u8; 16];
    v6[0] = 0x20;
    v6[1] = 0x01;
    v6[15] = 0x01;
    assert_eq!(row_ipv6(v6), 0x2001_0000_0000_0000_0000_0000_0000_0001);
}
