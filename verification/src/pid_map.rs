//! Mapping of connections to owning processes, and of processes to their
//! display names and categories.
//!
//! The operating system is asked for its TCP/UDP connection tables, for
//! executable paths and for the running services; those answers reach
//! this module as plain values. Everything decided from them is here:
//! which connection belongs to which PID, which name a process is shown
//! under, which category it falls into, and when the cached answers are
//! stale.
use crate::flow::{elapsed, ProcessCategory};
use crate::fxmap::{conn_index_get, conn_index_insert, ConnTuple};
use crate::packet::{be_at, be_value, read_be, IpAddr, PROTO_TCP, PROTO_UDP};
use crate::text::{
    decimal, file_name_of, has_substring, last_segment, lowercase, push_decimal, str_contains,
    to_lowercase,
};
use rustc_hash::FxHashMap;
use std::collections::HashMap;
use vstd::prelude::*;
use vstd::string::*;
use vstd::utf8::{encode_scalar, encode_utf8};

verus! {

/// How often the cached TCP/UDP connection table indexes are rebuilt
/// (nanoseconds).
pub const TABLE_REFRESH_INTERVAL_NS: u64 = 500_000_000;

/// How long PID -> name/path/category answers are kept before they are
/// dropped, so that a PID the OS reuses gets fresh answers (nanoseconds).
pub const PID_CACHE_TTL_NS: u64 = 60_000_000_000;

/// How long the set of service PIDs is trusted before it is queried again
/// (nanoseconds).
pub const SERVICE_REFRESH_INTERVAL_NS: u64 = 30_000_000_000;

/// A merged service name is extended with further services of the same
/// PID only while it is shorter than this many bytes.
pub const SERVICE_NAME_JOIN_LIMIT: usize = 80;

/// Connection key: (local_ip, local_port, remote_ip, remote_port, protocol)
#[derive(Debug, Clone, Copy, PartialEq, Eq, Structural)]
pub struct ConnectionKey {
    pub local_ip: IpAddr,
    pub local_port: u16,
    pub remote_ip: IpAddr,
    pub remote_port: u16,
    pub protocol: u8,
}

/// One row of a TCP connection table (IPv4 addresses widened to `u128`).
#[derive(Debug, Clone, Copy, PartialEq, Eq, Structural)]
pub struct TcpRow {
    pub local_addr: u128,
    pub local_port: u16,
    pub remote_addr: u128,
    pub remote_port: u16,
    pub owning_pid: u32,
}

/// One row of a UDP endpoint table (IPv4 addresses widened to `u128`).
#[derive(Debug, Clone, Copy, PartialEq, Eq, Structural)]
pub struct UdpRow {
    pub local_addr: u128,
    pub local_port: u16,
    pub owning_pid: u32,
}

/// The four connection tables as the OS reported them; `None` where the
/// query failed.
pub struct ConnectionTables {
    pub tcp_v4: Option<Vec<TcpRow>>,
    pub tcp_v6: Option<Vec<TcpRow>>,
    pub udp_v4: Option<Vec<UdpRow>>,
    pub udp_v6: Option<Vec<UdpRow>>,
}

/// One running service as the service manager lists it. `None` stands for
/// a name the manager did not give; a name it gave that could not be
/// decoded is the empty string.
pub struct ServiceRecord {
    pub pid: u32,
    pub display_name: Option<String>,
    pub service_name: Option<String>,
}

/// A process's executable name and full path.
pub struct ProcessInfo {
    pub name: String,
    pub path: String,
}

/// What classifying a process needs next.
#[derive(Debug, Clone, Copy, PartialEq, Eq, Structural)]
pub enum CategoryStep {
    /// The category (now cached).
    Ready(ProcessCategory),
    /// The service PIDs are stale: query them and call
    /// [`PidMapper::refresh_service_pids`], then ask again.
    NeedsServiceRefresh,
    /// Neither name nor path of the process is known: query them and call
    /// [`PidMapper::record_process_info`], then ask again.
    NeedsProcessInfo,
}

/// Index key of a TCP row.
pub open spec fn tcp_key(r: TcpRow) -> ConnTuple {
    (r.local_addr, r.local_port, r.remote_addr, r.remote_port)
}

/// Index key of a UDP row: the local endpoint only.
pub open spec fn udp_key(r: UdpRow) -> ConnTuple {
    (r.local_addr, r.local_port, 0u128, 0u16)
}

/// The index built from TCP rows: each row binds its key to its PID, a
/// later row with the same key overriding an earlier one.
pub open spec fn tcp_index(rows: Seq<TcpRow>) -> Map<ConnTuple, u32>
    decreases rows.len(),
{
    if rows.len() == 0 {
        Map::empty()
    } else {
        tcp_index(rows.drop_last()).insert(tcp_key(rows.last()), rows.last().owning_pid)
    }
}

/// The index built from UDP rows (later rows override earlier ones).
pub open spec fn udp_index(rows: Seq<UdpRow>) -> Map<ConnTuple, u32>
    decreases rows.len(),
{
    if rows.len() == 0 {
        Map::empty()
    } else {
        udp_index(rows.drop_last()).insert(udp_key(rows.last()), rows.last().owning_pid)
    }
}

/// The index built from a TCP table; empty when the query failed.
pub open spec fn tcp_table_index(t: Option<Vec<TcpRow>>) -> Map<ConnTuple, u32> {
    match t {
        Some(rows) => tcp_index(rows@),
        None => Map::empty(),
    }
}

/// The index built from a UDP table; empty when the query failed.
pub open spec fn udp_table_index(t: Option<Vec<UdpRow>>) -> Map<ConnTuple, u32> {
    match t {
        Some(rows) => udp_index(rows@),
        None => Map::empty(),
    }
}

/// The text of a string-valued map.
pub open spec fn string_map(m: Map<u32, String>) -> Map<u32, Seq<char>> {
    m.map_values(|s: String| s@)
}

/// Length in bytes of the UTF-8 encoding of a text, as `str::len`
/// reports it.
pub open spec fn utf8_len(s: Seq<char>) -> usize {
    encode_utf8(s).len() as usize
}

/// The name a service record is listed under: its display name if the
/// manager gave one, else its service name.
pub open spec fn service_label(r: ServiceRecord) -> Option<Seq<char>> {
    match r.display_name {
        Some(d) => Some(d@),
        None => match r.service_name {
            Some(s) => Some(s@),
            None => None,
        },
    }
}

/// PID -> service name, from the service manager's records. Records of
/// PID 0 and records without a (non-empty) name are skipped; several
/// services of one PID are joined with ", " while the joined name is
/// shorter than [`SERVICE_NAME_JOIN_LIMIT`] bytes.
pub open spec fn spec_merge_services(recs: Seq<ServiceRecord>) -> Map<u32, Seq<char>>
    decreases recs.len(),
{
    if recs.len() == 0 {
        Map::empty()
    } else {
        let m = spec_merge_services(recs.drop_last());
        let r = recs.last();
        match service_label(r) {
            Some(l) => if r.pid == 0 || l.len() == 0 {
                m
            } else if m.contains_key(r.pid) {
                if utf8_len(m[r.pid]) < SERVICE_NAME_JOIN_LIMIT {
                    m.insert(r.pid, m[r.pid] + ", "@ + l)
                } else {
                    m
                }
            } else {
                m.insert(r.pid, l)
            },
            None => m,
        }
    }
}

/// The category a (lowercase) executable path puts a process in: nothing
/// known for an empty path, System under a `\windows\` directory, User
/// otherwise.
pub open spec fn spec_classify_by_path(path_lower: Seq<char>) -> ProcessCategory {
    if path_lower.len() == 0 {
        ProcessCategory::Unknown
    } else if has_substring(path_lower, "\\windows\\"@) {
        ProcessCategory::System
    } else {
        ProcessCategory::User
    }
}

/// Name and path of the processes the OS does not describe: PID 0 (idle)
/// and PID 4 (the kernel).
pub open spec fn spec_builtin_process(pid: u32) -> Option<(Seq<char>, Seq<char>)> {
    if pid == 0 {
        Some(("System Idle"@, ""@))
    } else if pid == 4 {
        Some(("System"@, "C:\\Windows\\System32\\ntoskrnl.exe"@))
    } else {
        None
    }
}

/// Name and path of a process from the executable path the OS reported:
/// the file name of a non-empty path, else "PID:<pid>" and no path.
pub open spec fn spec_process_from_path(pid: u32, full_path: Option<Seq<char>>) -> (
    Seq<char>,
    Seq<char>,
) {
    match full_path {
        Some(p) => if p.len() > 0 {
            (last_segment(p), p)
        } else {
            ("PID:"@ + decimal(pid as nat), ""@)
        },
        None => ("PID:"@ + decimal(pid as nat), ""@),
    }
}

/// The local and remote ends of a packet's connection.
pub open spec fn spec_connection_key(
    src_ip: IpAddr,
    src_port: u16,
    dst_ip: IpAddr,
    dst_port: u16,
    protocol: u8,
    outbound: bool,
) -> ConnectionKey {
    if outbound {
        ConnectionKey {
            local_ip: src_ip,
            local_port: src_port,
            remote_ip: dst_ip,
            remote_port: dst_port,
            protocol,
        }
    } else {
        ConnectionKey {
            local_ip: dst_ip,
            local_port: dst_port,
            remote_ip: src_ip,
            remote_port: src_port,
            protocol,
        }
    }
}

/// The abstract state of a [`PidMapper`].
pub struct PidMapperView {
    pub names: Map<u32, Seq<char>>,
    pub paths: Map<u32, Seq<char>>,
    pub categories: Map<u32, ProcessCategory>,
    pub pid_cache_last_clear: u64,
    pub services: Map<u32, Seq<char>>,
    pub services_last_refresh: u64,
    pub tcp_v4: Map<ConnTuple, u32>,
    pub tcp_v6: Map<ConnTuple, u32>,
    pub udp_v4: Map<ConnTuple, u32>,
    pub udp_v6: Map<ConnTuple, u32>,
    pub tables_last_refresh: u64,
}

/// `v` with its PID -> name/path/category caches emptied at `now`.
pub open spec fn spec_caches_cleared(v: PidMapperView, now: u64) -> PidMapperView {
    PidMapperView {
        names: Map::empty(),
        paths: Map::empty(),
        categories: Map::empty(),
        pid_cache_last_clear: now,
        ..v
    }
}

/// `v` after the expiry check of its process caches at `now`.
pub open spec fn spec_after_expiry(v: PidMapperView, now: u64) -> PidMapperView {
    if elapsed(now, v.pid_cache_last_clear) >= PID_CACHE_TTL_NS {
        spec_caches_cleared(v, now)
    } else {
        v
    }
}

/// `v` with its connection indexes rebuilt from `t` at `now`.
pub open spec fn spec_with_tables(v: PidMapperView, t: ConnectionTables, now: u64) -> PidMapperView {
    PidMapperView {
        tcp_v4: tcp_table_index(t.tcp_v4),
        tcp_v6: tcp_table_index(t.tcp_v6),
        udp_v4: udp_table_index(t.udp_v4),
        udp_v6: udp_table_index(t.udp_v6),
        tables_last_refresh: now,
        ..v
    }
}

/// `v` with its service PIDs replaced by those merged from `recs` at `now`.
pub open spec fn spec_with_services(v: PidMapperView, recs: Seq<ServiceRecord>, now: u64) -> PidMapperView {
    PidMapperView { services: spec_merge_services(recs), services_last_refresh: now, ..v }
}

/// The name a process with executable name `exe_name` is shown under:
/// its service name when it is a known service.
pub open spec fn spec_display_name(v: PidMapperView, pid: u32, exe_name: Seq<char>) -> Seq<char> {
    if v.services.contains_key(pid) {
        v.services[pid]
    } else {
        exe_name
    }
}

/// `v` with the name and path of `pid` cached.
pub open spec fn spec_with_process(
    v: PidMapperView,
    pid: u32,
    name: Seq<char>,
    path: Seq<char>,
) -> PidMapperView {
    PidMapperView { names: v.names.insert(pid, name), paths: v.paths.insert(pid, path), ..v }
}

/// `v` after classifying `pid` gave `step`: a category found is cached.
pub open spec fn spec_with_category(v: PidMapperView, pid: u32, step: CategoryStep) -> PidMapperView {
    match step {
        CategoryStep::Ready(c) => PidMapperView { categories: v.categories.insert(pid, c), ..v },
        _ => v,
    }
}

/// The PID that owns a connection, by the cached indexes of `v`.
pub open spec fn spec_lookup(v: PidMapperView, key: ConnectionKey) -> Option<u32> {
    match key.local_ip {
        IpAddr::V4(l) => match key.remote_ip {
            IpAddr::V4(r) => if key.protocol == PROTO_TCP {
                v.tcp_v4.get((l as u128, key.local_port, r as u128, key.remote_port))
            } else if key.protocol == PROTO_UDP {
                v.udp_v4.get((l as u128, key.local_port, 0u128, 0u16))
            } else {
                None
            },
            IpAddr::V6(_) => None,
        },
        IpAddr::V6(l) => match key.remote_ip {
            IpAddr::V6(r) => if key.protocol == PROTO_TCP {
                v.tcp_v6.get((l, key.local_port, r, key.remote_port))
            } else if key.protocol == PROTO_UDP {
                v.udp_v6.get((l, key.local_port, 0u128, 0u16))
            } else {
                None
            },
            IpAddr::V4(_) => None,
        },
    }
}

/// What classifying `pid` at `now` yields from the state `v`.
pub open spec fn spec_category_step(v: PidMapperView, pid: u32, now: u64) -> CategoryStep {
    if v.categories.contains_key(pid) {
        CategoryStep::Ready(v.categories[pid])
    } else if pid == 0 || pid == 4 {
        CategoryStep::Ready(ProcessCategory::System)
    } else if elapsed(now, v.services_last_refresh) > SERVICE_REFRESH_INTERVAL_NS {
        CategoryStep::NeedsServiceRefresh
    } else if v.services.contains_key(pid) {
        CategoryStep::Ready(ProcessCategory::Service)
    } else if !v.paths.contains_key(pid) {
        // a process whose name is cached without a path has nothing to
        // classify by
        if v.names.contains_key(pid) {
            CategoryStep::Ready(ProcessCategory::Unknown)
        } else {
            CategoryStep::NeedsProcessInfo
        }
    } else {
        CategoryStep::Ready(spec_classify_by_path(lowercase(v.paths[pid])))
    }
}

/// Caches PID -> process name, path, and category mappings, and the
/// TCP/UDP connection tables (refreshed periodically instead of per
/// packet).
pub struct PidMapper {
    /// PID -> display name
    process_names: HashMap<u32, String>,
    /// PID -> full executable path
    process_paths: HashMap<u32, String>,
    /// PID -> classification (User/System/Service/Unknown)
    process_categories: HashMap<u32, ProcessCategory>,
    /// When the PID -> name/path/category caches were last cleared.
    pid_cache_last_clear: u64,
    /// PID -> service name(s).
    service_pids: HashMap<u32, String>,
    /// When the service PIDs were last queried.
    service_pids_last_refresh: u64,
    tcp_v4_index: FxHashMap<ConnTuple, u32>,
    tcp_v6_index: FxHashMap<ConnTuple, u32>,
    udp_v4_index: FxHashMap<ConnTuple, u32>,
    udp_v6_index: FxHashMap<ConnTuple, u32>,
    /// When the connection indexes were last rebuilt.
    table_cache_last_refresh: u64,
}

impl View for PidMapper {
    type V = PidMapperView;

    closed spec fn view(&self) -> PidMapperView {
        PidMapperView {
            names: string_map(self.process_names@),
            paths: string_map(self.process_paths@),
            categories: self.process_categories@,
            pid_cache_last_clear: self.pid_cache_last_clear,
            services: string_map(self.service_pids@),
            services_last_refresh: self.service_pids_last_refresh,
            tcp_v4: self.tcp_v4_index@,
            tcp_v6: self.tcp_v6_index@,
            udp_v4: self.udp_v4_index@,
            udp_v6: self.udp_v6_index@,
            tables_last_refresh: self.table_cache_last_refresh,
        }
    }
}

/// Whether `needle` being present makes `prefix` present too.
proof fn lemma_substring_of_prefix(hay: Seq<char>, needle: Seq<char>, prefix: Seq<char>)
    requires
        has_substring(hay, needle),
        prefix.len() <= needle.len(),
        needle.subrange(0, prefix.len() as int) == prefix,
    ensures
        has_substring(hay, prefix),
{
    let i = choose|i: int|
        0 <= i && i + needle.len() <= hay.len() && #[trigger] hay.subrange(i, i + needle.len())
            == needle;
    assert(hay.subrange(i, i + prefix.len()) =~= needle.subrange(0, prefix.len() as int));
}

/// Classify process by executable path (lowercase).
/// Called only after the service check, so anything reaching here is not
/// a known service.
pub fn classify_by_path(path_lower: &str) -> (c: ProcessCategory)
    ensures
        c == spec_classify_by_path(path_lower@),
{
    if path_lower.is_empty() {
        return ProcessCategory::Unknown;
    }
    proof {
        reveal_strlit("\\windows\\");
        reveal_strlit("\\windows\\system32\\");
        reveal_strlit("\\windows\\syswow64\\");
        reveal_strlit("\\windows\\systemapps\\");
        reveal_strlit("\\windows\\explorer.exe");
    }
    // Anything under \Windows\ is a system process
    if str_contains(path_lower, "\\windows\\system32\\") || str_contains(
        path_lower,
        "\\windows\\syswow64\\",
    ) || str_contains(path_lower, "\\windows\\systemapps\\") || str_contains(
        path_lower,
        "\\windows\\explorer.exe",
    ) {
        proof {
            let p = "\\windows\\"@;
            if has_substring(path_lower@, "\\windows\\system32\\"@) {
                assert("\\windows\\system32\\"@.subrange(0, 9) =~= p);
                lemma_substring_of_prefix(path_lower@, "\\windows\\system32\\"@, p);
            } else if has_substring(path_lower@, "\\windows\\syswow64\\"@) {
                assert("\\windows\\syswow64\\"@.subrange(0, 9) =~= p);
                lemma_substring_of_prefix(path_lower@, "\\windows\\syswow64\\"@, p);
            } else if has_substring(path_lower@, "\\windows\\systemapps\\"@) {
                assert("\\windows\\systemapps\\"@.subrange(0, 9) =~= p);
                lemma_substring_of_prefix(path_lower@, "\\windows\\systemapps\\"@, p);
            } else {
                assert("\\windows\\explorer.exe"@.subrange(0, 9) =~= p);
                lemma_substring_of_prefix(path_lower@, "\\windows\\explorer.exe"@, p);
            }
        }
        return ProcessCategory::System;
    }
    // General \Windows\ catch-all (e.g. \Windows\ImmersiveControlPanel\)
    if str_contains(path_lower, "\\windows\\") {
        return ProcessCategory::System;
    }
    // Everything else is a user process
    ProcessCategory::User
}


/// Name and path of PID 0 (idle) and PID 4 (the kernel), which the OS
/// does not describe; `None` for every other PID.
pub fn builtin_process_info(pid: u32) -> (r: Option<ProcessInfo>)
    ensures
        match r {
            Some(info) => spec_builtin_process(pid) == Some((info.name@, info.path@)),
            None => spec_builtin_process(pid) is None,
        },
{
    proof {
        reveal_strlit("");
    }
    if pid == 0 {
        Some(ProcessInfo { name: String::from_str("System Idle"), path: String::new() })
    } else if pid == 4 {
        Some(
            ProcessInfo {
                name: String::from_str("System"),
                path: String::from_str("C:\\Windows\\System32\\ntoskrnl.exe"),
            },
        )
    } else {
        None
    }
}

/// Name and path of a process from the executable path the OS reported
/// for it (`None` when no query succeeded): the file name of the path,
/// or "PID:<pid>" with no path.
pub fn process_info_from_path(pid: u32, full_path: Option<String>) -> (r: ProcessInfo)
    ensures
        (r.name@, r.path@) == spec_process_from_path(
            pid,
            match full_path {
                Some(p) => Some(p@),
                None => None,
            },
        ),
{
    match full_path {
        Some(p) => {
            if !p.as_str().is_empty() {
                let name = file_name_of(p.as_str());
                return ProcessInfo { name, path: p };
            }
        },
        None => {},
    }
    proof {
        reveal_strlit("");
    }
    let mut name = String::from_str("PID:");
    push_decimal(&mut name, pid);
    ProcessInfo { name, path: String::new() }
}

/// PID -> service name from the service manager's records (see
/// [`spec_merge_services`]).
pub fn merge_service_records(records: &Vec<ServiceRecord>) -> (r: HashMap<u32, String>)
    ensures
        string_map(r@) == spec_merge_services(records@),
{
    let mut pid_names: HashMap<u32, String> = HashMap::new();
    let mut i: usize = 0;
    assert(records@.take(0) =~= Seq::<ServiceRecord>::empty());
    assert(string_map(pid_names@) =~= Map::<u32, Seq<char>>::empty());
    while i < records.len()
        invariant
            i <= records@.len(),
            string_map(pid_names@) == spec_merge_services(records@.take(i as int)),
        decreases records@.len() - i,
    {
        let rec = &records[i];
        let ghost before = string_map(pid_names@);
        assert(records@.take(i + 1).drop_last() =~= records@.take(i as int));
        assert(records@.take(i + 1).last() == *rec);
        // Prefer the display name; fall back to the service name.
        let label: Option<&String> = match &rec.display_name {
            Some(d) => Some(d),
            None => match &rec.service_name {
                Some(n) => Some(n),
                None => None,
            },
        };
        match label {
            Some(display) => {
                if rec.pid != 0 && !display.as_str().is_empty() {
                    // Several services can share a PID (svchost grouping).
                    match pid_names.remove(&rec.pid) {
                        Some(mut existing) => {
                            let ghost old_existing = existing@;
                            // Limit the joined length to keep the UI readable.
                            if existing.as_str().len() < SERVICE_NAME_JOIN_LIMIT {
                                existing.append(", ");
                                existing.append(display.as_str());
                            }
                            pid_names.insert(rec.pid, existing);
                            proof {
                                assert(before.contains_key(rec.pid));
                                assert(before[rec.pid] == old_existing);
                                assert(service_label(*rec) == Some(display@));
                                assert(string_map(pid_names@) =~= spec_merge_services(records@.take(i + 1)));
                            }
                        },
                        None => {
                            pid_names.insert(rec.pid, display.clone());
                            proof {
                                assert(!before.contains_key(rec.pid));
                                assert(string_map(pid_names@) =~= spec_merge_services(records@.take(i + 1)));
                            }
                        },
                    }
                }
            },
            None => {},
        }
        proof {
            assert(string_map(pid_names@) =~= spec_merge_services(records@.take(i + 1)));
        }
        i = i + 1;
    }
    assert(records@.take(records@.len() as int) =~= records@);
    pid_names
}

/// A port as the OS connection tables store it: the first two bytes in
/// memory of a 32-bit field, in network byte order. `field` holds the
/// field's bytes in memory order.
pub fn row_port(field: [u8; 4]) -> (p: u16)
    ensures
        p == be_at(field@, 0, 2),
{
    proof {
        reveal_with_fuel(crate::packet::pow256, 3);
    }
    read_be(field.as_slice(), 0, 2) as u16
}

/// An IPv4 address as the OS connection tables store it (network byte
/// order), widened for the index. `field` holds the field's bytes in
/// memory order.
pub fn row_ipv4(field: [u8; 4]) -> (a: u128)
    ensures
        a == be_value(field@),
        a < 0x1_0000_0000,
{
    proof {
        reveal_with_fuel(crate::packet::pow256, 5);
        assert(field@.subrange(0, 4) =~= field@);
    }
    read_be(field.as_slice(), 0, 4)
}

/// An IPv6 address as the OS connection tables store it (its 16 octets in
/// network order).
pub fn row_ipv6(field: [u8; 16]) -> (a: u128)
    ensures
        a == be_value(field@),
{
    proof {
        assert(field@.subrange(0, 16) =~= field@);
    }
    read_be(field.as_slice(), 0, 16)
}

/// Fills a connection index from a TCP table.
fn fill_tcp_index(index: &mut FxHashMap<ConnTuple, u32>, table: &Option<Vec<TcpRow>>)
    ensures
        final(index)@ == tcp_table_index(*table),
{
    index.clear();
    match table {
        Some(rows) => {
            index.reserve(rows.len());
            let mut i: usize = 0;
            assert(rows@.take(0) =~= Seq::<TcpRow>::empty());
            while i < rows.len()
                invariant
                    i <= rows@.len(),
                    index@ == tcp_index(rows@.take(i as int)),
                decreases rows@.len() - i,
            {
                let row = rows[i];
                assert(rows@.take(i + 1).drop_last() =~= rows@.take(i as int));
                conn_index_insert(
                    index,
                    (row.local_addr, row.local_port, row.remote_addr, row.remote_port),
                    row.owning_pid,
                );
                i = i + 1;
            }
            assert(rows@.take(rows@.len() as int) =~= rows@);
        },
        None => {},
    }
}

/// Fills a connection index from a UDP table.
fn fill_udp_index(index: &mut FxHashMap<ConnTuple, u32>, table: &Option<Vec<UdpRow>>)
    ensures
        final(index)@ == udp_table_index(*table),
{
    index.clear();
    match table {
        Some(rows) => {
            index.reserve(rows.len());
            let mut i: usize = 0;
            assert(rows@.take(0) =~= Seq::<UdpRow>::empty());
            while i < rows.len()
                invariant
                    i <= rows@.len(),
                    index@ == udp_index(rows@.take(i as int)),
                decreases rows@.len() - i,
            {
                let row = rows[i];
                assert(rows@.take(i + 1).drop_last() =~= rows@.take(i as int));
                conn_index_insert(index, (row.local_addr, row.local_port, 0u128, 0u16), row.owning_pid);
                i = i + 1;
            }
            assert(rows@.take(rows@.len() as int) =~= rows@);
        },
        None => {},
    }
}

/// The local and remote ends of a packet's connection: the source is
/// local for an outbound packet, the destination for an inbound one.
pub fn connection_key(
    src_ip: IpAddr,
    src_port: u16,
    dst_ip: IpAddr,
    dst_port: u16,
    protocol: u8,
    outbound: bool,
) -> (k: ConnectionKey)
    ensures
        k == spec_connection_key(src_ip, src_port, dst_ip, dst_port, protocol, outbound),
{
    if outbound {
        ConnectionKey {
            local_ip: src_ip,
            local_port: src_port,
            remote_ip: dst_ip,
            remote_port: dst_port,
            protocol,
        }
    } else {
        ConnectionKey {
            local_ip: dst_ip,
            local_port: dst_port,
            remote_ip: src_ip,
            remote_port: src_port,
            protocol,
        }
    }
}

impl PidMapper {
    /// A mapper with empty process caches, the services merged from
    /// `services`, and the connection indexes built from `tables`, all
    /// taken at `now`.
    pub fn new(services: &Vec<ServiceRecord>, tables: &ConnectionTables, now: u64) -> (r: Self)
        ensures
            r@.names == Map::<u32, Seq<char>>::empty(),
            r@.paths == Map::<u32, Seq<char>>::empty(),
            r@.categories == Map::<u32, ProcessCategory>::empty(),
            r@.pid_cache_last_clear == now,
            r@.services == spec_merge_services(services@),
            r@.services_last_refresh == now,
            r@.tcp_v4 == tcp_table_index(tables.tcp_v4),
            r@.tcp_v6 == tcp_table_index(tables.tcp_v6),
            r@.udp_v4 == udp_table_index(tables.udp_v4),
            r@.udp_v6 == udp_table_index(tables.udp_v6),
            r@.tables_last_refresh == now,
    {
        let service_pids = merge_service_records(services);
        let mut mapper = PidMapper {
            process_names: HashMap::new(),
            process_paths: HashMap::new(),
            process_categories: HashMap::new(),
            pid_cache_last_clear: now,
            service_pids,
            service_pids_last_refresh: now,
            tcp_v4_index: FxHashMap::default(),
            tcp_v6_index: FxHashMap::default(),
            udp_v4_index: FxHashMap::default(),
            udp_v6_index: FxHashMap::default(),
            table_cache_last_refresh: now,
        };
        mapper.rebuild_table_indexes(tables, now);
        assert(mapper@.names =~= Map::<u32, Seq<char>>::empty());
        assert(mapper@.paths =~= Map::<u32, Seq<char>>::empty());
        mapper
    }

    /// Called once per processing cycle. Drops the PID -> name/path/category
    /// caches once they are [`PID_CACHE_TTL_NS`] old (so that reused PIDs
    /// get fresh answers), and reports whether the connection indexes are
    /// [`TABLE_REFRESH_INTERVAL_NS`] old, in which case the caller queries
    /// the tables and hands them to [`PidMapper::rebuild_table_indexes`].
    pub fn maybe_refresh_tables(&mut self, now: u64) -> (due: bool)
        ensures
            due == (elapsed(now, old(self)@.tables_last_refresh) >= TABLE_REFRESH_INTERVAL_NS),
            final(self)@ == spec_after_expiry(old(self)@, now),
    {
        let due = now.saturating_sub(self.table_cache_last_refresh) >= TABLE_REFRESH_INTERVAL_NS;
        if now.saturating_sub(self.pid_cache_last_clear) >= PID_CACHE_TTL_NS {
            self.process_names.clear();
            self.process_paths.clear();
            self.process_categories.clear();
            self.pid_cache_last_clear = now;
            assert(self@.names =~= Map::<u32, Seq<char>>::empty());
            assert(self@.paths =~= Map::<u32, Seq<char>>::empty());
        }
        due
    }

    /// Rebuilds the four connection indexes from the tables the OS reported
    /// at `now` (an index whose query failed is left empty).
    pub fn rebuild_table_indexes(&mut self, tables: &ConnectionTables, now: u64)
        ensures
            final(self)@ == spec_with_tables(old(self)@, *tables, now),
    {
        fill_tcp_index(&mut self.tcp_v4_index, &tables.tcp_v4);
        fill_tcp_index(&mut self.tcp_v6_index, &tables.tcp_v6);
        fill_udp_index(&mut self.udp_v4_index, &tables.udp_v4);
        fill_udp_index(&mut self.udp_v6_index, &tables.udp_v6);
        self.table_cache_last_refresh = now;
    }

    /// Replaces the service PIDs with those merged from `services`, queried
    /// at `now`.
    pub fn refresh_service_pids(&mut self, services: &Vec<ServiceRecord>, now: u64)
        ensures
            final(self)@ == spec_with_services(old(self)@, services@, now),
    {
        self.service_pids = merge_service_records(services);
        self.service_pids_last_refresh = now;
    }

    /// Look up the PID that owns the connection of a packet, by matching
    /// (local ip, local port, remote ip, remote port, protocol) against the
    /// cached TCP/UDP indexes (UDP by the local endpoint alone).
    pub fn lookup_pid(
        &self,
        src_ip: IpAddr,
        src_port: u16,
        dst_ip: IpAddr,
        dst_port: u16,
        protocol: u8,
        outbound: bool,
    ) -> (r: Option<u32>)
        ensures
            r == spec_lookup(
                self@,
                spec_connection_key(src_ip, src_port, dst_ip, dst_port, protocol, outbound),
            ),
    {
        let key = connection_key(src_ip, src_port, dst_ip, dst_port, protocol, outbound);
        match (key.local_ip, key.remote_ip) {
            (IpAddr::V4(l), IpAddr::V4(r)) => {
                if key.protocol == PROTO_TCP {
                    self.lookup_tcp_v4_pid(l, key.local_port, r, key.remote_port)
                } else if key.protocol == PROTO_UDP {
                    self.lookup_udp_v4_pid(l, key.local_port)
                } else {
                    None
                }
            },
            (IpAddr::V6(l), IpAddr::V6(r)) => {
                if key.protocol == PROTO_TCP {
                    self.lookup_tcp_v6_pid(l, key.local_port, r, key.remote_port)
                } else if key.protocol == PROTO_UDP {
                    self.lookup_udp_v6_pid(l, key.local_port)
                } else {
                    None
                }
            },
            _ => None,
        }
    }

    /// IPv4 TCP PID lookup from the cached index.
    fn lookup_tcp_v4_pid(&self, local_ip: u32, local_port: u16, remote_ip: u32, remote_port: u16) -> (r: Option<u32>)
        ensures
            r == self@.tcp_v4.get((local_ip as u128, local_port, remote_ip as u128, remote_port)),
    {
        conn_index_get(&self.tcp_v4_index, &(local_ip as u128, local_port, remote_ip as u128, remote_port))
    }

    /// IPv6 TCP PID lookup from the cached index.
    fn lookup_tcp_v6_pid(&self, local_ip: u128, local_port: u16, remote_ip: u128, remote_port: u16) -> (r: Option<u32>)
        ensures
            r == self@.tcp_v6.get((local_ip, local_port, remote_ip, remote_port)),
    {
        conn_index_get(&self.tcp_v6_index, &(local_ip, local_port, remote_ip, remote_port))
    }

    /// IPv4 UDP PID lookup from the cached index (local endpoint only).
    fn lookup_udp_v4_pid(&self, local_ip: u32, local_port: u16) -> (r: Option<u32>)
        ensures
            r == self@.udp_v4.get((local_ip as u128, local_port, 0u128, 0u16)),
    {
        conn_index_get(&self.udp_v4_index, &(local_ip as u128, local_port, 0u128, 0u16))
    }

    /// IPv6 UDP PID lookup from the cached index (local endpoint only).
    fn lookup_udp_v6_pid(&self, local_ip: u128, local_port: u16) -> (r: Option<u32>)
        ensures
            r == self@.udp_v6.get((local_ip, local_port, 0u128, 0u16)),
    {
        conn_index_get(&self.udp_v6_index, &(local_ip, local_port, 0u128, 0u16))
    }

    /// The cached display name of `pid`; `None` when the caller has to
    /// query the process and hand it to
    /// [`PidMapper::record_process_info`].
    pub fn get_process_name(&self, pid: u32) -> (r: Option<String>)
        ensures
            match r {
                Some(n) => self@.names.contains_key(pid) && n@ == self@.names[pid],
                None => !self@.names.contains_key(pid),
            },
    {
        match self.process_names.get(&pid) {
            Some(n) => Some(n.clone()),
            None => None,
        }
    }

    /// Caches the name and path the OS reported for `pid` and returns the
    /// name the process is shown under: the service name for a service
    /// PID (e.g. "DNS Client" instead of "svchost.exe"), else its
    /// executable name.
    pub fn record_process_info(&mut self, pid: u32, info: ProcessInfo) -> (display: String)
        ensures
            display@ == spec_display_name(old(self)@, pid, info.name@),
            final(self)@ == spec_with_process(old(self)@, pid, display@, info.path@),
    {
        let display = match self.service_pids.get(&pid) {
            Some(service_name) => service_name.clone(),
            None => info.name,
        };
        self.process_names.insert(pid, display.clone());
        self.process_paths.insert(pid, info.path);
        proof {
            assert(self@.names =~= old(self)@.names.insert(pid, display@));
            assert(self@.paths =~= old(self)@.paths.insert(pid, info.path@));
        }
        display
    }

    /// Classify a process (cached). Priority: PIDs 0 and 4 are System,
    /// then the service check, then the executable path; see
    /// [`spec_category_step`] for what has to be queried first.
    pub fn get_process_category(&mut self, pid: u32, now: u64) -> (r: CategoryStep)
        ensures
            r == spec_category_step(old(self)@, pid, now),
            final(self)@ == spec_with_category(old(self)@, pid, r),
    {
        // Return cached category if available
        match self.process_categories.get(&pid) {
            Some(c) => {
                assert(self@.categories.insert(pid, *c) =~= self@.categories);
                return CategoryStep::Ready(*c);
            },
            None => {},
        }
        let step = self.classify_pid(pid, now);
        match step {
            CategoryStep::Ready(c) => {
                self.process_categories.insert(pid, c);
            },
            _ => {},
        }
        step
    }

    /// Core classification logic (without the cache of categories).
    fn classify_pid(&self, pid: u32, now: u64) -> (r: CategoryStep)
        requires
            !self@.categories.contains_key(pid),
        ensures
            r == spec_category_step(self@, pid, now),
    {
        // PID 0 and 4 are always system
        if pid == 0 || pid == 4 {
            return CategoryStep::Ready(ProcessCategory::System);
        }
        if now.saturating_sub(self.service_pids_last_refresh) > SERVICE_REFRESH_INTERVAL_NS {
            return CategoryStep::NeedsServiceRefresh;
        }
        // 1) Is this PID a Windows service?
        if self.service_pids.contains_key(&pid) {
            return CategoryStep::Ready(ProcessCategory::Service);
        }
        // 2) Under a Windows directory?
        match self.process_paths.get(&pid) {
            Some(p) => {
                let lower = to_lowercase(p.as_str());
                CategoryStep::Ready(classify_by_path(lower.as_str()))
            },
            None => {
                if self.process_names.contains_key(&pid) {
                    CategoryStep::Ready(ProcessCategory::Unknown)
                } else {
                    CategoryStep::NeedsProcessInfo
                }
            },
        }
    }
}

/// A packet and its reply (source and destination swapped, direction
/// reversed) are attributed to the same process.
pub proof fn law_reply_has_same_owner(
    v: PidMapperView,
    a: IpAddr,
    a_port: u16,
    b: IpAddr,
    b_port: u16,
    protocol: u8,
)
    ensures
        spec_lookup(v, spec_connection_key(a, a_port, b, b_port, protocol, true)) == spec_lookup(
            v,
            spec_connection_key(b, b_port, a, a_port, protocol, false),
        ),
{
}

/// In the index built from TCP rows, the key of a row is bound to that
/// row's PID unless a later row has the same key.
pub proof fn law_tcp_row_is_found(rows: Seq<TcpRow>, i: int)
    requires
        0 <= i < rows.len(),
        forall|j: int| i < j < rows.len() ==> tcp_key(#[trigger] rows[j]) != tcp_key(rows[i]),
    ensures
        tcp_index(rows).get(tcp_key(rows[i])) == Some(rows[i].owning_pid),
    decreases rows.len(),
{
    if i < rows.len() - 1 {
        law_tcp_row_is_found(rows.drop_last(), i);
        assert(tcp_key(rows[rows.len() - 1]) != tcp_key(rows[i]));
    }
}

/// In the index built from TCP rows, a key that no row has is unbound.
pub proof fn law_tcp_key_without_row_is_absent(rows: Seq<TcpRow>, key: ConnTuple)
    requires
        forall|j: int| 0 <= j < rows.len() ==> tcp_key(#[trigger] rows[j]) != key,
    ensures
        !tcp_index(rows).contains_key(key),
    decreases rows.len(),
{
    if rows.len() > 0 {
        law_tcp_key_without_row_is_absent(rows.drop_last(), key);
        assert(tcp_key(rows[rows.len() - 1]) != key);
    }
}

/// In the index built from UDP rows, the key of a row is bound to that
/// row's PID unless a later row has the same key.
pub proof fn law_udp_row_is_found(rows: Seq<UdpRow>, i: int)
    requires
        0 <= i < rows.len(),
        forall|j: int| i < j < rows.len() ==> udp_key(#[trigger] rows[j]) != udp_key(rows[i]),
    ensures
        udp_index(rows).get(udp_key(rows[i])) == Some(rows[i].owning_pid),
    decreases rows.len(),
{
    if i < rows.len() - 1 {
        law_udp_row_is_found(rows.drop_last(), i);
        assert(udp_key(rows[rows.len() - 1]) != udp_key(rows[i]));
    }
}

/// In the index built from UDP rows, a key that no row has is unbound.
pub proof fn law_udp_key_without_row_is_absent(rows: Seq<UdpRow>, key: ConnTuple)
    requires
        forall|j: int| 0 <= j < rows.len() ==> udp_key(#[trigger] rows[j]) != key,
    ensures
        !udp_index(rows).contains_key(key),
    decreases rows.len(),
{
    if rows.len() > 0 {
        law_udp_key_without_row_is_absent(rows.drop_last(), key);
        assert(udp_key(rows[rows.len() - 1]) != key);
    }
}

/// After the indexes are rebuilt from tables whose IPv4 TCP table holds a
/// row for local `l:lp` and remote `r:rp` (and no later row for the same
/// endpoints), an outbound TCP packet from `l:lp` to `r:rp` is attributed
/// to that row's PID.
pub proof fn law_rebuilt_tcp_v4_row_owns_its_packets(
    v: PidMapperView,
    tables: ConnectionTables,
    now: u64,
    i: int,
    l: u32,
    lp: u16,
    r: u32,
    rp: u16,
)
    requires
        tables.tcp_v4 is Some,
        0 <= i < tables.tcp_v4->0@.len(),
        tcp_key(tables.tcp_v4->0@[i]) == (l as u128, lp, r as u128, rp),
        forall|j: int|
            i < j < tables.tcp_v4->0@.len() ==> tcp_key(#[trigger] tables.tcp_v4->0@[j]) != (
                l as u128,
                lp,
                r as u128,
                rp,
            ),
    ensures
        spec_lookup(
            spec_with_tables(v, tables, now),
            spec_connection_key(IpAddr::V4(l), lp, IpAddr::V4(r), rp, PROTO_TCP, true),
        ) == Some(tables.tcp_v4->0@[i].owning_pid),
{
    law_tcp_row_is_found(tables.tcp_v4->0@, i);
}

/// After the indexes are rebuilt from tables whose IPv6 TCP table holds a
/// row for local `l:lp` and remote `r:rp` (and no later row for the same
/// endpoints), an outbound TCP packet from `l:lp` to `r:rp` is attributed
/// to that row's PID.
pub proof fn law_rebuilt_tcp_v6_row_owns_its_packets(
    v: PidMapperView,
    tables: ConnectionTables,
    now: u64,
    i: int,
    l: u128,
    lp: u16,
    r: u128,
    rp: u16,
)
    requires
        tables.tcp_v6 is Some,
        0 <= i < tables.tcp_v6->0@.len(),
        tcp_key(tables.tcp_v6->0@[i]) == (l, lp, r, rp),
        forall|j: int|
            i < j < tables.tcp_v6->0@.len() ==> tcp_key(#[trigger] tables.tcp_v6->0@[j]) != (
                l,
                lp,
                r,
                rp,
            ),
    ensures
        spec_lookup(
            spec_with_tables(v, tables, now),
            spec_connection_key(IpAddr::V6(l), lp, IpAddr::V6(r), rp, PROTO_TCP, true),
        ) == Some(tables.tcp_v6->0@[i].owning_pid),
{
    law_tcp_row_is_found(tables.tcp_v6->0@, i);
}

/// After the indexes are rebuilt from tables whose IPv4 UDP table holds a
/// row for local `l:lp` (and no later row for it), every outbound UDP
/// packet from `l:lp` is attributed to that row's PID, whatever its
/// destination.
pub proof fn law_rebuilt_udp_v4_row_owns_its_packets(
    v: PidMapperView,
    tables: ConnectionTables,
    now: u64,
    i: int,
    l: u32,
    lp: u16,
    r: u32,
    rp: u16,
)
    requires
        tables.udp_v4 is Some,
        0 <= i < tables.udp_v4->0@.len(),
        udp_key(tables.udp_v4->0@[i]) == (l as u128, lp, 0u128, 0u16),
        forall|j: int|
            i < j < tables.udp_v4->0@.len() ==> udp_key(#[trigger] tables.udp_v4->0@[j]) != (
                l as u128,
                lp,
                0u128,
                0u16,
            ),
    ensures
        spec_lookup(
            spec_with_tables(v, tables, now),
            spec_connection_key(IpAddr::V4(l), lp, IpAddr::V4(r), rp, PROTO_UDP, true),
        ) == Some(tables.udp_v4->0@[i].owning_pid),
{
    law_udp_row_is_found(tables.udp_v4->0@, i);
}

/// After the indexes are rebuilt from tables whose IPv6 UDP table holds a
/// row for local `l:lp` (and no later row for it), every outbound UDP
/// packet from `l:lp` is attributed to that row's PID, whatever its
/// destination.
pub proof fn law_rebuilt_udp_v6_row_owns_its_packets(
    v: PidMapperView,
    tables: ConnectionTables,
    now: u64,
    i: int,
    l: u128,
    lp: u16,
    r: u128,
    rp: u16,
)
    requires
        tables.udp_v6 is Some,
        0 <= i < tables.udp_v6->0@.len(),
        udp_key(tables.udp_v6->0@[i]) == (l, lp, 0u128, 0u16),
        forall|j: int|
            i < j < tables.udp_v6->0@.len() ==> udp_key(#[trigger] tables.udp_v6->0@[j]) != (
                l,
                lp,
                0u128,
                0u16,
            ),
    ensures
        spec_lookup(
            spec_with_tables(v, tables, now),
            spec_connection_key(IpAddr::V6(l), lp, IpAddr::V6(r), rp, PROTO_UDP, true),
        ) == Some(tables.udp_v6->0@[i].owning_pid),
{
    law_udp_row_is_found(tables.udp_v6->0@, i);
}

/// After the indexes are rebuilt from tables whose IPv4 TCP table has no
/// row for local `l:lp` and remote `r:rp`, an outbound TCP packet from
/// `l:lp` to `r:rp` belongs to no process.
pub proof fn law_rebuilt_tcp_v4_without_row_owns_nothing(
    v: PidMapperView,
    tables: ConnectionTables,
    now: u64,
    l: u32,
    lp: u16,
    r: u32,
    rp: u16,
)
    requires
        tables.tcp_v4 is Some ==> forall|j: int|
            0 <= j < tables.tcp_v4->0@.len() ==> tcp_key(#[trigger] tables.tcp_v4->0@[j]) != (
                l as u128,
                lp,
                r as u128,
                rp,
            ),
    ensures
        spec_lookup(
            spec_with_tables(v, tables, now),
            spec_connection_key(IpAddr::V4(l), lp, IpAddr::V4(r), rp, PROTO_TCP, true),
        ) is None,
{
    if tables.tcp_v4 is Some {
        law_tcp_key_without_row_is_absent(tables.tcp_v4->0@, (l as u128, lp, r as u128, rp));
    }
}

/// Once a PID's category is found it is the answer again, at any later
/// time, until the caches are cleared.
pub proof fn law_found_category_is_kept(v: PidMapperView, pid: u32, now: u64, later: u64)
    requires
        spec_category_step(v, pid, now) is Ready,
    ensures
        spec_category_step(spec_with_category(v, pid, spec_category_step(v, pid, now)), pid, later)
            == spec_category_step(v, pid, now),
{
}

/// The name recorded for a process is the one then read back for it.
pub proof fn law_recorded_name_is_read_back(
    v: PidMapperView,
    pid: u32,
    name: Seq<char>,
    path: Seq<char>,
)
    ensures
        spec_with_process(v, pid, name, path).names.contains_key(pid),
        spec_with_process(v, pid, name, path).names[pid] == name,
        spec_with_process(v, pid, name, path).paths[pid] == path,
{
}

/// Once the PID cache has expired, no name, path or category is known, so
/// every process is queried again.
pub proof fn law_expired_caches_forget_processes(v: PidMapperView, now: u64, pid: u32)
    requires
        elapsed(now, v.pid_cache_last_clear) >= PID_CACHE_TTL_NS,
    ensures
        !spec_after_expiry(v, now).names.contains_key(pid),
        !spec_after_expiry(v, now).paths.contains_key(pid),
        !spec_after_expiry(v, now).categories.contains_key(pid),
{
}

/// One call on a mapper, with its arguments, as far as its state is
/// concerned.
pub enum MapperCall {
    RecordProcessInfo { pid: u32, name: Seq<char>, path: Seq<char> },
    GetProcessCategory { pid: u32, now: u64 },
    RefreshServicePids { services: Seq<ServiceRecord>, now: u64 },
    RebuildTableIndexes { tables: ConnectionTables, now: u64 },
    MaybeRefreshTables { now: u64 },
}

/// `b` is what `a` becomes by the call `c`: the states that the
/// mapper's methods promise.
pub open spec fn mapper_step(a: PidMapperView, b: PidMapperView, c: MapperCall) -> bool {
    match c {
        MapperCall::RecordProcessInfo { pid, name, path } => b == spec_with_process(
            a,
            pid,
            spec_display_name(a, pid, name),
            path,
        ),
        MapperCall::GetProcessCategory { pid, now } => b == spec_with_category(
            a,
            pid,
            spec_category_step(a, pid, now),
        ),
        MapperCall::RefreshServicePids { services, now } => b == spec_with_services(a, services, now),
        MapperCall::RebuildTableIndexes { tables, now } => b == spec_with_tables(a, tables, now),
        MapperCall::MaybeRefreshTables { now } => b == spec_after_expiry(a, now),
    }
}

/// The call records process information for `pid`.
pub open spec fn records_info_for(c: MapperCall, pid: u32) -> bool {
    c matches MapperCall::RecordProcessInfo { pid: p, .. } && p == pid
}

/// The call, made in state `a`, empties the process caches.
pub open spec fn expires_caches(c: MapperCall, a: PidMapperView) -> bool {
    c matches MapperCall::MaybeRefreshTables { now } && elapsed(now, a.pid_cache_last_clear)
        >= PID_CACHE_TTL_NS
}

/// A cached process name (and path) stays what it was until the caches
/// expire: over any run of calls that records no new information for
/// `pid` and does not empty the caches, `get_process_name(pid)` keeps
/// answering the same name, however the OS would now describe the PID.
pub proof fn law_cached_name_is_kept(calls: Seq<MapperCall>, states: Seq<PidMapperView>, pid: u32)
    requires
        states.len() == calls.len() + 1,
        forall|i: int|
            0 <= i < calls.len() ==> mapper_step(states[i], states[i + 1], #[trigger] calls[i]),
        forall|i: int| 0 <= i < calls.len() ==> !records_info_for(#[trigger] calls[i], pid),
        forall|i: int| 0 <= i < calls.len() ==> !expires_caches(#[trigger] calls[i], states[i]),
    ensures
        states.last().names.get(pid) == states[0].names.get(pid),
        states.last().paths.get(pid) == states[0].paths.get(pid),
    decreases calls.len(),
{
    if calls.len() > 0 {
        let n = calls.len() - 1;
        law_cached_name_is_kept(calls.drop_last(), states.drop_last(), pid);
        let c = calls[n];
        let a = states[n];
        let b = states[n + 1];
        assert(mapper_step(a, b, c));
        assert(!records_info_for(c, pid));
        assert(!expires_caches(c, a));
        assert(states.drop_last().last() == a);
        match c {
            MapperCall::RecordProcessInfo { pid: p, name, path } => {
                assert(p != pid);
                assert(b.names.get(pid) == a.names.get(pid));
                assert(b.paths.get(pid) == a.paths.get(pid));
            },
            MapperCall::MaybeRefreshTables { now } => {
                assert(b == a);
            },
            _ => {},
        }
    }
}

/// The non-empty names of the services that `recs` lists for `pid`, in
/// the order of the records.
pub open spec fn service_names_of(recs: Seq<ServiceRecord>, pid: u32) -> Seq<Seq<char>>
    decreases recs.len(),
{
    if recs.len() == 0 {
        Seq::empty()
    } else {
        let earlier = service_names_of(recs.drop_last(), pid);
        match service_label(recs.last()) {
            Some(l) => if recs.last().pid == pid && l.len() > 0 {
                earlier.push(l)
            } else {
                earlier
            },
            None => earlier,
        }
    }
}

/// Service names joined as one label: the first name, then ", " and each
/// further name for as long as the label built so far is shorter than
/// [`SERVICE_NAME_JOIN_LIMIT`] bytes.
pub open spec fn join_service_names(names: Seq<Seq<char>>) -> Seq<char>
    decreases names.len(),
{
    if names.len() == 0 {
        Seq::empty()
    } else if names.len() == 1 {
        names[0]
    } else {
        let so_far = join_service_names(names.drop_last());
        if utf8_len(so_far) < SERVICE_NAME_JOIN_LIMIT {
            so_far + ", "@ + names.last()
        } else {
            so_far
        }
    }
}

/// The service map lists a PID other than 0 exactly when the records name
/// at least one service for it, and then under the names of all its
/// services joined in record order by ", ", each further name appended
/// while the label so far is shorter than [`SERVICE_NAME_JOIN_LIMIT`]
/// bytes; PID 0 is never listed.
pub proof fn law_services_sharing_a_pid_are_joined(recs: Seq<ServiceRecord>, pid: u32)
    ensures
        spec_merge_services(recs).contains_key(pid) <==> (pid != 0 && service_names_of(recs, pid).len()
            > 0),
        spec_merge_services(recs).contains_key(pid) ==> spec_merge_services(recs)[pid]
            == join_service_names(service_names_of(recs, pid)),
    decreases recs.len(),
{
    if recs.len() > 0 {
        law_services_sharing_a_pid_are_joined(recs.drop_last(), pid);
        let prev = service_names_of(recs.drop_last(), pid);
        match service_label(recs.last()) {
            Some(l) => {
                if recs.last().pid == pid && l.len() > 0 {
                    assert(prev.push(l).drop_last() =~= prev);
                }
            },
            None => {},
        }
    }
}

/// A PID on a fresh service list (refreshed at most
/// [`SERVICE_REFRESH_INTERVAL_NS`] ago) whose category is not cached yet is
/// classified as a Service, whatever executable path is cached for it; only
/// PIDs 0 and 4 come before the service check.
pub proof fn law_listed_service_is_classified_as_service(v: PidMapperView, pid: u32, now: u64)
    requires
        !v.categories.contains_key(pid),
        pid != 0,
        pid != 4,
        elapsed(now, v.services_last_refresh) <= SERVICE_REFRESH_INTERVAL_NS,
        v.services.contains_key(pid),
    ensures
        spec_category_step(v, pid, now) == CategoryStep::Ready(ProcessCategory::Service),
        spec_with_category(v, pid, spec_category_step(v, pid, now)).categories[pid]
            == ProcessCategory::Service,
{
}

/// A PID on the service list is shown under its service name whatever
/// executable name the OS reported for it, and recording its process
/// information caches that service name for it.
pub proof fn law_service_pid_is_named_by_its_service(
    v: PidMapperView,
    pid: u32,
    exe_name: Seq<char>,
    path: Seq<char>,
)
    requires
        v.services.contains_key(pid),
    ensures
        spec_display_name(v, pid, exe_name) == v.services[pid],
        spec_with_process(v, pid, spec_display_name(v, pid, exe_name), path).names[pid]
            == v.services[pid],
{
}


/// Service names joined by ", " with no limit.
pub open spec fn join_all_names(names: Seq<Seq<char>>) -> Seq<char>
    decreases names.len(),
{
    if names.len() == 0 {
        Seq::empty()
    } else if names.len() == 1 {
        names[0]
    } else {
        join_all_names(names.drop_last()) + ", "@ + names.last()
    }
}

/// The UTF-8 encoding of two texts one after the other is the two
/// encodings one after the other.
proof fn lemma_encode_utf8_concat(a: Seq<char>, b: Seq<char>)
    ensures
        encode_utf8(a + b) == encode_utf8(a) + encode_utf8(b),
    decreases a.len(),
{
    if a.len() == 0 {
        assert(a + b =~= b);
        assert(encode_utf8(a) + encode_utf8(b) =~= encode_utf8(b));
    } else {
        lemma_encode_utf8_concat(a.drop_first(), b);
        assert((a + b).drop_first() =~= a.drop_first() + b);
        assert((a + b)[0] == a[0]);
        assert(encode_utf8(a + b) =~= encode_scalar(a[0] as u32) + (encode_utf8(a.drop_first())
            + encode_utf8(b)));
    }
}

/// When the names of a PID's services, all but the last joined, make a
/// label shorter than [`SERVICE_NAME_JOIN_LIMIT`] bytes, no name is
/// dropped: the label holds every name, in order, joined by ", ".
pub proof fn law_short_service_labels_keep_every_name(names: Seq<Seq<char>>)
    requires
        names.len() >= 1,
        encode_utf8(join_all_names(names.drop_last())).len() < SERVICE_NAME_JOIN_LIMIT,
    ensures
        join_service_names(names) == join_all_names(names),
    decreases names.len(),
{
    if names.len() >= 2 {
        let dl = names.drop_last();
        if dl.len() >= 2 {
            lemma_encode_utf8_concat(join_all_names(dl.drop_last()), ", "@ + dl.last());
            assert(join_all_names(dl) =~= join_all_names(dl.drop_last()) + (", "@ + dl.last()));
        }
        law_short_service_labels_keep_every_name(dl);
    }
}

} // verus!
