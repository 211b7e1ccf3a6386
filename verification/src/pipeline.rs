//! Accounting of one captured packet: find the process that owns its
//! connection, learn that process's name and category, and add the
//! packet's bytes to the process's counters.
use crate::flow::{spec_recorded, AggregatorView, FlowAggregator};
use crate::packet::{Direction, ParsedPacket};
use crate::pid_map::{
    spec_category_step, spec_connection_key, spec_display_name, spec_lookup, spec_with_category,
    spec_with_process, spec_with_services, CategoryStep, PidMapper, PidMapperView, ServiceRecord,
};
use vstd::prelude::*;

verus! {

/// What accounting a packet came to.
#[derive(Debug, Clone, Copy, PartialEq, Eq, Structural)]
pub enum PacketOutcome {
    /// No cached connection belongs to the packet; nothing was recorded.
    NoOwner,
    /// The packet belongs to this PID, whose name or path is not cached:
    /// query the process, hand it to `PidMapper::record_process_info`,
    /// and process the packet again.
    NeedsProcessInfo(u32),
    /// The service PIDs are stale: query them, hand them to
    /// `PidMapper::refresh_service_pids`, and process the packet again.
    NeedsServiceRefresh,
    /// The packet's bytes were added to the counters of this PID.
    Recorded(u32),
}

/// Upload and download bytes of a packet: its length counts as upload
/// when it leaves the machine, as download when it arrives.
pub open spec fn spec_traffic(p: ParsedPacket) -> (u64, u64) {
    match p.direction {
        Direction::Outbound => (p.length as u64, 0u64),
        Direction::Inbound => (0u64, p.length as u64),
    }
}

/// The PID that owns a packet's connection.
pub open spec fn spec_packet_owner(m: PidMapperView, p: ParsedPacket) -> Option<u32> {
    spec_lookup(
        m,
        spec_connection_key(
            p.src_ip,
            p.src_port,
            p.dst_ip,
            p.dst_port,
            p.protocol,
            p.direction == Direction::Outbound,
        ),
    )
}

/// Outcome of accounting packet `p` at `now`, with the mapper and the
/// aggregator afterwards.
pub open spec fn spec_process_packet(
    m: PidMapperView,
    a: AggregatorView,
    p: ParsedPacket,
    now: u64,
) -> (PacketOutcome, PidMapperView, AggregatorView) {
    match spec_packet_owner(m, p) {
        None => (PacketOutcome::NoOwner, m, a),
        Some(pid) => if !m.names.contains_key(pid) {
            (PacketOutcome::NeedsProcessInfo(pid), m, a)
        } else {
            let step = spec_category_step(m, pid, now);
            let m2 = spec_with_category(m, pid, step);
            match step {
                CategoryStep::Ready(c) => (
                    PacketOutcome::Recorded(pid),
                    m2,
                    AggregatorView {
                        entries: a.entries.insert(
                            pid,
                            spec_recorded(
                                a.entries.get(pid),
                                pid,
                                m.names[pid],
                                c,
                                spec_traffic(p).0,
                                spec_traffic(p).1,
                                now,
                            ),
                        ),
                        last_reset: a.last_reset,
                    },
                ),
                CategoryStep::NeedsServiceRefresh => (PacketOutcome::NeedsServiceRefresh, m2, a),
                CategoryStep::NeedsProcessInfo => (PacketOutcome::NeedsProcessInfo(pid), m2, a),
            }
        },
    }
}

/// Upload and download bytes of a packet.
pub fn traffic_split(parsed: &ParsedPacket) -> (r: (u64, u64))
    ensures
        r == spec_traffic(*parsed),
{
    match parsed.direction {
        Direction::Outbound => (parsed.length as u64, 0u64),
        Direction::Inbound => (0u64, parsed.length as u64),
    }
}

/// Process a single parsed packet: PID lookup -> name and category ->
/// record. Parsing already happened where the packet was captured.
pub fn process_packet(
    parsed: &ParsedPacket,
    pid_mapper: &mut PidMapper,
    aggregator: &mut FlowAggregator,
    now: u64,
) -> (r: PacketOutcome)
    requires
        ({
            let t = spec_traffic(*parsed);
            match spec_packet_owner(old(pid_mapper)@, *parsed) {
                Some(pid) => old(aggregator).has_room(pid, t.0, t.1),
                None => true,
            }
        }),
    ensures
        (r, final(pid_mapper)@, final(aggregator)@) == spec_process_packet(
            old(pid_mapper)@,
            old(aggregator)@,
            *parsed,
            now,
        ),
{
    let owner = pid_mapper.lookup_pid(
        parsed.src_ip,
        parsed.src_port,
        parsed.dst_ip,
        parsed.dst_port,
        parsed.protocol,
        parsed.direction == Direction::Outbound,
    );
    let pid = match owner {
        Some(pid) => pid,
        None => {
            return PacketOutcome::NoOwner;
        },
    };
    let name = match pid_mapper.get_process_name(pid) {
        Some(name) => name,
        None => {
            return PacketOutcome::NeedsProcessInfo(pid);
        },
    };
    match pid_mapper.get_process_category(pid, now) {
        CategoryStep::Ready(category) => {
            let (upload, download) = traffic_split(parsed);
            aggregator.record(pid, &name, category, upload, download, now);
            PacketOutcome::Recorded(pid)
        },
        CategoryStep::NeedsServiceRefresh => PacketOutcome::NeedsServiceRefresh,
        CategoryStep::NeedsProcessInfo => PacketOutcome::NeedsProcessInfo(pid),
    }
}


/// The mapper after the caller answers `out` as asked: the executable name
/// `exe` and path `path` of the process handed to
/// `PidMapper::record_process_info`, or the service records `services`
/// handed to `PidMapper::refresh_service_pids` at `now`.
pub open spec fn spec_answer(
    m: PidMapperView,
    out: PacketOutcome,
    exe: Seq<char>,
    path: Seq<char>,
    services: Seq<ServiceRecord>,
    now: u64,
) -> PidMapperView {
    match out {
        PacketOutcome::NeedsProcessInfo(pid) => spec_with_process(
            m,
            pid,
            spec_display_name(m, pid, exe),
            path,
        ),
        PacketOutcome::NeedsServiceRefresh => spec_with_services(m, services, now),
        _ => m,
    }
}

/// Processing packet `p` at `now`, answering each request as
/// [`spec_answer`] says and processing it again, at most `rounds` times.
pub open spec fn spec_account(
    m: PidMapperView,
    a: AggregatorView,
    p: ParsedPacket,
    now: u64,
    exe: Seq<char>,
    path: Seq<char>,
    services: Seq<ServiceRecord>,
    rounds: nat,
) -> (PacketOutcome, PidMapperView, AggregatorView)
    decreases rounds,
{
    let (o, m1, a1) = spec_process_packet(m, a, p, now);
    if rounds > 0 && (o is NeedsProcessInfo || o is NeedsServiceRefresh) {
        spec_account(
            spec_answer(m1, o, exe, path, services, now),
            a1,
            p,
            now,
            exe,
            path,
            services,
            (rounds - 1) as nat,
        )
    } else {
        (o, m1, a1)
    }
}

/// Once the caller has answered the library's requests (at most two), a
/// packet of a known connection is recorded for its owner, under the name
/// the mapper had cached for it, or else the name the answer gave (its
/// service name for a service), and under the category the mapper now
/// holds for it.
pub proof fn law_answered_packet_is_recorded(
    m: PidMapperView,
    a: AggregatorView,
    p: ParsedPacket,
    now: u64,
    exe: Seq<char>,
    path: Seq<char>,
    services: Seq<ServiceRecord>,
    pid: u32,
)
    requires
        spec_packet_owner(m, p) == Some(pid),
    ensures
        ({
            let (o, m2, a2) = spec_account(m, a, p, now, exe, path, services, 2);
            let name = if m.names.contains_key(pid) {
                m.names[pid]
            } else {
                spec_display_name(m, pid, exe)
            };
            &&& o == PacketOutcome::Recorded(pid)
            &&& m2.names.contains_key(pid)
            &&& m2.names[pid] == name
            &&& m2.categories.contains_key(pid)
            &&& a2.last_reset == a.last_reset
            &&& a2.entries == a.entries.insert(
                pid,
                spec_recorded(
                    a.entries.get(pid),
                    pid,
                    name,
                    m2.categories[pid],
                    spec_traffic(p).0,
                    spec_traffic(p).1,
                    now,
                ),
            )
        }),
{
    reveal_with_fuel(spec_account, 3);
    let (o1, m1, a1) = spec_process_packet(m, a, p, now);
    let n1 = spec_answer(m1, o1, exe, path, services, now);
    assert(spec_packet_owner(m1, p) == Some(pid));
    assert(spec_packet_owner(n1, p) == Some(pid));
    let (o2, m2, a2) = spec_process_packet(n1, a1, p, now);
    let n2 = spec_answer(m2, o2, exe, path, services, now);
    assert(spec_packet_owner(m2, p) == Some(pid));
    assert(spec_packet_owner(n2, p) == Some(pid));
}
} // verus!
