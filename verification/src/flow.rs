//! Per-process traffic accounting: every captured packet updates the
//! entry of its process, and once per refresh cycle a snapshot reports
//! the bytes moved since the previous snapshot and the lifetime totals.
use crate::fxmap::{entry_get, entry_insert, entry_pids, entry_remove};
use rustc_hash::FxHashMap;
use vstd::prelude::*;

verus! {

/// Process category for grouping in the UI.
#[derive(Debug, Clone, Copy, PartialEq, Eq, Structural, Hash)]
pub enum ProcessCategory {
    User,
    System,
    Service,
    Unknown,
}

/// Process activity status.
#[derive(Debug, Clone, Copy, PartialEq, Eq, Structural)]
pub enum ProcessStatus {
    Active,
    Inactive,
}

/// A process that has had no traffic for longer than this (in
/// nanoseconds) is reported as inactive.
pub const INACTIVE_AFTER_NS: u64 = 30_000_000_000;

/// The shortest measuring interval a snapshot reports (one millisecond),
/// so that a rate computed from it never divides by zero.
pub const MIN_INTERVAL_NS: u64 = 1_000_000;

/// Time from `since` to `now` on a monotonic clock in nanoseconds,
/// zero when `now` is not later (as `Instant::duration_since` saturates).
pub open spec fn elapsed(now: u64, since: u64) -> u64 {
    if now >= since {
        (now - since) as u64
    } else {
        0
    }
}

/// Per-process state cache entry: one per PID ever seen, never deleted.
#[derive(Debug)]
pub struct ProcessEntry {
    pub pid: u32,
    pub name: String,
    pub category: ProcessCategory,
    /// Bytes accumulated since the last snapshot (used to compute speed).
    pub upload_delta: u64,
    pub download_delta: u64,
    /// Lifetime cumulative bytes.
    pub total_upload: u64,
    pub total_download: u64,
    /// When this process last had any traffic (monotonic nanoseconds).
    pub last_seen: u64,
}

/// The abstract value of a [`ProcessEntry`].
pub struct EntryView {
    pub pid: u32,
    pub name: Seq<char>,
    pub category: ProcessCategory,
    pub upload_delta: u64,
    pub download_delta: u64,
    pub total_upload: u64,
    pub total_download: u64,
    pub last_seen: u64,
}

impl View for ProcessEntry {
    type V = EntryView;

    open spec fn view(&self) -> EntryView {
        EntryView {
            pid: self.pid,
            name: self.name@,
            category: self.category,
            upload_delta: self.upload_delta,
            download_delta: self.download_delta,
            total_upload: self.total_upload,
            total_download: self.total_download,
            last_seen: self.last_seen,
        }
    }
}

/// Snapshot of one process, as the UI receives it.
///
/// The rates are `upload_delta / interval_ns` and
/// `download_delta / interval_ns` (bytes per nanosecond); they are left to
/// the reader of the snapshot, which works in floating point.
#[derive(Debug)]
pub struct ProcessStats {
    pub pid: u32,
    pub name: String,
    pub category: ProcessCategory,
    pub status: ProcessStatus,
    /// Bytes uploaded during the measuring interval.
    pub upload_delta: u64,
    /// Bytes downloaded during the measuring interval.
    pub download_delta: u64,
    /// Length of the measuring interval in nanoseconds (never below
    /// [`MIN_INTERVAL_NS`]).
    pub interval_ns: u64,
    pub total_upload: u64,
    pub total_download: u64,
}

/// The abstract value of a [`ProcessStats`].
pub struct StatsView {
    pub pid: u32,
    pub name: Seq<char>,
    pub category: ProcessCategory,
    pub status: ProcessStatus,
    pub upload_delta: u64,
    pub download_delta: u64,
    pub interval_ns: u64,
    pub total_upload: u64,
    pub total_download: u64,
}

impl View for ProcessStats {
    type V = StatsView;

    open spec fn view(&self) -> StatsView {
        StatsView {
            pid: self.pid,
            name: self.name@,
            category: self.category,
            status: self.status,
            upload_delta: self.upload_delta,
            download_delta: self.download_delta,
            interval_ns: self.interval_ns,
            total_upload: self.total_upload,
            total_download: self.total_download,
        }
    }
}

impl Clone for ProcessStats {
    fn clone(&self) -> (r: Self)
        ensures
            r@ == self@,
    {
        ProcessStats {
            pid: self.pid,
            name: self.name.clone(),
            category: self.category,
            status: self.status,
            upload_delta: self.upload_delta,
            download_delta: self.download_delta,
            interval_ns: self.interval_ns,
            total_upload: self.total_upload,
            total_download: self.total_download,
        }
    }
}

/// The abstract state of a [`FlowAggregator`].
pub struct AggregatorView {
    /// PID -> its entry.
    pub entries: Map<u32, EntryView>,
    /// When the last snapshot was taken (monotonic nanoseconds).
    pub last_reset: u64,
}

/// The entry of `pid` after a packet of `upload` / `download` bytes,
/// given its entry before (if any).
pub open spec fn spec_recorded(
    prev: Option<EntryView>,
    pid: u32,
    name: Seq<char>,
    category: ProcessCategory,
    upload: u64,
    download: u64,
    now: u64,
) -> EntryView {
    match prev {
        Some(e) => EntryView {
            pid,
            name,
            category,
            upload_delta: (e.upload_delta + upload) as u64,
            download_delta: (e.download_delta + download) as u64,
            total_upload: (e.total_upload + upload) as u64,
            total_download: (e.total_download + download) as u64,
            last_seen: now,
        },
        None => EntryView {
            pid,
            name,
            category,
            upload_delta: upload,
            download_delta: download,
            total_upload: upload,
            total_download: download,
            last_seen: now,
        },
    }
}

/// An entry with its deltas set back to zero.
pub open spec fn spec_reset(e: EntryView) -> EntryView {
    EntryView { upload_delta: 0, download_delta: 0, ..e }
}

/// The measuring interval of a snapshot taken at `now` when the previous
/// one was taken at `last_reset`.
pub open spec fn spec_interval(now: u64, last_reset: u64) -> u64 {
    let e = elapsed(now, last_reset);
    if e < MIN_INTERVAL_NS {
        MIN_INTERVAL_NS
    } else {
        e
    }
}

/// The status of a process whose last traffic was at `last_seen`.
pub open spec fn spec_status(now: u64, last_seen: u64) -> ProcessStatus {
    if elapsed(now, last_seen) > INACTIVE_AFTER_NS {
        ProcessStatus::Inactive
    } else {
        ProcessStatus::Active
    }
}

/// What a snapshot reports of one entry.
pub open spec fn spec_stat(e: EntryView, now: u64, interval: u64) -> StatsView {
    StatsView {
        pid: e.pid,
        name: e.name,
        category: e.category,
        status: spec_status(now, e.last_seen),
        upload_delta: e.upload_delta,
        download_delta: e.download_delta,
        interval_ns: interval,
        total_upload: e.total_upload,
        total_download: e.total_download,
    }
}

/// An entry stored under `p` is well formed: it carries `p` as its pid,
/// and no delta exceeds the matching total.
pub open spec fn entry_ok(p: u32, e: EntryView) -> bool {
    &&& e.pid == p
    &&& e.upload_delta <= e.total_upload
    &&& e.download_delta <= e.total_download
}

/// Every entry of a map of entries is well formed.
pub open spec fn all_entries_ok(entries: Map<u32, EntryView>) -> bool {
    forall|p: u32| #[trigger] entries.contains_key(p) ==> entry_ok(p, entries[p])
}

/// The global state cache: packet -> update cache -> UI reads cache.
pub struct FlowAggregator {
    entries: FxHashMap<u32, ProcessEntry>,
    last_reset: u64,
}

impl View for FlowAggregator {
    type V = AggregatorView;

    closed spec fn view(&self) -> AggregatorView {
        AggregatorView {
            entries: self.entries@.map_values(|e: ProcessEntry| e@),
            last_reset: self.last_reset,
        }
    }
}

impl FlowAggregator {
    #[verifier::type_invariant]
    closed spec fn wf(self) -> bool {
        forall|p: u32| #[trigger]
            self.entries@.contains_key(p) ==> entry_ok(p, self.entries@[p]@)
    }

    /// Whether a packet of `upload` / `download` bytes for `pid` keeps the
    /// lifetime counters of `pid` within `u64`.
    pub open spec fn has_room(&self, pid: u32, upload: u64, download: u64) -> bool {
        self@.entries.contains_key(pid) ==> {
            &&& self@.entries[pid].total_upload + upload <= u64::MAX
            &&& self@.entries[pid].total_download + download <= u64::MAX
        }
    }

    /// An empty aggregator whose measuring interval starts at `now`.
    pub fn new(now: u64) -> (r: Self)
        ensures
            r@.entries == Map::<u32, EntryView>::empty(),
            r@.last_reset == now,
            all_entries_ok(r@.entries),
    {
        let r = FlowAggregator { entries: FxHashMap::default(), last_reset: now };
        assert(r@.entries =~= Map::<u32, EntryView>::empty());
        r
    }

    /// Checks [`FlowAggregator::has_room`].
    pub fn can_record(&self, pid: u32, upload: u64, download: u64) -> (b: bool)
        ensures
            b == self.has_room(pid, upload, download),
            all_entries_ok(self@.entries),
    {
        proof {
            use_type_invariant(self);
        }
        match entry_get(&self.entries, pid) {
            Some(e) => e.total_upload <= u64::MAX - upload && e.total_download <= u64::MAX
                - download,
            None => true,
        }
    }

    /// The entry of `pid`, if the process has been seen.
    pub fn get_entry(&self, pid: u32) -> (r: Option<&ProcessEntry>)
        ensures
            match r {
                Some(e) => self@.entries.contains_key(pid) && e@ == self@.entries[pid] && entry_ok(
                    pid,
                    e@,
                ),
                None => !self@.entries.contains_key(pid),
            },
    {
        proof {
            use_type_invariant(self);
        }
        entry_get(&self.entries, pid)
    }

    /// Accumulate bytes for a PID.  Never removes entries.
    /// Keeps name and category fresh, adds to the deltas and to the
    /// totals, and marks the process active at `now`.
    pub fn record(
        &mut self,
        pid: u32,
        name: &String,
        category: ProcessCategory,
        upload: u64,
        download: u64,
        now: u64,
    )
        requires
            old(self).has_room(pid, upload, download),
        ensures
            final(self)@.entries == old(self)@.entries.insert(
                pid,
                spec_recorded(old(self)@.entries.get(pid), pid, name@, category, upload, download, now),
            ),
            final(self)@.last_reset == old(self)@.last_reset,
            all_entries_ok(final(self)@.entries),
    {
        proof {
            use_type_invariant(&*self);
        }
        let ghost old_entries = self.entries@;
        let mut entries: FxHashMap<u32, ProcessEntry> = FxHashMap::default();
        std::mem::swap(&mut entries, &mut self.entries);
        let removed = entry_remove(&mut entries, pid);
        match removed {
            Some(mut e) => {
                assert(entry_ok(pid, old_entries[pid]@));
                if !(e.name == *name) {
                    e.name = name.clone();
                }
                e.category = category;
                e.upload_delta = e.upload_delta + upload;
                e.download_delta = e.download_delta + download;
                e.total_upload = e.total_upload + upload;
                e.total_download = e.total_download + download;
                e.last_seen = now;
                entry_insert(&mut entries, pid, e);
            },
            None => {
                let e = ProcessEntry {
                    pid,
                    name: name.clone(),
                    category,
                    upload_delta: upload,
                    download_delta: download,
                    total_upload: upload,
                    total_download: download,
                    last_seen: now,
                };
                entry_insert(&mut entries, pid, e);
            },
        }
        self.entries = entries;
        proof {
            assert(self@.entries =~= old_entries.map_values(|e: ProcessEntry| e@).insert(
                pid,
                spec_recorded(old_entries.map_values(|e: ProcessEntry| e@).get(pid), pid, name@, category, upload, download, now),
            ));
            use_type_invariant(&*self);
        }
    }

    /// Compute the snapshot of all historically-seen processes, then reset
    /// the deltas to 0 and start a new measuring interval at `now`.
    ///
    /// The snapshot holds one record per known PID (in the map's walk
    /// order); each reports the entry's deltas over the interval since the
    /// previous snapshot, its totals, and whether the process had traffic
    /// in the last [`INACTIVE_AFTER_NS`]. Entries are never deleted.
    pub fn snapshot(&mut self, now: u64) -> (r: Vec<ProcessStats>)
        ensures
            is_snapshot_of(old(self)@, stats_view(r@), now),
            final(self)@.entries == old(self)@.entries.map_values(|e: EntryView| spec_reset(e)),
            final(self)@.last_reset == now,
            all_entries_ok(final(self)@.entries),
    {
        proof {
            use_type_invariant(&*self);
        }
        let ghost old_entries = self.entries@;
        let elapsed_ns = now.saturating_sub(self.last_reset);
        let interval = if elapsed_ns < MIN_INTERVAL_NS {
            MIN_INTERVAL_NS
        } else {
            elapsed_ns
        };
        assert(interval == spec_interval(now, self.last_reset));
        let pids = entry_pids(&self.entries);
        assert forall|k: int| 0 <= k < pids@.len() implies old_entries.contains_key(
            #[trigger] pids@[k],
        ) by {
            assert(pids@.to_set().contains(pids@[k]));
        }
        let mut stats: Vec<ProcessStats> = Vec::new();
        let mut i: usize = 0;
        while i < pids.len()
            invariant
                i <= pids@.len(),
                self.entries@ == old_entries,
                forall|k: int| 0 <= k < pids@.len() ==> old_entries.contains_key(#[trigger] pids@[k]),
                forall|p: u32| #[trigger]
                    old_entries.contains_key(p) ==> entry_ok(p, old_entries[p]@),
                stats@.len() == i,
                forall|k: int|
                    #![trigger stats@[k]]
                    0 <= k < i ==> stats@[k].pid == pids@[k] && stats@[k]@ == spec_stat(
                        old_entries[pids@[k]]@,
                        now,
                        interval,
                    ),
            decreases pids@.len() - i,
        {
            let pid = pids[i];
            match entry_get(&self.entries, pid) {
                Some(e) => {
                    let status = if now.saturating_sub(e.last_seen) > INACTIVE_AFTER_NS {
                        ProcessStatus::Inactive
                    } else {
                        ProcessStatus::Active
                    };
                    stats.push(
                        ProcessStats {
                            pid: e.pid,
                            name: e.name.clone(),
                            category: e.category,
                            status,
                            upload_delta: e.upload_delta,
                            download_delta: e.download_delta,
                            interval_ns: interval,
                            total_upload: e.total_upload,
                            total_download: e.total_download,
                        },
                    );
                },
                None => {
                    assert(false);
                },
            }
            i = i + 1;
        }
        // Reset deltas, but never delete entries.
        let mut entries: FxHashMap<u32, ProcessEntry> = FxHashMap::default();
        std::mem::swap(&mut entries, &mut self.entries);
        let mut j: usize = 0;
        let ghost mut done: Set<u32> = Set::empty();
        while j < pids.len()
            invariant
                j <= pids@.len(),
                pids@.no_duplicates(),
                forall|k: int| 0 <= k < pids@.len() ==> old_entries.contains_key(#[trigger] pids@[k]),
                forall|p: u32| #[trigger]
                    old_entries.contains_key(p) ==> entry_ok(p, old_entries[p]@),
                forall|p: u32|
                    #[trigger] done.contains(p) <==> exists|k: int| 0 <= k < j && pids@[k] == p,
                entries@.dom() == old_entries.dom(),
                forall|p: u32| #[trigger]
                    entries@.contains_key(p) ==> entries@[p]@ == (if done.contains(p) {
                        spec_reset(old_entries[p]@)
                    } else {
                        old_entries[p]@
                    }),
            decreases pids@.len() - j,
        {
            let pid = pids[j];
            proof {
                assert(!done.contains(pid)) by {
                    if done.contains(pid) {
                        let k = choose|k: int| 0 <= k < j && pids@[k] == pid;
                        assert(pids@[k] == pids@[j as int]);
                    }
                }
            }
            let removed = entry_remove(&mut entries, pid);
            match removed {
                Some(mut e) => {
                    e.upload_delta = 0;
                    e.download_delta = 0;
                    entry_insert(&mut entries, pid, e);
                },
                None => {
                    assert(false);
                },
            }
            proof {
                done = done.insert(pid);
                assert forall|p: u32| #[trigger]
                    done.contains(p) <==> exists|k: int| 0 <= k < j + 1 && pids@[k] == p by {
                    if p == pid {
                        assert(pids@[j as int] == p);
                    }
                }
            }
            j = j + 1;
        }
        proof {
            assert forall|p: u32| old_entries.contains_key(p) implies #[trigger] done.contains(p) by {
                assert(pids@.to_set().contains(p));
            }
            assert forall|p: u32| #[trigger]
                entries@.contains_key(p) implies entry_ok(p, entries@[p]@) by {
                assert(done.contains(p));
            }
        }
        self.entries = entries;
        self.last_reset = now;
        proof {
            assert(self@.entries =~= old_entries.map_values(|e: ProcessEntry| e@).map_values(
                |e: EntryView| spec_reset(e),
            ));
            let r = stats_view(stats@);
            let a = old(self)@;
            assert(a.entries == old_entries.map_values(|e: ProcessEntry| e@));
            assert(interval == spec_interval(now, a.last_reset));
            assert forall|i: int| #![trigger r[i]] 0 <= i < r.len() implies {
                &&& a.entries.contains_key(r[i].pid)
                &&& r[i] == spec_stat(a.entries[r[i].pid], now, spec_interval(now, a.last_reset))
            } by {
                assert(r[i] == stats@[i]@);
                assert(stats@[i].pid == pids@[i]);
            }
            assert forall|pid: u32| a.entries.contains_key(pid) implies exists|i: int|
                0 <= i < r.len() && #[trigger] r[i].pid == pid by {
                assert(pids@.to_set().contains(pid));
                let k = choose|k: int| 0 <= k < pids@.len() && pids@[k] == pid;
                assert(r[k] == stats@[k]@);
                assert(r[k].pid == pid);
            }
            assert forall|i: int, j: int|
                0 <= i < r.len() && 0 <= j < r.len() && i != j implies #[trigger] r[i].pid
                != #[trigger] r[j].pid by {
                assert(r[i] == stats@[i]@);
                assert(r[j] == stats@[j]@);
            }
            use_type_invariant(&*self);
        }
        stats
    }
}


/// One call on an aggregator: a packet of `upload` / `download` bytes
/// recorded at `now` for `pid` under `name` and `category`, or (when
/// `snapshot` is set) a snapshot.
pub struct AggEvent {
    pub snapshot: bool,
    pub pid: u32,
    pub name: Seq<char>,
    pub category: ProcessCategory,
    pub upload: u64,
    pub download: u64,
    pub now: u64,
}

/// The abstract value of a snapshot's records.
pub open spec fn stats_view(s: Seq<ProcessStats>) -> Seq<StatsView> {
    s.map_values(|x: ProcessStats| x@)
}

/// `r` is what a snapshot of `a` taken at `now` reports: one record per
/// known PID, each the entry's statistics over the interval since the last
/// snapshot.
pub open spec fn is_snapshot_of(a: AggregatorView, r: Seq<StatsView>, now: u64) -> bool {
    &&& forall|i: int|
        #![trigger r[i]]
        0 <= i < r.len() ==> {
            &&& a.entries.contains_key(r[i].pid)
            &&& r[i] == spec_stat(a.entries[r[i].pid], now, spec_interval(now, a.last_reset))
        }
    &&& forall|pid: u32|
        a.entries.contains_key(pid) ==> exists|i: int| 0 <= i < r.len() && #[trigger] r[i].pid == pid
    &&& forall|i: int, j: int|
        0 <= i < r.len() && 0 <= j < r.len() && i != j ==> #[trigger] r[i].pid != #[trigger] r[j].pid
}

/// `b` is what `a` becomes by the call `ev`: the states that `record` and
/// `snapshot` promise.
pub open spec fn agg_step(a: AggregatorView, b: AggregatorView, ev: AggEvent) -> bool {
    if ev.snapshot {
        b.entries == a.entries.map_values(|e: EntryView| spec_reset(e))
    } else {
        b.entries == a.entries.insert(
            ev.pid,
            spec_recorded(
                a.entries.get(ev.pid),
                ev.pid,
                ev.name,
                ev.category,
                ev.upload,
                ev.download,
                ev.now,
            ),
        )
    }
}

/// Bytes uploaded for `pid` by the records among `evs`.
pub open spec fn sum_upload(evs: Seq<AggEvent>, pid: u32) -> nat
    decreases evs.len(),
{
    if evs.len() == 0 {
        0
    } else {
        let ev = evs.last();
        sum_upload(evs.drop_last(), pid) + if !ev.snapshot && ev.pid == pid {
            ev.upload as nat
        } else {
            0
        }
    }
}

/// Bytes downloaded for `pid` by the records among `evs`.
pub open spec fn sum_download(evs: Seq<AggEvent>, pid: u32) -> nat
    decreases evs.len(),
{
    if evs.len() == 0 {
        0
    } else {
        let ev = evs.last();
        sum_download(evs.drop_last(), pid) + if !ev.snapshot && ev.pid == pid {
            ev.download as nat
        } else {
            0
        }
    }
}

/// The last record for `pid` among `evs`, if there is one.
pub open spec fn last_record(evs: Seq<AggEvent>, pid: u32) -> Option<AggEvent>
    decreases evs.len(),
{
    if evs.len() == 0 {
        None
    } else if !evs.last().snapshot && evs.last().pid == pid {
        Some(evs.last())
    } else {
        last_record(evs.drop_last(), pid)
    }
}

/// The calls after the last snapshot among `evs` (all of them when there
/// was none).
pub open spec fn since_snapshot(evs: Seq<AggEvent>) -> Seq<AggEvent>
    decreases evs.len(),
{
    if evs.len() == 0 {
        evs
    } else if evs.last().snapshot {
        Seq::empty()
    } else {
        since_snapshot(evs.drop_last()).push(evs.last())
    }
}

proof fn lemma_since_snapshot_sums(evs: Seq<AggEvent>, pid: u32)
    ensures
        sum_upload(since_snapshot(evs), pid) <= sum_upload(evs, pid),
        sum_download(since_snapshot(evs), pid) <= sum_download(evs, pid),
    decreases evs.len(),
{
    if evs.len() > 0 {
        lemma_since_snapshot_sums(evs.drop_last(), pid);
        if !evs.last().snapshot {
            assert(since_snapshot(evs).drop_last() =~= since_snapshot(evs.drop_last()));
        }
    }
}

proof fn lemma_sums_monotone(evs: Seq<AggEvent>, pid: u32, i: int, j: int)
    requires
        0 <= i <= j <= evs.len(),
    ensures
        sum_upload(evs.take(i), pid) <= sum_upload(evs.take(j), pid),
        sum_download(evs.take(i), pid) <= sum_download(evs.take(j), pid),
    decreases j - i,
{
    if i < j {
        lemma_sums_monotone(evs, pid, i, j - 1);
        assert(evs.take(j).drop_last() =~= evs.take(j - 1));
    }
}

/// The entry of `pid` after a run of calls from an empty aggregator.
pub open spec fn entry_after_run(e: Option<EntryView>, evs: Seq<AggEvent>, pid: u32) -> bool {
    match last_record(evs, pid) {
        None => e is None,
        Some(lr) => e matches Some(x) && {
            &&& x.pid == pid
            &&& x.name == lr.name
            &&& x.category == lr.category
            &&& x.last_seen == lr.now
            &&& x.total_upload == sum_upload(evs, pid)
            &&& x.total_download == sum_download(evs, pid)
            &&& x.upload_delta == sum_upload(since_snapshot(evs), pid)
            &&& x.download_delta == sum_download(since_snapshot(evs), pid)
        },
    }
}

/// What holds after the first `i` calls of a run from an empty aggregator.
#[verifier::rlimit(50)]
proof fn lemma_trace_prefix(evs: Seq<AggEvent>, states: Seq<AggregatorView>, pid: u32, i: int)
    requires
        states.len() == evs.len() + 1,
        0 <= i <= evs.len(),
        states[0].entries == Map::<u32, EntryView>::empty(),
        forall|k: int| 0 <= k < evs.len() ==> agg_step(states[k], states[k + 1], #[trigger] evs[k]),
        sum_upload(evs, pid) <= u64::MAX,
        sum_download(evs, pid) <= u64::MAX,
    ensures
        entry_after_run(states[i].entries.get(pid), evs.take(i), pid),
        !states[i].entries.contains_key(pid) ==> sum_upload(evs.take(i), pid) == 0
            && sum_download(evs.take(i), pid) == 0,
    decreases i,
{
    let n = evs.len() as int;
    if i == 0 {
        assert(evs.take(0) =~= Seq::<AggEvent>::empty());
    } else {
        let j = i - 1;
        lemma_trace_prefix(evs, states, pid, j);
        let ev = evs[j];
        let a = states[j];
        let b = states[i];
        assert(agg_step(a, b, ev));
        assert(evs.take(i).drop_last() =~= evs.take(j));
        assert(evs.take(i).last() == ev);
        lemma_sums_monotone(evs, pid, i, n);
        lemma_since_snapshot_sums(evs.take(i), pid);
        assert(evs.take(n) =~= evs);
        if !ev.snapshot {
            assert(since_snapshot(evs.take(i)).drop_last() =~= since_snapshot(evs.take(j)));
            if ev.pid == pid {
                assert(last_record(evs.take(i), pid) == Some(ev));
                assert(b.entries.get(pid) == Some(
                    spec_recorded(a.entries.get(pid), pid, ev.name, ev.category, ev.upload, ev.download, ev.now),
                ));
            } else {
                assert(last_record(evs.take(i), pid) == last_record(evs.take(j), pid));
                assert(b.entries.get(pid) == a.entries.get(pid));
            }
        } else {
            assert(last_record(evs.take(i), pid) == last_record(evs.take(j), pid));
            assert(since_snapshot(evs.take(i)) =~= Seq::<AggEvent>::empty());
            if a.entries.contains_key(pid) {
                assert(b.entries[pid] == spec_reset(a.entries[pid]));
                assert(b.entries.get(pid) == Some(spec_reset(a.entries[pid])));
            } else {
                assert(b.entries.get(pid) is None);
            }
        }
    }
}

/// Entries are created by records only and never deleted; a snapshot
/// resets the deltas but never the totals.
///
/// For any run of calls `evs` from an empty aggregator through the states
/// `states` (as long as the sums fit in `u64`), the entry of `pid` exists
/// exactly when a packet was recorded for it; it then carries the name,
/// category and time of the last record for it, its totals are the sums
/// of the bytes recorded for it, and its deltas the sums of the bytes
/// recorded for it since the last snapshot.
pub proof fn law_counters_count_recorded_bytes(
    evs: Seq<AggEvent>,
    states: Seq<AggregatorView>,
    pid: u32,
)
    requires
        states.len() == evs.len() + 1,
        states[0].entries == Map::<u32, EntryView>::empty(),
        forall|i: int| 0 <= i < evs.len() ==> agg_step(states[i], states[i + 1], #[trigger] evs[i]),
        sum_upload(evs, pid) <= u64::MAX,
        sum_download(evs, pid) <= u64::MAX,
    ensures
        entry_after_run(states.last().entries.get(pid), evs, pid),
{
    lemma_trace_prefix(evs, states, pid, evs.len() as int);
    assert(evs.take(evs.len() as int) =~= evs);
}

/// A snapshot taken after any run of calls from an empty aggregator holds
/// one record for `pid` exactly when a packet was recorded for it. That
/// record carries the name and category of the last record for `pid`, is
/// Inactive exactly when more than [`INACTIVE_AFTER_NS`] passed since that
/// record, and reports the totals of all bytes recorded for `pid` and the
/// deltas of those recorded since the previous snapshot.
pub proof fn law_snapshot_reports_recorded_processes(
    evs: Seq<AggEvent>,
    states: Seq<AggregatorView>,
    r: Seq<StatsView>,
    now: u64,
    pid: u32,
)
    requires
        states.len() == evs.len() + 1,
        states[0].entries == Map::<u32, EntryView>::empty(),
        forall|i: int| 0 <= i < evs.len() ==> agg_step(states[i], states[i + 1], #[trigger] evs[i]),
        sum_upload(evs, pid) <= u64::MAX,
        sum_download(evs, pid) <= u64::MAX,
        is_snapshot_of(states.last(), r, now),
    ensures
        (exists|i: int| 0 <= i < r.len() && #[trigger] r[i].pid == pid) == (last_record(
            evs,
            pid,
        ) is Some),
        forall|i: int|
            0 <= i < r.len() && #[trigger] r[i].pid == pid ==> {
                let lr = last_record(evs, pid)->0;
                &&& last_record(evs, pid) is Some
                &&& r[i].name == lr.name
                &&& r[i].category == lr.category
                &&& r[i].status == spec_status(now, lr.now)
                &&& r[i].total_upload == sum_upload(evs, pid)
                &&& r[i].total_download == sum_download(evs, pid)
                &&& r[i].upload_delta == sum_upload(since_snapshot(evs), pid)
                &&& r[i].download_delta == sum_download(since_snapshot(evs), pid)
            },
{
    law_counters_count_recorded_bytes(evs, states, pid);
    let a = states.last();
    if last_record(evs, pid) is Some {
        assert(a.entries.contains_key(pid));
    } else {
        assert(!a.entries.contains_key(pid));
        assert forall|i: int| 0 <= i < r.len() implies #[trigger] r[i].pid != pid by {
            assert(a.entries.contains_key(r[i].pid));
        }
    }
}

/// The interval a snapshot reports is the time since the previous
/// snapshot (or since the aggregator was created), raised to
/// [`MIN_INTERVAL_NS`] only when less than that has passed; a clock that
/// went backwards counts as no time.
pub proof fn law_snapshot_interval_is_time_since_last_reset(
    a: AggregatorView,
    r: Seq<StatsView>,
    now: u64,
)
    requires
        is_snapshot_of(a, r, now),
    ensures
        forall|i: int|
            0 <= i < r.len() ==> #[trigger] r[i].interval_ns == if now >= a.last_reset + MIN_INTERVAL_NS {
                now - a.last_reset
            } else {
                MIN_INTERVAL_NS as int
            },
{
}

} // verus!
