use netlimiter::flow::{FlowAggregator, ProcessCategory, ProcessStats, ProcessStatus};

const SEC: u64 = 1_000_000_000;

fn upload_speed(stat: &ProcessStats) -> f64 {
    stat.upload_delta as f64 / (stat.interval_ns as f64 / 1e9)
}

fn download_speed(stat: &ProcessStats) -> f64 {
    stat.download_delta as f64 / (stat.interval_ns as f64 / 1e9)
}

#[test]
fn snapshot_accumulates_totals_and_resets_deltas() {
    let start = 100 * SEC;
    let mut agg = FlowAggregator::new(start);
    let name = String::from("chrome.exe");

    agg.record(1001, &name, ProcessCategory::User, 200, 800, start + 2 * SEC);

    let first = agg.snapshot(start + 2 * SEC);
    assert_eq!(first.len(), 1);
    let stat = &first[0];
    assert_eq!(stat.pid, 1001);
    assert_eq!(stat.name, "chrome.exe");
    assert_eq!(stat.total_upload, 200);
    assert_eq!(stat.total_download, 800);
    assert_eq!(stat.category, ProcessCategory::User);
    assert_eq!(stat.status, ProcessStatus::Active);
    assert!(upload_speed(stat) > 0.0);
    assert!(download_speed(stat) > 0.0);

    let second = agg.snapshot(start + 3 * SEC);
    let stat = &second[0];
    assert_eq!(stat.total_upload, 200);
    assert_eq!(stat.total_download, 800);
    assert_eq!(upload_speed(stat), 0.0);
    assert_eq!(download_speed(stat), 0.0);
}

#[test]
fn record_refreshes_name_and_category() {
    let mut agg = FlowAggregator::new(0);
    let old_name = String::from("svchost.exe");
    let new_name = String::from("DNS Client");

    agg.record(2156, &old_name, ProcessCategory::System, 10, 20, 1);
    agg.record(2156, &new_name, ProcessCategory::Service, 30, 40, 2);

    let entry = agg.get_entry(2156).expect("entry should exist");
    assert_eq!(&*entry.name, "DNS Client");
    assert_eq!(entry.category, ProcessCategory::Service);
    assert_eq!(entry.total_upload, 40);
    assert_eq!(entry.total_download, 60);
}

#[test]
fn snapshot_reports_interval_and_exact_rates() {
    let mut agg = FlowAggregator::new(0);
    let name = String::from("curl.exe");
    agg.record(7, &name, ProcessCategory::User, 1000, 4000, SEC);
    let stats = agg.snapshot(2 * SEC);
    assert_eq!(stats[0].interval_ns, 2 * SEC);
    assert_eq!(stats[0].upload_delta, 1000);
    assert_eq!(stats[0].download_delta, 4000);
    assert_eq!(upload_speed(&stats[0]), 500.0);
    assert_eq!(download_speed(&stats[0]), 2000.0);
}

#[test]
fn snapshot_interval_is_at_least_one_millisecond() {
    let mut agg = FlowAggregator::new(5 * SEC);
    let name = String::from("a.exe");
    agg.record(1, &name, ProcessCategory::User, 10, 0, 5 * SEC);
    let stats = agg.snapshot(5 * SEC);
    assert_eq!(stats[0].interval_ns, 1_000_000);
    // a clock that went backwards counts as no time at all
    let stats = agg.snapshot(SEC);
    assert_eq!(stats[0].interval_ns, 1_000_000);
}

#[test]
fn process_without_recent_traffic_is_inactive() {
    let mut agg = FlowAggregator::new(0);
    let name = String::from("idle.exe");
    agg.record(9, &name, ProcessCategory::User, 1, 1, SEC);
    let stats = agg.snapshot(31 * SEC);
    assert_eq!(stats[0].status, ProcessStatus::Active);
    let stats = agg.snapshot(31 * SEC + 1);
    assert_eq!(stats[0].status, ProcessStatus::Inactive);
    assert_eq!(stats[0].total_upload, 1);
}

#[test]
fn snapshot_lists_every_process_once() {
    let mut agg = FlowAggregator::new(0);
    let a = String::from("a.exe");
    let b = String::from("b.exe");
    agg.record(1, &a, ProcessCategory::User, 1, 2, 1);
    agg.record(2, &b, ProcessCategory::System, 3, 4, 1);
    agg.record(1, &a, ProcessCategory::User, 5, 6, 2);
    let mut stats = agg.snapshot(SEC);
    stats.sort_by_key(|s| s.pid);
    assert_eq!(stats.len(), 2);
    assert_eq!((stats[0].pid, stats[0].total_upload, stats[0].total_download), (1, 6, 8));
    assert_eq!((stats[1].pid, stats[1].total_upload, stats[1].total_download), (2, 3, 4));
    // entries are never deleted
    let stats = agg.snapshot(100 * SEC);
    assert_eq!(stats.len(), 2);
}

#[test]
fn counters_track_bytes_since_last_snapshot() {
    let mut agg = FlowAggregator::new(0);
    let n = String::from("x");
    agg.record(3, &n, ProcessCategory::User, 10, 1, 1);
    agg.snapshot(SEC);
    agg.record(3, &n, ProcessCategory::User, 7, 2, SEC + 1);
    agg.record(3, &n, ProcessCategory::User, 5, 3, SEC + 2);
    let e = agg.get_entry(3).unwrap();
    assert_eq!((e.upload_delta, e.download_delta), (12, 5));
    assert_eq!((e.total_upload, e.total_download), (22, 6));
    assert_eq!(e.last_seen, SEC + 2);
}

#[test]
fn can_record_guards_the_lifetime_counters() {
    let mut agg = FlowAggregator::new(0);
    let n = String::from("x");
    assert!(agg.can_record(1, u64::MAX, u64::MAX));
    agg.record(1, &n, ProcessCategory::User, u64::MAX - 1, 0, 1);
    assert!(agg.can_record(1, 1, 0));
    assert!(!agg.can_record(1, 2, 0));
    assert!(agg.can_record(2, 2, 0));
}
