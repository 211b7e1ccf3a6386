use netlimiter::flow::{ProcessCategory, ProcessStats, ProcessStatus};
use netlimiter::ipc::{handle_request, IpcResponse};

fn sample() -> Vec<ProcessStats> {
    vec![ProcessStats {
        pid: 1234,
        name: "chrome.exe".to_string(),
        category: ProcessCategory::User,
        status: ProcessStatus::Active,
        upload_delta: 25,
        download_delta: 69,
        interval_ns: 2_000_000_000,
        total_upload: 100,
        total_download: 200,
    }]
}

#[test]
fn stats_response_carries_the_snapshot() {
    let r = IpcResponse::stats(sample());
    assert_eq!(r.msg_type, "stats");
    assert!(r.error.is_none());
    let data = r.data.unwrap();
    assert_eq!(data.len(), 1);
    assert_eq!(data[0].name, "chrome.exe");
    assert_eq!(data[0].category, ProcessCategory::User);
}

#[test]
fn stats_ref_copies_the_snapshot() {
    let stats = sample();
    let r = IpcResponse::stats_ref(&stats);
    let data = r.data.unwrap();
    assert_eq!(data[0].pid, 1234);
    assert_eq!(data[0].total_download, 200);
    assert_eq!(data[0].interval_ns, 2_000_000_000);
}

#[test]
fn ack_and_error_responses() {
    let a = IpcResponse::ack();
    assert_eq!(a.msg_type, "ack");
    assert!(a.data.is_none() && a.error.is_none());
    let e = IpcResponse::error("boom");
    assert_eq!(e.msg_type, "error");
    assert!(e.data.is_none());
    assert_eq!(e.error.as_deref(), Some("boom"));
}

#[test]
fn requests_are_answered_by_command() {
    let stats = sample();
    let r = handle_request(&Ok("get_stats".to_string()), &stats);
    assert_eq!(r.msg_type, "stats");
    assert_eq!(r.data.unwrap()[0].pid, 1234);
    let r = handle_request(&Ok("ping".to_string()), &stats);
    assert_eq!(r.msg_type, "ack");
    assert!(r.data.is_none());
    let r = handle_request(&Ok("set_limit".to_string()), &stats);
    assert_eq!(r.msg_type, "error");
    assert_eq!(r.error.as_deref(), Some("Unknown command: set_limit"));
    let r = handle_request(&Err("expected value at line 1 column 1".to_string()), &stats);
    assert_eq!(r.error.as_deref(), Some("Invalid JSON: expected value at line 1 column 1"));
}
