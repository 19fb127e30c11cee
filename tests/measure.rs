use netbench::measure::{
    before_deadline, calculate_next_even_second, ping_host, download_wait, head_outcome, ping_outcome,
    probe_deadline, ChunkAction, DownloadMeter,
};
use netbench::messages::{AccumulatingBytes, IntervalBytes, ResultMessage};

#[test]
fn next_even_second_values() {
    assert_eq!(calculate_next_even_second(1_500), 2_000);
    assert_eq!(calculate_next_even_second(2_000), 3_000);
    assert_eq!(calculate_next_even_second(0), 1_000);
    assert_eq!(calculate_next_even_second(1_999), 2_000);
    assert_eq!(calculate_next_even_second(-1), 0);
    assert_eq!(calculate_next_even_second(-1_000), 0);
    assert_eq!(calculate_next_even_second(-1_500), -1_000);
}

#[test]
fn download_waits_until_its_start() {
    assert_eq!(download_wait(1_000, 11_000).ok(), Some(10_000));
    assert_eq!(download_wait(5_000, 5_000).ok(), Some(0));
    let e = download_wait(5_001, 5_000).err().unwrap();
    assert_eq!(e.error, "TimeSyncError: Start time is in the past");
}

#[test]
fn probes_stop_two_seconds_before_download() {
    let deadline = probe_deadline(20_000);
    assert_eq!(deadline, 18_000);
    assert!(before_deadline(17_999, deadline));
    assert!(!before_deadline(18_000, deadline));
}

#[test]
fn meter_logs_at_even_seconds() {
    let mut m = DownloadMeter::new(10_000, 10_400);
    assert_eq!(m.time_to_first_byte_ms, 400);
    assert_eq!(m.next_log_time, 11_000);
    assert_eq!(m.on_chunk(100, 10_500), ChunkAction::Continue);
    assert_eq!(m.on_chunk(50, 11_020), ChunkAction::Continue);
    assert_eq!(m.on_chunk(30, 11_500), ChunkAction::Continue);
    assert_eq!(m.on_chunk(20, 12_001), ChunkAction::Continue);
    assert_eq!(m.total_bytes, 200);
    assert_eq!(m.logs.len(), 2);
    assert_eq!(m.logs[0], (11_020, IntervalBytes(150), AccumulatingBytes(150)));
    assert_eq!(m.logs[1], (12_001, IntervalBytes(50), AccumulatingBytes(200)));
    let d = m.finish(12_500).ok().unwrap();
    assert_eq!(d.total_bytes, 200);
    assert_eq!(d.job_start_time, 10_000);
    assert_eq!(d.download_start_time, 10_400);
    assert_eq!(d.end_time, 12_500);
    assert_eq!(d.second_by_second_logs.len(), 2);
}

#[test]
fn meter_stops_after_sixty_seconds() {
    let mut m = DownloadMeter::new(0, 1_000);
    assert_eq!(m.on_chunk(10, 60_999), ChunkAction::Continue);
    assert_eq!(m.on_chunk(10, 61_000), ChunkAction::Stop);
    assert_eq!(m.total_bytes, 20);
}

#[test]
fn meter_stops_before_its_counter_overflows() {
    let mut m = DownloadMeter::new(0, 0);
    assert_eq!(m.on_chunk(u64::MAX, 10), ChunkAction::Continue);
    assert_eq!(m.on_chunk(1, 20), ChunkAction::Stop);
    assert_eq!(m.total_bytes, u64::MAX);
}

#[test]
fn download_of_nothing_fails() {
    let m = DownloadMeter::new(0, 100);
    let e = m.finish(200).err().unwrap();
    assert_eq!(e.error, "Downloaded 0 bytes");
}

#[test]
fn ping_needs_half_of_the_replies() {
    let e = ping_outcome(&vec![1, 2, 3, 4]).err().unwrap();
    assert_eq!(e.error, "Too many packets lost");
    let p = ping_outcome(&vec![30, 10, 50, 20, 40]).ok().unwrap();
    assert_eq!((p.min_ns, p.max_ns, p.sum_ns, p.count), (10, 50, 150, 5));
}

#[test]
fn head_needs_one_latency() {
    let e = head_outcome(&vec![]).err().unwrap();
    assert_eq!(e.error, "No successful requests");
    let h = head_outcome(&vec![7]).ok().unwrap();
    assert_eq!((h.min_ns, h.max_ns, h.sum_ns, h.count), (7, 7, 7, 1));
    let h = head_outcome(&vec![u64::MAX, u64::MAX]).ok().unwrap();
    assert_eq!(h.sum_ns, 2 * (u64::MAX as u128));
}

#[test]
fn partial_measurement_failure_still_succeeds() {
    let mut m = DownloadMeter::new(0, 50);
    assert_eq!(m.on_chunk(4096, 80), ChunkAction::Continue);
    let download = m.finish(1_050);
    let ping = ping_outcome(&vec![]);
    let head = head_outcome(&vec![1_000_000, 3_000_000]);
    let r = ResultMessage::assemble(1, 2, 3, "w".to_string(), download, ping, head);
    assert!(r.is_success);
    assert!(r.download_result.is_ok());
    assert_eq!(r.ping_result.as_ref().err().unwrap().error, "Too many packets lost");
    assert!(r.head_result.is_ok());
}

#[test]
fn ping_targets_the_url_host() {
    assert_eq!(ping_host("http://Speed.Example.com:8080/10gb.bin").ok().unwrap(), "speed.example.com");
    assert_eq!(ping_host("not a url").err().unwrap().error, "UrlParseError");
    assert_eq!(ping_host("data:text/plain,x").err().unwrap().error, "Failed to extract host from URL");
}
