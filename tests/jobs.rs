use netbench::jobs::{
    next_ingest_step, IngestEvent, IngestStep, get_file_range_for_file, healthcheck, job_envelope, sub_job_start_times, validate_routing_key,
    validate_url, window_at, window_for_length, ApiResponse, IngestOutcome, JobBook, JobDetails,
    JobInput, JobStatus, StoreError, SubJobStatus, WINDOW_SIZE,
};
use netbench::messages::{Message, ResultMessage};
use netbench::measure::DownloadMeter;

const MIB: u64 = 1024 * 1024;

fn bad_request_text<T>(r: ApiResponse<T>) -> String {
    match r {
        ApiResponse::BadRequest(e) => e.error,
        _ => panic!("expected a bad request"),
    }
}

fn input(url: &str, routing_key: &str) -> JobInput {
    JobInput { url: url.to_string(), routing_key: routing_key.to_string() }
}

#[test]
fn file_of_exactly_one_window_starts_at_zero() {
    let header = (100 * MIB).to_string();
    let w = get_file_range_for_file(Some(header.as_bytes())).ok().unwrap();
    assert_eq!(w, (0, 100 * MIB));
}

#[test]
fn file_one_byte_short_is_refused() {
    let header = (100 * MIB - 1).to_string();
    let e = get_file_range_for_file(Some(header.as_bytes())).err().unwrap();
    assert_eq!(bad_request_text(e), "File size is less than 100 MB");
}

#[test]
fn undersized_file_is_refused() {
    let e = get_file_range_for_file(Some(b"1048576")).err().unwrap();
    assert_eq!(bad_request_text(e), "File size is less than 100 MB");
}

#[test]
fn content_length_must_be_present_and_numeric() {
    let e = get_file_range_for_file(None).err().unwrap();
    assert_eq!(bad_request_text(e), "Content-Length header is missing in the response");
    let e = get_file_range_for_file(Some(b"lots")).err().unwrap();
    assert_eq!(bad_request_text(e), "Failed to parse Content-Length header");
}

#[test]
fn windows_lie_inside_the_file() {
    assert_eq!(WINDOW_SIZE, 100 * MIB);
    assert_eq!(window_at(300 * MIB, 7), (7, 7 + 100 * MIB));
    let len = 10_737_418_240u64;
    let mut starts = Vec::new();
    for _ in 0..20 {
        let (s, e) = window_for_length(len).ok().unwrap();
        assert_eq!(e, s + 100 * MIB);
        assert!(e <= len);
        starts.push(s);
    }
    assert!(starts.iter().any(|s| *s != starts[0]));
}

#[test]
fn urls_must_be_http_or_https() {
    assert_eq!(validate_url(&input("http://Host/10gb.bin", "all")).ok().unwrap(), "http://host/10gb.bin");
    assert_eq!(validate_url(&input("https://example.net", "all")).ok().unwrap(), "https://example.net/");
    let e = validate_url(&input("ftp://example.net/file", "all")).err().unwrap();
    assert_eq!(bad_request_text(e), "URL scheme must be http or https");
    let e = validate_url(&input("not a url", "all")).err().unwrap();
    assert_eq!(bad_request_text(e), "Invalid URL provided");
}

#[test]
fn routing_key_must_not_be_empty() {
    assert!(validate_routing_key(&input("http://h/", "all")).is_ok());
    let e = validate_routing_key(&input("http://h/", "")).err().unwrap();
    assert_eq!(bad_request_text(e), "Routing key cannot be empty");
}

#[test]
fn healthcheck_answers_ok() {
    assert_eq!(healthcheck().status, "ok");
}

fn success(run_id: u128, job_id: u128, sub_job_id: u128) -> ResultMessage {
    let mut m = DownloadMeter::new(0, 10);
    m.on_chunk(1000, 20);
    ResultMessage::assemble(
        run_id,
        job_id,
        sub_job_id,
        "w1".to_string(),
        m.finish(30),
        netbench::measure::ping_outcome(&vec![1, 2, 3, 4, 5]),
        netbench::measure::head_outcome(&vec![9]),
    )
}

fn book_with_job(job_id: u128, subs: &[u128]) -> JobBook {
    let mut b = JobBook::new();
    b.create_job(
        job_id,
        "http://host/10gb.bin".to_string(),
        "all".to_string(),
        JobStatus::Pending,
        JobDetails { start_range: 0, end_range: 100 * MIB },
    )
    .unwrap();
    for (k, s) in subs.iter().enumerate() {
        b.create_sub_job(*s, job_id, 1_000 + 71_000 * k as i64, 11_000 + 71_000 * k as i64).unwrap();
    }
    b
}

#[test]
fn happy_path_completes_the_job() {
    let (t0, t1) = sub_job_start_times(0);
    assert_eq!((t0, t1), (1_000, 72_000));
    let header = 10_737_418_240u64.to_string();
    let (start, end) = get_file_range_for_file(Some(header.as_bytes())).ok().unwrap();
    assert_eq!(end - start, 100 * MIB);
    let env = job_envelope(1, 10, "http://host/10gb.bin".to_string(), t1, start, end);
    match env {
        Message::WorkerJob { job_id, payload } => {
            assert_eq!(job_id, 1);
            assert_eq!(payload.sub_job_id, 10);
            assert_eq!(payload.start_time, 72_000);
            assert_eq!(payload.download_start_time, 82_000);
            assert_eq!((payload.start_range, payload.end_range), (start, end));
        }
        _ => panic!("expected a job envelope"),
    }
    let mut b = book_with_job(1, &[10, 11]);
    assert_eq!(b.count_pending_sub_jobs(1), 2);
    assert_eq!(b.ingest_result(success(100, 1, 10)), IngestOutcome::Recorded { job_completed: false });
    assert_eq!(b.jobs[0].status, JobStatus::Pending);
    assert_eq!(b.ingest_result(success(101, 1, 11)), IngestOutcome::Recorded { job_completed: true });
    assert_eq!(b.jobs[0].status, JobStatus::Completed);
    assert_eq!(b.results.len(), 2);
    assert_eq!(b.sub_jobs[0].status, SubJobStatus::Completed);
    assert_eq!(b.sub_jobs[1].status, SubJobStatus::Completed);
}

#[test]
fn redelivered_result_is_not_stored_twice() {
    let mut b = book_with_job(1, &[10, 11]);
    assert_eq!(b.ingest_result(success(100, 1, 10)), IngestOutcome::Recorded { job_completed: false });
    assert_eq!(b.ingest_result(success(100, 1, 10)), IngestOutcome::DuplicateRun);
    assert_eq!(b.results.len(), 1);
    assert_eq!(b.count_pending_sub_jobs(1), 1);
}

#[test]
fn result_of_unknown_sub_job_is_stale() {
    let mut b = book_with_job(1, &[10]);
    assert_eq!(b.ingest_result(success(100, 1, 99)), IngestOutcome::UnknownSubJob);
    assert_eq!(b.results.len(), 0);
}

#[test]
fn settled_sub_job_keeps_its_status() {
    let mut b = book_with_job(1, &[10]);
    let failed = ResultMessage::aborted(100, 1, 10, "w1".to_string(), "Start time is in the past".to_string());
    assert_eq!(b.ingest_result(failed), IngestOutcome::Recorded { job_completed: true });
    assert_eq!(b.sub_jobs[0].status, SubJobStatus::Failed);
    assert_eq!(b.jobs[0].status, JobStatus::Completed);
    assert_eq!(b.ingest_result(success(101, 1, 10)), IngestOutcome::Recorded { job_completed: true });
    assert_eq!(b.sub_jobs[0].status, SubJobStatus::Failed);
    assert_eq!(b.results.len(), 2);
}

#[test]
fn store_refuses_bad_writes() {
    let mut b = book_with_job(1, &[10]);
    let details = JobDetails { start_range: 0, end_range: 1 };
    assert_eq!(
        b.create_job(1, "u".to_string(), "k".to_string(), JobStatus::Pending, details),
        Err(StoreError::DuplicateKey)
    );
    assert_eq!(b.create_sub_job(10, 1, 0, 0), Err(StoreError::DuplicateKey));
    assert_eq!(b.create_sub_job(12, 2, 0, 0), Err(StoreError::UnknownJob));
    b.ingest_result(success(100, 1, 10));
    assert_eq!(b.create_sub_job(13, 1, 0, 0), Err(StoreError::JobClosed));
}

#[test]
fn ingest_steps_in_order() {
    assert_eq!(
        next_ingest_step(true, IngestEvent::SubJobLookedUp { known: false }),
        IngestStep::Finish(IngestOutcome::UnknownSubJob)
    );
    assert_eq!(next_ingest_step(true, IngestEvent::SubJobLookedUp { known: true }), IngestStep::SaveRow);
    assert_eq!(
        next_ingest_step(true, IngestEvent::RowSaved { duplicate: true }),
        IngestStep::Finish(IngestOutcome::DuplicateRun)
    );
    assert_eq!(
        next_ingest_step(true, IngestEvent::RowSaved { duplicate: false }),
        IngestStep::SettleAndCount(SubJobStatus::Completed)
    );
    assert_eq!(
        next_ingest_step(false, IngestEvent::RowSaved { duplicate: false }),
        IngestStep::SettleAndCount(SubJobStatus::Failed)
    );
    assert_eq!(next_ingest_step(true, IngestEvent::PendingCounted { pending: 0 }), IngestStep::CompleteJob);
    assert_eq!(
        next_ingest_step(true, IngestEvent::PendingCounted { pending: 1 }),
        IngestStep::Finish(IngestOutcome::Recorded { job_completed: false })
    );
    assert_eq!(
        next_ingest_step(false, IngestEvent::JobCompleted),
        IngestStep::Finish(IngestOutcome::Recorded { job_completed: true })
    );
}

#[test]
fn failed_runs_still_complete_the_job() {
    let mut b = book_with_job(1, &[10, 11]);
    let f1 = ResultMessage::aborted(100, 1, 10, "w1".to_string(), "Start time is in the past".to_string());
    let f2 = ResultMessage::aborted(101, 1, 11, "w1".to_string(), "Start time is in the past".to_string());
    assert_eq!(b.ingest_result(f1), IngestOutcome::Recorded { job_completed: false });
    assert_eq!(b.ingest_result(f2), IngestOutcome::Recorded { job_completed: true });
    assert_eq!(b.jobs[0].status, JobStatus::Completed);
    assert_eq!(b.count_pending_sub_jobs(1), 0);
}

#[test]
fn both_envelopes_follow_the_schedule() {
    let (a, b) = netbench::jobs::sub_job_envelopes(5_000, 1, 10, 11, &"http://host/10gb.bin".to_string(), 3, 3 + 100 * MIB);
    let starts: Vec<(u128, i64, i64)> = [a, b]
        .into_iter()
        .map(|m| match m {
            Message::WorkerJob { payload, .. } => (payload.sub_job_id, payload.start_time, payload.download_start_time),
            _ => panic!("expected a job envelope"),
        })
        .collect();
    assert_eq!(starts, vec![(10, 6_000, 16_000), (11, 77_000, 87_000)]);
}
