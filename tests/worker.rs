use netbench::jobs::{IngestOutcome, JobBook, JobDetails, JobStatus, SubJobStatus};
use netbench::messages::JobMessage;
use netbench::worker::{plan_run, RunPlan};

fn job(start_time: i64) -> JobMessage {
    JobMessage {
        job_id: 1,
        sub_job_id: 10,
        url: "http://host/10gb.bin".to_string(),
        start_time,
        download_start_time: start_time + 10_000,
        start_range: 0,
        end_range: 104_857_600,
    }
}

#[test]
fn job_starting_in_the_past_is_aborted() {
    let now = 1_700_000_000_000i64;
    let plan = plan_run(7, 1, &job(now - 5_000), &"w1".to_string(), now);
    let result = match plan {
        RunPlan::Aborted(r) => r,
        _ => panic!("expected an aborted run"),
    };
    assert!(!result.is_success);
    assert_eq!(result.run_id, 7);
    assert_eq!(result.sub_job_id, 10);
    assert_eq!(result.download_result.as_ref().err().unwrap().error, "Start time is in the past");
    assert_eq!(result.ping_result.as_ref().err().unwrap().error, "Start time is in the past");
    assert_eq!(result.head_result.as_ref().err().unwrap().error, "Start time is in the past");

    let mut b = JobBook::new();
    b.create_job(1, "http://host/10gb.bin".to_string(), "all".to_string(), JobStatus::Pending,
        JobDetails { start_range: 0, end_range: 104_857_600 }).unwrap();
    b.create_sub_job(10, 1, now - 5_000, now + 5_000).unwrap();
    assert_eq!(b.sub_jobs[0].status, SubJobStatus::Pending);
    assert_eq!(b.ingest_result(result), IngestOutcome::Recorded { job_completed: true });
    assert_eq!(b.sub_jobs[0].status, SubJobStatus::Failed);
}

#[test]
fn job_in_the_future_is_waited_for() {
    let now = 1_000i64;
    match plan_run(7, 1, &job(4_000), &"w1".to_string(), now) {
        RunPlan::Scheduled { wait_ms, details } => {
            assert_eq!(wait_ms, 3_000);
            assert_eq!(details.run_id, 7);
            assert_eq!(details.job_id, 1);
            assert_eq!(details.sub_job_id, 10);
            assert_eq!(details.worker_name, "w1");
        }
        _ => panic!("expected a scheduled run"),
    }
    assert!(matches!(plan_run(7, 1, &job(1_000), &"w1".to_string(), now), RunPlan::Scheduled { wait_ms: 0, .. }));
}
