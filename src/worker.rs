//! A worker's handling of one job delivery, as a decision taken when the job
//! is received.

use vstd::prelude::*;
use crate::measure::{start_in_past_text, wait_spec};
use crate::messages::{
    all_failed_with, result_consistent, JobMessage, ResultMessage, WorkerStatusJobDetails,
};

verus! {

/// What to do with a received job.
pub enum RunPlan {
    /// The start instant has passed: publish this result at once.
    Aborted(ResultMessage),
    /// Report `details` as the current job, sleep `wait_ms`, then run the
    /// three probes.
    Scheduled { wait_ms: u64, details: WorkerStatusJobDetails },
}

/// Decides, at `now`, how the run `run_id` of `job` proceeds on the worker
/// `worker_name`: a start instant in the past aborts the run with every probe
/// failed; otherwise the worker waits until that instant.
pub fn plan_run(run_id: u128, job_id: u128, job: &JobMessage, worker_name: &String, now: i64) -> (r:
    RunPlan)
    ensures
        job.start_time < now <==> r is Aborted,
        r matches RunPlan::Aborted(m) ==> {
            &&& m.run_id == run_id
            &&& m.job_id == job_id
            &&& m.sub_job_id == job.sub_job_id
            &&& m.worker_name@ == worker_name@
            &&& !m.is_success
            &&& all_failed_with(m, start_in_past_text())
            &&& result_consistent(m)
        },
        r matches RunPlan::Scheduled { wait_ms, details } ==> {
            &&& wait_ms == wait_spec(now as int, job.start_time as int)
            &&& details.run_id == run_id
            &&& details.job_id == job_id
            &&& details.sub_job_id == job.sub_job_id
            &&& details.worker_name@ == worker_name@
        },
{
    if job.start_time < now {
        return RunPlan::Aborted(
            ResultMessage::aborted(
                run_id,
                job_id,
                job.sub_job_id,
                worker_name.clone(),
                String::from_str("Start time is in the past"),
            ),
        );
    }
    let wait_ms = ((job.start_time as i128) - (now as i128)) as u64;
    RunPlan::Scheduled {
        wait_ms,
        details: WorkerStatusJobDetails {
            run_id,
            job_id,
            sub_job_id: job.sub_job_id,
            worker_name: worker_name.clone(),
        },
    }
}

} // verus!
