//! Envelopes exchanged between scheduler and workers.
//!
//! Identifiers are 128-bit UUID values, instants are UTC milliseconds since
//! the Unix epoch, and probe latencies are integer nanoseconds; the wire
//! encoding turns them into UUID strings, RFC 3339 times and decimal seconds
//! or milliseconds.

use vstd::prelude::*;

verus! {

/// Messages that travel through the exchanges.
pub enum Message {
    WorkerJob { job_id: u128, payload: JobMessage },
    WorkerResult { job_id: u128, result: ResultMessage },
    WorkerStatus { status: StatusMessage },
}

/// One sub-job as a worker receives it.
pub struct JobMessage {
    pub job_id: u128,
    pub sub_job_id: u128,
    pub url: String,
    pub start_time: i64,
    pub download_start_time: i64,
    pub start_range: u64,
    pub end_range: u64,
}

/// Outcome of one worker's run of one sub-job.
pub struct ResultMessage {
    pub run_id: u128,
    pub job_id: u128,
    pub sub_job_id: u128,
    pub worker_name: String,
    pub is_success: bool,
    pub download_result: Result<DownloadResult, DownloadError>,
    pub ping_result: Result<PingResult, PingError>,
    pub head_result: Result<HeadResult, HeadError>,
}

/// Bytes received since the previous log entry.
#[derive(Clone, Copy, PartialEq, Eq, Structural, Debug)]
pub struct IntervalBytes(pub u64);

/// Bytes received since the download began.
#[derive(Clone, Copy, PartialEq, Eq, Structural, Debug)]
pub struct AccumulatingBytes(pub u64);

/// Successful download measurement. Speeds and elapsed seconds are derived
/// from these integers when the result is encoded.
pub struct DownloadResult {
    pub total_bytes: u64,
    pub job_start_time: i64,
    pub download_start_time: i64,
    pub end_time: i64,
    pub time_to_first_byte_ms: i64,
    pub second_by_second_logs: Vec<(i64, IntervalBytes, AccumulatingBytes)>,
}

pub struct DownloadError {
    pub error: String,
}

/// Round-trip times of the echo replies received: smallest, largest, their
/// sum and their number (the mean is `sum_ns / count`).
pub struct PingResult {
    pub min_ns: u64,
    pub max_ns: u64,
    pub sum_ns: u128,
    pub count: u64,
}

pub struct PingError {
    pub error: String,
}

/// Latencies of the HEAD requests that completed, as for `PingResult`.
pub struct HeadResult {
    pub min_ns: u64,
    pub max_ns: u64,
    pub sum_ns: u128,
    pub count: u64,
}

pub struct HeadError {
    pub error: String,
}

/// A result is successful exactly when its download measurement is.
pub open spec fn result_consistent(r: ResultMessage) -> bool {
    r.is_success == r.download_result is Ok
}

/// Every measurement failed for the same reason.
pub open spec fn all_failed_with(r: ResultMessage, reason: Seq<char>) -> bool {
    &&& r.download_result matches Err(e) && e.error@ == reason
    &&& r.ping_result matches Err(e) && e.error@ == reason
    &&& r.head_result matches Err(e) && e.error@ == reason
}

impl ResultMessage {
    /// A run that measured nothing: every probe carries `error`.
    pub fn aborted(
        run_id: u128,
        job_id: u128,
        sub_job_id: u128,
        worker_name: String,
        error: String,
    ) -> (r: Self)
        ensures
            r.run_id == run_id,
            r.job_id == job_id,
            r.sub_job_id == sub_job_id,
            r.worker_name@ == worker_name@,
            !r.is_success,
            all_failed_with(r, error@),
            result_consistent(r),
    {
        Self {
            run_id,
            job_id,
            sub_job_id,
            worker_name,
            is_success: false,
            download_result: Err(DownloadError { error: error.clone() }),
            ping_result: Err(PingError { error: error.clone() }),
            head_result: Err(HeadError { error }),
        }
    }

    /// Gathers the three probe outcomes of a run; the run succeeds exactly
    /// when the download did.
    pub fn assemble(
        run_id: u128,
        job_id: u128,
        sub_job_id: u128,
        worker_name: String,
        download_result: Result<DownloadResult, DownloadError>,
        ping_result: Result<PingResult, PingError>,
        head_result: Result<HeadResult, HeadError>,
    ) -> (r: Self)
        ensures
            r.run_id == run_id,
            r.job_id == job_id,
            r.sub_job_id == sub_job_id,
            r.worker_name@ == worker_name@,
            r.is_success == download_result is Ok,
            r.download_result == download_result,
            r.ping_result == ping_result,
            r.head_result == head_result,
            result_consistent(r),
    {
        let is_success = download_result.is_ok();
        Self {
            run_id,
            job_id,
            sub_job_id,
            worker_name,
            is_success,
            download_result,
            ping_result,
            head_result,
        }
    }
}

/// What a worker reports when it starts a run.
pub struct WorkerStatusJobDetails {
    pub run_id: u128,
    pub job_id: u128,
    pub sub_job_id: u128,
    pub worker_name: String,
}

pub enum WorkerStatusDetails {
    Lifecycle(WorkerDetails),
    Job(Option<WorkerStatusJobDetails>),
    Heartbeat,
}

pub struct WorkerDetails {
    pub worker_topics: Vec<String>,
    pub worker_status: WorkerStatus,
}

#[derive(Clone, Copy, PartialEq, Eq, Structural, Debug)]
pub enum WorkerStatus {
    Online,
    Offline,
}

pub open spec fn worker_status_name(s: WorkerStatus) -> Seq<char> {
    match s {
        WorkerStatus::Online => "online"@,
        WorkerStatus::Offline => "offline"@,
    }
}

impl WorkerStatus {
    /// The status as it is stored: `online` or `offline`.
    pub fn as_str(&self) -> (r: &'static str)
        ensures
            r@ == worker_status_name(*self),
    {
        match self {
            WorkerStatus::Online => "online",
            WorkerStatus::Offline => "offline",
        }
    }
}

pub struct StatusMessage {
    pub worker_name: String,
    pub status: WorkerStatusDetails,
    pub timestamp: i64,
}

impl StatusMessage {
    /// Lifecycle report: the worker came online or is going offline, with the
    /// topics it listens on.
    pub fn lifecycle(
        worker_name: String,
        worker_topics: Vec<String>,
        worker_status: WorkerStatus,
        timestamp: i64,
    ) -> (r: Self)
        ensures
            r.worker_name == worker_name,
            r.timestamp == timestamp,
            r.status == WorkerStatusDetails::Lifecycle(WorkerDetails { worker_topics, worker_status }),
    {
        StatusMessage {
            worker_name,
            status: WorkerStatusDetails::Lifecycle(WorkerDetails { worker_topics, worker_status }),
            timestamp,
        }
    }

    /// Job report: the run the worker is busy with, or `None` once it is done.
    pub fn job(worker_name: String, job_details: Option<WorkerStatusJobDetails>, timestamp: i64) -> (r:
        Self)
        ensures
            r.worker_name == worker_name,
            r.timestamp == timestamp,
            r.status == WorkerStatusDetails::Job(job_details),
    {
        StatusMessage { worker_name, status: WorkerStatusDetails::Job(job_details), timestamp }
    }

    /// Heartbeat report.
    pub fn heartbeat(worker_name: String, timestamp: i64) -> (r: Self)
        ensures
            r.worker_name == worker_name,
            r.timestamp == timestamp,
            r.status == WorkerStatusDetails::Heartbeat,
    {
        StatusMessage { worker_name, status: WorkerStatusDetails::Heartbeat, timestamp }
    }
}

/// Why an envelope was not the one a consumer expects.
#[derive(Clone, Copy, PartialEq, Eq, Structural, Debug)]
pub enum UnexpectedMessage {
    NotAJob,
    NotAResult,
    NotAStatus,
}

impl Message {
    /// The job carried by a `WorkerJob` envelope.
    pub fn into_job(self) -> (r: Result<(u128, JobMessage), UnexpectedMessage>)
        ensures
            match self {
                Message::WorkerJob { job_id, payload } => r == Ok::<_, UnexpectedMessage>((job_id, payload)),
                _ => r == Err::<(u128, JobMessage), _>(UnexpectedMessage::NotAJob),
            },
    {
        match self {
            Message::WorkerJob { job_id, payload } => Ok((job_id, payload)),
            _ => Err(UnexpectedMessage::NotAJob),
        }
    }

    /// The result carried by a `WorkerResult` envelope.
    pub fn into_result(self) -> (r: Result<(u128, ResultMessage), UnexpectedMessage>)
        ensures
            match self {
                Message::WorkerResult { job_id, result } => r == Ok::<_, UnexpectedMessage>((job_id, result)),
                _ => r == Err::<(u128, ResultMessage), _>(UnexpectedMessage::NotAResult),
            },
    {
        match self {
            Message::WorkerResult { job_id, result } => Ok((job_id, result)),
            _ => Err(UnexpectedMessage::NotAResult),
        }
    }

    /// The report carried by a `WorkerStatus` envelope.
    pub fn into_status(self) -> (r: Result<StatusMessage, UnexpectedMessage>)
        ensures
            match self {
                Message::WorkerStatus { status } => r == Ok::<_, UnexpectedMessage>(status),
                _ => r == Err::<StatusMessage, _>(UnexpectedMessage::NotAStatus),
            },
    {
        match self {
            Message::WorkerStatus { status } => Ok(status),
            _ => Err(UnexpectedMessage::NotAStatus),
        }
    }
}

} // verus!
