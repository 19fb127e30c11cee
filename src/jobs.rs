//! The scheduler's job manager: validating a job request, choosing the byte
//! window to download, scheduling the sub-jobs and building their envelopes.

use vstd::prelude::*;
use crate::config::decimal_u64;
use crate::measure::MAX_DOWNLOAD_DURATION_MS;
use crate::messages::{JobMessage, Message, ResultMessage};
use rand::Rng;

verus! {

/// Body of an error reply.
pub struct ErrorResponse {
    pub error: String,
}

/// A reply of the HTTP interface: an error with its status, or a payload.
pub enum ApiResponse<T> {
    BadRequest(ErrorResponse),
    InternalServerError(ErrorResponse),
    NotFound(ErrorResponse),
    OkResponse(T),
}

pub open spec fn is_bad_request<T>(r: ApiResponse<T>, msg: Seq<char>) -> bool {
    r matches ApiResponse::BadRequest(e) && e.error@ == msg
}

/// A 400 reply.
pub fn bad_request(msg: String) -> (r: ApiResponse<()>)
    ensures
        is_bad_request(r, msg@),
{
    ApiResponse::BadRequest(ErrorResponse { error: msg })
}

/// A 500 reply.
pub fn internal_server_error(msg: String) -> (r: ApiResponse<()>)
    ensures
        r matches ApiResponse::InternalServerError(e) && e.error@ == msg@,
{
    ApiResponse::InternalServerError(ErrorResponse { error: msg })
}

/// A 404 reply.
pub fn not_found(msg: String) -> (r: ApiResponse<()>)
    ensures
        r matches ApiResponse::NotFound(e) && e.error@ == msg@,
{
    ApiResponse::NotFound(ErrorResponse { error: msg })
}

/// A 200 reply carrying `data`.
pub fn ok_response<T>(data: T) -> (r: ApiResponse<T>)
    ensures
        r == ApiResponse::<T>::OkResponse(data),
{
    ApiResponse::OkResponse(data)
}

/// Body of `POST /job`.
pub struct JobInput {
    pub url: String,
    pub routing_key: String,
}

/// Query of `GET /data`.
pub struct GetDataQuery {
    pub job_id: String,
}

/// Body of `GET /healthcheck`.
pub struct HealthcheckResponse {
    pub status: String,
}

/// The health check always answers `ok`.
pub fn healthcheck() -> (r: HealthcheckResponse)
    ensures
        r.status@ == "ok"@,
{
    HealthcheckResponse { status: String::from_str("ok") }
}

/// Whether `s` is a URL that the URL standard's parser accepts.
pub uninterp spec fn url_parses(s: Seq<char>) -> bool;

/// The scheme of the URL parsed from `s`, lower-cased, without its `:`.
pub uninterp spec fn url_scheme_of(s: Seq<char>) -> Seq<char>;

/// The serialization of the URL parsed from `s`.
pub uninterp spec fn url_serialization_of(s: Seq<char>) -> Seq<char>;

/// The host of the URL parsed from `s`, as text, if it has one.
pub uninterp spec fn url_host_of(s: Seq<char>) -> Option<Seq<char>>;

/// The port written in the URL parsed from `s`, unless it is absent or the
/// default port of the scheme.
pub uninterp spec fn url_port_of(s: Seq<char>) -> Option<u16>;

/// The parts of a parsed URL that the library reads.
pub struct ParsedUrl {
    pub serialization: String,
    pub scheme: String,
    pub host: Option<String>,
    pub port: Option<u16>,
}

/// Relies on `url::Url::parse`, and on `Url::as_str`, `Url::scheme`,
/// `Url::host_str` and `Url::port` of its result: whether the text parses,
/// the URL's serialization, its scheme, its host and its explicit port.
#[verifier::external_body]
pub(crate) fn parse_url(s: &str) -> (r: Option<ParsedUrl>)
    ensures
        r is Some <==> url_parses(s@),
        r matches Some(u) ==> {
            &&& u.serialization@ == url_serialization_of(s@)
            &&& u.scheme@ == url_scheme_of(s@)
            &&& u.port == url_port_of(s@)
            &&& match u.host {
                Some(h) => url_host_of(s@) == Some(h@),
                None => url_host_of(s@) is None,
            }
        },
{
    match url::Url::parse(s) {
        Ok(u) => Some(
            ParsedUrl {
                serialization: u.as_str().to_string(),
                scheme: u.scheme().to_string(),
                host: u.host_str().map(|h| h.to_string()),
                port: u.port(),
            },
        ),
        Err(_) => None,
    }
}

/// Whether the URL in `s` may be measured: it parses and its scheme is
/// `http` or `https`.
pub open spec fn url_accepted(s: Seq<char>) -> bool {
    url_parses(s) && (url_scheme_of(s) == "http"@ || url_scheme_of(s) == "https"@)
}

/// Checks a job's URL, given the outcome of parsing it; returns the URL's
/// serialization.
pub fn check_url(parsed: Option<ParsedUrl>) -> (r: Result<String, ApiResponse<()>>)
    ensures
        parsed is None ==> is_bad_request(r->Err_0, "Invalid URL provided"@) && r is Err,
        parsed matches Some(u) ==> {
            if u.scheme@ == "http"@ || u.scheme@ == "https"@ {
                r matches Ok(v) && v@ == u.serialization@
            } else {
                r is Err && is_bad_request(r->Err_0, "URL scheme must be http or https"@)
            }
        },
{
    match parsed {
        None => Err(bad_request(String::from_str("Invalid URL provided"))),
        Some(u) => {
            if crate::broker::str_equal(u.scheme.as_str(), "http") || crate::broker::str_equal(
                u.scheme.as_str(),
                "https",
            ) {
                Ok(u.serialization)
            } else {
                Err(bad_request(String::from_str("URL scheme must be http or https")))
            }
        },
    }
}

/// Validates the URL of a job request: it must parse and use `http` or
/// `https`. Returns the URL's serialization.
pub fn validate_url(payload: &JobInput) -> (r: Result<String, ApiResponse<()>>)
    ensures
        r is Ok <==> url_accepted(payload.url@),
        r matches Ok(v) ==> v@ == url_serialization_of(payload.url@),
        !url_parses(payload.url@) ==> is_bad_request(r->Err_0, "Invalid URL provided"@),
        url_parses(payload.url@) && !url_accepted(payload.url@) ==> is_bad_request(
            r->Err_0,
            "URL scheme must be http or https"@,
        ),
{
    check_url(parse_url(payload.url.as_str()))
}

/// Validates the routing key of a job request: it must not be empty.
pub fn validate_routing_key(payload: &JobInput) -> (r: Result<(), ApiResponse<()>>)
    ensures
        r is Ok <==> payload.routing_key@.len() > 0,
        r is Err ==> is_bad_request(r->Err_0, "Routing key cannot be empty"@),
{
    if payload.routing_key.as_str().unicode_len() == 0 {
        return Err(bad_request(String::from_str("Routing key cannot be empty")));
    }
    Ok(())
}

/// Bytes each sub-job downloads: 100 MiB.
pub const WINDOW_SIZE: u64 = 104_857_600;

/// Relies on `rand::thread_rng` and `Rng::gen_range` over an inclusive
/// range, which returns a value of that range and panics only when it is
/// empty.
#[verifier::external_body]
fn random_between(lo: u64, hi: u64) -> (r: u64)
    requires
        lo <= hi,
    ensures
        lo <= r <= hi,
{
    rand::thread_rng().gen_range(lo..=hi)
}

/// The download window that starts at `offset`: `[offset, offset + 100 MiB)`,
/// given as its first byte and the byte after its last.
pub fn window_at(content_length: u64, offset: u64) -> (r: (u64, u64))
    requires
        WINDOW_SIZE <= content_length,
        offset <= content_length - WINDOW_SIZE,
    ensures
        r.0 == offset,
        r.1 == offset + WINDOW_SIZE,
        r.1 <= content_length,
{
    (offset, offset + WINDOW_SIZE)
}

/// The window of a file of `content_length` bytes that a job downloads,
/// drawn at random among the windows of 100 MiB inside the file. A file
/// smaller than that is refused.
pub fn window_for_length(content_length: u64) -> (r: Result<(u64, u64), ApiResponse<()>>)
    ensures
        content_length < WINDOW_SIZE <==> r is Err,
        r is Err ==> is_bad_request(r->Err_0, "File size is less than 100 MB"@),
        r matches Ok(w) ==> w.1 == w.0 + WINDOW_SIZE && w.1 <= content_length,
{
    if content_length < WINDOW_SIZE {
        return Err(bad_request(String::from_str("File size is less than 100 MB")));
    }
    let offset = random_between(0, content_length - WINDOW_SIZE);
    Ok(window_at(content_length, offset))
}

/// Reads the `Content-Length` header of the target (`None` when absent) and
/// chooses the window to download.
pub fn get_file_range_for_file(content_length_header: Option<&[u8]>) -> (r: Result<
    (u64, u64),
    ApiResponse<()>,
>)
    ensures
        content_length_header is None ==> r is Err && is_bad_request(
            r->Err_0,
            "Content-Length header is missing in the response"@,
        ),
        content_length_header matches Some(h) ==> match decimal_u64(h@) {
            None => r is Err && is_bad_request(r->Err_0, "Failed to parse Content-Length header"@),
            Some(len) => {
                &&& (len < WINDOW_SIZE <==> r is Err)
                &&& r is Err ==> is_bad_request(r->Err_0, "File size is less than 100 MB"@)
                &&& r matches Ok(w) ==> w.1 == w.0 + WINDOW_SIZE && w.1 <= len
            },
        },
{
    let h = match content_length_header {
        None => {
            return Err(
                bad_request(String::from_str("Content-Length header is missing in the response")),
            )
        },
        Some(h) => h,
    };
    match crate::config::parse_decimal_u64(h) {
        None => Err(bad_request(String::from_str("Failed to parse Content-Length header"))),
        Some(len) => window_for_length(len),
    }
}

/// Delay between a job's creation and its first sub-job's start (ms).
pub const SYNC_DELAY_MS: i64 = 1_000;

/// Quiet window between a sub-job's start and its download (ms).
pub const DOWNLOAD_DELAY_MS: i64 = 10_000;

/// Latest creation instant whose schedule, downloads included, fits the
/// clock's range.
pub const LATEST_CREATION: i64 = i64::MAX - 82_000;

/// Start instants of a job's two sub-jobs created at `now`: the first one
/// second later, the second one full measurement window after it.
pub open spec fn schedule_spec(now: int) -> (int, int) {
    let t0 = now + SYNC_DELAY_MS;
    (t0, t0 + DOWNLOAD_DELAY_MS + MAX_DOWNLOAD_DURATION_MS + SYNC_DELAY_MS)
}

pub fn sub_job_start_times(now: i64) -> (r: (i64, i64))
    requires
        now <= LATEST_CREATION,
    ensures
        r.0 == schedule_spec(now as int).0,
        r.1 == schedule_spec(now as int).1,
{
    let t0 = now + SYNC_DELAY_MS;
    (t0, t0 + DOWNLOAD_DELAY_MS + MAX_DOWNLOAD_DURATION_MS + SYNC_DELAY_MS)
}

/// The envelope that dispatches sub-job `sub_job_id` of a job to workers:
/// it starts at `start_time` and downloads from `start_time` plus the quiet
/// window.
pub fn job_envelope(
    job_id: u128,
    sub_job_id: u128,
    url: String,
    start_time: i64,
    start_range: u64,
    end_range: u64,
) -> (r: Message)
    requires
        start_time <= i64::MAX - DOWNLOAD_DELAY_MS,
    ensures
        r matches Message::WorkerJob { job_id: j, payload: p } && {
            &&& j == job_id
            &&& p.job_id == job_id
            &&& p.sub_job_id == sub_job_id
            &&& p.url == url
            &&& p.start_time == start_time
            &&& p.download_start_time == start_time + DOWNLOAD_DELAY_MS
            &&& p.start_range == start_range
            &&& p.end_range == end_range
        },
{
    Message::WorkerJob {
        job_id,
        payload: JobMessage {
            job_id,
            sub_job_id,
            url,
            start_time,
            download_start_time: start_time + DOWNLOAD_DELAY_MS,
            start_range,
            end_range,
        },
    }
}


/// `m` dispatches sub-job `sub_job_id` of job `job_id` on `url`, over the
/// window `[start_range, end_range]`, starting at `start_time` and
/// downloading from the quiet window's end.
pub open spec fn dispatches(
    m: Message,
    job_id: u128,
    sub_job_id: u128,
    url: Seq<char>,
    start_time: int,
    start_range: u64,
    end_range: u64,
) -> bool {
    m matches Message::WorkerJob { job_id: j, payload: p } && {
        &&& j == job_id
        &&& p.job_id == job_id
        &&& p.sub_job_id == sub_job_id
        &&& p.url@ == url
        &&& p.start_time == start_time
        &&& p.download_start_time == start_time + DOWNLOAD_DELAY_MS
        &&& p.start_range == start_range
        &&& p.end_range == end_range
    }
}

/// The two envelopes that dispatch a job created at `now`: the first
/// sub-job starts one second later, the second one measurement window
/// (quiet window, longest download and one second) after the first.
pub fn sub_job_envelopes(
    now: i64,
    job_id: u128,
    first_sub_job_id: u128,
    second_sub_job_id: u128,
    url: &String,
    start_range: u64,
    end_range: u64,
) -> (r: (Message, Message))
    requires
        now <= LATEST_CREATION,
    ensures
        dispatches(r.0, job_id, first_sub_job_id, url@, now + SYNC_DELAY_MS, start_range, end_range),
        dispatches(
            r.1,
            job_id,
            second_sub_job_id,
            url@,
            now + SYNC_DELAY_MS + DOWNLOAD_DELAY_MS + MAX_DOWNLOAD_DURATION_MS + SYNC_DELAY_MS,
            start_range,
            end_range,
        ),
{
    let (t0, t1) = sub_job_start_times(now);
    let first = job_envelope(job_id, first_sub_job_id, url.clone(), t0, start_range, end_range);
    let second = job_envelope(job_id, second_sub_job_id, url.clone(), t1, start_range, end_range);
    (first, second)
}

#[derive(Clone, Copy, PartialEq, Eq, Structural, Debug)]
pub enum JobStatus {
    Pending,
    Processing,
    Completed,
    Failed,
}

#[derive(Clone, Copy, PartialEq, Eq, Structural, Debug)]
pub enum SubJobStatus {
    Pending,
    Processing,
    Completed,
    Failed,
}

/// Kinds of sub-job: download, head and ping run together.
#[derive(Clone, Copy, PartialEq, Eq, Structural, Debug)]
pub enum SubJobType {
    CombinedDHP,
}

/// Byte window a job downloads, fixed when the job is created.
#[derive(Clone, Copy, PartialEq, Eq, Structural, Debug)]
pub struct JobDetails {
    pub start_range: u64,
    pub end_range: u64,
}

pub struct Job {
    pub id: u128,
    pub url: String,
    pub routing_key: String,
    pub status: JobStatus,
    pub details: JobDetails,
}

#[derive(Clone, Copy, PartialEq, Eq, Structural, Debug)]
pub struct SubJob {
    pub id: u128,
    pub job_id: u128,
    pub status: SubJobStatus,
    pub sub_job_type: SubJobType,
    pub start_time: i64,
    pub download_start_time: i64,
}

/// Why the store refused a write.
#[derive(Clone, Copy, PartialEq, Eq, Structural, Debug)]
pub enum StoreError {
    /// A record with that key exists already.
    DuplicateKey,
    /// The parent job is not known.
    UnknownJob,
    /// The parent job has completed and takes no further sub-jobs.
    JobClosed,
}

/// What became of a delivered result.
#[derive(Clone, Copy, PartialEq, Eq, Structural, Debug)]
pub enum IngestOutcome {
    /// The result row was stored; `job_completed` tells whether no sub-job of
    /// its job is pending any longer.
    Recorded { job_completed: bool },
    /// A row for this run exists: the delivery is a repeat.
    DuplicateRun,
    /// The result names no known sub-job: it is stale.
    UnknownSubJob,
}

/// The scheduler's jobs, sub-jobs and result rows.
pub struct JobBook {
    pub jobs: Vec<Job>,
    pub sub_jobs: Vec<SubJob>,
    pub results: Vec<ResultMessage>,
}

pub open spec fn has_job(jobs: Seq<Job>, id: u128) -> bool {
    exists|i: int| 0 <= i < jobs.len() && jobs[i].id == id
}

pub open spec fn has_sub_job(subs: Seq<SubJob>, id: u128) -> bool {
    exists|i: int| 0 <= i < subs.len() && subs[i].id == id
}

pub open spec fn has_run(results: Seq<ResultMessage>, run_id: u128) -> bool {
    exists|i: int| 0 <= i < results.len() && results[i].run_id == run_id
}

/// Number of pending sub-jobs of job `job_id` in `subs`.
pub open spec fn pending_count(subs: Seq<SubJob>, job_id: u128) -> nat
    decreases subs.len(),
{
    if subs.len() == 0 {
        0
    } else {
        pending_count(subs.drop_last(), job_id) + if subs.last().job_id == job_id
            && subs.last().status == SubJobStatus::Pending {
            1nat
        } else {
            0nat
        }
    }
}

pub open spec fn is_terminal(s: SubJobStatus) -> bool {
    s == SubJobStatus::Completed || s == SubJobStatus::Failed
}

/// A completed job has every sub-job completed or failed.
pub open spec fn completed_jobs_settled(jobs: Seq<Job>, subs: Seq<SubJob>) -> bool {
    forall|i: int, k: int|
        #![trigger jobs[i], subs[k]]
        0 <= i < jobs.len() && 0 <= k < subs.len() && jobs[i].status == JobStatus::Completed
            && subs[k].job_id == jobs[i].id ==> is_terminal(subs[k].status)
}

/// The status a sub-job takes from its result.
pub open spec fn outcome_status(is_success: bool) -> SubJobStatus {
    if is_success {
        SubJobStatus::Completed
    } else {
        SubJobStatus::Failed
    }
}

/// The status a sub-job takes from the success of its result.
pub fn sub_job_status_for(is_success: bool) -> (r: SubJobStatus)
    ensures
        r == outcome_status(is_success),
{
    if is_success {
        SubJobStatus::Completed
    } else {
        SubJobStatus::Failed
    }
}

/// Job `job_id` has at least one sub-job in `subs`.
pub open spec fn has_sub_job_of(subs: Seq<SubJob>, job_id: u128) -> bool {
    exists|k: int| 0 <= k < subs.len() && subs[k].job_id == job_id
}

/// No sub-job of job `job_id` in `subs` is pending.
pub open spec fn none_pending(subs: Seq<SubJob>, job_id: u128) -> bool {
    forall|k: int| 0 <= k < subs.len() && subs[k].job_id == job_id ==> subs[k].status != SubJobStatus::Pending
}

/// A job with sub-jobs, none of them pending, has completed.
pub open spec fn settled_jobs_completed(jobs: Seq<Job>, subs: Seq<SubJob>) -> bool {
    forall|i: int|
        #![trigger jobs[i]]
        0 <= i < jobs.len() && has_sub_job_of(subs, jobs[i].id) && none_pending(subs, jobs[i].id)
            ==> jobs[i].status == JobStatus::Completed
}

proof fn lemma_pending_count_zero(subs: Seq<SubJob>, job_id: u128)
    ensures
        pending_count(subs, job_id) == 0 <==> forall|k: int|
            0 <= k < subs.len() && subs[k].job_id == job_id ==> subs[k].status
                != SubJobStatus::Pending,
    decreases subs.len(),
{
    if subs.len() > 0 {
        lemma_pending_count_zero(subs.drop_last(), job_id);
        assert forall|k: int| 0 <= k < subs.len() - 1 implies subs.drop_last()[k] == subs[k] by {}
    }
}

impl JobBook {
    /// Keys are unique, every sub-job belongs to a known job and every
    /// result row to a known sub-job, sub-jobs are pending or settled, a
    /// completed job has no unsettled sub-job, and a job with sub-jobs,
    /// none of them pending, has completed.
    pub open spec fn wf(&self) -> bool {
        &&& forall|i: int, j: int|
            0 <= i < j < self.jobs@.len() ==> self.jobs@[i].id != self.jobs@[j].id
        &&& forall|i: int, j: int|
            0 <= i < j < self.sub_jobs@.len() ==> self.sub_jobs@[i].id != self.sub_jobs@[j].id
        &&& forall|i: int, j: int|
            0 <= i < j < self.results@.len() ==> self.results@[i].run_id
                != self.results@[j].run_id
        &&& forall|k: int|
            0 <= k < self.sub_jobs@.len() ==> has_job(self.jobs@, #[trigger] self.sub_jobs@[k].job_id)
        &&& forall|k: int|
            0 <= k < self.results@.len() ==> has_sub_job(
                self.sub_jobs@,
                #[trigger] self.results@[k].sub_job_id,
            )
        &&& forall|k: int|
            0 <= k < self.sub_jobs@.len() ==> #[trigger] self.sub_jobs@[k].status
                != SubJobStatus::Processing
        &&& completed_jobs_settled(self.jobs@, self.sub_jobs@)
        &&& settled_jobs_completed(self.jobs@, self.sub_jobs@)
    }

    pub fn new() -> (r: Self)
        ensures
            r.wf(),
            r.jobs@.len() == 0,
            r.sub_jobs@.len() == 0,
            r.results@.len() == 0,
    {
        JobBook { jobs: Vec::new(), sub_jobs: Vec::new(), results: Vec::new() }
    }

    /// Position of job `id`.
    pub fn find_job(&self, id: u128) -> (r: Option<usize>)
        ensures
            r matches Some(i) ==> i < self.jobs@.len() && self.jobs@[i as int].id == id,
            r is None ==> !has_job(self.jobs@, id),
    {
        let mut i: usize = 0;
        while i < self.jobs.len()
            invariant
                0 <= i <= self.jobs@.len(),
                forall|k: int| 0 <= k < i ==> self.jobs@[k].id != id,
            decreases self.jobs@.len() - i,
        {
            if self.jobs[i].id == id {
                return Some(i);
            }
            i = i + 1;
        }
        None
    }

    /// Position of sub-job `id`.
    pub fn find_sub_job(&self, id: u128) -> (r: Option<usize>)
        ensures
            r matches Some(i) ==> i < self.sub_jobs@.len() && self.sub_jobs@[i as int].id == id,
            r is None ==> !has_sub_job(self.sub_jobs@, id),
    {
        let mut i: usize = 0;
        while i < self.sub_jobs.len()
            invariant
                0 <= i <= self.sub_jobs@.len(),
                forall|k: int| 0 <= k < i ==> self.sub_jobs@[k].id != id,
            decreases self.sub_jobs@.len() - i,
        {
            if self.sub_jobs[i].id == id {
                return Some(i);
            }
            i = i + 1;
        }
        None
    }

    /// Whether a result row for run `run_id` is stored.
    pub fn has_result(&self, run_id: u128) -> (r: bool)
        ensures
            r == has_run(self.results@, run_id),
    {
        let mut i: usize = 0;
        while i < self.results.len()
            invariant
                0 <= i <= self.results@.len(),
                forall|k: int| 0 <= k < i ==> self.results@[k].run_id != run_id,
            decreases self.results@.len() - i,
        {
            if self.results[i].run_id == run_id {
                return true;
            }
            i = i + 1;
        }
        false
    }

    /// Number of sub-jobs of job `job_id` still pending.
    pub fn count_pending_sub_jobs(&self, job_id: u128) -> (r: u64)
        ensures
            r == pending_count(self.sub_jobs@, job_id),
    {
        let mut n: u64 = 0;
        let mut i: usize = 0;
        while i < self.sub_jobs.len()
            invariant
                0 <= i <= self.sub_jobs@.len(),
                n == pending_count(self.sub_jobs@.subrange(0, i as int), job_id),
                n <= i,
            decreases self.sub_jobs@.len() - i,
        {
            assert(self.sub_jobs@.subrange(0, i as int + 1).drop_last() =~= self.sub_jobs@.subrange(
                0,
                i as int,
            ));
            let s = self.sub_jobs[i];
            if s.job_id == job_id && s.status == SubJobStatus::Pending {
                n = n + 1;
            }
            i = i + 1;
        }
        assert(self.sub_jobs@.subrange(0, i as int) =~= self.sub_jobs@);
        n
    }

    /// Records a new job; its id must be fresh.
    pub fn create_job(
        &mut self,
        job_id: u128,
        url: String,
        routing_key: String,
        status: JobStatus,
        details: JobDetails,
    ) -> (r: Result<(), StoreError>)
        requires
            old(self).wf(),
        ensures
            final(self).wf(),
            has_job(old(self).jobs@, job_id) <==> r is Err,
            r is Err ==> r == Err::<(), _>(StoreError::DuplicateKey) && *final(self) == *old(self),
            r is Ok ==> {
                &&& final(self).jobs@ == old(self).jobs@.push(
                    Job { id: job_id, url, routing_key, status, details },
                )
                &&& final(self).sub_jobs@ == old(self).sub_jobs@
                &&& final(self).results@ == old(self).results@
            },
    {
        if self.find_job(job_id).is_some() {
            return Err(StoreError::DuplicateKey);
        }
        let ghost old_jobs = self.jobs@;
        self.jobs.push(Job { id: job_id, url, routing_key, status, details });
        proof {
            assert forall|k: int| 0 <= k < self.sub_jobs@.len() implies has_job(
                self.jobs@,
                #[trigger] self.sub_jobs@[k].job_id,
            ) by {
                let i = choose|i: int| 0 <= i < old_jobs.len() && old_jobs[i].id == self.sub_jobs@[k].job_id;
                assert(self.jobs@[i] == old_jobs[i]);
            }
            assert forall|i: int, k: int|
                #![trigger self.jobs@[i], self.sub_jobs@[k]]
                0 <= i < self.jobs@.len() && 0 <= k < self.sub_jobs@.len() && self.jobs@[i].status
                    == JobStatus::Completed && self.sub_jobs@[k].job_id == self.jobs@[i].id implies is_terminal(
                self.sub_jobs@[k].status,
            ) by {
                if i == old_jobs.len() {
                    assert(has_job(old_jobs, self.sub_jobs@[k].job_id));
                }
            }
            assert forall|i: int|
                #![trigger self.jobs@[i]]
                0 <= i < self.jobs@.len() && has_sub_job_of(self.sub_jobs@, self.jobs@[i].id)
                    && none_pending(self.sub_jobs@, self.jobs@[i].id) implies self.jobs@[i].status
                == JobStatus::Completed by {
                if i == old_jobs.len() {
                    let k = choose|k: int|
                        0 <= k < self.sub_jobs@.len() && self.sub_jobs@[k].job_id == self.jobs@[i].id;
                    assert(has_job(old_jobs, self.sub_jobs@[k].job_id));
                } else {
                    assert(self.jobs@[i] == old_jobs[i]);
                }
            }
        }
        Ok(())
    }

    /// Records a pending sub-job of job `job_id`; its id must be fresh and
    /// its job known and not completed.
    pub fn create_sub_job(
        &mut self,
        sub_job_id: u128,
        job_id: u128,
        start_time: i64,
        download_start_time: i64,
    ) -> (r: Result<(), StoreError>)
        requires
            old(self).wf(),
        ensures
            final(self).wf(),
            has_sub_job(old(self).sub_jobs@, sub_job_id) ==> r == Err::<(), _>(
                StoreError::DuplicateKey,
            ),
            !has_sub_job(old(self).sub_jobs@, sub_job_id) && !has_job(old(self).jobs@, job_id)
                ==> r == Err::<(), _>(StoreError::UnknownJob),
            !has_sub_job(old(self).sub_jobs@, sub_job_id) && has_job(old(self).jobs@, job_id) ==> (
            r == Err::<(), _>(StoreError::JobClosed) <==> exists|i: int|
                0 <= i < old(self).jobs@.len() && old(self).jobs@[i].id == job_id
                    && old(self).jobs@[i].status == JobStatus::Completed),
            !has_sub_job(old(self).sub_jobs@, sub_job_id) && (exists|i: int|
                0 <= i < old(self).jobs@.len() && old(self).jobs@[i].id == job_id
                    && old(self).jobs@[i].status != JobStatus::Completed) ==> r is Ok,
            r is Err ==> *final(self) == *old(self),
            r is Ok ==> {
                &&& final(self).sub_jobs@ == old(self).sub_jobs@.push(
                    SubJob {
                        id: sub_job_id,
                        job_id,
                        status: SubJobStatus::Pending,
                        sub_job_type: SubJobType::CombinedDHP,
                        start_time,
                        download_start_time,
                    },
                )
                &&& final(self).jobs@ == old(self).jobs@
                &&& final(self).results@ == old(self).results@
            },
    {
        if self.find_sub_job(sub_job_id).is_some() {
            return Err(StoreError::DuplicateKey);
        }
        let j = match self.find_job(job_id) {
            None => return Err(StoreError::UnknownJob),
            Some(j) => j,
        };
        if self.jobs[j].status == JobStatus::Completed {
            return Err(StoreError::JobClosed);
        }
        let ghost old_subs = self.sub_jobs@;
        self.sub_jobs.push(
            SubJob {
                id: sub_job_id,
                job_id,
                status: SubJobStatus::Pending,
                sub_job_type: SubJobType::CombinedDHP,
                start_time,
                download_start_time,
            },
        );
        proof {
            assert(self.sub_jobs@[old_subs.len() as int].job_id == self.jobs@[j as int].id);
            assert forall|k: int| 0 <= k < self.results@.len() implies has_sub_job(
                self.sub_jobs@,
                #[trigger] self.results@[k].sub_job_id,
            ) by {
                let i = choose|i: int| 0 <= i < old_subs.len() && old_subs[i].id == self.results@[k].sub_job_id;
                assert(self.sub_jobs@[i] == old_subs[i]);
            }
            assert forall|i: int, k: int|
                #![trigger self.jobs@[i], self.sub_jobs@[k]]
                0 <= i < self.jobs@.len() && 0 <= k < self.sub_jobs@.len() && self.jobs@[i].status
                    == JobStatus::Completed && self.sub_jobs@[k].job_id == self.jobs@[i].id implies is_terminal(
                self.sub_jobs@[k].status,
            ) by {
                if k == old_subs.len() {
                    assert(i != j);
                } else {
                    assert(self.sub_jobs@[k] == old_subs[k]);
                }
            }
            assert forall|i: int|
                #![trigger self.jobs@[i]]
                0 <= i < self.jobs@.len() && has_sub_job_of(self.sub_jobs@, self.jobs@[i].id)
                    && none_pending(self.sub_jobs@, self.jobs@[i].id) implies self.jobs@[i].status
                == JobStatus::Completed by {
                let id = self.jobs@[i].id;
                if id == job_id {
                    assert(self.sub_jobs@[old_subs.len() as int].status == SubJobStatus::Pending);
                } else {
                    let k = choose|k: int| 0 <= k < self.sub_jobs@.len() && self.sub_jobs@[k].job_id == id;
                    assert(k < old_subs.len());
                    assert(self.sub_jobs@[k] == old_subs[k]);
                    assert forall|m: int| 0 <= m < old_subs.len() && old_subs[m].job_id == id implies old_subs[m].status
                        != SubJobStatus::Pending by {
                        assert(self.sub_jobs@[m] == old_subs[m]);
                    }
                }
            }
        }
        Ok(())
    }

    /// Takes in the result of one run, following `next_ingest_step`: a
    /// result for an unknown sub-job, or a repeated run, leaves the store as
    /// it is; otherwise the row is stored, a pending sub-job becomes
    /// completed or failed after the result's success (a settled one keeps
    /// its status), and the job completes once none of its sub-jobs is
    /// pending.
    pub fn ingest_result(&mut self, result: ResultMessage) -> (r: IngestOutcome)
        requires
            old(self).wf(),
        ensures
            final(self).wf(),
            ingest_post(*old(self), *final(self), result, r),
    {
        let is_success = result.is_success;
        let found = self.find_sub_job(result.sub_job_id);
        match next_ingest_step(is_success, IngestEvent::SubJobLookedUp { known: found.is_some() }) {
            IngestStep::Finish(outcome) => return outcome,
            _ => {},
        }
        let idx = found.unwrap();
        let duplicate = self.has_result(result.run_id);
        let status = match next_ingest_step(is_success, IngestEvent::RowSaved { duplicate }) {
            IngestStep::Finish(outcome) => return outcome,
            IngestStep::SettleAndCount(status) => status,
            // No other step follows a stored row.
            _ => return IngestOutcome::DuplicateRun,
        };
        let ghost pre = *self;
        let sub = self.sub_jobs[idx];
        self.results.push(result);
        proof {
            assert forall|i: int, j: int|
                0 <= i < j < self.results@.len() implies self.results@[i].run_id
                != self.results@[j].run_id by {
                if j == pre.results@.len() {
                    assert(self.results@[i] == pre.results@[i]);
                }
            }
            assert forall|k: int| 0 <= k < self.results@.len() implies has_sub_job(
                self.sub_jobs@,
                #[trigger] self.results@[k].sub_job_id,
            ) by {
                if k == pre.results@.len() {
                    assert(self.sub_jobs@[idx as int].id == result.sub_job_id);
                } else {
                    assert(self.results@[k] == pre.results@[k]);
                }
            }
        }
        if sub.status == SubJobStatus::Pending {
            self.sub_jobs.set(
                idx,
                SubJob {
                    id: sub.id,
                    job_id: sub.job_id,
                    status,
                    sub_job_type: sub.sub_job_type,
                    start_time: sub.start_time,
                    download_start_time: sub.download_start_time,
                },
            );
        }
        let ghost mid = *self;
        proof {
            assert forall|k: int| 0 <= k < self.sub_jobs@.len() implies #[trigger] self.sub_jobs@[k].id
                == pre.sub_jobs@[k].id && self.sub_jobs@[k].job_id == pre.sub_jobs@[k].job_id by {}
            assert forall|k: int| 0 <= k < self.sub_jobs@.len() implies has_job(
                self.jobs@,
                #[trigger] self.sub_jobs@[k].job_id,
            ) by {
                assert(self.sub_jobs@[k].job_id == pre.sub_jobs@[k].job_id);
                assert(has_job(pre.jobs@, pre.sub_jobs@[k].job_id));
            }
            assert forall|k: int| 0 <= k < self.results@.len() implies has_sub_job(
                self.sub_jobs@,
                #[trigger] self.results@[k].sub_job_id,
            ) by {
                let rid = self.results@[k].sub_job_id;
                let i = choose|i: int| 0 <= i < pre.sub_jobs@.len() && pre.sub_jobs@[i].id == rid;
                assert(self.sub_jobs@[i].id == rid);
            }
            assert forall|k: int| 0 <= k < self.sub_jobs@.len() implies #[trigger] self.sub_jobs@[k].status
                != SubJobStatus::Processing by {
                if k != idx {
                    assert(self.sub_jobs@[k] == pre.sub_jobs@[k]);
                }
            }
            assert forall|i: int, k: int|
                #![trigger self.jobs@[i], self.sub_jobs@[k]]
                0 <= i < self.jobs@.len() && 0 <= k < self.sub_jobs@.len() && self.jobs@[i].status
                    == JobStatus::Completed && self.sub_jobs@[k].job_id == self.jobs@[i].id implies is_terminal(
                self.sub_jobs@[k].status,
            ) by {
                if k != idx {
                    assert(self.sub_jobs@[k] == pre.sub_jobs@[k]);
                    assert(pre.jobs@[i] == self.jobs@[i]);
                }
            }
            assert forall|i: int|
                #![trigger self.jobs@[i]]
                0 <= i < self.jobs@.len() && self.jobs@[i].id != sub.job_id && has_sub_job_of(
                    self.sub_jobs@,
                    self.jobs@[i].id,
                ) && none_pending(self.sub_jobs@, self.jobs@[i].id) implies self.jobs@[i].status
                == JobStatus::Completed by {
                let id = self.jobs@[i].id;
                let k = choose|k: int| 0 <= k < self.sub_jobs@.len() && self.sub_jobs@[k].job_id == id;
                assert(pre.sub_jobs@[k].job_id == id);
                assert forall|m: int| 0 <= m < pre.sub_jobs@.len() && pre.sub_jobs@[m].job_id == id implies pre.sub_jobs@[m].status
                    != SubJobStatus::Pending by {
                    assert(m != idx);
                    assert(self.sub_jobs@[m] == pre.sub_jobs@[m]);
                }
                assert(pre.jobs@[i] == self.jobs@[i]);
            }
            lemma_pending_count_zero(self.sub_jobs@, sub.job_id);
            assert(has_sub_job_of(self.sub_jobs@, sub.job_id)) by {
                assert(self.sub_jobs@[idx as int].job_id == sub.job_id);
            }
        }
        let pending = self.count_pending_sub_jobs(sub.job_id);
        match next_ingest_step(is_success, IngestEvent::PendingCounted { pending }) {
            IngestStep::Finish(outcome) => {
                assert(ingested(pre, *self, idx as int, result, outcome));
                return outcome;
            },
            _ => {},
        }
        let j = self.find_job(sub.job_id);
        proof {
            assert(has_job(mid.jobs@, mid.sub_jobs@[idx as int].job_id));
        }
        let j = j.unwrap();
        self.jobs[j].status = JobStatus::Completed;
        proof {
            assert forall|i: int, j2: int|
                0 <= i < j2 < self.jobs@.len() implies self.jobs@[i].id != self.jobs@[j2].id by {
                assert(self.jobs@[i].id == mid.jobs@[i].id);
                assert(self.jobs@[j2].id == mid.jobs@[j2].id);
            }
            assert forall|k: int| 0 <= k < self.sub_jobs@.len() implies has_job(
                self.jobs@,
                #[trigger] self.sub_jobs@[k].job_id,
            ) by {
                let jid = self.sub_jobs@[k].job_id;
                let i = choose|i: int| 0 <= i < mid.jobs@.len() && mid.jobs@[i].id == jid;
                assert(self.jobs@[i].id == jid);
            }
            assert forall|i: int, k: int|
                #![trigger self.jobs@[i], self.sub_jobs@[k]]
                0 <= i < self.jobs@.len() && 0 <= k < self.sub_jobs@.len() && self.jobs@[i].status
                    == JobStatus::Completed && self.sub_jobs@[k].job_id == self.jobs@[i].id implies is_terminal(
                self.sub_jobs@[k].status,
            ) by {
                if i != j {
                    assert(self.jobs@[i] == mid.jobs@[i]);
                } else {
                    assert(self.sub_jobs@[k].status != SubJobStatus::Pending);
                    assert(self.sub_jobs@[k].status != SubJobStatus::Processing);
                }
            }
            assert forall|i: int|
                #![trigger self.jobs@[i]]
                0 <= i < self.jobs@.len() && has_sub_job_of(self.sub_jobs@, self.jobs@[i].id)
                    && none_pending(self.sub_jobs@, self.jobs@[i].id) implies self.jobs@[i].status
                == JobStatus::Completed by {
                if i != j {
                    assert(self.jobs@[i] == mid.jobs@[i]);
                }
            }
        }
        let outcome = match next_ingest_step(is_success, IngestEvent::JobCompleted) {
            IngestStep::Finish(outcome) => outcome,
            // Completing the job is the last step.
            _ => IngestOutcome::Recorded { job_completed: true },
        };
        assert(ingested(pre, *self, idx as int, result, outcome));
        outcome
    }
}

/// What the scheduler has just learned while taking in a result.
#[derive(Clone, Copy, PartialEq, Eq, Structural, Debug)]
pub enum IngestEvent {
    /// Whether the result's sub-job is known.
    SubJobLookedUp { known: bool },
    /// The result row was written, or a row for its run existed already.
    RowSaved { duplicate: bool },
    /// The number of the job's sub-jobs still pending.
    PendingCounted { pending: u64 },
    /// The job was marked completed.
    JobCompleted,
}

/// What the scheduler does next while taking in a result.
#[derive(Clone, Copy, PartialEq, Eq, Structural, Debug)]
pub enum IngestStep {
    /// Store the result row, unless one exists for its run.
    SaveRow,
    /// Give the sub-job this status if it is still pending, then count the
    /// job's pending sub-jobs.
    SettleAndCount(SubJobStatus),
    /// Mark the job completed.
    CompleteJob,
    /// Done: acknowledge the delivery.
    Finish(IngestOutcome),
}

pub open spec fn ingest_step_spec(is_success: bool, event: IngestEvent) -> IngestStep {
    match event {
        IngestEvent::SubJobLookedUp { known } => if known {
            IngestStep::SaveRow
        } else {
            IngestStep::Finish(IngestOutcome::UnknownSubJob)
        },
        IngestEvent::RowSaved { duplicate } => if duplicate {
            IngestStep::Finish(IngestOutcome::DuplicateRun)
        } else {
            IngestStep::SettleAndCount(outcome_status(is_success))
        },
        IngestEvent::PendingCounted { pending } => if pending == 0 {
            IngestStep::CompleteJob
        } else {
            IngestStep::Finish(IngestOutcome::Recorded { job_completed: false })
        },
        IngestEvent::JobCompleted => IngestStep::Finish(IngestOutcome::Recorded { job_completed: true }),
    }
}

/// The next step of taking in a result whose run succeeded or not
/// (`is_success`), after `event`. The scheduler starts by looking up the
/// result's sub-job and acknowledges the delivery at `Finish`;
/// `JobBook::ingest_result` takes the same steps on the in-memory store.
pub fn next_ingest_step(is_success: bool, event: IngestEvent) -> (r: IngestStep)
    ensures
        r == ingest_step_spec(is_success, event),
{
    match event {
        IngestEvent::SubJobLookedUp { known } => if known {
            IngestStep::SaveRow
        } else {
            IngestStep::Finish(IngestOutcome::UnknownSubJob)
        },
        IngestEvent::RowSaved { duplicate } => if duplicate {
            IngestStep::Finish(IngestOutcome::DuplicateRun)
        } else {
            IngestStep::SettleAndCount(sub_job_status_for(is_success))
        },
        IngestEvent::PendingCounted { pending } => if pending == 0 {
            IngestStep::CompleteJob
        } else {
            IngestStep::Finish(IngestOutcome::Recorded { job_completed: false })
        },
        IngestEvent::JobCompleted => IngestStep::Finish(IngestOutcome::Recorded { job_completed: true }),
    }
}

/// The store `post` and outcome `r` after `pre` took in `result`.
pub open spec fn ingest_post(pre: JobBook, post: JobBook, result: ResultMessage, r: IngestOutcome) -> bool {
    &&& !has_sub_job(pre.sub_jobs@, result.sub_job_id) ==> r == IngestOutcome::UnknownSubJob
        && post == pre
    &&& has_sub_job(pre.sub_jobs@, result.sub_job_id) && has_run(pre.results@, result.run_id)
        ==> r == IngestOutcome::DuplicateRun && post == pre
    &&& has_sub_job(pre.sub_jobs@, result.sub_job_id) && !has_run(pre.results@, result.run_id)
        ==> exists|idx: int|
        0 <= idx < pre.sub_jobs@.len() && pre.sub_jobs@[idx].id == result.sub_job_id
            && #[trigger] ingested(pre, post, idx, result, r)
}

/// A completed job has only completed or failed sub-jobs.
pub proof fn lemma_completed_job_settled(book: JobBook, i: int, k: int)
    requires
        book.wf(),
        0 <= i < book.jobs@.len(),
        0 <= k < book.sub_jobs@.len(),
        book.jobs@[i].status == JobStatus::Completed,
        book.sub_jobs@[k].job_id == book.jobs@[i].id,
    ensures
        book.sub_jobs@[k].status == SubJobStatus::Completed || book.sub_jobs@[k].status
            == SubJobStatus::Failed,
{
    assert(is_terminal(book.sub_jobs@[k].status));
}

/// A job with sub-jobs has completed exactly when none of them is pending.
pub proof fn lemma_job_completed_iff_none_pending(book: JobBook, i: int)
    requires
        book.wf(),
        0 <= i < book.jobs@.len(),
        has_sub_job_of(book.sub_jobs@, book.jobs@[i].id),
    ensures
        book.jobs@[i].status == JobStatus::Completed <==> pending_count(book.sub_jobs@, book.jobs@[i].id)
            == 0,
{
    lemma_pending_count_zero(book.sub_jobs@, book.jobs@[i].id);
    if book.jobs@[i].status == JobStatus::Completed {
        assert forall|k: int|
            0 <= k < book.sub_jobs@.len() && book.sub_jobs@[k].job_id == book.jobs@[i].id implies book.sub_jobs@[k].status
            != SubJobStatus::Pending by {
            assert(is_terminal(book.sub_jobs@[k].status));
        }
    }
}

/// A pending job with exactly two sub-jobs, both pending, takes in one
/// successful result for each: after the first, that sub-job has completed
/// and the job is still pending; after the second, both sub-jobs and the job
/// have completed, and the store holds the two new rows.
pub proof fn lemma_two_successes_complete_job(
    b0: JobBook,
    b1: JobBook,
    b2: JobBook,
    i: int,
    ka: int,
    kb: int,
    ra: ResultMessage,
    rb: ResultMessage,
    o1: IngestOutcome,
    o2: IngestOutcome,
)
    requires
        b0.wf(),
        0 <= i < b0.jobs@.len(),
        b0.jobs@[i].status == JobStatus::Pending,
        0 <= ka < b0.sub_jobs@.len(),
        0 <= kb < b0.sub_jobs@.len(),
        ka != kb,
        b0.sub_jobs@[ka].job_id == b0.jobs@[i].id,
        b0.sub_jobs@[kb].job_id == b0.jobs@[i].id,
        b0.sub_jobs@[ka].status == SubJobStatus::Pending,
        b0.sub_jobs@[kb].status == SubJobStatus::Pending,
        forall|k: int|
            0 <= k < b0.sub_jobs@.len() && b0.sub_jobs@[k].job_id == b0.jobs@[i].id ==> k == ka
                || k == kb,
        ra.sub_job_id == b0.sub_jobs@[ka].id,
        rb.sub_job_id == b0.sub_jobs@[kb].id,
        ra.is_success,
        rb.is_success,
        ra.run_id != rb.run_id,
        !has_run(b0.results@, ra.run_id),
        !has_run(b0.results@, rb.run_id),
        ingest_post(b0, b1, ra, o1),
        ingest_post(b1, b2, rb, o2),
    ensures
        o1 == (IngestOutcome::Recorded { job_completed: false }),
        b1.sub_jobs@[ka].status == SubJobStatus::Completed,
        b1.jobs@[i].status == JobStatus::Pending,
        o2 == (IngestOutcome::Recorded { job_completed: true }),
        b2.sub_jobs@[ka].status == SubJobStatus::Completed,
        b2.sub_jobs@[kb].status == SubJobStatus::Completed,
        b2.jobs@[i].status == JobStatus::Completed,
        b2.results@ == b0.results@.push(ra).push(rb),
{
    let jid = b0.jobs@[i].id;
    assert(has_sub_job(b0.sub_jobs@, ra.sub_job_id));
    let idx1 = choose|idx: int|
        0 <= idx < b0.sub_jobs@.len() && b0.sub_jobs@[idx].id == ra.sub_job_id
            && #[trigger] ingested(b0, b1, idx, ra, o1);
    assert(idx1 == ka);
    let s1 = b1.sub_jobs@;
    assert(s1[kb] == b0.sub_jobs@[kb]);
    lemma_pending_count_zero(s1, jid);
    assert(b1.jobs@[i] == b0.jobs@[i]);
    assert forall|k: int| 0 <= k < s1.len() implies #[trigger] s1[k].id == b0.sub_jobs@[k].id
        && s1[k].job_id == b0.sub_jobs@[k].job_id by {}
    assert(has_sub_job(s1, rb.sub_job_id));
    assert(!has_run(b1.results@, rb.run_id)) by {
        assert forall|k: int| 0 <= k < b1.results@.len() implies b1.results@[k].run_id != rb.run_id by {
            if k < b0.results@.len() {
                assert(b1.results@[k] == b0.results@[k]);
            } else {
                assert(b1.results@[k] == ra);
            }
        }
    }
    let idx2 = choose|idx: int|
        0 <= idx < s1.len() && s1[idx].id == rb.sub_job_id && #[trigger] ingested(b1, b2, idx, rb, o2);
    if idx2 != kb {
        assert(b0.sub_jobs@[idx2].id == b0.sub_jobs@[kb].id);
    }
    assert(idx2 == kb);
    let s2 = b2.sub_jobs@;
    assert forall|k: int| 0 <= k < s2.len() && s2[k].job_id == jid implies s2[k].status
        != SubJobStatus::Pending by {
        assert(s2[k].job_id == b0.sub_jobs@[k].job_id);
    }
    lemma_pending_count_zero(s2, jid);
    assert(b2.jobs@[i] == Job { status: JobStatus::Completed, ..b1.jobs@[i] });
}

/// The store holds at most one result row per run.
pub proof fn lemma_one_row_per_run(book: JobBook, i: int, j: int)
    requires
        book.wf(),
        0 <= i < book.results@.len(),
        0 <= j < book.results@.len(),
        book.results@[i].run_id == book.results@[j].run_id,
    ensures
        i == j,
{
}

/// Delivering the same result a second time changes nothing: the store is
/// left as the first delivery left it, and a run that was recorded is
/// reported as a repeat.
pub proof fn lemma_redelivery_idempotent(
    b0: JobBook,
    b1: JobBook,
    b2: JobBook,
    result: ResultMessage,
    r1: IngestOutcome,
    r2: IngestOutcome,
)
    requires
        b0.wf(),
        ingest_post(b0, b1, result, r1),
        ingest_post(b1, b2, result, r2),
    ensures
        b2 == b1,
        r1 is Recorded ==> r2 == IngestOutcome::DuplicateRun,
{
    if !has_run(b0.results@, result.run_id) && has_sub_job(b0.sub_jobs@, result.sub_job_id) {
        let idx = choose|idx: int|
            0 <= idx < b0.sub_jobs@.len() && b0.sub_jobs@[idx].id == result.sub_job_id
                && #[trigger] ingested(b0, b1, idx, result, r1);
        assert(b1.results@[b0.results@.len() as int] == result);
        assert(has_run(b1.results@, result.run_id));
        assert(b1.sub_jobs@[idx].id == result.sub_job_id);
        assert(has_sub_job(b1.sub_jobs@, result.sub_job_id));
    }
}

/// The store `post` is `pre` after taking in `result`, a new run of the
/// sub-job at position `idx`, with outcome `r`.
pub open spec fn ingested(pre: JobBook, post: JobBook, idx: int, result: ResultMessage, r: IngestOutcome) -> bool {
    let sub = pre.sub_jobs@[idx];
    let subs = if sub.status == SubJobStatus::Pending {
        pre.sub_jobs@.update(idx, SubJob { status: outcome_status(result.is_success), ..sub })
    } else {
        pre.sub_jobs@
    };
    let done = pending_count(subs, sub.job_id) == 0;
    &&& post.results@ == pre.results@.push(result)
    &&& post.sub_jobs@ == subs
    &&& r == IngestOutcome::Recorded { job_completed: done }
    &&& post.jobs@.len() == pre.jobs@.len()
    &&& forall|i: int|
        0 <= i < pre.jobs@.len() ==> #[trigger] post.jobs@[i] == if pre.jobs@[i].id == sub.job_id
            && done {
            Job { status: JobStatus::Completed, ..pre.jobs@[i] }
        } else {
            pre.jobs@[i]
        }
}

} // verus!
