//! The worker's measurement engine, as decisions over values that the probes
//! hand in: clock readings (UTC milliseconds), chunk sizes and latencies.

use vstd::prelude::*;
use crate::messages::{
    AccumulatingBytes, DownloadError, DownloadResult, HeadError, HeadResult, IntervalBytes,
    PingError, PingResult,
};

verus! {

/// Longest the download reads for, from the moment its response arrives (ms).
pub const MAX_DOWNLOAD_DURATION_MS: i64 = 60_000;

/// Echo requests sent by the ping probe at most.
pub const SEQ_MAX: u64 = 10;

/// HEAD requests sent by the head probe at most.
pub const HEAD_REQUESTS: u64 = 10;

/// Ping and head stop this long before the download begins (ms).
pub const PROBE_QUIET_MS: i64 = 2_000;

/// The first instant after `t` that is a whole UTC second.
pub open spec fn next_even_second_spec(t: int) -> int {
    t - t % 1000 + 1000
}

/// The next even second after `t`: the least multiple of 1000 above it.
pub fn calculate_next_even_second(t: i64) -> (r: i64)
    requires
        t <= i64::MAX - 1000,
    ensures
        r == next_even_second_spec(t as int),
        r % 1000 == 0,
        t < r <= t + 1000,
{
    if t >= 0 {
        let m: u64 = (t as u64) % 1000;
        t - (m as i64) + 1000
    } else {
        let u: u64 = (-(t + 1)) as u64;
        let m: u64 = u % 1000;
        proof {
            let ti = t as int;
            let ui = u as int;
            assert(ti == -(ui + 1));
            assert(ui == (ui / 1000) * 1000 + m) by (nonlinear_arith)
                requires m == ui % 1000, ui >= 0;
            let q = ui / 1000;
            // t = -(1000 q + m + 1) = -1000 (q + 1) + (999 - m)
            assert(ti == -1000 * (q + 1) + (999 - m as int));
            vstd::arithmetic::div_mod::lemma_fundamental_div_mod_converse(
                ti, 1000, -(q + 1), 999 - m as int);
        }
        t + 1 + (m as i64)
    }
}

/// Milliseconds from `now` until `until`, when it is not yet past.
pub open spec fn wait_spec(now: int, until: int) -> int {
    until - now
}

/// Text of the refusal when a scheduled instant has already passed.
pub open spec fn start_in_past_text() -> Seq<char> {
    "Start time is in the past"@
}

pub open spec fn time_sync_error_text() -> Seq<char> {
    "TimeSyncError: Start time is in the past"@
}

/// The download's wait for its scheduled start: how long to sleep before the
/// request is sent, or an error when that instant has passed already.
pub fn download_wait(now: i64, download_start_time: i64) -> (r: Result<u64, DownloadError>)
    ensures
        download_start_time < now <==> r is Err,
        r matches Ok(d) ==> d == wait_spec(now as int, download_start_time as int),
        r matches Err(e) ==> e.error@ == time_sync_error_text(),
{
    if download_start_time < now {
        return Err(DownloadError { error: String::from_str("TimeSyncError: Start time is in the past") });
    }
    Ok(((download_start_time as i128) - (now as i128)) as u64)
}

/// Instant at which ping and head stop sending: two seconds before the
/// download starts.
pub fn probe_deadline(download_start_time: i64) -> (r: i64)
    requires
        download_start_time >= i64::MIN + PROBE_QUIET_MS,
    ensures
        r == download_start_time - PROBE_QUIET_MS,
{
    download_start_time - PROBE_QUIET_MS
}

/// Whether a probe may send another request at `now`.
pub fn before_deadline(now: i64, deadline: i64) -> (r: bool)
    ensures
        r == (now < deadline),
{
    now < deadline
}

/// What the download loop does after a chunk.
#[derive(Clone, Copy, PartialEq, Eq, Structural, Debug)]
pub enum ChunkAction {
    Continue,
    Stop,
}

/// Each log entry's total is the previous entry's total plus its own
/// interval count (the first one's total is its interval count), so totals
/// are running sums of the interval counts and never decrease; instants
/// strictly increase.
pub open spec fn logs_consistent(logs: Seq<(i64, IntervalBytes, AccumulatingBytes)>) -> bool {
    &&& logs.len() > 0 ==> logs[0].2.0 == logs[0].1.0
    &&& forall|i: int|
        #![trigger logs[i]]
        0 < i < logs.len() ==> logs[i].2.0 == logs[i - 1].2.0 + logs[i].1.0
    &&& forall|i: int, j: int| 0 <= i < j < logs.len() ==> logs[i].2.0 <= logs[j].2.0
    &&& forall|i: int, j: int| 0 <= i < j < logs.len() ==> logs[i].0 < logs[j].0
}

/// Byte counting and per-second logging of one download.
pub struct DownloadMeter {
    pub job_start_time: i64,
    pub download_start_time: i64,
    pub time_to_first_byte_ms: i64,
    pub next_log_time: i64,
    pub interval_bytes: u64,
    pub total_bytes: u64,
    pub logs: Vec<(i64, IntervalBytes, AccumulatingBytes)>,
}

/// Latest instant the meter handles: the clock keeps a second in hand.
pub const LATEST_INSTANT: i64 = i64::MAX - 1000;

impl DownloadMeter {
    pub open spec fn wf(&self) -> bool {
        &&& self.next_log_time % 1000 == 0
        &&& self.interval_bytes <= self.total_bytes
        &&& self.logs@.len() == 0 ==> self.interval_bytes == self.total_bytes
        &&& self.logs@.len() > 0 ==> self.logs@.last().2.0 + self.interval_bytes == self.total_bytes
        &&& forall|i: int| 0 <= i < self.logs@.len() ==> self.logs@[i].0 < self.next_log_time
        &&& logs_consistent(self.logs@)
    }

    /// A meter for a download whose job began at `job_start_time` and whose
    /// response arrived at `response_time`; logging starts at the next even
    /// second.
    pub fn new(job_start_time: i64, response_time: i64) -> (r: Self)
        requires
            response_time <= LATEST_INSTANT,
            job_start_time <= response_time,
            response_time - job_start_time <= i64::MAX,
        ensures
            r.wf(),
            r.job_start_time == job_start_time,
            r.download_start_time == response_time,
            r.time_to_first_byte_ms == response_time - job_start_time,
            r.next_log_time == next_even_second_spec(response_time as int),
            r.total_bytes == 0,
            r.interval_bytes == 0,
            r.logs@.len() == 0,
    {
        DownloadMeter {
            job_start_time,
            download_start_time: response_time,
            time_to_first_byte_ms: response_time - job_start_time,
            next_log_time: calculate_next_even_second(response_time),
            interval_bytes: 0,
            total_bytes: 0,
            logs: Vec::new(),
        }
    }

    /// Accounts for a chunk of `len` bytes read at `now`. The download stops
    /// once the maximum duration since its start has elapsed, or when the
    /// byte counter would overflow (that chunk is then not counted). Otherwise,
    /// once `now` reaches the next even second, an entry
    /// `(now, interval bytes, total bytes)` is logged and the interval count
    /// starts again.
    pub fn on_chunk(&mut self, len: u64, now: i64) -> (r: ChunkAction)
        requires
            old(self).wf(),
            now <= LATEST_INSTANT,
        ensures
            final(self).wf(),
            final(self).job_start_time == old(self).job_start_time,
            final(self).download_start_time == old(self).download_start_time,
            final(self).time_to_first_byte_ms == old(self).time_to_first_byte_ms,
            old(self).total_bytes + len > u64::MAX ==> r == ChunkAction::Stop && *final(self) == *old(
                self,
            ),
            old(self).total_bytes + len <= u64::MAX ==> {
                &&& final(self).total_bytes == old(self).total_bytes + len
                &&& (now - old(self).download_start_time >= MAX_DOWNLOAD_DURATION_MS <==> r
                    == ChunkAction::Stop)
                &&& if r == ChunkAction::Continue && now >= old(self).next_log_time {
                    &&& final(self).logs@ == old(self).logs@.push(
                        (
                            now,
                            IntervalBytes((old(self).interval_bytes + len) as u64),
                            AccumulatingBytes(final(self).total_bytes),
                        ),
                    )
                    &&& final(self).interval_bytes == 0
                    &&& final(self).next_log_time == next_even_second_spec(now as int)
                } else {
                    &&& final(self).logs@ == old(self).logs@
                    &&& final(self).interval_bytes == old(self).interval_bytes + len
                    &&& final(self).next_log_time == old(self).next_log_time
                }
            },
    {
        if len > u64::MAX - self.total_bytes {
            return ChunkAction::Stop;
        }
        self.interval_bytes = self.interval_bytes + len;
        self.total_bytes = self.total_bytes + len;
        if (now as i128) - (self.download_start_time as i128) >= MAX_DOWNLOAD_DURATION_MS as i128 {
            return ChunkAction::Stop;
        }
        if now >= self.next_log_time {
            let entry = (now, IntervalBytes(self.interval_bytes), AccumulatingBytes(self.total_bytes));
            let ghost before = self.logs@;
            self.logs.push(entry);
            proof {
                assert(self.logs@[before.len() as int] == entry);
                assert forall|i: int| 0 <= i < before.len() implies #[trigger] self.logs@[i] == before[i] by {}
                if before.len() > 0 {
                    assert(self.logs@[before.len() - 1] == before.last());
                }
            }
            self.interval_bytes = 0;
            self.next_log_time = calculate_next_even_second(now);
        }
        ChunkAction::Continue
    }

    /// The measurement once reading has ended at `end_time`: it fails when no
    /// byte arrived.
    pub fn finish(self, end_time: i64) -> (r: Result<DownloadResult, DownloadError>)
        requires
            self.wf(),
        ensures
            self.total_bytes == 0 <==> r is Err,
            r matches Ok(d) ==> {
                &&& d.total_bytes > 0
                &&& logs_consistent(d.second_by_second_logs@)
                &&& d.second_by_second_logs@.len() > 0 ==> d.second_by_second_logs@.last().2.0
                    <= d.total_bytes
            },
            r matches Err(e) ==> e.error@ == "Downloaded 0 bytes"@,
            r matches Ok(d) ==> {
                &&& d.total_bytes == self.total_bytes
                &&& d.job_start_time == self.job_start_time
                &&& d.download_start_time == self.download_start_time
                &&& d.end_time == end_time
                &&& d.time_to_first_byte_ms == self.time_to_first_byte_ms
                &&& d.second_by_second_logs@ == self.logs@
            },
    {
        if self.total_bytes == 0 {
            return Err(DownloadError { error: String::from_str("Downloaded 0 bytes") });
        }
        Ok(DownloadResult {
            total_bytes: self.total_bytes,
            job_start_time: self.job_start_time,
            download_start_time: self.download_start_time,
            end_time,
            time_to_first_byte_ms: self.time_to_first_byte_ms,
            second_by_second_logs: self.logs,
        })
    }
}


/// Sum of the latencies in `s`.
pub open spec fn sum_of(s: Seq<u64>) -> int
    decreases s.len(),
{
    if s.len() == 0 {
        0
    } else {
        sum_of(s.drop_last()) + s.last()
    }
}

/// `m` is the least element of `s`.
pub open spec fn is_min_of(m: u64, s: Seq<u64>) -> bool {
    &&& exists|i: int| 0 <= i < s.len() && s[i] == m
    &&& forall|i: int| 0 <= i < s.len() ==> m <= s[i]
}

/// `m` is the greatest element of `s`.
pub open spec fn is_max_of(m: u64, s: Seq<u64>) -> bool {
    &&& exists|i: int| 0 <= i < s.len() && s[i] == m
    &&& forall|i: int| 0 <= i < s.len() ==> s[i] <= m
}

/// Statistics of the samples `s`: (least, greatest, sum, count).
pub open spec fn stats_of(r: (u64, u64, u128, u64), s: Seq<u64>) -> bool {
    &&& is_min_of(r.0, s)
    &&& is_max_of(r.1, s)
    &&& r.2 == sum_of(s)
    &&& r.3 == s.len()
}

proof fn lemma_sum_bound(s: Seq<u64>)
    ensures
        0 <= sum_of(s) <= s.len() * (u64::MAX as int),
    decreases s.len(),
{
    if s.len() > 0 {
        lemma_sum_bound(s.drop_last());
    }
}

/// Least, greatest, sum and count of a non-empty list of latencies.
fn latency_stats(samples: &Vec<u64>) -> (r: (u64, u64, u128, u64))
    requires
        samples@.len() > 0,
    ensures
        stats_of(r, samples@),
{
    let mut lo: u64 = samples[0];
    let mut hi: u64 = samples[0];
    let mut sum: u128 = 0;
    let mut i: usize = 0;
    while i < samples.len()
        invariant
            0 <= i <= samples@.len(),
            samples@.len() > 0,
            sum == sum_of(samples@.subrange(0, i as int)),
            exists|k: int| 0 <= k < samples@.len() && samples@[k] == lo,
            exists|k: int| 0 <= k < samples@.len() && samples@[k] == hi,
            forall|k: int| 0 <= k < i ==> lo <= samples@[k] && samples@[k] <= hi,
        decreases samples@.len() - i,
    {
        let x = samples[i];
        proof {
            let p = samples@.subrange(0, i as int + 1);
            assert(p.drop_last() =~= samples@.subrange(0, i as int));
            lemma_sum_bound(p);
            assert(i as int + 1 <= usize::MAX as int);
            assert((i as int + 1) * (u64::MAX as int) <= (usize::MAX as int) * (u64::MAX as int))
                by (nonlinear_arith)
                requires i as int + 1 <= usize::MAX as int;
            assert((usize::MAX as int) * (u64::MAX as int) <= u128::MAX) by (nonlinear_arith);
        }
        sum = sum + x as u128;
        if x < lo {
            lo = x;
        }
        if x > hi {
            hi = x;
        }
        i = i + 1;
    }
    assert(samples@.subrange(0, i as int) =~= samples@);
    (lo, hi, sum, i as u64)
}

/// Fewest replies the ping probe needs: half of the requests.
pub open spec fn ping_threshold() -> int {
    (SEQ_MAX / 2) as int
}

/// Outcome of the ping probe from the round-trip times of the replies
/// received: it fails when fewer than half of the requests were answered.
pub fn ping_outcome(rtts_ns: &Vec<u64>) -> (r: Result<PingResult, PingError>)
    ensures
        rtts_ns@.len() < ping_threshold() <==> r is Err,
        r matches Err(e) ==> e.error@ == "Too many packets lost"@,
        r matches Ok(p) ==> stats_of((p.min_ns, p.max_ns, p.sum_ns, p.count), rtts_ns@),
{
    if rtts_ns.len() < (SEQ_MAX / 2) as usize {
        return Err(PingError { error: String::from_str("Too many packets lost") });
    }
    let (min_ns, max_ns, sum_ns, count) = latency_stats(rtts_ns);
    Ok(PingResult { min_ns, max_ns, sum_ns, count })
}

/// Outcome of the head probe from the latencies of the requests that
/// completed: it fails when there are none.
pub fn head_outcome(latencies_ns: &Vec<u64>) -> (r: Result<HeadResult, HeadError>)
    ensures
        latencies_ns@.len() == 0 <==> r is Err,
        r matches Err(e) ==> e.error@ == "No successful requests"@,
        r matches Ok(h) ==> stats_of((h.min_ns, h.max_ns, h.sum_ns, h.count), latencies_ns@),
{
    if latencies_ns.len() == 0 {
        return Err(HeadError { error: String::from_str("No successful requests") });
    }
    let (min_ns, max_ns, sum_ns, count) = latency_stats(latencies_ns);
    Ok(HeadResult { min_ns, max_ns, sum_ns, count })
}


/// The host that the ping probe targets, given the outcome of parsing the
/// job's URL.
pub fn ping_host_from_parts(parsed: Option<crate::jobs::ParsedUrl>) -> (r: Result<String, PingError>)
    ensures
        parsed is None ==> (r matches Err(e) && e.error@ == "UrlParseError"@),
        parsed matches Some(u) ==> match u.host {
            Some(h) => r matches Ok(v) && v@ == h@,
            None => r matches Err(e) && e.error@ == "Failed to extract host from URL"@,
        },
{
    match parsed {
        None => Err(PingError { error: String::from_str("UrlParseError") }),
        Some(u) => match u.host {
            Some(h) => Ok(h),
            None => Err(PingError { error: String::from_str("Failed to extract host from URL") }),
        },
    }
}

/// The host that the ping probe targets in the job URL `url`.
pub fn ping_host(url: &str) -> (r: Result<String, PingError>)
    ensures
        !crate::jobs::url_parses(url@) ==> (r matches Err(e) && e.error@ == "UrlParseError"@),
        crate::jobs::url_parses(url@) ==> match crate::jobs::url_host_of(url@) {
            Some(h) => r matches Ok(v) && v@ == h,
            None => r matches Err(e) && e.error@ == "Failed to extract host from URL"@,
        },
{
    ping_host_from_parts(crate::jobs::parse_url(url))
}

} // verus!
