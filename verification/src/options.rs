//! The settings of a queue, of a worker and of a job, worked out from the command line.

use crate::duration::{counts_millis, duration_millis, too_large, Duration};
use crate::failure::Failure;
use crate::redis_url::RedisUrl;
use vstd::prelude::*;
use vstd::string::*;

verus! {

/// The characters of an optional text.
pub open spec fn optional_text(text: Option<String>) -> Option<Seq<char>> {
    match text {
        Some(t) => Some(t@),
        None => None,
    }
}

/// How a queue is reached.
#[derive(Debug)]
pub struct QueueOptions {
    /// Redis connection URL.
    pub url: String,
    /// Key prefix of the queue.
    pub prefix: String,
}

/// The settings with which the queue behind `redis_url` is reached.
pub fn queue_options(redis_url: &RedisUrl, prefix: &str) -> (options: QueueOptions)
    ensures
        options.url@ == redis_url@,
        options.prefix@ == prefix@,
{
    QueueOptions { url: redis_url.as_str().to_owned(), prefix: prefix.to_owned() }
}

/// Which finished jobs are kept.
#[derive(Clone, Copy, Debug, PartialEq, Eq, Structural)]
pub struct KeepJobs {
    /// Maximum age in milliseconds.
    pub age: Option<u64>,
    /// Maximum number of jobs.
    pub count: Option<usize>,
    /// Maximum number of aged jobs removed in one pass.
    pub limit: Option<usize>,
}

/// What becomes of jobs that finished.
#[derive(Clone, Copy, Debug, PartialEq, Eq, Structural)]
pub enum RemoveOnFinish {
    /// Keep at most this many.
    Count(usize),
    /// Keep those that meet these limits.
    Options(KeepJobs),
}

/// At most `max` jobs in each window of `duration` milliseconds.
#[derive(Clone, Copy, Debug, PartialEq, Eq, Structural)]
pub struct RateLimiterOptions {
    pub max: u64,
    pub duration: u64,
}

/// How many metric data points a worker keeps.
#[derive(Clone, Copy, Debug, PartialEq, Eq, Structural)]
pub struct MetricsOptions {
    pub max_data_points: usize,
}

/// What the command line says about a worker.
#[derive(Debug)]
pub struct WorkerTuning {
    /// Worker name recorded on processed jobs.
    pub name: Option<String>,
    /// Duration of each job lock.
    pub lock_duration: Duration,
    /// Interval between automatic renewals of a job lock.
    pub lock_renew_time: Option<Duration>,
    /// Time allowed for active handlers to finish during shutdown.
    pub shutdown_timeout: Duration,
    /// Interval between checks for stalled jobs.
    pub stalled_interval: Duration,
    /// Delay before retrying after a transient worker error.
    pub run_retry_delay: Duration,
    /// Seconds between checks of an empty queue.
    pub drain_delay: u64,
    /// Number of stalls allowed before a job permanently fails.
    pub max_stalled_count: u32,
    /// Maximum times a job may start before it permanently fails.
    pub max_started_attempts: Option<u32>,
    /// Keep at most this many completed jobs.
    pub remove_on_complete: Option<usize>,
    /// Keep completed jobs no older than this.
    pub remove_on_complete_age: Option<Duration>,
    /// Maximum aged completed jobs removed per cleanup pass.
    pub remove_on_complete_limit: Option<usize>,
    /// Keep at most this many failed jobs.
    pub remove_on_fail: Option<usize>,
    /// Keep failed jobs no older than this.
    pub remove_on_fail_age: Option<Duration>,
    /// Maximum aged failed jobs removed per cleanup pass.
    pub remove_on_fail_limit: Option<usize>,
    /// Maximum number of worker metric data points to retain.
    pub metrics_max_data_points: Option<usize>,
    /// Maximum jobs allowed in each rate-limit window.
    pub rate_limit_max: Option<u64>,
    /// Duration of each rate-limit window.
    pub rate_limit_duration: Option<Duration>,
    /// Longest delay accepted from the rate limiter.
    pub maximum_rate_limit_delay: Duration,
    /// Maximum handler stdout stored as the job return value.
    pub max_result_bytes: usize,
    /// Handler exit codes that are unrecoverable.
    pub unrecoverable_exit_code: Vec<i32>,
    /// Skip the Redis server version compatibility check.
    pub skip_version_check: bool,
    /// Disable stalled-job checks for this worker.
    pub skip_stalled_check: bool,
    /// Disable automatic job-lock renewal.
    pub skip_lock_renewal: bool,
}

/// The settings with which a worker starts; spans are in milliseconds.
#[derive(Debug)]
pub struct WorkerOptions {
    pub url: String,
    pub prefix: String,
    pub name: Option<String>,
    pub concurrency: usize,
    pub lock_duration: u64,
    pub lock_renew_time: Option<u64>,
    pub max_stalled_count: u32,
    pub stalled_interval: u64,
    pub drain_delay: u64,
    pub skip_version_check: bool,
    pub remove_on_complete: Option<RemoveOnFinish>,
    pub remove_on_fail: Option<RemoveOnFinish>,
    pub run_retry_delay: u64,
    pub limiter: Option<RateLimiterOptions>,
    pub maximum_rate_limit_delay: u64,
    pub max_started_attempts: Option<u32>,
    pub skip_stalled_check: bool,
    pub skip_lock_renewal: bool,
    pub metrics: Option<MetricsOptions>,
}

/// Whether an optional span has a number of milliseconds that 64 bits hold.
pub open spec fn fits(span: Option<Duration>) -> bool {
    span matches Some(d) ==> d.millis() <= u64::MAX
}

/// An optional span in milliseconds.
pub open spec fn optional_millis_of(span: Option<Duration>) -> Option<u64> {
    match span {
        Some(d) => Some(d.millis() as u64),
        None => None,
    }
}

/// The milliseconds of an optional span, which is called `name` where it is too large.
fn optional_millis(span: Option<Duration>, name: &str) -> (millis: Result<Option<u64>, Failure>)
    ensures
        millis is Ok <==> fits(span),
        millis matches Ok(m) ==> m == optional_millis_of(span),
        millis matches Err(e) ==> e.says(too_large(name@)),
{
    match span {
        Some(duration) => match duration_millis(duration, name) {
            Ok(millis) => Ok(Some(millis)),
            Err(failure) => Err(failure),
        },
        None => Ok(None),
    }
}

/// The policy that keeps `count` finished jobs, none older than `age`, and removes at most
/// `limit` aged ones in a pass.
pub open spec fn retention(
    count: Option<usize>,
    age: Option<Duration>,
    limit: Option<usize>,
) -> Option<RemoveOnFinish> {
    if age is Some || limit is Some {
        Some(RemoveOnFinish::Options(KeepJobs { age: optional_millis_of(age), count, limit }))
    } else if count is Some {
        Some(RemoveOnFinish::Count(count->0))
    } else {
        None
    }
}

/// Works out what becomes of finished jobs. A count alone is the short form of the policy; an
/// age or a limit asks for the full one; with none of the three there is no policy.
pub fn retention_policy(
    count: Option<usize>,
    age: Option<Duration>,
    limit: Option<usize>,
    age_name: &str,
) -> (policy: Result<Option<RemoveOnFinish>, Failure>)
    ensures
        policy is Ok <==> fits(age),
        policy matches Ok(p) ==> p == retention(count, age, limit),
        policy matches Err(e) ==> e.says(too_large(age_name@)),
{
    if age.is_none() && limit.is_none() {
        return Ok(
            match count {
                Some(n) => Some(RemoveOnFinish::Count(n)),
                None => None,
            },
        );
    }
    match optional_millis(age, age_name) {
        Ok(age) => Ok(Some(RemoveOnFinish::Options(KeepJobs { age, count, limit }))),
        Err(failure) => Err(failure),
    }
}

/// Milliseconds, cut off at the largest number of 64 bits.
pub open spec fn saturated(millis: nat) -> u64 {
    if millis <= u64::MAX {
        millis as u64
    } else {
        u64::MAX
    }
}

/// `bullmq::RateLimiterOptions::new` keeps `max` as it is and turns the window into whole
/// milliseconds, cut off at `u64::MAX`.
#[verifier::external_body]
fn rate_limiter(max: u64, window: Duration) -> (limiter: RateLimiterOptions)
    ensures
        limiter.max == max,
        limiter.duration == saturated(window.millis()),
{
    let window = std::time::Duration::new(window.as_secs(), window.subsec_nanos());
    let options = bullmq::RateLimiterOptions::new(max, window);
    RateLimiterOptions { max: options.max, duration: options.duration }
}

/// The rate limit that a tuning asks for.
pub open spec fn limiter_of(tuning: WorkerTuning) -> Option<RateLimiterOptions> {
    match (tuning.rate_limit_max, tuning.rate_limit_duration) {
        (Some(max), Some(window)) => Some(
            RateLimiterOptions { max, duration: saturated(window.millis()) },
        ),
        _ => None,
    }
}

/// Whether the lock is renewed before it runs out.
pub open spec fn renews_in_time(tuning: WorkerTuning) -> bool {
    tuning.lock_renew_time matches Some(renewal) ==> renewal@ < tuning.lock_duration@
}

/// Whether the two halves of the rate limit are given together or not at all.
pub open spec fn rate_limit_complete(tuning: WorkerTuning) -> bool {
    tuning.rate_limit_max is Some <==> tuning.rate_limit_duration is Some
}

/// The spans of a tuning that must fit into 64 bits of milliseconds, with their names, in the
/// order in which they are looked at.
pub open spec fn timed_settings(tuning: WorkerTuning) -> Seq<(Option<Duration>, Seq<char>)> {
    seq![
        (Some(tuning.lock_duration), "lock duration"@),
        (tuning.lock_renew_time, "lock renewal interval"@),
        (Some(tuning.stalled_interval), "stalled interval"@),
        (tuning.remove_on_complete_age, "completed-job retention age"@),
        (tuning.remove_on_fail_age, "failed-job retention age"@),
        (Some(tuning.run_retry_delay), "retry delay"@),
        (Some(tuning.maximum_rate_limit_delay), "maximum rate-limit delay"@),
    ]
}

/// The complaint about the first of `spans` that is too large.
pub open spec fn first_too_large(spans: Seq<(Option<Duration>, Seq<char>)>) -> Option<Seq<char>>
    decreases spans.len(),
{
    if spans.len() == 0 {
        None
    } else if !fits(spans[0].0) {
        Some(too_large(spans[0].1))
    } else {
        first_too_large(spans.skip(1))
    }
}

/// What is wrong with a tuning, if anything.
pub open spec fn tuning_complaint(tuning: WorkerTuning) -> Option<Seq<char>> {
    if !renews_in_time(tuning) {
        Some("lock renewal interval must be shorter than the lock duration"@)
    } else if !rate_limit_complete(tuning) {
        Some("--rate-limit-max and --rate-limit-duration must be used together"@)
    } else {
        first_too_large(timed_settings(tuning))
    }
}

/// The seven settings one by one in place of the recursion over them.
proof fn lemma_first_too_large(tuning: WorkerTuning)
    ensures
        first_too_large(timed_settings(tuning)) == (if !fits(Some(tuning.lock_duration)) {
            Some(too_large("lock duration"@))
        } else if !fits(tuning.lock_renew_time) {
            Some(too_large("lock renewal interval"@))
        } else if !fits(Some(tuning.stalled_interval)) {
            Some(too_large("stalled interval"@))
        } else if !fits(tuning.remove_on_complete_age) {
            Some(too_large("completed-job retention age"@))
        } else if !fits(tuning.remove_on_fail_age) {
            Some(too_large("failed-job retention age"@))
        } else if !fits(Some(tuning.run_retry_delay)) {
            Some(too_large("retry delay"@))
        } else if !fits(Some(tuning.maximum_rate_limit_delay)) {
            Some(too_large("maximum rate-limit delay"@))
        } else {
            None
        }),
{
    reveal_with_fuel(first_too_large, 8);
    let spans = timed_settings(tuning);
    assert(spans.skip(1).skip(1) == spans.skip(2));
    assert(spans.skip(2).skip(1) == spans.skip(3));
    assert(spans.skip(3).skip(1) == spans.skip(4));
    assert(spans.skip(4).skip(1) == spans.skip(5));
    assert(spans.skip(5).skip(1) == spans.skip(6));
    assert(spans.skip(6).skip(1) == spans.skip(7));
}

/// Whether `options` carries over everything that a worker takes from its command line.
pub open spec fn worker_options_of(
    options: WorkerOptions,
    url: Seq<char>,
    prefix: Seq<char>,
    concurrency: usize,
    tuning: WorkerTuning,
) -> bool {
    &&& options.url@ == url
    &&& options.prefix@ == prefix
    &&& optional_text(options.name) == optional_text(tuning.name)
    &&& options.concurrency == concurrency
    &&& options.lock_duration == tuning.lock_duration.millis()
    &&& options.lock_renew_time == optional_millis_of(tuning.lock_renew_time)
    &&& options.max_stalled_count == tuning.max_stalled_count
    &&& options.stalled_interval == tuning.stalled_interval.millis()
    &&& options.drain_delay == tuning.drain_delay
    &&& options.skip_version_check == tuning.skip_version_check
    &&& options.remove_on_complete == retention(
        tuning.remove_on_complete,
        tuning.remove_on_complete_age,
        tuning.remove_on_complete_limit,
    )
    &&& options.remove_on_fail == retention(
        tuning.remove_on_fail,
        tuning.remove_on_fail_age,
        tuning.remove_on_fail_limit,
    )
    &&& options.run_retry_delay == tuning.run_retry_delay.millis()
    &&& options.limiter == limiter_of(tuning)
    &&& options.maximum_rate_limit_delay == tuning.maximum_rate_limit_delay.millis()
    &&& options.max_started_attempts == tuning.max_started_attempts
    &&& options.skip_stalled_check == tuning.skip_stalled_check
    &&& options.skip_lock_renewal == tuning.skip_lock_renewal
    &&& options.metrics == (match tuning.metrics_max_data_points {
        Some(max_data_points) => Some(MetricsOptions { max_data_points }),
        None => None,
    })
}

/// A copy of an optional text.
fn copy_optional(text: &Option<String>) -> (copy: Option<String>)
    ensures
        optional_text(copy) == optional_text(*text),
{
    match text {
        Some(t) => Some(t.clone()),
        None => None,
    }
}

/// Works out the settings of a worker, or the first thing that is wrong with its tuning.
pub fn build_worker_options(
    redis_url: &RedisUrl,
    prefix: &str,
    concurrency: usize,
    tuning: &WorkerTuning,
) -> (options: Result<WorkerOptions, Failure>)
    ensures
        options is Ok <==> tuning_complaint(*tuning) is None,
        options matches Ok(o) ==> worker_options_of(
            o,
            redis_url@,
            prefix@,
            concurrency,
            *tuning,
        ),
        options matches Err(e) ==> e.says(tuning_complaint(*tuning)->0),
{
    proof {
        lemma_first_too_large(*tuning);
    }
    if let Some(renew_time) = &tuning.lock_renew_time {
        if renew_time.at_least(&tuning.lock_duration) {
            return Err(
                Failure::new(
                    "lock renewal interval must be shorter than the lock duration".to_owned(),
                ),
            );
        }
    }
    let limiter = match (tuning.rate_limit_max, tuning.rate_limit_duration) {
        (Some(max), Some(window)) => Some(rate_limiter(max, window)),
        (None, None) => None,
        _ => {
            return Err(
                Failure::new(
                    "--rate-limit-max and --rate-limit-duration must be used together".to_owned(),
                ),
            );
        },
    };
    let lock_duration: u64 = match duration_millis(tuning.lock_duration, "lock duration") {
        Ok(millis) => millis,
        Err(failure) => return Err(failure),
    };
    let lock_renew_time = match optional_millis(tuning.lock_renew_time, "lock renewal interval") {
        Ok(millis) => millis,
        Err(failure) => return Err(failure),
    };
    let stalled_interval: u64 = match duration_millis(
        tuning.stalled_interval,
        "stalled interval",
    ) {
        Ok(millis) => millis,
        Err(failure) => return Err(failure),
    };
    let remove_on_complete = match retention_policy(
        tuning.remove_on_complete,
        tuning.remove_on_complete_age,
        tuning.remove_on_complete_limit,
        "completed-job retention age",
    ) {
        Ok(policy) => policy,
        Err(failure) => return Err(failure),
    };
    let remove_on_fail = match retention_policy(
        tuning.remove_on_fail,
        tuning.remove_on_fail_age,
        tuning.remove_on_fail_limit,
        "failed-job retention age",
    ) {
        Ok(policy) => policy,
        Err(failure) => return Err(failure),
    };
    let run_retry_delay: u64 = match duration_millis(tuning.run_retry_delay, "retry delay") {
        Ok(millis) => millis,
        Err(failure) => return Err(failure),
    };
    let maximum_rate_limit_delay: u64 = match duration_millis(
        tuning.maximum_rate_limit_delay,
        "maximum rate-limit delay",
    ) {
        Ok(millis) => millis,
        Err(failure) => return Err(failure),
    };
    let metrics = match tuning.metrics_max_data_points {
        Some(max_data_points) => Some(MetricsOptions { max_data_points }),
        None => None,
    };
    Ok(
        WorkerOptions {
            url: redis_url.as_str().to_owned(),
            prefix: prefix.to_owned(),
            name: copy_optional(&tuning.name),
            concurrency,
            lock_duration,
            lock_renew_time,
            max_stalled_count: tuning.max_stalled_count,
            stalled_interval,
            drain_delay: tuning.drain_delay,
            skip_version_check: tuning.skip_version_check,
            remove_on_complete,
            remove_on_fail,
            run_retry_delay,
            limiter,
            maximum_rate_limit_delay,
            max_started_attempts: tuning.max_started_attempts,
            skip_stalled_check: tuning.skip_stalled_check,
            skip_lock_renewal: tuning.skip_lock_renewal,
            metrics,
        },
    )
}

/// A worker that starts never renews a lock later than the lock lasts.
pub proof fn law_lock_is_renewed_in_time(
    options: WorkerOptions,
    url: Seq<char>,
    prefix: Seq<char>,
    concurrency: usize,
    tuning: WorkerTuning,
)
    requires
        tuning_complaint(tuning) is None,
        worker_options_of(options, url, prefix, concurrency, tuning),
    ensures
        options.lock_renew_time matches Some(renewal) ==> renewal <= options.lock_duration,
{
    lemma_first_too_large(tuning);
}

/// How the delay between attempts grows.
#[derive(Clone, Copy, Debug, PartialEq, Eq, Structural)]
pub enum BackoffKind {
    Fixed,
    Exponential,
}

/// The delay between attempts, in milliseconds.
#[derive(Clone, Copy, Debug, PartialEq, Eq, Structural)]
pub enum BackoffStrategy {
    Fixed(u64),
    Exponential(u64),
}

/// What the command line says about a new job.
#[derive(Debug)]
pub struct JobRequest {
    /// Delay before the job becomes available.
    pub delay: Option<Duration>,
    /// Job priority.
    pub priority: Option<u32>,
    /// Total processing attempts before permanent failure.
    pub attempts: Option<u32>,
    /// Retry backoff strategy.
    pub backoff: Option<BackoffKind>,
    /// Base delay for the retry backoff strategy.
    pub backoff_delay: Duration,
    /// Process this job before older jobs of the same priority.
    pub lifo: bool,
    /// Custom unique job ID.
    pub job_id: Option<String>,
    /// Keep at most this many completed jobs.
    pub remove_on_complete: Option<usize>,
    /// Keep at most this many failed jobs.
    pub remove_on_fail: Option<usize>,
    /// Maximum number of job log entries to retain.
    pub keep_logs: Option<u32>,
    /// Reject serialized job data larger than this many bytes.
    pub size_limit: Option<usize>,
}

/// The settings of a new job; spans are in milliseconds.
#[derive(Debug)]
pub struct JobOptions {
    pub delay: Option<u64>,
    pub priority: Option<u32>,
    pub attempts: Option<u32>,
    pub backoff: Option<BackoffStrategy>,
    pub lifo: Option<bool>,
    pub remove_on_complete: Option<RemoveOnFinish>,
    pub remove_on_fail: Option<RemoveOnFinish>,
    pub keep_logs: Option<u32>,
    pub job_id: Option<String>,
    pub size_limit: Option<usize>,
}

/// The backoff that a request asks for. The base delay counts only where there is a strategy.
pub open spec fn backoff_of(request: JobRequest) -> Option<BackoffStrategy> {
    match request.backoff {
        Some(BackoffKind::Fixed) => Some(
            BackoffStrategy::Fixed(request.backoff_delay.millis() as u64),
        ),
        Some(BackoffKind::Exponential) => Some(
            BackoffStrategy::Exponential(request.backoff_delay.millis() as u64),
        ),
        None => None,
    }
}

/// What is wrong with a request, if anything.
pub open spec fn request_complaint(request: JobRequest) -> Option<Seq<char>> {
    if request.backoff is Some && !fits(Some(request.backoff_delay)) {
        Some(too_large("backoff delay"@))
    } else if !fits(request.delay) {
        Some(too_large("job delay"@))
    } else {
        None
    }
}

/// The policy that keeps `count` finished jobs.
pub open spec fn count_policy(count: Option<usize>) -> Option<RemoveOnFinish> {
    match count {
        Some(n) => Some(RemoveOnFinish::Count(n)),
        None => None,
    }
}

/// Whether `options` carries over everything that a job takes from its request.
pub open spec fn job_options_of(options: JobOptions, request: JobRequest) -> bool {
    &&& options.delay == optional_millis_of(request.delay)
    &&& options.priority == request.priority
    &&& options.attempts == request.attempts
    &&& options.backoff == backoff_of(request)
    &&& options.lifo == (if request.lifo {
        Some(true)
    } else {
        None
    })
    &&& options.remove_on_complete == count_policy(request.remove_on_complete)
    &&& options.remove_on_fail == count_policy(request.remove_on_fail)
    &&& options.keep_logs == request.keep_logs
    &&& optional_text(options.job_id) == optional_text(request.job_id)
    &&& options.size_limit == request.size_limit
}

/// The policy that keeps `count` finished jobs.
fn keep_count(count: Option<usize>) -> (policy: Option<RemoveOnFinish>)
    ensures
        policy == count_policy(count),
{
    match count {
        Some(n) => Some(RemoveOnFinish::Count(n)),
        None => None,
    }
}

/// Works out the settings of a new job, or the first thing that is wrong with the request.
pub fn build_job_options(request: &JobRequest) -> (options: Result<JobOptions, Failure>)
    ensures
        options is Ok <==> request_complaint(*request) is None,
        options matches Ok(o) ==> job_options_of(o, *request),
        options matches Err(e) ==> e.says(request_complaint(*request)->0),
{
    let backoff = match request.backoff {
        Some(kind) => {
            let delay: u64 = match duration_millis(request.backoff_delay, "backoff delay") {
                Ok(millis) => millis,
                Err(failure) => return Err(failure),
            };
            match kind {
                BackoffKind::Fixed => Some(BackoffStrategy::Fixed(delay)),
                BackoffKind::Exponential => Some(BackoffStrategy::Exponential(delay)),
            }
        },
        None => None,
    };
    let delay = match optional_millis(request.delay, "job delay") {
        Ok(millis) => millis,
        Err(failure) => return Err(failure),
    };
    let lifo = if request.lifo {
        Some(true)
    } else {
        None
    };
    Ok(
        JobOptions {
            delay,
            priority: request.priority,
            attempts: request.attempts,
            backoff,
            lifo,
            remove_on_complete: keep_count(request.remove_on_complete),
            remove_on_fail: keep_count(request.remove_on_fail),
            keep_logs: request.keep_logs,
            job_id: copy_optional(&request.job_id),
            size_limit: request.size_limit,
        },
    )
}

/// A queue is reached at the address and under the prefix that were given.
pub proof fn law_queue_is_reached_as_asked(
    redis_url: &RedisUrl,
    prefix: &str,
    options: QueueOptions,
    other_url: &RedisUrl,
    other_prefix: &str,
    other: QueueOptions,
)
    requires
        call_ensures(queue_options, (redis_url, prefix), options),
        call_ensures(queue_options, (other_url, other_prefix), other),
    ensures
        options.url@ == redis_url@,
        options.prefix@ == prefix@,
        options.url@ == other.url@ && options.prefix@ == other.prefix@ <==> redis_url@
            == other_url@ && prefix@ == other_prefix@,
{
}

/// Whether a policy says what was asked for: as much of `count`, `age` and `limit` as there is,
/// and nothing else.
pub open spec fn keeps_as_asked(
    policy: Option<RemoveOnFinish>,
    count: Option<usize>,
    age: Option<Duration>,
    limit: Option<usize>,
) -> bool {
    &&& policy is None <==> count is None && age is None && limit is None
    &&& policy matches Some(RemoveOnFinish::Count(n)) ==> count == Some(n) && age is None
        && limit is None
    &&& policy matches Some(RemoveOnFinish::Options(keep)) ==> {
        &&& age is Some || limit is Some
        &&& keep.count == count
        &&& keep.limit == limit
        &&& keep.age is Some <==> age is Some
        &&& age is Some ==> counts_millis(keep.age->0 as int, age->0)
    }
}

/// No setting of a retention is lost. There is a policy where any of the three is given; an age or
/// a limit asks for the full form, which has all three as they were given, the age in
/// milliseconds; and it is refused exactly where 64 bits do not hold the milliseconds of the age.
pub proof fn law_retention_is_kept(
    count: Option<usize>,
    age: Option<Duration>,
    limit: Option<usize>,
    age_name: &str,
    policy: Result<Option<RemoveOnFinish>, Failure>,
)
    requires
        call_ensures(retention_policy, (count, age, limit, age_name), policy),
    ensures
        policy is Err <==> age is Some && age->0@ >= (u64::MAX + 1) * 1_000_000,
        policy matches Ok(p) ==> keeps_as_asked(p, count, age, limit),
        policy is Ok && (age is Some || limit is Some) ==> (policy->Ok_0 matches Some(
            RemoveOnFinish::Options(_),
        )),
        policy matches Err(e) ==> e.message@ == age_name@ + " is too large"@ && e.cause is None,
{
}

/// Whether a worker is set as it was tuned: spans in whole milliseconds, everything else as it is.
pub open spec fn set_as_tuned(
    options: WorkerOptions,
    url: Seq<char>,
    prefix: Seq<char>,
    concurrency: usize,
    tuning: &WorkerTuning,
) -> bool {
    &&& options.url@ == url
    &&& options.prefix@ == prefix
    &&& options.concurrency == concurrency
    &&& options.name is Some <==> tuning.name is Some
    &&& tuning.name is Some ==> options.name->0@ == tuning.name->0@
    &&& counts_millis(options.lock_duration as int, tuning.lock_duration)
    &&& counts_millis(options.stalled_interval as int, tuning.stalled_interval)
    &&& counts_millis(options.run_retry_delay as int, tuning.run_retry_delay)
    &&& counts_millis(options.maximum_rate_limit_delay as int, tuning.maximum_rate_limit_delay)
    &&& options.lock_renew_time is Some <==> tuning.lock_renew_time is Some
    &&& tuning.lock_renew_time is Some ==> counts_millis(
        options.lock_renew_time->0 as int,
        tuning.lock_renew_time->0,
    )
    &&& options.drain_delay == tuning.drain_delay
    &&& options.max_stalled_count == tuning.max_stalled_count
    &&& options.max_started_attempts == tuning.max_started_attempts
    &&& options.skip_version_check == tuning.skip_version_check
    &&& options.skip_stalled_check == tuning.skip_stalled_check
    &&& options.skip_lock_renewal == tuning.skip_lock_renewal
    &&& keeps_as_asked(
        options.remove_on_complete,
        tuning.remove_on_complete,
        tuning.remove_on_complete_age,
        tuning.remove_on_complete_limit,
    )
    &&& keeps_as_asked(
        options.remove_on_fail,
        tuning.remove_on_fail,
        tuning.remove_on_fail_age,
        tuning.remove_on_fail_limit,
    )
    &&& options.metrics is Some <==> tuning.metrics_max_data_points is Some
    &&& options.metrics is Some ==> options.metrics->0.max_data_points
        == tuning.metrics_max_data_points->0
    &&& options.limiter is Some <==> tuning.rate_limit_max is Some
    &&& options.limiter is Some ==> limits_as_asked(
        options.limiter->0,
        tuning.rate_limit_max->0,
        tuning.rate_limit_duration->0,
    )
}

/// Whether a rate limit is what was asked for: that number of jobs in each window, whose
/// milliseconds are counted as far as 64 bits go.
pub open spec fn limits_as_asked(limiter: RateLimiterOptions, max: u64, window: Duration) -> bool {
    &&& limiter.max == max
    &&& countable(Some(window)) ==> counts_millis(limiter.duration as int, window)
    &&& !countable(Some(window)) ==> limiter.duration == u64::MAX
}

/// What a worker is set to carries over every setting of its tuning.
pub proof fn law_worker_is_set_as_tuned(
    redis_url: &RedisUrl,
    prefix: &str,
    concurrency: usize,
    tuning: &WorkerTuning,
    options: WorkerOptions,
)
    requires
        call_ensures(
            build_worker_options,
            (redis_url, prefix, concurrency, tuning),
            Ok::<WorkerOptions, Failure>(options),
        ),
    ensures
        set_as_tuned(options, redis_url@, prefix@, concurrency, tuning),
{
    lemma_set_as_tuned(options, redis_url@, prefix@, concurrency, tuning);
}

pub proof fn lemma_set_as_tuned(
    options: WorkerOptions,
    url: Seq<char>,
    prefix: Seq<char>,
    concurrency: usize,
    tuning: &WorkerTuning,
)
    requires
        tuning_complaint(*tuning) is None,
        worker_options_of(options, url, prefix, concurrency, *tuning),
    ensures
        set_as_tuned(options, url, prefix, concurrency, tuning),
{
    lemma_first_too_large(*tuning);
}

/// Jobs are limited exactly where both a number and a window are given, as they are given.
pub proof fn law_rate_limit_is_kept(
    redis_url: &RedisUrl,
    prefix: &str,
    concurrency: usize,
    tuning: &WorkerTuning,
    options: WorkerOptions,
)
    requires
        call_ensures(
            build_worker_options,
            (redis_url, prefix, concurrency, tuning),
            Ok::<WorkerOptions, Failure>(options),
        ),
    ensures
        options.limiter is Some <==> tuning.rate_limit_max is Some,
        options.limiter is Some <==> tuning.rate_limit_duration is Some,
        options.limiter is Some ==> limits_as_asked(
            options.limiter->0,
            tuning.rate_limit_max->0,
            tuning.rate_limit_duration->0,
        ),
{
}

/// Whether 64 bits hold the milliseconds of a span, if there is one.
pub open spec fn countable(span: Option<Duration>) -> bool {
    span is Some ==> span->0@ < (u64::MAX + 1) * 1_000_000
}

/// A worker is set up exactly where its lock is renewed before it runs out, the two halves of its
/// rate limit come together, and 64 bits hold the milliseconds of its spans. Of the complaints the
/// one about the renewal comes first, then the one about the rate limit, and then those about the
/// spans, each by its name and in their order.
pub proof fn law_tuning_is_judged_in_order(
    redis_url: &RedisUrl,
    prefix: &str,
    concurrency: usize,
    tuning: &WorkerTuning,
    options: Result<WorkerOptions, Failure>,
)
    requires
        call_ensures(build_worker_options, (redis_url, prefix, concurrency, tuning), options),
    ensures
        ({
            let late = tuning.lock_renew_time is Some && tuning.lock_renew_time->0@
                >= tuning.lock_duration@;
            let halved = tuning.rate_limit_max is Some != tuning.rate_limit_duration is Some;
            let lock = countable(Some(tuning.lock_duration));
            let renewal = countable(tuning.lock_renew_time);
            let stalled = countable(Some(tuning.stalled_interval));
            let completed = countable(tuning.remove_on_complete_age);
            let failed = countable(tuning.remove_on_fail_age);
            let retry = countable(Some(tuning.run_retry_delay));
            let limit = countable(Some(tuning.maximum_rate_limit_delay));
            let words = options->Err_0.message@;
            &&& options is Ok <==> !late && !halved && lock && renewal && stalled && completed
                && failed && retry && limit
            &&& options is Err ==> options->Err_0.cause is None
            &&& late ==> words
                == "lock renewal interval must be shorter than the lock duration"@
            &&& !late && halved ==> words
                == "--rate-limit-max and --rate-limit-duration must be used together"@
            &&& !late && !halved && !lock ==> words == "lock duration"@ + " is too large"@
            &&& !late && !halved && lock && renewal && !stalled ==> words == "stalled interval"@
                + " is too large"@
            &&& !late && !halved && lock && renewal && stalled && !completed ==> words
                == "completed-job retention age"@ + " is too large"@
            &&& !late && !halved && lock && renewal && stalled && completed && !failed ==> words
                == "failed-job retention age"@ + " is too large"@
            &&& !late && !halved && lock && renewal && stalled && completed && failed && !retry
                ==> words == "retry delay"@ + " is too large"@
            &&& !late && !halved && lock && renewal && stalled && completed && failed && retry
                && !limit ==> words == "maximum rate-limit delay"@ + " is too large"@
        }),
{
    lemma_first_too_large(*tuning);
}

/// What a job is set to carries over everything that its request says: spans in whole
/// milliseconds, everything else as it is.
pub proof fn law_job_is_set_as_requested(request: &JobRequest, options: JobOptions)
    requires
        call_ensures(build_job_options, (request,), Ok::<JobOptions, Failure>(options)),
    ensures
        options.delay is Some <==> request.delay is Some,
        options.delay is Some ==> counts_millis(options.delay->0 as int, request.delay->0),
        options.priority == request.priority,
        options.attempts == request.attempts,
        options.keep_logs == request.keep_logs,
        options.size_limit == request.size_limit,
        options.lifo is Some <==> request.lifo,
        options.lifo is Some ==> options.lifo->0,
        options.job_id is Some <==> request.job_id is Some,
        options.job_id is Some ==> options.job_id->0@ == request.job_id->0@,
        keeps_as_asked(options.remove_on_complete, request.remove_on_complete, None, None),
        keeps_as_asked(options.remove_on_fail, request.remove_on_fail, None, None),
{
}

/// Attempts are spaced by the strategy that was asked for, of its kind and with the milliseconds
/// of its base delay, and by none where none was asked for.
pub proof fn law_backoff_is_kept(request: &JobRequest, options: JobOptions)
    requires
        call_ensures(build_job_options, (request,), Ok::<JobOptions, Failure>(options)),
    ensures
        options.backoff is None <==> request.backoff is None,
        request.backoff matches Some(BackoffKind::Fixed) ==> (options.backoff matches Some(
            BackoffStrategy::Fixed(millis),
        ) && counts_millis(millis as int, request.backoff_delay)),
        request.backoff matches Some(BackoffKind::Exponential) ==> (options.backoff matches Some(
            BackoffStrategy::Exponential(millis),
        ) && counts_millis(millis as int, request.backoff_delay)),
{
}

/// Requests that lead to the same options and name a strategy have base delays of the same number
/// of milliseconds, and ask for the same in everything else that a job has.
pub proof fn law_same_options_come_of_the_same_request(
    first: &JobRequest,
    second: &JobRequest,
    one: JobOptions,
    other: JobOptions,
    millis: u64,
)
    requires
        call_ensures(build_job_options, (first,), Ok::<JobOptions, Failure>(one)),
        call_ensures(build_job_options, (second,), Ok::<JobOptions, Failure>(other)),
        one.backoff == other.backoff,
        one.delay == other.delay,
    ensures
        first.backoff == second.backoff,
        first.backoff is Some && counts_millis(millis as int, first.backoff_delay)
            ==> counts_millis(millis as int, second.backoff_delay),
        first.delay is Some <==> second.delay is Some,
        first.delay is Some && counts_millis(millis as int, first.delay->0) ==> counts_millis(
            millis as int,
            second.delay->0,
        ),
{
    law_backoff_is_kept(first, one);
    law_backoff_is_kept(second, other);
    law_job_is_set_as_requested(first, one);
    law_job_is_set_as_requested(second, other);
}

/// A request is refused exactly where 64 bits do not hold the milliseconds of its delay, or of the
/// base delay of a strategy that it names. The complaint about the base delay comes first.
pub proof fn law_requests_are_judged_in_order(
    request: &JobRequest,
    options: Result<JobOptions, Failure>,
)
    requires
        call_ensures(build_job_options, (request,), options),
    ensures
        ({
            let spaced = request.backoff is None || countable(Some(request.backoff_delay));
            let delayed = countable(request.delay);
            &&& options is Ok <==> spaced && delayed
            &&& options is Err ==> options->Err_0.cause is None
            &&& !spaced ==> options->Err_0.message@ == "backoff delay"@ + " is too large"@
            &&& spaced && !delayed ==> options->Err_0.message@ == "job delay"@ + " is too large"@
        }),
{
}

} // verus!
