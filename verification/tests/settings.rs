use std::str::FromStr;

use kueueski::duration::Duration;
use kueueski::options::{
    build_job_options, build_worker_options, queue_options, retention_policy, BackoffKind,
    BackoffStrategy, JobRequest, KeepJobs, MetricsOptions, RateLimiterOptions, RemoveOnFinish,
    WorkerTuning,
};
use kueueski::redis_url::RedisUrl;

fn seconds(secs: u64) -> Duration {
    Duration::new(secs, 0)
}

fn too_long() -> Duration {
    Duration::new(u64::MAX, 0)
}

fn url() -> RedisUrl {
    RedisUrl::from_str("redis://localhost:6379").unwrap()
}

fn tuning() -> WorkerTuning {
    WorkerTuning {
        name: None,
        lock_duration: seconds(30),
        lock_renew_time: None,
        shutdown_timeout: seconds(30),
        stalled_interval: seconds(30),
        run_retry_delay: seconds(15),
        drain_delay: 5,
        max_stalled_count: 1,
        max_started_attempts: None,
        remove_on_complete: None,
        remove_on_complete_age: None,
        remove_on_complete_limit: None,
        remove_on_fail: None,
        remove_on_fail_age: None,
        remove_on_fail_limit: None,
        metrics_max_data_points: None,
        rate_limit_max: None,
        rate_limit_duration: None,
        maximum_rate_limit_delay: seconds(30),
        max_result_bytes: 1_048_576,
        unrecoverable_exit_code: Vec::new(),
        skip_version_check: false,
        skip_stalled_check: false,
        skip_lock_renewal: false,
    }
}

fn complaint(tuning: &WorkerTuning) -> String {
    let failure = build_worker_options(&url(), "bull", 1, tuning).unwrap_err();
    assert_eq!(failure.cause, None);
    failure.message
}

#[test]
fn reaches_the_queue_by_url_and_prefix() {
    let options = queue_options(&url(), "mine");
    assert_eq!(options.url, "redis://localhost:6379");
    assert_eq!(options.prefix, "mine");
}

#[test]
fn carries_the_defaults_over() {
    let options = build_worker_options(&url(), "bull", 3, &tuning()).unwrap();
    assert_eq!(options.url, "redis://localhost:6379");
    assert_eq!(options.prefix, "bull");
    assert_eq!(options.name, None);
    assert_eq!(options.concurrency, 3);
    assert_eq!(options.lock_duration, 30_000);
    assert_eq!(options.lock_renew_time, None);
    assert_eq!(options.max_stalled_count, 1);
    assert_eq!(options.stalled_interval, 30_000);
    assert_eq!(options.drain_delay, 5);
    assert!(!options.skip_version_check);
    assert_eq!(options.remove_on_complete, None);
    assert_eq!(options.remove_on_fail, None);
    assert_eq!(options.run_retry_delay, 15_000);
    assert_eq!(options.limiter, None);
    assert_eq!(options.maximum_rate_limit_delay, 30_000);
    assert_eq!(options.max_started_attempts, None);
    assert!(!options.skip_stalled_check);
    assert!(!options.skip_lock_renewal);
    assert_eq!(options.metrics, None);
}

#[test]
fn carries_every_setting_over() {
    let tuning = WorkerTuning {
        name: Some("w1".to_owned()),
        lock_duration: seconds(10),
        lock_renew_time: Some(Duration::new(9, 999_999_999)),
        stalled_interval: seconds(7),
        run_retry_delay: Duration::new(0, 5_000_000),
        drain_delay: 2,
        max_stalled_count: 4,
        max_started_attempts: Some(6),
        remove_on_complete: Some(10),
        remove_on_fail: Some(3),
        remove_on_fail_age: Some(seconds(60)),
        remove_on_fail_limit: Some(8),
        metrics_max_data_points: Some(99),
        rate_limit_max: Some(100),
        rate_limit_duration: Some(Duration::new(1, 500_000)),
        maximum_rate_limit_delay: seconds(3),
        skip_version_check: true,
        skip_stalled_check: true,
        skip_lock_renewal: true,
        ..tuning()
    };
    let options = build_worker_options(&url(), "p", 1, &tuning).unwrap();
    assert_eq!(options.name.as_deref(), Some("w1"));
    assert_eq!(options.lock_duration, 10_000);
    assert_eq!(options.lock_renew_time, Some(9_999));
    assert_eq!(options.stalled_interval, 7_000);
    assert_eq!(options.run_retry_delay, 5);
    assert_eq!(options.drain_delay, 2);
    assert_eq!(options.max_stalled_count, 4);
    assert_eq!(options.max_started_attempts, Some(6));
    assert_eq!(options.remove_on_complete, Some(RemoveOnFinish::Count(10)));
    assert_eq!(
        options.remove_on_fail,
        Some(RemoveOnFinish::Options(KeepJobs {
            age: Some(60_000),
            count: Some(3),
            limit: Some(8),
        }))
    );
    assert_eq!(
        options.metrics,
        Some(MetricsOptions {
            max_data_points: 99
        })
    );
    assert_eq!(
        options.limiter,
        Some(RateLimiterOptions {
            max: 100,
            duration: 1_000
        })
    );
    assert_eq!(options.maximum_rate_limit_delay, 3_000);
    assert!(options.skip_version_check);
    assert!(options.skip_stalled_check);
    assert!(options.skip_lock_renewal);
}

#[test]
fn cuts_off_a_long_rate_limit_window() {
    let tuning = WorkerTuning {
        rate_limit_max: Some(1),
        rate_limit_duration: Some(too_long()),
        ..tuning()
    };
    let limiter = build_worker_options(&url(), "p", 1, &tuning).unwrap().limiter;
    assert_eq!(
        limiter,
        Some(RateLimiterOptions {
            max: 1,
            duration: u64::MAX
        })
    );
}

#[test]
fn renews_locks_before_they_run_out() {
    let message = "lock renewal interval must be shorter than the lock duration";
    let late = WorkerTuning {
        lock_renew_time: Some(seconds(30)),
        ..tuning()
    };
    assert_eq!(complaint(&late), message);
    let later = WorkerTuning {
        lock_renew_time: Some(too_long()),
        rate_limit_max: Some(1),
        ..tuning()
    };
    assert_eq!(complaint(&later), message);
    let close = WorkerTuning {
        lock_duration: Duration::new(0, 1_900_000),
        lock_renew_time: Some(Duration::new(0, 1_100_000)),
        ..tuning()
    };
    let options = build_worker_options(&url(), "p", 1, &close).unwrap();
    assert_eq!(options.lock_renew_time, Some(1));
    assert!(options.lock_renew_time.unwrap() <= options.lock_duration);
}

#[test]
fn wants_both_halves_of_a_rate_limit() {
    let message = "--rate-limit-max and --rate-limit-duration must be used together";
    let no_window = WorkerTuning {
        rate_limit_max: Some(1),
        lock_duration: too_long(),
        ..tuning()
    };
    assert_eq!(complaint(&no_window), message);
    let no_max = WorkerTuning {
        rate_limit_duration: Some(seconds(1)),
        ..tuning()
    };
    assert_eq!(complaint(&no_max), message);
}

#[test]
fn names_the_span_that_is_too_large() {
    let mut tuning = tuning();
    tuning.maximum_rate_limit_delay = too_long();
    assert_eq!(complaint(&tuning), "maximum rate-limit delay is too large");
    tuning.run_retry_delay = too_long();
    assert_eq!(complaint(&tuning), "retry delay is too large");
    tuning.remove_on_fail_age = Some(too_long());
    assert_eq!(complaint(&tuning), "failed-job retention age is too large");
    tuning.remove_on_complete_age = Some(too_long());
    assert_eq!(complaint(&tuning), "completed-job retention age is too large");
    tuning.stalled_interval = too_long();
    assert_eq!(complaint(&tuning), "stalled interval is too large");
    tuning.lock_renew_time = Some(Duration::new(u64::MAX - 1, 0));
    tuning.lock_duration = too_long();
    assert_eq!(complaint(&tuning), "lock duration is too large");
}

#[test]
fn works_out_what_is_kept() {
    let policy = |count, age, limit| retention_policy(count, age, limit, "age").unwrap();
    assert_eq!(policy(None, None, None), None);
    assert_eq!(policy(Some(0), None, None), Some(RemoveOnFinish::Count(0)));
    assert_eq!(
        policy(None, None, Some(2)),
        Some(RemoveOnFinish::Options(KeepJobs {
            age: None,
            count: None,
            limit: Some(2)
        }))
    );
    assert_eq!(
        policy(Some(1), Some(seconds(2)), None),
        Some(RemoveOnFinish::Options(KeepJobs {
            age: Some(2_000),
            count: Some(1),
            limit: None
        }))
    );
    let failure = retention_policy(Some(1), Some(too_long()), None, "keep age").unwrap_err();
    assert_eq!(failure.message, "keep age is too large");
}

fn request() -> JobRequest {
    JobRequest {
        delay: None,
        priority: None,
        attempts: None,
        backoff: None,
        backoff_delay: seconds(0),
        lifo: false,
        job_id: None,
        remove_on_complete: None,
        remove_on_fail: None,
        keep_logs: None,
        size_limit: None,
    }
}

#[test]
fn leaves_job_settings_unset() {
    let options = build_job_options(&request()).unwrap();
    assert_eq!(options.delay, None);
    assert_eq!(options.priority, None);
    assert_eq!(options.attempts, None);
    assert_eq!(options.backoff, None);
    assert_eq!(options.lifo, None);
    assert_eq!(options.remove_on_complete, None);
    assert_eq!(options.remove_on_fail, None);
    assert_eq!(options.keep_logs, None);
    assert_eq!(options.job_id, None);
    assert_eq!(options.size_limit, None);
}

#[test]
fn carries_job_settings_over() {
    let options = build_job_options(&JobRequest {
        delay: Some(Duration::new(2, 500_000_000)),
        priority: Some(9),
        attempts: Some(2),
        backoff: Some(BackoffKind::Exponential),
        backoff_delay: seconds(1),
        lifo: true,
        job_id: Some("id-1".to_owned()),
        remove_on_complete: Some(5),
        remove_on_fail: Some(6),
        keep_logs: Some(7),
        size_limit: Some(8),
    })
    .unwrap();
    assert_eq!(options.delay, Some(2_500));
    assert_eq!(options.priority, Some(9));
    assert_eq!(options.attempts, Some(2));
    assert_eq!(options.backoff, Some(BackoffStrategy::Exponential(1_000)));
    assert_eq!(options.lifo, Some(true));
    assert_eq!(options.remove_on_complete, Some(RemoveOnFinish::Count(5)));
    assert_eq!(options.remove_on_fail, Some(RemoveOnFinish::Count(6)));
    assert_eq!(options.keep_logs, Some(7));
    assert_eq!(options.job_id.as_deref(), Some("id-1"));
    assert_eq!(options.size_limit, Some(8));
    let fixed = build_job_options(&JobRequest {
        backoff: Some(BackoffKind::Fixed),
        ..request()
    })
    .unwrap();
    assert_eq!(fixed.backoff, Some(BackoffStrategy::Fixed(0)));
}

#[test]
fn refuses_job_delays_that_are_too_large() {
    let failure = build_job_options(&JobRequest {
        delay: Some(too_long()),
        backoff_delay: too_long(),
        ..request()
    })
    .unwrap_err();
    assert_eq!(failure.message, "job delay is too large");
    let failure = build_job_options(&JobRequest {
        delay: Some(too_long()),
        backoff: Some(BackoffKind::Fixed),
        backoff_delay: too_long(),
        ..request()
    })
    .unwrap_err();
    assert_eq!(failure.message, "backoff delay is too large");
    assert!(build_job_options(&JobRequest {
        backoff_delay: too_long(),
        ..request()
    })
    .is_ok());
}
