use std::str::FromStr;

use kueueski::command::FileFacts;
use kueueski::duration::Duration;
use kueueski::failure::Failure;
use kueueski::options::WorkerTuning;
use kueueski::output::OutputLine;
use kueueski::queue::{
    unadded_job, uncounted_workers, unpaused_queue, unreachable_queue, unread_counts,
    unread_state, unresumed_queue, unstarted_worker,
};
use kueueski::redis_url::RedisUrl;
use kueueski::worker::{
    announce_start, close_timeout, close_worker, conclude, plan_worker, ready_line, shut_down,
    start_worker, Ending, LoopAction, LoopEvent, Reaction, WorkerEvent, WorkerLoop, WorkerMode,
};

fn once(secs: u64) -> WorkerLoop {
    WorkerLoop::new(WorkerMode::Once {
        wait: Duration::new(secs, 0),
    })
}

fn continuous() -> WorkerLoop {
    WorkerLoop::new(WorkerMode::Continuous { concurrency: 2 })
}

fn completed() -> LoopEvent {
    LoopEvent::Worker(WorkerEvent::Completed {
        job_id: "1".to_owned(),
        result: "{\"ok\":true}".to_owned(),
    })
}

fn failed() -> LoopEvent {
    LoopEvent::Worker(WorkerEvent::Failed {
        job_id: "1".to_owned(),
        error: "no luck".to_owned(),
    })
}

fn drained() -> LoopEvent {
    LoopEvent::Worker(WorkerEvent::Drained)
}

fn step(state: &mut WorkerLoop, event: LoopEvent) -> Reaction {
    state.step(event, false, "emails")
}

fn words(reaction: Reaction) -> Option<String> {
    match reaction.output {
        Some(OutputLine::Stderr(text)) => Some(text),
        Some(OutputLine::Stdout(text)) => panic!("{text}"),
        None => None,
    }
}

fn failure(reaction: Reaction) -> String {
    match reaction.action {
        LoopAction::Close(Ending::Failure(message)) => message,
        other => panic!("{other:?}"),
    }
}

fn succeeds(reaction: &Reaction) -> bool {
    matches!(reaction.action, LoopAction::Close(Ending::Success))
}

fn goes_on(reaction: &Reaction) -> bool {
    matches!(reaction.action, LoopAction::Continue)
}

#[test]
fn dequeue_claims_exactly_one_job() {
    let mut state = once(0);
    assert!(state.uses_claim_gate());
    assert!(state.hears_claim());
    let reaction = step(&mut state, LoopEvent::Claim);
    assert!(matches!(reaction.action, LoopAction::PauseAndAcknowledge));
    assert!(reaction.output.is_none());
    assert!(!state.hears_claim());
    assert!(succeeds(&step(&mut state, completed())));
}

#[test]
fn continuous_work_is_not_gated() {
    let mut state = continuous();
    assert!(!state.uses_claim_gate());
    assert!(!state.hears_claim());
    assert!(!state.hears_timeout());
    assert!(goes_on(&step(&mut state, drained())));
    assert!(!state.hears_timeout());
    assert!(goes_on(&step(&mut state, completed())));
    assert!(goes_on(&step(&mut state, failed())));
    let error = LoopEvent::Worker(WorkerEvent::Error("lost".to_owned()));
    assert!(goes_on(&step(&mut state, error)));
    assert!(succeeds(&step(&mut state, LoopEvent::Shutdown)));
}

#[test]
fn an_empty_queue_ends_a_dequeue_that_does_not_wait() {
    let mut state = once(0);
    assert_eq!(
        failure(step(&mut state, drained())),
        "no job available in queue 'emails'"
    );
}

#[test]
fn a_dequeue_waits_from_the_first_empty_look() {
    let mut state = once(3);
    assert!(!state.hears_timeout());
    match step(&mut state, drained()).action {
        LoopAction::BeginWait(wait) => assert_eq!(wait.as_secs(), 3),
        other => panic!("{other:?}"),
    }
    assert!(state.hears_timeout());
    assert!(goes_on(&step(&mut state, drained())));
    assert!(state.hears_claim());
    assert_eq!(
        failure(step(&mut state, LoopEvent::WaitElapsed)),
        "timed out waiting for a job in queue 'emails'"
    );
}

#[test]
fn a_claimed_job_is_seen_through() {
    let mut state = once(3);
    step(&mut state, drained());
    step(&mut state, LoopEvent::Claim);
    assert!(!state.hears_timeout());
    assert!(goes_on(&step(&mut state, drained())));
    assert_eq!(failure(step(&mut state, failed())), "job 1 failed: no luck");

    let mut state = once(0);
    step(&mut state, LoopEvent::Claim);
    assert!(goes_on(&step(&mut state, drained())));
}

#[test]
fn errors_end_a_dequeue() {
    let error = || LoopEvent::Worker(WorkerEvent::Error("lost".to_owned()));
    assert_eq!(failure(step(&mut once(0), error())), "worker error: lost");
    assert_eq!(words(step(&mut once(0), error())).unwrap(), "error: emails");
    for state in [&mut once(0), &mut continuous()] {
        assert_eq!(
            failure(step(state, LoopEvent::StreamClosed)),
            "worker event stream closed unexpectedly"
        );
    }
}

#[test]
fn tells_what_happens() {
    let mut state = continuous();
    let active = LoopEvent::Worker(WorkerEvent::Active {
        job_id: "1".to_owned(),
    });
    assert_eq!(words(step(&mut state, active)).unwrap(), "active: job 1 on emails");
    assert_eq!(
        words(step(&mut state, completed())).unwrap(),
        "completed: job 1 on emails"
    );
    assert_eq!(
        words(step(&mut state, failed())).unwrap(),
        "failed: job 1 on emails"
    );
    assert_eq!(
        words(step(&mut state, LoopEvent::Shutdown)).unwrap(),
        "shutting-down: emails"
    );
    for event in [
        WorkerEvent::Ready,
        WorkerEvent::Closed,
        WorkerEvent::Paused,
        WorkerEvent::Resumed,
        WorkerEvent::Stalled,
        WorkerEvent::Progress,
        WorkerEvent::Drained,
    ] {
        let reaction = step(&mut state, LoopEvent::Worker(event));
        assert!(goes_on(&reaction));
        assert_eq!(words(reaction), None);
    }
    match ready_line(false, "emails") {
        OutputLine::Stderr(text) => assert_eq!(text, "ready: emails"),
        other => panic!("{other:?}"),
    }
}

#[test]
fn tells_results_in_json() {
    let reaction = continuous().step(completed(), true, "emails");
    match reaction.output {
        Some(OutputLine::Stdout(line)) => assert_eq!(
            line,
            "{\"detail\":{\"ok\":true},\"event\":\"completed\",\"id\":\"1\",\"queue\":\"emails\"}"
        ),
        other => panic!("{other:?}"),
    }
    let reaction = continuous().step(failed(), true, "emails");
    match reaction.output {
        Some(OutputLine::Stdout(line)) => assert_eq!(
            line,
            "{\"detail\":\"no luck\",\"event\":\"failed\",\"id\":\"1\",\"queue\":\"emails\"}"
        ),
        other => panic!("{other:?}"),
    }
}

#[test]
fn modes_set_the_pace() {
    let mode = WorkerMode::Once {
        wait: Duration::new(2, 5),
    };
    assert_eq!(mode.concurrency(), 1);
    assert_eq!(mode.wait_duration().subsec_nanos(), 5);
    let mode = WorkerMode::Continuous { concurrency: 8 };
    assert_eq!(mode.concurrency(), 8);
    assert!(mode.wait_duration().is_zero());
}

fn tuning() -> WorkerTuning {
    let span = Duration::new(30, 0);
    WorkerTuning {
        name: None,
        lock_duration: span,
        lock_renew_time: None,
        shutdown_timeout: span,
        stalled_interval: span,
        run_retry_delay: span,
        drain_delay: 5,
        max_stalled_count: 1,
        max_started_attempts: None,
        remove_on_complete: None,
        remove_on_complete_age: None,
        remove_on_complete_limit: None,
        remove_on_fail: None,
        remove_on_fail_age: None,
        remove_on_fail_limit: None,
        metrics_max_data_points: None,
        rate_limit_max: None,
        rate_limit_duration: None,
        maximum_rate_limit_delay: span,
        max_result_bytes: 64,
        unrecoverable_exit_code: vec![9, 10],
        skip_version_check: false,
        skip_stalled_check: false,
        skip_lock_renewal: false,
    }
}

#[test]
fn plans_a_worker() {
    let url = RedisUrl::from_str("redis://localhost").unwrap();
    let mode = WorkerMode::Continuous { concurrency: 4 };
    let plan = plan_worker(&url, "bull", "emails", vec!["sh", "-c"], &tuning(), mode).unwrap();
    assert_eq!(plan.options.concurrency, 4);
    assert_eq!(plan.options.url, "redis://localhost");
    assert_eq!(plan.handler.queue, "emails");
    assert_eq!(plan.handler.command, vec!["sh", "-c"]);
    assert_eq!(plan.handler.unrecoverable_exit_codes, vec![9, 10]);
    assert_eq!(plan.handler.max_result_bytes, 64);
    assert!(!plan.state.uses_claim_gate());

    let mut late = tuning();
    late.lock_renew_time = Some(Duration::new(31, 0));
    let failure = plan_worker(&url, "bull", "emails", vec!["sh"], &late, mode).unwrap_err();
    assert_eq!(
        failure.message,
        "lock renewal interval must be shorter than the lock duration"
    );
}

#[test]
fn judges_how_the_worker_was_closed() {
    assert_eq!(close_timeout(Duration::new(0, 100_000_000)).unwrap(), 100);
    assert_eq!(
        close_timeout(Duration::new(u64::MAX, 0)).unwrap_err().message,
        "shutdown timeout is too large"
    );
    assert!(close_worker(Ok(0)).is_ok());
    assert_eq!(
        close_worker(Ok(2)).unwrap_err().message,
        "shutdown timeout interrupted 2 active job(s); BullMQ will recover them as stalled"
    );
    let failure = close_worker(Err("gone".to_owned())).unwrap_err();
    assert_eq!(failure.message, "failed to close worker");
    assert_eq!(failure.cause.as_deref(), Some("gone"));
}

#[test]
fn a_bad_close_counts_for_more_than_the_ending() {
    assert!(conclude(Ending::Success, Ok(())).is_ok());
    let bad = conclude(Ending::Failure("why".to_owned()), Ok(())).unwrap_err();
    assert_eq!(bad.message, "why");
    for ending in [Ending::Success, Ending::Failure("why".to_owned())] {
        let failure = Failure::new("late".to_owned());
        assert_eq!(conclude(ending, Err(failure)).unwrap_err().message, "late");
    }
}

fn facts(mode: u32) -> Option<FileFacts> {
    Some(FileFacts {
        is_file: true,
        mode: Some(mode),
    })
}

#[test]
fn starts_a_worker_whose_command_and_tuning_are_right() {
    let url = RedisUrl::from_str("redis://localhost").unwrap();
    let mode = WorkerMode::Once {
        wait: Duration::new(0, 0),
    };
    let start = |shown: Option<&str>, found: Vec<Option<FileFacts>>, tuning: &WorkerTuning| {
        start_worker(shown, &found, &url, "bull", "emails", vec!["sh", "-c"], tuning, mode)
    };
    let mut late = tuning();
    late.lock_renew_time = Some(Duration::new(31, 0));

    let plan = start(Some("sh"), vec![None, facts(0o755)], &tuning()).unwrap();
    assert_eq!(plan.options.concurrency, 1);
    assert_eq!(plan.options.prefix, "bull");
    assert_eq!(plan.handler.command, vec!["sh", "-c"]);
    assert!(plan.state.uses_claim_gate());

    let missing = "handler executable was not found or is not executable: sh";
    let late_renewal = "lock renewal interval must be shorter than the lock duration";
    let complaint = |shown, found, tuning: &WorkerTuning| start(shown, found, tuning).unwrap_err();
    assert_eq!(complaint(Some("sh"), vec![facts(0o644)], &tuning()).message, missing);
    assert_eq!(complaint(Some("sh"), vec![facts(0o755)], &late).message, late_renewal);
    assert_eq!(complaint(Some("sh"), vec![None], &late).message, missing);
    assert_eq!(complaint(None, vec![], &late).message, "handler command is empty");
}

#[test]
fn tells_that_a_worker_is_ready_only_once_it_is() {
    match announce_start(Ok(()), false, "emails") {
        Ok(OutputLine::Stderr(line)) => assert_eq!(line, "ready: emails"),
        other => panic!("{other:?}"),
    }
    let failure = announce_start(Err("refused".to_owned()), true, "emails").unwrap_err();
    assert_eq!(failure.message, "failed to start worker for queue 'emails'");
    assert_eq!(failure.cause.as_deref(), Some("refused"));
}

#[test]
fn complains_of_the_timeout_before_anything_is_closed() {
    let usable = Duration::new(30, 0);
    let endless = Duration::new(u64::MAX, 0);
    assert!(shut_down(Ending::Success, usable, Some(Ok(0))).is_ok());
    let why = shut_down(Ending::Failure("why".to_owned()), usable, Some(Ok(0))).unwrap_err();
    assert_eq!(why.message, "why");
    for ending in [Ending::Success, Ending::Failure("why".to_owned())] {
        assert_eq!(
            shut_down(ending, endless, None).unwrap_err().message,
            "shutdown timeout is too large"
        );
    }
    assert_eq!(
        shut_down(Ending::Success, usable, Some(Ok(1))).unwrap_err().message,
        "shutdown timeout interrupted 1 active job(s); BullMQ will recover them as stalled"
    );
    let failure = shut_down(Ending::Success, usable, Some(Err("gone".to_owned()))).unwrap_err();
    assert_eq!(failure.message, "failed to close worker");
    assert_eq!(failure.cause.as_deref(), Some("gone"));
}

#[test]
fn names_the_queue_that_does_not_answer() {
    let named: [(fn(&str, String) -> Failure, &str); 5] = [
        (unreachable_queue, "failed to connect to Redis for queue 'emails'"),
        (unadded_job, "failed to add job to queue 'emails'"),
        (unpaused_queue, "failed to pause queue 'emails'"),
        (unresumed_queue, "failed to resume queue 'emails'"),
        (unstarted_worker, "failed to start worker for queue 'emails'"),
    ];
    for (complain, message) in named {
        let failure = complain("emails", "gone".to_owned());
        assert_eq!(failure.message, message);
        assert_eq!(failure.cause.as_deref(), Some("gone"));
    }
    let unnamed: [(fn(String) -> Failure, &str); 3] = [
        (unread_counts, "failed to read queue job counts"),
        (unread_state, "failed to read queue state"),
        (uncounted_workers, "failed to count queue workers"),
    ];
    for (complain, message) in unnamed {
        let failure = complain("gone".to_owned());
        assert_eq!(failure.message, message);
        assert_eq!(failure.cause.as_deref(), Some("gone"));
    }
}
