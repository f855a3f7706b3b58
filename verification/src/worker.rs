//! Running a worker: how it is set up, how it answers to what happens, and how it ends.
//!
//! `WorkerLoop` decides; its caller talks to the queue. The caller tells what happened as a
//! `LoopEvent` and is told what to print and what to do as a `Reaction`.

use crate::command::{command_complaint, validate_handler_command, FileFacts};
use crate::duration::{counts_millis, duration_millis, too_large, Duration};
use crate::failure::Failure;
use crate::handler::HandlerSpec;
use crate::json::{json_text, on_one_line, JsonValue};
use crate::options::{
    build_worker_options, lemma_set_as_tuned, set_as_tuned, tuning_complaint, worker_options_of,
    WorkerOptions, WorkerTuning,
};
use crate::output::{
    emit_worker_event, event_line, lemma_event_line, optional_str, tells_in_json, tells_in_words,
    Detail, OutputLine,
};
use crate::queue::{name_queue, unstarted_worker};
use crate::redis_url::RedisUrl;
use crate::text::{decimal, decimal_text};
use vstd::prelude::*;
use vstd::string::*;

verus! {

/// How long a worker works.
#[derive(Clone, Copy, Debug)]
pub enum WorkerMode {
    /// For one job, after waiting for one in an empty queue.
    Once { wait: Duration },
    /// For job after job, so many at a time.
    Continuous { concurrency: usize },
}

impl WorkerMode {
    /// How many jobs are processed at a time.
    pub open spec fn jobs_at_a_time(self) -> usize {
        match self {
            WorkerMode::Once { .. } => 1,
            WorkerMode::Continuous { concurrency } => concurrency,
        }
    }

    /// How many jobs are processed at a time.
    pub fn concurrency(&self) -> (concurrency: usize)
        ensures
            concurrency == self.jobs_at_a_time(),
    {
        match self {
            WorkerMode::Once { .. } => 1,
            WorkerMode::Continuous { concurrency } => *concurrency,
        }
    }

    /// How long an empty queue is waited on, in nanoseconds.
    pub open spec fn patience(self) -> nat {
        match self {
            WorkerMode::Once { wait } => wait@,
            WorkerMode::Continuous { .. } => 0,
        }
    }

    /// How long an empty queue is waited on.
    pub fn wait_duration(&self) -> (wait: Duration)
        ensures
            wait@ == self.patience(),
    {
        match self {
            WorkerMode::Once { wait } => *wait,
            WorkerMode::Continuous { .. } => Duration::new(0, 0),
        }
    }
}

/// Everything that a worker starts with.
#[derive(Debug)]
pub struct WorkerPlan<A> {
    pub options: WorkerOptions,
    pub handler: HandlerSpec<A>,
    pub state: WorkerLoop,
}

/// A copy of some exit codes.
fn copy_codes(codes: &Vec<i32>) -> (copy: Vec<i32>)
    ensures
        copy@ == codes@,
{
    let mut copy: Vec<i32> = Vec::new();
    let mut i: usize = 0;
    while i < codes.len()
        invariant
            i <= codes.len(),
            copy@ == codes@.take(i as int),
        decreases codes.len() - i,
    {
        copy.push(codes[i]);
        i = i + 1;
    }
    assert(codes@.take(i as int) =~= codes@);
    copy
}

/// Whether `plan` is that of a worker for `queue` which hands its jobs to `command`.
pub open spec fn plan_of<A>(
    plan: WorkerPlan<A>,
    redis_url: Seq<char>,
    prefix: Seq<char>,
    queue: Seq<char>,
    command: Vec<A>,
    tuning: WorkerTuning,
    mode: WorkerMode,
) -> bool {
    &&& worker_options_of(plan.options, redis_url, prefix, mode.jobs_at_a_time(), tuning)
    &&& plan.handler.queue@ == queue
    &&& plan.handler.command == command
    &&& plan.handler.unrecoverable_exit_codes@ == tuning.unrecoverable_exit_code@
    &&& plan.handler.max_result_bytes == tuning.max_result_bytes
    &&& plan.state@ == LoopState::start(mode)
}

/// Sets up a worker whose handler command was found to be in order.
pub fn plan_worker<A>(
    redis_url: &RedisUrl,
    prefix: &str,
    queue: &str,
    command: Vec<A>,
    tuning: &WorkerTuning,
    mode: WorkerMode,
) -> (plan: Result<WorkerPlan<A>, Failure>)
    ensures
        plan is Ok <==> tuning_complaint(*tuning) is None,
        plan matches Ok(p) ==> plan_of(p, redis_url@, prefix@, queue@, command, *tuning, mode),
        plan matches Err(e) ==> e.says(tuning_complaint(*tuning)->0),
{
    let options = match build_worker_options(redis_url, prefix, mode.concurrency(), tuning) {
        Ok(options) => options,
        Err(failure) => return Err(failure),
    };
    let handler = HandlerSpec {
        queue: queue.to_owned(),
        command,
        unrecoverable_exit_codes: copy_codes(&tuning.unrecoverable_exit_code),
        max_result_bytes: tuning.max_result_bytes,
    };
    Ok(WorkerPlan { options, handler, state: WorkerLoop::new(mode) })
}

/// What keeps a worker from being started: what is wrong with its handler command, and only then
/// what is wrong with its tuning.
pub open spec fn start_complaint(
    shown: Option<Seq<char>>,
    candidates: Seq<Option<FileFacts>>,
    tuning: WorkerTuning,
) -> Option<Seq<char>> {
    match command_complaint(shown, candidates) {
        Some(complaint) => Some(complaint),
        None => tuning_complaint(tuning),
    }
}

/// Checks the handler command and sets up the worker. The executable of the command is shown as
/// `shown` and may stand at any of `candidates`. A failure leaves no plan to start a worker with.
pub fn start_worker<A>(
    shown: Option<&str>,
    candidates: &Vec<Option<FileFacts>>,
    redis_url: &RedisUrl,
    prefix: &str,
    queue: &str,
    command: Vec<A>,
    tuning: &WorkerTuning,
    mode: WorkerMode,
) -> (plan: Result<WorkerPlan<A>, Failure>)
    ensures
        plan is Ok <==> command_complaint(optional_str(shown), candidates@) is None
            && tuning_complaint(*tuning) is None,
        plan matches Ok(p) ==> plan_of(p, redis_url@, prefix@, queue@, command, *tuning, mode),
        plan matches Err(e) ==> e.says(
            start_complaint(optional_str(shown), candidates@, *tuning)->0,
        ),
{
    match validate_handler_command(shown, candidates) {
        Ok(_) => plan_worker(redis_url, prefix, queue, command, tuning, mode),
        Err(failure) => Err(failure),
    }
}

/// Where both the handler command and the tuning are wrong, the complaint is about the command.
pub proof fn law_command_is_complained_of_first(
    shown: Option<Seq<char>>,
    candidates: Seq<Option<FileFacts>>,
    tuning: WorkerTuning,
)
    ensures
        command_complaint(shown, candidates) is Some ==> start_complaint(shown, candidates, tuning)
            == command_complaint(shown, candidates),
        command_complaint(shown, candidates) is None ==> start_complaint(shown, candidates, tuning)
            == tuning_complaint(tuning),
{
}

/// What a worker reports.
#[derive(Debug)]
pub enum WorkerEvent {
    Ready,
    Active { job_id: String },
    /// A job was completed; the result is JSON text.
    Completed { job_id: String, result: String },
    Failed { job_id: String, error: String },
    Error(String),
    /// There is no job to process.
    Drained,
    Closed,
    Paused,
    Resumed,
    Stalled,
    Progress,
}

/// What happened.
#[derive(Debug)]
pub enum LoopEvent {
    /// A job was fetched and asks to be processed.
    Claim,
    /// The worker reported something.
    Worker(WorkerEvent),
    /// The worker will report nothing more.
    StreamClosed,
    /// The time for which an empty queue is waited on is over.
    WaitElapsed,
    /// The tool was asked to stop.
    Shutdown,
}

/// How the tool ends once the worker is closed.
#[derive(Debug)]
pub enum Ending {
    Success,
    Failure(String),
}

/// What to do next.
#[derive(Debug)]
pub enum LoopAction {
    /// Wait for the next event.
    Continue,
    /// Start the clock: the wait for a job ends after this span.
    BeginWait(Duration),
    /// Fetch no more jobs, and let the job that asked go ahead.
    PauseAndAcknowledge,
    /// Close the worker and end.
    Close(Ending),
}

/// What to print, and what to do next.
#[derive(Debug)]
pub struct Reaction {
    pub output: Option<OutputLine>,
    pub action: LoopAction,
}

/// The state of a loop: whether it works for one job only and how long it waits for one, whether
/// it has claimed that job, and whether it is waiting since the queue was found empty.
pub struct LoopState {
    pub once: bool,
    pub patience: nat,
    pub claimed: bool,
    pub waiting_after_drain: bool,
}

impl LoopState {
    /// The state in which a worker starts.
    pub open spec fn start(mode: WorkerMode) -> LoopState {
        LoopState {
            once: mode is Once,
            patience: mode.patience(),
            claimed: false,
            waiting_after_drain: false,
        }
    }

    /// Whether a claim is heard: by a worker for one job that has none yet.
    pub open spec fn hears_claim(self) -> bool {
        self.once && !self.claimed
    }

    /// Whether the end of the wait is heard: while the wait is on and no job is claimed.
    pub open spec fn hears_timeout(self) -> bool {
        self.once && self.waiting_after_drain && !self.claimed
    }

    /// Whether `event` can happen now.
    pub open spec fn admits(self, event: LoopEvent) -> bool {
        match event {
            LoopEvent::Claim => self.hears_claim(),
            LoopEvent::WaitElapsed => self.hears_timeout(),
            _ => true,
        }
    }

    /// Whether the worker reports an empty queue while a job is still wanted.
    pub open spec fn finds_nothing(self, event: LoopEvent) -> bool {
        event == LoopEvent::Worker(WorkerEvent::Drained) && self.once && !self.claimed
    }

    /// Whether the wait for a job begins with `event`: when the queue is first found empty.
    pub open spec fn begins_wait(self, event: LoopEvent) -> bool {
        self.finds_nothing(event) && self.patience > 0 && !self.waiting_after_drain
    }

    /// The state after `event`.
    pub open spec fn after(self, event: LoopEvent) -> LoopState {
        LoopState {
            claimed: self.claimed || event is Claim,
            waiting_after_drain: self.waiting_after_drain || self.begins_wait(event),
            ..self
        }
    }

    /// How the tool ends because of `event`, in the words of its failure where it fails. `None`
    /// where it goes on.
    pub open spec fn ending(self, event: LoopEvent, queue: Seq<char>) -> Option<
        Result<(), Seq<char>>,
    > {
        match event {
            LoopEvent::Claim => None,
            LoopEvent::StreamClosed => Some(Err("worker event stream closed unexpectedly"@)),
            LoopEvent::WaitElapsed => Some(
                Err("timed out waiting for a job in queue '"@ + queue + "'"@),
            ),
            LoopEvent::Shutdown => Some(Ok(())),
            LoopEvent::Worker(report) => if !self.once {
                None
            } else {
                match report {
                    WorkerEvent::Completed { .. } => Some(Ok(())),
                    WorkerEvent::Failed { job_id, error } => Some(
                        Err("job "@ + job_id@ + " failed: "@ + error@),
                    ),
                    WorkerEvent::Error(error) => Some(Err("worker error: "@ + error@)),
                    WorkerEvent::Drained => if !self.claimed && self.patience == 0 {
                        Some(Err("no job available in queue '"@ + queue + "'"@))
                    } else {
                        None
                    },
                    _ => None,
                }
            },
        }
    }

    /// Whether the tool ends because of `event`.
    pub open spec fn ends(self, event: LoopEvent) -> bool {
        self.ending(event, Seq::empty()) is Some
    }
}

/// Whether `action` answers `event` in `state`.
pub open spec fn loop_action_for(
    action: LoopAction,
    state: LoopState,
    event: LoopEvent,
    queue: Seq<char>,
) -> bool {
    match state.ending(event, queue) {
        Some(Ok(_)) => action == LoopAction::Close(Ending::Success),
        Some(Err(words)) => action matches LoopAction::Close(Ending::Failure(message)) && message@
            == words,
        None => if event is Claim {
            action is PauseAndAcknowledge
        } else if state.begins_wait(event) {
            action is BeginWait && action->BeginWait_0@ == state.patience
        } else {
            action is Continue
        },
    }
}

/// Whether `output` is what is printed about `event`.
pub open spec fn loop_output_for(
    output: Option<OutputLine>,
    event: LoopEvent,
    as_json: bool,
    queue: Seq<char>,
) -> bool {
    match event {
        LoopEvent::Worker(WorkerEvent::Active { job_id }) => output is Some && event_line(
            output->0,
            as_json,
            queue,
            "active"@,
            Some(job_id@),
            None,
        ),
        LoopEvent::Worker(WorkerEvent::Completed { job_id, result }) => output is Some
            && event_line(
            output->0,
            as_json,
            queue,
            "completed"@,
            Some(job_id@),
            Some(Detail::Json(result)),
        ),
        LoopEvent::Worker(WorkerEvent::Failed { job_id, error }) => output is Some && event_line(
            output->0,
            as_json,
            queue,
            "failed"@,
            Some(job_id@),
            Some(Detail::Words(error)),
        ),
        LoopEvent::Worker(WorkerEvent::Error(error)) => output is Some && event_line(
            output->0,
            as_json,
            queue,
            "error"@,
            None,
            Some(Detail::Words(error)),
        ),
        LoopEvent::Shutdown => output is Some && event_line(
            output->0,
            as_json,
            queue,
            "shutting-down"@,
            None,
            None,
        ),
        _ => output is None,
    }
}

/// Whether the result that `event` brings, if any, goes on one line.
pub open spec fn brings_one_line(event: LoopEvent) -> bool {
    event matches LoopEvent::Worker(WorkerEvent::Completed { result, .. }) ==> on_one_line(result@)
}

/// The loop of a worker.
#[derive(Debug)]
pub struct WorkerLoop {
    mode: WorkerMode,
    claimed: bool,
    waiting_after_drain: bool,
}

impl View for WorkerLoop {
    type V = LoopState;

    closed spec fn view(&self) -> LoopState {
        LoopState {
            once: self.mode is Once,
            patience: self.mode.patience(),
            claimed: self.claimed,
            waiting_after_drain: self.waiting_after_drain,
        }
    }
}

impl WorkerLoop {
    /// A loop that has just started.
    pub fn new(mode: WorkerMode) -> (state: WorkerLoop)
        ensures
            state@ == LoopState::start(mode),
    {
        WorkerLoop { mode, claimed: false, waiting_after_drain: false }
    }

    /// Whether jobs have to ask before they are processed: where only one is wanted.
    pub fn uses_claim_gate(&self) -> (once: bool)
        ensures
            once == self@.once,
    {
        match self.mode {
            WorkerMode::Once { .. } => true,
            WorkerMode::Continuous { .. } => false,
        }
    }

    /// Whether a claim is heard.
    pub fn hears_claim(&self) -> (heard: bool)
        ensures
            heard == self@.hears_claim(),
    {
        self.uses_claim_gate() && !self.claimed
    }

    /// Whether the end of the wait is heard.
    pub fn hears_timeout(&self) -> (heard: bool)
        ensures
            heard == self@.hears_timeout(),
    {
        self.uses_claim_gate() && self.waiting_after_drain && !self.claimed
    }

    /// Answers to a report of the worker.
    fn hear_worker(&mut self, report: WorkerEvent, as_json: bool, queue: &str) -> (reaction:
        Reaction)
        ensures
            final(self)@ == old(self)@.after(LoopEvent::Worker(report)),
            loop_action_for(
                reaction.action,
                old(self)@,
                LoopEvent::Worker(report),
                queue@,
            ),
            loop_output_for(reaction.output, LoopEvent::Worker(report), as_json, queue@),
            as_json && brings_one_line(LoopEvent::Worker(report)) && reaction.output is Some
                ==> on_one_line(reaction.output->0->Stdout_0@),
    {
        let once = self.uses_claim_gate();
        match report {
            WorkerEvent::Active { job_id } => {
                let line = emit_worker_event(as_json, queue, "active", Some(job_id.as_str()), None);
                Reaction { output: Some(line), action: LoopAction::Continue }
            },
            WorkerEvent::Completed { job_id, result } => {
                let line = emit_worker_event(
                    as_json,
                    queue,
                    "completed",
                    Some(job_id.as_str()),
                    Some(Detail::Json(result)),
                );
                let action = if once {
                    LoopAction::Close(Ending::Success)
                } else {
                    LoopAction::Continue
                };
                Reaction { output: Some(line), action }
            },
            WorkerEvent::Failed { job_id, error } => {
                let action = if once {
                    let mut message = "job ".to_owned();
                    message.append(job_id.as_str());
                    message.append(" failed: ");
                    message.append(error.as_str());
                    LoopAction::Close(Ending::Failure(message))
                } else {
                    LoopAction::Continue
                };
                let line = emit_worker_event(
                    as_json,
                    queue,
                    "failed",
                    Some(job_id.as_str()),
                    Some(Detail::Words(error)),
                );
                Reaction { output: Some(line), action }
            },
            WorkerEvent::Error(error) => {
                let action = if once {
                    let mut message = "worker error: ".to_owned();
                    message.append(error.as_str());
                    LoopAction::Close(Ending::Failure(message))
                } else {
                    LoopAction::Continue
                };
                let line = emit_worker_event(
                    as_json,
                    queue,
                    "error",
                    None,
                    Some(Detail::Words(error)),
                );
                Reaction { output: Some(line), action }
            },
            WorkerEvent::Drained => {
                if once && !self.claimed {
                    let wait = self.mode.wait_duration();
                    if wait.is_zero() {
                        let message = name_queue("no job available in queue '", queue);
                        return Reaction {
                            output: None,
                            action: LoopAction::Close(Ending::Failure(message)),
                        };
                    }
                    if !self.waiting_after_drain {
                        self.waiting_after_drain = true;
                        return Reaction { output: None, action: LoopAction::BeginWait(wait) };
                    }
                }
                Reaction { output: None, action: LoopAction::Continue }
            },
            WorkerEvent::Ready
            | WorkerEvent::Closed
            | WorkerEvent::Paused
            | WorkerEvent::Resumed
            | WorkerEvent::Stalled
            | WorkerEvent::Progress => {
                Reaction { output: None, action: LoopAction::Continue }
            },
        }
    }

    /// Takes in what happened and says what to print and what to do next.
    pub fn step(&mut self, event: LoopEvent, as_json: bool, queue: &str) -> (reaction: Reaction)
        requires
            old(self)@.admits(event),
        ensures
            final(self)@ == old(self)@.after(event),
            loop_action_for(reaction.action, old(self)@, event, queue@),
            loop_output_for(reaction.output, event, as_json, queue@),
            as_json && brings_one_line(event) && reaction.output is Some ==> on_one_line(
                reaction.output->0->Stdout_0@,
            ),
    {
        match event {
            LoopEvent::Claim => {
                self.claimed = true;
                Reaction { output: None, action: LoopAction::PauseAndAcknowledge }
            },
            LoopEvent::Worker(report) => self.hear_worker(report, as_json, queue),
            LoopEvent::StreamClosed => Reaction {
                output: None,
                action: LoopAction::Close(
                    Ending::Failure("worker event stream closed unexpectedly".to_owned()),
                ),
            },
            LoopEvent::WaitElapsed => {
                let message = name_queue("timed out waiting for a job in queue '", queue);
                Reaction { output: None, action: LoopAction::Close(Ending::Failure(message)) }
            },
            LoopEvent::Shutdown => {
                let line = emit_worker_event(as_json, queue, "shutting-down", None, None);
                Reaction { output: Some(line), action: LoopAction::Close(Ending::Success) }
            },
        }
    }
}

/// The line that tells that the worker takes jobs now.
pub fn ready_line(as_json: bool, queue: &str) -> (line: OutputLine)
    ensures
        event_line(line, as_json, queue@, "ready"@, None, None),
        as_json ==> on_one_line(line->Stdout_0@),
{
    emit_worker_event(as_json, queue, "ready", None, None)
}

/// What follows the attempt to start a worker for the queue: the line that tells that it takes
/// jobs now, or the failure that `started` brought about.
pub fn announce_start(started: Result<(), String>, as_json: bool, queue: &str) -> (line: Result<
    OutputLine,
    Failure,
>)
    ensures
        match started {
            Ok(_) => {
                &&& line is Ok
                &&& event_line(line->Ok_0, as_json, queue@, "ready"@, None, None)
                &&& as_json ==> on_one_line(line->Ok_0->Stdout_0@)
            },
            Err(cause) => line is Err && line->Err_0.says_because(
                "failed to start worker for queue '"@ + queue@ + "'"@,
                cause@,
            ),
        },
{
    match started {
        Ok(_) => Ok(ready_line(as_json, queue)),
        Err(cause) => Err(unstarted_worker(queue, cause)),
    }
}

/// The milliseconds that active jobs get when the worker is closed.
pub fn close_timeout(timeout: Duration) -> (millis: Result<u64, Failure>)
    ensures
        millis is Ok <==> timeout.millis() <= u64::MAX,
        millis matches Ok(m) ==> m == timeout.millis(),
        millis matches Err(e) ==> e.says(too_large("shutdown timeout"@)),
{
    duration_millis(timeout, "shutdown timeout")
}

/// The complaint about jobs that did not finish in time.
pub open spec fn interrupted(jobs: nat) -> Seq<char> {
    "shutdown timeout interrupted "@ + decimal(jobs)
        + " active job(s); BullMQ will recover them as stalled"@
}

/// Whether `result` is the judgement on a worker that was closed as `closed` says: with so many
/// jobs still active, or with an error.
pub open spec fn close_result(result: Result<(), Failure>, closed: Result<usize, String>) -> bool {
    match closed {
        Ok(jobs) => if jobs > 0 {
            result is Err && result->Err_0.says(interrupted(jobs as nat))
        } else {
            result is Ok
        },
        Err(cause) => result is Err && result->Err_0.says_because(
            "failed to close worker"@,
            cause@,
        ),
    }
}

/// Judges how the worker was closed, by the jobs that are still active or by the error that came
/// instead.
pub fn close_worker(closed: Result<usize, String>) -> (result: Result<(), Failure>)
    ensures
        close_result(result, closed),
{
    match closed {
        Ok(jobs) => {
            if jobs > 0 {
                let mut message = "shutdown timeout interrupted ".to_owned();
                message.append(decimal_text(jobs as u64).as_str());
                message.append(" active job(s); BullMQ will recover them as stalled");
                Err(Failure::new(message))
            } else {
                Ok(())
            }
        },
        Err(cause) => Err(Failure::because("failed to close worker".to_owned(), cause)),
    }
}

/// Whether `result` is how the tool ends with `ending` after the worker was closed.
pub open spec fn conclusion(
    result: Result<(), Failure>,
    ending: Ending,
    closed: Result<(), Failure>,
) -> bool {
    match closed {
        Err(_) => result == closed,
        Ok(_) => match ending {
            Ending::Success => result is Ok,
            Ending::Failure(message) => result is Err && result->Err_0.says(message@),
        },
    }
}

/// How the tool ends: a worker that did not close well counts for more than why it was closed.
pub fn conclude(ending: Ending, closed: Result<(), Failure>) -> (result: Result<(), Failure>)
    ensures
        conclusion(result, ending, closed),
{
    match closed {
        Err(failure) => Err(failure),
        Ok(_) => match ending {
            Ending::Success => Ok(()),
            Ending::Failure(message) => Err(Failure::new(message)),
        },
    }
}

/// The tool fails where jobs were interrupted, however it meant to end.
pub proof fn law_interrupted_jobs_are_a_failure(
    jobs: usize,
    closed: Result<(), Failure>,
    ending: Ending,
    result: Result<(), Failure>,
)
    requires
        jobs > 0,
        close_result(closed, Ok(jobs)),
        conclusion(result, ending, closed),
    ensures
        result is Err,
        result->Err_0.says(interrupted(jobs as nat)),
{
}

/// Whether `result` is how the tool ends with `ending` where active jobs get `timeout` to finish.
/// The worker is closed, as `closed` says, only where that timeout fits in 64 bits of milliseconds;
/// otherwise the tool complains of the timeout and closes nothing.
pub open spec fn shut_down_result(
    result: Result<(), Failure>,
    ending: Ending,
    timeout: Duration,
    closed: Option<Result<usize, String>>,
) -> bool {
    if timeout.millis() > u64::MAX {
        result is Err && result->Err_0.says(too_large("shutdown timeout"@))
    } else {
        match closed->0 {
            Err(cause) => result is Err && result->Err_0.says_because(
                "failed to close worker"@,
                cause@,
            ),
            Ok(jobs) => if jobs > 0 {
                result is Err && result->Err_0.says(interrupted(jobs as nat))
            } else {
                conclusion(result, ending, Ok(()))
            },
        }
    }
}

/// How the tool ends. `closed` is how the worker was closed, which it was where `close_timeout`
/// found the timeout usable.
pub fn shut_down(
    ending: Ending,
    timeout: Duration,
    closed: Option<Result<usize, String>>,
) -> (result: Result<(), Failure>)
    requires
        closed is Some <==> timeout.millis() <= u64::MAX,
    ensures
        shut_down_result(result, ending, timeout, closed),
{
    match close_timeout(timeout) {
        Ok(_) => conclude(ending, close_worker(closed.unwrap())),
        Err(failure) => conclude(ending, Err(failure)),
    }
}

/// The state of a loop after `events`.
pub open spec fn loop_after(mode: WorkerMode, events: Seq<LoopEvent>) -> LoopState
    decreases events.len(),
{
    if events.len() == 0 {
        LoopState::start(mode)
    } else {
        loop_after(mode, events.drop_last()).after(events.last())
    }
}

/// Whether `events` can happen to a worker, one after the other: each can happen when it does,
/// and none happens after one that ends the tool.
pub open spec fn possible_loop(mode: WorkerMode, events: Seq<LoopEvent>) -> bool
    decreases events.len(),
{
    if events.len() == 0 {
        true
    } else {
        let past = events.drop_last();
        &&& possible_loop(mode, past)
        &&& loop_after(mode, past).admits(events.last())
        &&& past.len() > 0 ==> !loop_after(mode, past.drop_last()).ends(past.last())
    }
}

/// The mode of a worker never changes.
proof fn lemma_mode_stays(mode: WorkerMode, events: Seq<LoopEvent>)
    ensures
        loop_after(mode, events).once == (mode is Once),
        loop_after(mode, events).patience == mode.patience(),
    decreases events.len(),
{
    if events.len() > 0 {
        lemma_mode_stays(mode, events.drop_last());
    }
}

/// The state remembers whether there was a claim.
proof fn lemma_claim_is_remembered(mode: WorkerMode, events: Seq<LoopEvent>)
    ensures
        loop_after(mode, events).claimed <==> exists|i: int|
            0 <= i < events.len() && (#[trigger] events[i]) is Claim,
    decreases events.len(),
{
    if events.len() > 0 {
        let past = events.drop_last();
        lemma_claim_is_remembered(mode, past);
        if loop_after(mode, past).claimed {
            let i = choose|i: int| 0 <= i < past.len() && (#[trigger] past[i]) is Claim;
            assert(events[i] is Claim);
        }
        if events.last() is Claim {
            assert(events[events.len() - 1] is Claim);
        }
        if loop_after(mode, events).claimed == false {
            assert forall|i: int| 0 <= i < events.len() implies !((#[trigger] events[i]) is Claim) by {
                if i < past.len() {
                    assert(past[i] == events[i]);
                }
            }
        }
    }
}

/// Every beginning of a possible run is possible.
proof fn lemma_beginnings_are_possible(mode: WorkerMode, events: Seq<LoopEvent>, n: int)
    requires
        possible_loop(mode, events),
        0 <= n <= events.len(),
    ensures
        possible_loop(mode, events.take(n)),
    decreases events.len(),
{
    if n == events.len() {
        assert(events.take(n) =~= events);
    } else {
        let past = events.drop_last();
        lemma_beginnings_are_possible(mode, past, n);
        assert(past.take(n) =~= events.take(n));
    }
}

/// What holds at the time of one event of a possible run.
proof fn lemma_event_was_admitted(mode: WorkerMode, events: Seq<LoopEvent>, n: int)
    requires
        possible_loop(mode, events),
        0 <= n < events.len(),
    ensures
        loop_after(mode, events.take(n)).admits(events[n]),
        n < events.len() - 1 ==> !loop_after(mode, events.take(n)).ends(events[n]),
{
    lemma_beginnings_are_possible(mode, events, n + 1);
    assert(events.take(n + 1).drop_last() =~= events.take(n));
    assert(events.take(n + 1).last() == events[n]);
    if n < events.len() - 1 {
        lemma_beginnings_are_possible(mode, events, n + 2);
        assert(events.take(n + 2).drop_last() =~= events.take(n + 1));
    }
}

/// A worker for one job lets one job go ahead at most, and a continuous worker is never asked.
pub proof fn law_at_most_one_job_is_claimed(
    mode: WorkerMode,
    events: Seq<LoopEvent>,
    first: int,
    second: int,
)
    requires
        possible_loop(mode, events),
        0 <= first < events.len(),
        0 <= second < events.len(),
        events[first] is Claim,
        events[second] is Claim,
    ensures
        first == second,
        mode is Once,
{
    lemma_event_was_admitted(mode, events, first);
    lemma_event_was_admitted(mode, events, second);
    lemma_mode_stays(mode, events.take(first));
    if first < second {
        lemma_claim_is_remembered(mode, events.take(second));
        assert(events.take(second)[first] is Claim);
    }
    if second < first {
        lemma_claim_is_remembered(mode, events.take(first));
        assert(events.take(first)[second] is Claim);
    }
}

/// Once a job is claimed, the tool neither runs out of patience nor finds the queue empty: an
/// event after the claim that ends it is an outcome of the job, an error of the worker, the end
/// of its reports or the request to stop.
pub proof fn law_claimed_job_is_seen_through(
    mode: WorkerMode,
    events: Seq<LoopEvent>,
    claim: int,
    later: int,
)
    requires
        possible_loop(mode, events),
        0 <= claim < later < events.len(),
        events[claim] is Claim,
    ensures
        !(events[later] is WaitElapsed),
        loop_after(mode, events.take(later)).ends(events[later]) ==> {
            ||| events[later] matches LoopEvent::Worker(WorkerEvent::Completed { .. })
            ||| events[later] matches LoopEvent::Worker(WorkerEvent::Failed { .. })
            ||| events[later] matches LoopEvent::Worker(WorkerEvent::Error(_))
            ||| events[later] is StreamClosed
            ||| events[later] is Shutdown
        },
{
    lemma_event_was_admitted(mode, events, later);
    lemma_claim_is_remembered(mode, events.take(later));
    assert(events.take(later)[claim] is Claim);
}

/// The wait can only run out after it began, which it did when the queue was found empty, and
/// only where there is a wait.
pub proof fn law_timeout_follows_an_empty_queue(
    mode: WorkerMode,
    events: Seq<LoopEvent>,
    timeout: int,
)
    requires
        possible_loop(mode, events),
        0 <= timeout < events.len(),
        events[timeout] is WaitElapsed,
    ensures
        mode.patience() > 0,
        exists|i: int|
            0 <= i < timeout && loop_after(mode, events.take(i)).begins_wait(#[trigger] events[i]),
{
    lemma_event_was_admitted(mode, events, timeout);
    let past = events.take(timeout);
    lemma_waiting_began(mode, past);
    let i = choose|i: int|
        0 <= i < past.len() && loop_after(mode, past.take(i)).begins_wait(#[trigger] past[i]);
    assert(past.take(i) =~= events.take(i));
    assert(loop_after(mode, events.take(i)).begins_wait(events[i]));
}

/// Where the state says that the wait is on, it has begun.
proof fn lemma_waiting_began(mode: WorkerMode, events: Seq<LoopEvent>)
    requires
        loop_after(mode, events).waiting_after_drain,
    ensures
        mode.patience() > 0,
        exists|i: int|
            0 <= i < events.len() && loop_after(mode, events.take(i)).begins_wait(
                #[trigger] events[i],
            ),
    decreases events.len(),
{
    let past = events.drop_last();
    lemma_mode_stays(mode, past);
    if loop_after(mode, past).waiting_after_drain {
        lemma_waiting_began(mode, past);
        let i = choose|i: int|
            0 <= i < past.len() && loop_after(mode, past.take(i)).begins_wait(#[trigger] past[i]);
        assert(past.take(i) =~= events.take(i));
        assert(loop_after(mode, events.take(i)).begins_wait(events[i]));
    } else {
        assert(events.take(events.len() - 1) =~= past);
        assert(loop_after(mode, past).begins_wait(events[events.len() - 1]));
    }
}

/// A continuous worker stops on request or when its reports end, never because of a job.
pub proof fn law_continuous_worker_outlives_its_jobs(
    mode: WorkerMode,
    events: Seq<LoopEvent>,
    n: int,
)
    requires
        mode is Continuous,
        possible_loop(mode, events),
        0 <= n < events.len(),
    ensures
        loop_after(mode, events.take(n)).ends(events[n]) <==> events[n] is StreamClosed
            || events[n] is Shutdown,
{
    lemma_event_was_admitted(mode, events, n);
    lemma_mode_stays(mode, events.take(n));
}

/// The tool ends well only after the one job was completed or on request.
pub proof fn law_success_is_earned(state: LoopState, event: LoopEvent, queue: Seq<char>)
    requires
        state.ending(event, queue) == Some(Ok::<(), Seq<char>>(())),
    ensures
        event is Shutdown || (state.once && event matches LoopEvent::Worker(
            WorkerEvent::Completed { .. },
        )),
{
}

/// The first outcome of a job, or the first error, ends a worker for one job.
pub proof fn law_first_outcome_ends_a_single_job(mode: WorkerMode, events: Seq<LoopEvent>, n: int)
    requires
        mode is Once,
        possible_loop(mode, events),
        0 <= n < events.len(),
        ({
            ||| events[n] matches LoopEvent::Worker(WorkerEvent::Completed { .. })
            ||| events[n] matches LoopEvent::Worker(WorkerEvent::Failed { .. })
            ||| events[n] matches LoopEvent::Worker(WorkerEvent::Error(_))
        }),
    ensures
        n == events.len() - 1,
{
    lemma_event_was_admitted(mode, events, n);
    lemma_mode_stays(mode, events.take(n));
}

/// A worker for one job processes one at a time and waits as long as it was told; a continuous one
/// processes as many as it was told and does not wait.
pub proof fn law_mode_sets_the_pace(
    wait: Duration,
    concurrency: usize,
    jobs: (usize, usize),
    waits: (Duration, Duration),
)
    requires
        call_ensures(WorkerMode::concurrency, (&WorkerMode::Once { wait },), jobs.0),
        call_ensures(WorkerMode::concurrency, (&WorkerMode::Continuous { concurrency },), jobs.1),
        call_ensures(WorkerMode::wait_duration, (&WorkerMode::Once { wait },), waits.0),
        call_ensures(WorkerMode::wait_duration, (&WorkerMode::Continuous { concurrency },), waits.1),
    ensures
        jobs == (1usize, concurrency),
        waits.0@ == wait@,
        waits.1@ == 0,
{
}

/// Whether a job was claimed in the past.
pub open spec fn claimed_in(past: Seq<LoopEvent>) -> bool {
    exists|i: int| 0 <= i < past.len() && (#[trigger] past[i]) is Claim
}

/// Whether the queue was found empty in the past, before any job was claimed.
pub open spec fn found_empty_in(past: Seq<LoopEvent>) -> bool {
    exists|i: int|
        0 <= i < past.len() && #[trigger] past[i] == LoopEvent::Worker(WorkerEvent::Drained)
            && !claimed_in(past.take(i))
}

/// How long a worker waits for its one job.
pub open spec fn wait_of(mode: WorkerMode) -> nat {
    match mode {
        WorkerMode::Once { wait } => wait@,
        WorkerMode::Continuous { .. } => 0,
    }
}

/// A loop knows of its past whether a job was claimed and whether the queue was found empty before
/// that while there was time to wait, and nothing else.
pub proof fn law_loop_remembers_its_past(mode: WorkerMode, past: Seq<LoopEvent>)
    ensures
        loop_after(mode, past).once == (mode is Once),
        loop_after(mode, past).patience == wait_of(mode),
        loop_after(mode, past).claimed == claimed_in(past),
        loop_after(mode, past).waiting_after_drain == (mode is Once && wait_of(mode) > 0
            && found_empty_in(past)),
    decreases past.len(),
{
    lemma_mode_stays(mode, past);
    lemma_claim_is_remembered(mode, past);
    if past.len() > 0 {
        let before = past.drop_last();
        law_loop_remembers_its_past(mode, before);
        let n = past.len() - 1;
        assert(past.take(n) == before);
        if found_empty_in(before) {
            let i = choose|i: int|
                0 <= i < before.len() && #[trigger] before[i] == LoopEvent::Worker(
                    WorkerEvent::Drained,
                ) && !claimed_in(before.take(i));
            assert(before.take(i) == past.take(i));
            assert(past[i] == before[i]);
        }
        if past.last() == LoopEvent::Worker(WorkerEvent::Drained) && !claimed_in(before) {
            assert(past[n] == LoopEvent::Worker(WorkerEvent::Drained));
            assert(found_empty_in(past));
        }
        if found_empty_in(past) {
            let i = choose|i: int|
                0 <= i < past.len() && #[trigger] past[i] == LoopEvent::Worker(
                    WorkerEvent::Drained,
                ) && !claimed_in(past.take(i));
            if i < n {
                assert(before.take(i) == past.take(i));
                assert(before[i] == past[i]);
            }
        }
    }
}

/// A loop is where its past has brought it: one event further after each step.
pub proof fn law_loop_follows_its_past(
    mode: WorkerMode,
    fresh: WorkerLoop,
    state: &mut WorkerLoop,
    past: Seq<LoopEvent>,
    event: LoopEvent,
    as_json: bool,
    queue: &str,
    reaction: Reaction,
)
    requires
        call_ensures(WorkerLoop::new, (mode,), fresh),
        old(state)@ == loop_after(mode, past),
        call_ensures(WorkerLoop::step, (state, event, as_json, queue), reaction),
    ensures
        fresh@ == loop_after(mode, Seq::empty()),
        final(state)@ == loop_after(mode, past.push(event)),
{
    assert(past.push(event).drop_last() == past);
}

/// A loop listens for a claim exactly while it works for one job and has none, and for the end of
/// its wait while, moreover, the queue was found empty and there is time to wait. A step can be
/// taken with what it listens for, and at any time with anything else.
pub proof fn law_loop_listens_until_a_job_is_claimed(
    mode: WorkerMode,
    state: &mut WorkerLoop,
    past: Seq<LoopEvent>,
    event: LoopEvent,
    as_json: bool,
    queue: &str,
    gate: bool,
    claim: bool,
    timeout: bool,
)
    requires
        old(state)@ == loop_after(mode, past),
        call_ensures(WorkerLoop::uses_claim_gate, (old(state),), gate),
        call_ensures(WorkerLoop::hears_claim, (old(state),), claim),
        call_ensures(WorkerLoop::hears_timeout, (old(state),), timeout),
    ensures
        gate <==> mode is Once,
        claim <==> mode is Once && !claimed_in(past),
        timeout <==> mode is Once && !claimed_in(past) && wait_of(mode) > 0 && found_empty_in(past),
        !(event is Claim) && !(event is WaitElapsed) ==> call_requires(
            WorkerLoop::step,
            (state, event, as_json, queue),
        ),
        event is Claim && claim ==> call_requires(WorkerLoop::step, (state, event, as_json, queue)),
        event is WaitElapsed && timeout ==> call_requires(
            WorkerLoop::step,
            (state, event, as_json, queue),
        ),
{
    law_loop_remembers_its_past(mode, past);
}

/// A worker for one job ends as that job ends, whatever happened before: with success where the
/// job was completed, and otherwise with what is known of the failure.
pub proof fn law_tool_ends_as_its_job_ends(
    mode: WorkerMode,
    state: &mut WorkerLoop,
    past: Seq<LoopEvent>,
    event: LoopEvent,
    as_json: bool,
    queue: &str,
    reaction: Reaction,
)
    requires
        mode is Once,
        old(state)@ == loop_after(mode, past),
        call_ensures(WorkerLoop::step, (state, event, as_json, queue), reaction),
    ensures
        event matches LoopEvent::Worker(WorkerEvent::Completed { .. }) ==> reaction.action
            == LoopAction::Close(Ending::Success),
        event matches LoopEvent::Worker(WorkerEvent::Failed { job_id, error }) ==> closes_saying(
            reaction.action,
            "job "@ + job_id@ + " failed: "@ + error@,
        ),
        event matches LoopEvent::Worker(WorkerEvent::Error(error)) ==> closes_saying(
            reaction.action,
            "worker error: "@ + error@,
        ),
{
    law_loop_remembers_its_past(mode, past);
}

/// Whether `action` closes the worker and ends the tool with a failure in these words.
pub open spec fn closes_saying(action: LoopAction, words: Seq<char>) -> bool {
    action matches LoopAction::Close(Ending::Failure(message)) && message@ == words
}

/// A worker for one job that finds the queue empty before it has a job gives up where it was not
/// told to wait; otherwise it begins to wait, for as long as it was told, and begins only once.
/// With a job claimed an empty queue means nothing.
pub proof fn law_empty_queue_is_waited_on_once(
    mode: WorkerMode,
    state: &mut WorkerLoop,
    past: Seq<LoopEvent>,
    as_json: bool,
    queue: &str,
    reaction: Reaction,
)
    requires
        mode is Once,
        old(state)@ == loop_after(mode, past),
        call_ensures(
            WorkerLoop::step,
            (state, LoopEvent::Worker(WorkerEvent::Drained), as_json, queue),
            reaction,
        ),
    ensures
        !claimed_in(past) && wait_of(mode) == 0 ==> closes_saying(
            reaction.action,
            "no job available in queue '"@ + queue@ + "'"@,
        ),
        !claimed_in(past) && wait_of(mode) > 0 && !found_empty_in(past) ==> reaction.action
            is BeginWait && reaction.action->BeginWait_0@ == wait_of(mode),
        !claimed_in(past) && wait_of(mode) > 0 && found_empty_in(past) ==> reaction.action
            is Continue,
        claimed_in(past) ==> reaction.action is Continue,
        reaction.output is None,
{
    law_loop_remembers_its_past(mode, past);
}

/// A job that asks is let ahead while no more are fetched; a wait that is over ends the tool; so do
/// the end of the reports and the request to stop, which alone is no failure. All of that holds in
/// any mode and after any past.
pub proof fn law_other_events_have_one_answer(
    state: &mut WorkerLoop,
    event: LoopEvent,
    as_json: bool,
    queue: &str,
    reaction: Reaction,
)
    requires
        call_ensures(WorkerLoop::step, (state, event, as_json, queue), reaction),
    ensures
        event is Claim ==> reaction.action is PauseAndAcknowledge,
        event is WaitElapsed ==> closes_saying(
            reaction.action,
            "timed out waiting for a job in queue '"@ + queue@ + "'"@,
        ),
        event is StreamClosed ==> closes_saying(
            reaction.action,
            "worker event stream closed unexpectedly"@,
        ),
        event is Shutdown ==> reaction.action == LoopAction::Close(Ending::Success),
{
}

/// Nothing that a worker reports ends a continuous one or makes it wait, and the reports that are
/// neither about the end of a job nor about an error or an empty queue change nothing in any mode.
pub proof fn law_reports_that_change_nothing(
    mode: WorkerMode,
    state: &mut WorkerLoop,
    past: Seq<LoopEvent>,
    report: WorkerEvent,
    as_json: bool,
    queue: &str,
    reaction: Reaction,
)
    requires
        old(state)@ == loop_after(mode, past),
        call_ensures(
            WorkerLoop::step,
            (state, LoopEvent::Worker(report), as_json, queue),
            reaction,
        ),
    ensures
        mode is Continuous ==> reaction.action is Continue,
        report is Ready || report is Active || report is Closed || report is Paused || report
            is Resumed || report is Stalled || report is Progress ==> reaction.action is Continue,
{
    law_loop_remembers_its_past(mode, past);
}

/// The events that are told are those of jobs, of errors and of the request to stop, each by its
/// name: in JSON with the job and the detail that it has, otherwise in words. Nothing else is told.
pub proof fn law_events_are_told_by_name(
    state: &mut WorkerLoop,
    event: LoopEvent,
    as_json: bool,
    queue: &str,
    value: JsonValue,
    reaction: Reaction,
)
    requires
        call_ensures(WorkerLoop::step, (state, event, as_json, queue), reaction),
    ensures
        ({
            let line = reaction.output;
            match event {
                LoopEvent::Worker(WorkerEvent::Active { job_id }) => {
                    &&& as_json ==> tells_in_json(
                        line,
                        queue@,
                        "active"@,
                        JsonValue::Text(job_id@),
                        JsonValue::Null,
                    )
                    &&& !as_json ==> tells_in_words(
                        line,
                        "active"@ + ": job "@ + job_id@ + " on "@ + queue@,
                    )
                },
                LoopEvent::Worker(WorkerEvent::Completed { job_id, result }) => {
                    &&& as_json && result@ == json_text(value) ==> tells_in_json(
                        line,
                        queue@,
                        "completed"@,
                        JsonValue::Text(job_id@),
                        value,
                    )
                    &&& !as_json ==> tells_in_words(
                        line,
                        "completed"@ + ": job "@ + job_id@ + " on "@ + queue@,
                    )
                },
                LoopEvent::Worker(WorkerEvent::Failed { job_id, error }) => {
                    &&& as_json ==> tells_in_json(
                        line,
                        queue@,
                        "failed"@,
                        JsonValue::Text(job_id@),
                        JsonValue::Text(error@),
                    )
                    &&& !as_json ==> tells_in_words(
                        line,
                        "failed"@ + ": job "@ + job_id@ + " on "@ + queue@,
                    )
                },
                LoopEvent::Worker(WorkerEvent::Error(error)) => {
                    &&& as_json ==> tells_in_json(
                        line,
                        queue@,
                        "error"@,
                        JsonValue::Null,
                        JsonValue::Text(error@),
                    )
                    &&& !as_json ==> tells_in_words(line, "error"@ + ": "@ + queue@)
                },
                LoopEvent::Shutdown => {
                    &&& as_json ==> tells_in_json(
                        line,
                        queue@,
                        "shutting-down"@,
                        JsonValue::Null,
                        JsonValue::Null,
                    )
                    &&& !as_json ==> tells_in_words(line, "shutting-down"@ + ": "@ + queue@)
                },
                _ => line is None,
            }
        }),
{
    match event {
        LoopEvent::Worker(WorkerEvent::Active { job_id }) => {
            lemma_event_line(
                reaction.output->0,
                as_json,
                queue@,
                "active"@,
                Some(job_id@),
                None,
                JsonValue::Null,
            );
        },
        LoopEvent::Worker(WorkerEvent::Completed { job_id, result }) => {
            lemma_event_line(
                reaction.output->0,
                as_json,
                queue@,
                "completed"@,
                Some(job_id@),
                Some(Detail::Json(result)),
                value,
            );
        },
        LoopEvent::Worker(WorkerEvent::Failed { job_id, error }) => {
            lemma_event_line(
                reaction.output->0,
                as_json,
                queue@,
                "failed"@,
                Some(job_id@),
                Some(Detail::Words(error)),
                JsonValue::Text(error@),
            );
        },
        LoopEvent::Worker(WorkerEvent::Error(error)) => {
            lemma_event_line(
                reaction.output->0,
                as_json,
                queue@,
                "error"@,
                None,
                Some(Detail::Words(error)),
                JsonValue::Text(error@),
            );
        },
        LoopEvent::Shutdown => {
            lemma_event_line(
                reaction.output->0,
                as_json,
                queue@,
                "shutting-down"@,
                None,
                None,
                JsonValue::Null,
            );
        },
        _ => {},
    }
}

/// A worker is set up with the settings of its tuning, for as many jobs at a time as its mode says,
/// and hands its jobs to the command with the limits of the tuning.
pub proof fn law_worker_is_planned_as_asked<A>(
    redis_url: &RedisUrl,
    prefix: &str,
    queue: &str,
    command: Vec<A>,
    tuning: &WorkerTuning,
    mode: WorkerMode,
    built: Result<WorkerOptions, Failure>,
    concurrency: usize,
    plan: Result<WorkerPlan<A>, Failure>,
)
    requires
        concurrency == (match mode {
            WorkerMode::Once { .. } => 1,
            WorkerMode::Continuous { concurrency } => concurrency,
        }),
        call_ensures(build_worker_options, (redis_url, prefix, concurrency, tuning), built),
        call_ensures(plan_worker::<A>, (redis_url, prefix, queue, command, tuning, mode), plan),
    ensures
        plan is Ok <==> built is Ok,
        plan is Err ==> plan->Err_0.message@ == built->Err_0.message@ && plan->Err_0.cause is None,
        plan matches Ok(p) ==> planned_as_asked(
            p,
            redis_url@,
            prefix@,
            queue@,
            command@,
            concurrency,
            tuning,
            mode,
        ),
{
    if plan is Ok {
        lemma_set_as_tuned(plan->Ok_0.options, redis_url@, prefix@, concurrency, tuning);
    }
}

/// Whether a plan is what was asked for.
pub open spec fn planned_as_asked<A>(
    plan: WorkerPlan<A>,
    url: Seq<char>,
    prefix: Seq<char>,
    queue: Seq<char>,
    command: Seq<A>,
    concurrency: usize,
    tuning: &WorkerTuning,
    mode: WorkerMode,
) -> bool {
    &&& set_as_tuned(plan.options, url, prefix, concurrency, tuning)
    &&& plan.handler.queue@ == queue
    &&& plan.handler.command@ == command
    &&& plan.handler.unrecoverable_exit_codes@ == tuning.unrecoverable_exit_code@
    &&& plan.handler.max_result_bytes == tuning.max_result_bytes
    &&& plan.state@ == loop_after(mode, Seq::empty())
}

/// A worker is started exactly where its command is accepted and its tuning is: as it is then
/// planned. What is wrong with the command is said first, whatever is wrong with the tuning.
pub proof fn law_command_is_checked_before_the_tuning<A>(
    shown: Option<&str>,
    candidates: &Vec<Option<FileFacts>>,
    redis_url: &RedisUrl,
    prefix: &str,
    queue: &str,
    command: Vec<A>,
    tuning: &WorkerTuning,
    mode: WorkerMode,
    concurrency: usize,
    checked: Result<(), Failure>,
    planned: Result<WorkerPlan<A>, Failure>,
    started: Result<WorkerPlan<A>, Failure>,
)
    requires
        concurrency == (match mode {
            WorkerMode::Once { .. } => 1,
            WorkerMode::Continuous { concurrency } => concurrency,
        }),
        call_ensures(validate_handler_command, (shown, candidates), checked),
        call_ensures(plan_worker::<A>, (redis_url, prefix, queue, command, tuning, mode), planned),
        call_ensures(
            start_worker::<A>,
            (shown, candidates, redis_url, prefix, queue, command, tuning, mode),
            started,
        ),
    ensures
        started is Ok <==> checked is Ok && planned is Ok,
        checked is Err ==> started is Err && started->Err_0.message@ == checked->Err_0.message@,
        checked is Ok && planned is Err ==> started is Err && started->Err_0.message@
            == planned->Err_0.message@,
        started is Err ==> started->Err_0.cause is None,
        started matches Ok(p) ==> planned_as_asked(
            p,
            redis_url@,
            prefix@,
            queue@,
            command@,
            concurrency,
            tuning,
            mode,
        ),
{
    if started is Ok {
        lemma_set_as_tuned(started->Ok_0.options, redis_url@, prefix@, concurrency, tuning);
    }
}

/// A worker that was started is announced as ready, on one line, and one that was not is complained
/// of with its queue and its cause, and not announced.
pub proof fn law_only_started_workers_are_ready(
    started: Result<(), String>,
    as_json: bool,
    queue: &str,
    line: Result<OutputLine, Failure>,
    ready: OutputLine,
)
    requires
        call_ensures(announce_start, (started, as_json, queue), line),
        call_ensures(ready_line, (as_json, queue), ready),
    ensures
        line is Ok <==> started is Ok,
        as_json ==> tells_in_json(
            Some(ready),
            queue@,
            "ready"@,
            JsonValue::Null,
            JsonValue::Null,
        ),
        !as_json ==> tells_in_words(Some(ready), "ready"@ + ": "@ + queue@),
        line is Ok && as_json ==> tells_in_json(
            Some(line->Ok_0),
            queue@,
            "ready"@,
            JsonValue::Null,
            JsonValue::Null,
        ),
        line is Ok && !as_json ==> tells_in_words(Some(line->Ok_0), "ready"@ + ": "@ + queue@),
        line is Err ==> {
            &&& line->Err_0.message@ == "failed to start worker for queue '"@ + queue@ + "'"@
            &&& line->Err_0.cause is Some
            &&& line->Err_0.cause->0@ == started->Err_0@
        },
{
    lemma_event_line(ready, as_json, queue@, "ready"@, None, None, JsonValue::Null);
    if line is Ok {
        lemma_event_line(line->Ok_0, as_json, queue@, "ready"@, None, None, JsonValue::Null);
    }
}

/// The tool ends with success exactly where it meant to, the timeout fits, and the worker closed
/// with no job left. Otherwise it says, in this order, what is wrong with the timeout, why the
/// worker did not close, how many jobs were interrupted, or what it meant to say.
pub proof fn law_tool_ends_well_only_with_all_jobs_done(
    ending: Ending,
    timeout: Duration,
    closed: Option<Result<usize, String>>,
    result: Result<(), Failure>,
)
    requires
        closed is Some <==> timeout@ < (u64::MAX + 1) * 1_000_000,
        call_ensures(shut_down, (ending, timeout, closed), result),
    ensures
        result is Ok <==> closed == Some(Ok::<usize, String>(0)) && ending is Success,
        closed is None ==> result is Err && result->Err_0.message@ == "shutdown timeout"@
            + " is too large"@ && result->Err_0.cause is None,
        closed is Some && closed->0 is Err ==> {
            &&& result is Err
            &&& result->Err_0.message@ == "failed to close worker"@
            &&& result->Err_0.cause is Some
            &&& result->Err_0.cause->0@ == closed->0->Err_0@
        },
        closed is Some && closed->0 is Ok && closed->0->Ok_0 > 0 ==> {
            &&& result is Err
            &&& result->Err_0.message@ == "shutdown timeout interrupted "@ + decimal(
                closed->0->Ok_0 as nat,
            ) + " active job(s); BullMQ will recover them as stalled"@
            &&& result->Err_0.cause is None
        },
        closed == Some(Ok::<usize, String>(0)) && ending is Failure ==> result is Err
            && result->Err_0.message@ == ending->Failure_0@ && result->Err_0.cause is None,
        call_requires(shut_down, (ending, timeout, closed)),
{
    assert(timeout.millis() <= u64::MAX <==> timeout@ < (u64::MAX + 1) * 1_000_000);
}

/// The steps of closing: the timeout in milliseconds, then how the worker closed, then the end.
pub proof fn law_steps_of_closing(
    timeout: Duration,
    millis: Result<u64, Failure>,
    closed: Result<usize, String>,
    judged: Result<(), Failure>,
    ending: Ending,
    result: Result<(), Failure>,
)
    requires
        call_ensures(close_timeout, (timeout,), millis),
        call_ensures(close_worker, (closed,), judged),
        call_ensures(conclude, (ending, judged), result),
    ensures
        millis is Ok <==> timeout@ < (u64::MAX + 1) * 1_000_000,
        millis matches Ok(m) ==> counts_millis(m as int, timeout),
        millis is Err ==> millis->Err_0.message@ == "shutdown timeout"@ + " is too large"@,
        judged is Ok <==> closed == Ok::<usize, String>(0),
        closed is Err ==> judged->Err_0.message@ == "failed to close worker"@
            && judged->Err_0.cause is Some && judged->Err_0.cause->0@ == closed->Err_0@,
        closed is Ok && closed->Ok_0 > 0 ==> judged->Err_0.message@
            == "shutdown timeout interrupted "@ + decimal(closed->Ok_0 as nat)
            + " active job(s); BullMQ will recover them as stalled"@,
        judged is Err ==> result == judged,
        judged is Ok ==> (result is Ok <==> ending is Success),
        judged is Ok && ending is Failure ==> result->Err_0.message@ == ending->Failure_0@
            && result->Err_0.cause is None,
{
}

/// Whether an event ends the tool, in this mode and after this past.
pub open spec fn ends_the_tool(mode: WorkerMode, past: Seq<LoopEvent>, event: LoopEvent) -> bool {
    ||| event is StreamClosed
    ||| event is Shutdown
    ||| event is WaitElapsed
    ||| mode is Once && {
        ||| event matches LoopEvent::Worker(WorkerEvent::Completed { .. })
        ||| event matches LoopEvent::Worker(WorkerEvent::Failed { .. })
        ||| event matches LoopEvent::Worker(WorkerEvent::Error(_))
        ||| event == LoopEvent::Worker(WorkerEvent::Drained) && wait_of(mode) == 0 && !claimed_in(
            past,
        )
    }
}

/// What may happen to a worker: at first anything that it listens for, and so on until something
/// ends the tool. The reports of the worker, their end and the request to stop are always heard.
pub proof fn law_what_may_happen_to_a_worker(
    mode: WorkerMode,
    past: Seq<LoopEvent>,
    event: LoopEvent,
)
    ensures
        possible_loop(mode, Seq::empty()),
        possible_loop(mode, past.push(event)) <==> {
            &&& possible_loop(mode, past)
            &&& past.len() > 0 ==> !ends_the_tool(mode, past.drop_last(), past.last())
            &&& event is Claim ==> mode is Once && !claimed_in(past)
            &&& event is WaitElapsed ==> mode is Once && !claimed_in(past) && wait_of(mode) > 0
                && found_empty_in(past)
        },
        loop_after(mode, past).ends(event) == ends_the_tool(mode, past, event),
{
    assert(past.push(event).drop_last() == past);
    assert(past.push(event).last() == event);
    law_loop_remembers_its_past(mode, past);
    if past.len() > 0 {
        law_loop_remembers_its_past(mode, past.drop_last());
    }
}

/// The tool is closed exactly by what ends it.
pub proof fn law_tool_is_closed_by_what_ends_it(
    mode: WorkerMode,
    state: &mut WorkerLoop,
    past: Seq<LoopEvent>,
    event: LoopEvent,
    as_json: bool,
    queue: &str,
    reaction: Reaction,
)
    requires
        old(state)@ == loop_after(mode, past),
        call_ensures(WorkerLoop::step, (state, event, as_json, queue), reaction),
    ensures
        reaction.action is Close <==> ends_the_tool(mode, past, event),
        reaction.action == LoopAction::Close(Ending::Success) <==> event is Shutdown || (mode
            is Once && event matches LoopEvent::Worker(WorkerEvent::Completed { .. })),
{
    law_loop_remembers_its_past(mode, past);
}

/// What is told in JSON is one line, as long as the result of a job is.
pub proof fn law_json_is_told_on_one_line(
    state: &mut WorkerLoop,
    event: LoopEvent,
    queue: &str,
    reaction: Reaction,
    i: int,
)
    requires
        call_ensures(WorkerLoop::step, (state, event, true, queue), reaction),
        event matches LoopEvent::Worker(WorkerEvent::Completed { result, .. }) ==> forall|k: int|
            0 <= k < result@.len() ==> #[trigger] result@[k] >= ' ',
        reaction.output is Some,
    ensures
        reaction.output->0 is Stdout,
        0 <= i < reaction.output->0->Stdout_0@.len() ==> reaction.output->0->Stdout_0@[i] >= ' ',
{
    assert(brings_one_line(event));
}

} // verus!
