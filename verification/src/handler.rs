//! Running the handler command for one job, step by step.
//!
//! `HandlerRun` decides; its caller starts processes, moves bytes and sends signals. The caller
//! tells what happened as a `HandlerEvent` and is told what to do next as a `HandlerAction`.

use crate::bounded::BoundedOutput;
use crate::process::{group_address, group_of, ProcessGroupGuard};
use crate::result::{judge_run, outcome_of, ExitStatus, HandlerError, HandlerResult};
use crate::text::{
    decimal, decimal_text, law_decimal_is_read_back, lemma_signed_decimal_characters,
    unsigned_value,
};
use vstd::prelude::*;
use vstd::slice::*;
use vstd::string::*;

verus! {

/// How the jobs of a queue are handled. `A` is a word of the command.
#[derive(Debug)]
pub struct HandlerSpec<A> {
    pub queue: String,
    pub command: Vec<A>,
    pub unrecoverable_exit_codes: Vec<i32>,
    pub max_result_bytes: usize,
}

/// What a handler is told about its job.
#[derive(Debug)]
pub struct JobInfo {
    pub id: String,
    pub name: String,
    pub attempts_made: u32,
    pub attempts_started: u32,
}

/// A process to start.
#[derive(Debug)]
pub struct Invocation<'a, A> {
    pub executable: &'a A,
    pub arguments: &'a [A],
    /// Names and values of environment variables.
    pub environment: Vec<(String, String)>,
}

/// The environment variables that tell a handler about its job.
pub open spec fn environment_of(queue: Seq<char>, job: JobInfo) -> Seq<(Seq<char>, Seq<char>)> {
    seq![
        ("KUEUESKI_JOB_ID"@, job.id@),
        ("KUEUESKI_JOB_NAME"@, job.name@),
        ("KUEUESKI_QUEUE"@, queue),
        ("KUEUESKI_ATTEMPTS_MADE"@, decimal(job.attempts_made as nat)),
        ("KUEUESKI_ATTEMPTS_STARTED"@, decimal(job.attempts_started as nat)),
    ]
}

/// The texts of names and values.
pub open spec fn variables_of(variables: Seq<(String, String)>) -> Seq<(Seq<char>, Seq<char>)> {
    variables.map_values(|v: (String, String)| (v.0@, v.1@))
}

/// Works out which process handles the job: the first word of the command is the executable, the
/// others are its arguments.
pub fn handler_invocation<'a, A>(
    spec: &'a HandlerSpec<A>,
    job: &JobInfo,
) -> (invocation: Result<Invocation<'a, A>, HandlerError>)
    ensures
        invocation is Ok <==> spec.command@.len() > 0,
        invocation matches Ok(i) ==> {
            &&& *i.executable == spec.command@[0]
            &&& i.arguments@ == spec.command@.skip(1)
            &&& variables_of(i.environment@) == environment_of(spec.queue@, *job)
        },
        invocation matches Err(e) ==> (e matches HandlerError::InvalidConfig(message) && message@
            == "handler command is empty"@),
{
    if spec.command.len() == 0 {
        return Err(HandlerError::InvalidConfig("handler command is empty".to_owned()));
    }
    let mut environment: Vec<(String, String)> = Vec::new();
    environment.push(("KUEUESKI_JOB_ID".to_owned(), job.id.clone()));
    environment.push(("KUEUESKI_JOB_NAME".to_owned(), job.name.clone()));
    environment.push(("KUEUESKI_QUEUE".to_owned(), spec.queue.clone()));
    environment.push(
        ("KUEUESKI_ATTEMPTS_MADE".to_owned(), decimal_text(job.attempts_made as u64)),
    );
    environment.push(
        ("KUEUESKI_ATTEMPTS_STARTED".to_owned(), decimal_text(job.attempts_started as u64)),
    );
    assert(variables_of(environment@) =~= environment_of(spec.queue@, *job));
    let arguments = slice_subrange(spec.command.as_slice(), 1, spec.command.len());
    assert(arguments@ =~= spec.command@.skip(1));
    Ok(Invocation { executable: &spec.command[0], arguments, environment })
}

/// What a handler reads on standard input: the data of its job on a line of its own.
pub fn handler_payload(data: Vec<u8>) -> (payload: Vec<u8>)
    ensures
        payload@ == data@.push(10u8),
{
    let mut payload = data;
    payload.push(10u8);
    payload
}

/// How far a run has come.
#[derive(Clone, Copy, Debug, PartialEq, Eq, Structural)]
pub enum HandlerPhase {
    /// The process is being started.
    Starting,
    /// The data of the job is being written to the process.
    Feeding,
    /// The process runs.
    Waiting,
    /// The process was killed and is about to end.
    Reaping,
    /// The process ended and the rest of its output is being read.
    Collecting,
    /// The outcome is known.
    Over,
}

/// What happened.
#[derive(Debug)]
pub enum HandlerEvent {
    /// The process could not be started.
    SpawnFailed(String),
    /// The process was started: its id, and which of its streams are at hand.
    Spawned { child_id: Option<u32>, stdout: bool, stdin: bool },
    /// The data of the job could not be written as JSON.
    PayloadFailed,
    /// The process took the data.
    Fed,
    /// The process did not take the data.
    FeedFailed { broken_pipe: bool, error: String },
    /// The process ended.
    Exited(ExitStatus),
    /// Waiting for the process failed.
    WaitFailed(String),
    /// The job was cancelled.
    Cancelled,
    /// The killed process ended.
    Reaped,
    /// The task that reads the output failed.
    ReaderFailed(String),
    /// Reading the output failed.
    StdoutFailed(String),
    /// The output was read to its end.
    Stdout(BoundedOutput),
}

/// What to do next.
#[derive(Debug)]
pub enum HandlerAction {
    /// Write the data of the job to the process.
    Feed,
    /// Wait until the process ends or the job is cancelled.
    Wait,
    /// Send the kill signal to this address, then wait for the process.
    KillThenReap(Option<i32>),
    /// Send the kill signal to this address, then wait for the output.
    KillThenCollect(Option<i32>),
    /// Report this outcome. Letting go of the run then sends the kill signal to the group that
    /// is still guarded.
    Finish(Result<HandlerResult, HandlerError>),
}

/// The state of a run: the process group that is guarded, how far the run has come, and how the
/// process ended.
pub struct RunState {
    pub group: Option<i32>,
    pub phase: HandlerPhase,
    pub exit: Option<ExitStatus>,
}

impl RunState {
    /// Before the process is started.
    pub open spec fn start() -> RunState {
        RunState { group: None, phase: HandlerPhase::Starting, exit: None }
    }

    /// Whether `event` can happen now.
    pub open spec fn admits(self, event: HandlerEvent) -> bool {
        match self.phase {
            HandlerPhase::Starting => event is SpawnFailed || event is Spawned,
            HandlerPhase::Feeding => event is PayloadFailed || event is Fed || event is FeedFailed,
            HandlerPhase::Waiting => event is Exited || event is WaitFailed || event is Cancelled,
            HandlerPhase::Reaping => event is Reaped,
            HandlerPhase::Collecting => event is ReaderFailed || event is StdoutFailed
                || event is Stdout,
            HandlerPhase::Over => false,
        }
    }

    /// The state after `event`.
    pub open spec fn after(self, event: HandlerEvent) -> RunState {
        match event {
            HandlerEvent::Spawned { child_id, stdout, stdin } => RunState {
                group: group_of(child_id),
                phase: if !stdout {
                    HandlerPhase::Over
                } else if stdin {
                    HandlerPhase::Feeding
                } else {
                    HandlerPhase::Waiting
                },
                exit: None,
            },
            HandlerEvent::Fed => RunState { phase: HandlerPhase::Waiting, ..self },
            HandlerEvent::FeedFailed { broken_pipe, .. } => RunState {
                phase: if broken_pipe {
                    HandlerPhase::Waiting
                } else {
                    HandlerPhase::Over
                },
                ..self
            },
            HandlerEvent::Exited(status) => RunState {
                group: None,
                phase: HandlerPhase::Collecting,
                exit: Some(status),
            },
            HandlerEvent::Cancelled => RunState { phase: HandlerPhase::Reaping, ..self },
            _ => RunState { phase: HandlerPhase::Over, ..self },
        }
    }

    /// The states of a run are consistent: there is an exit once the output is awaited, and no
    /// group is guarded any more then.
    pub open spec fn consistent(self) -> bool {
        &&& self.phase is Starting ==> self.group is None
        &&& self.phase is Collecting ==> self.exit is Some
        &&& self.exit is Some ==> self.group is None
        &&& self.exit is Some ==> self.phase is Collecting || self.phase is Over
    }
}

/// Whether `action` reports a failure that may be tried again, with these words.
pub open spec fn retries_saying(action: HandlerAction, words: Seq<char>) -> bool {
    action matches HandlerAction::Finish(Err(HandlerError::Processing(reason))) && reason@ == words
}

/// Whether `action` is the answer to `event` in `state`.
pub open spec fn action_for(
    action: HandlerAction,
    state: RunState,
    event: HandlerEvent,
    limit: usize,
    unrecoverable: Seq<i32>,
) -> bool {
    match event {
        HandlerEvent::SpawnFailed(error) => retries_saying(
            action,
            "failed to start handler: "@ + error@,
        ),
        HandlerEvent::Spawned { stdout, stdin, .. } => if !stdout {
            retries_saying(action, "failed to capture handler stdout"@)
        } else if stdin {
            action is Feed
        } else {
            action is Wait
        },
        HandlerEvent::PayloadFailed => action matches HandlerAction::Finish(
            Err(HandlerError::Payload),
        ),
        HandlerEvent::Fed => action is Wait,
        HandlerEvent::FeedFailed { broken_pipe, error } => if broken_pipe {
            action is Wait
        } else {
            retries_saying(action, "failed to write job data to handler: "@ + error@)
        },
        HandlerEvent::Exited(_) => action == HandlerAction::KillThenCollect(
            group_address(state.group),
        ),
        HandlerEvent::WaitFailed(error) => retries_saying(
            action,
            "failed to wait for handler: "@ + error@,
        ),
        HandlerEvent::Cancelled => action == HandlerAction::KillThenReap(
            group_address(state.group),
        ),
        HandlerEvent::Reaped => action matches HandlerAction::Finish(
            Err(HandlerError::WorkerClosed),
        ),
        HandlerEvent::ReaderFailed(error) => retries_saying(
            action,
            "stdout reader failed: "@ + error@,
        ),
        HandlerEvent::StdoutFailed(error) => retries_saying(
            action,
            "failed to read handler stdout: "@ + error@,
        ),
        HandlerEvent::Stdout(output) => action matches HandlerAction::Finish(outcome)
            && outcome_of(outcome, state.exit->0, output, limit, unrecoverable),
    }
}

/// Finishes with a failure that may be tried again.
fn fail(words: &str, error: &str) -> (action: HandlerAction)
    ensures
        retries_saying(action, words@ + error@),
{
    let mut reason = words.to_owned();
    reason.append(error);
    HandlerAction::Finish(Err(HandlerError::Processing(reason)))
}

/// The run of a handler for one job.
#[derive(Debug)]
pub struct HandlerRun {
    guard: ProcessGroupGuard,
    phase: HandlerPhase,
    exit: Option<ExitStatus>,
}

impl View for HandlerRun {
    type V = RunState;

    closed spec fn view(&self) -> RunState {
        RunState { group: self.guard@, phase: self.phase, exit: self.exit }
    }
}

impl HandlerRun {
    /// A run whose process is about to be started.
    pub fn new() -> (run: HandlerRun)
        ensures
            run@ == RunState::start(),
            run@.consistent(),
    {
        HandlerRun {
            guard: ProcessGroupGuard::new(None),
            phase: HandlerPhase::Starting,
            exit: None,
        }
    }

    /// Where the kill signal goes when the run is let go of.
    pub fn kill(&self) -> (address: Option<i32>)
        ensures
            address == group_address(self@.group),
    {
        self.guard.kill()
    }

    /// How far the run has come.
    pub fn phase(&self) -> (phase: HandlerPhase)
        ensures
            phase == self@.phase,
    {
        self.phase
    }

    /// Takes in what happened and says what to do next. `spec` says how many bytes are kept of
    /// the output and which exit codes rule out another try.
    pub fn step<A>(&mut self, event: HandlerEvent, spec: &HandlerSpec<A>) -> (action: HandlerAction)
        requires
            old(self)@.consistent(),
            old(self)@.admits(event),
        ensures
            final(self)@ == old(self)@.after(event),
            final(self)@.consistent(),
            action_for(
                action,
                old(self)@,
                event,
                spec.max_result_bytes,
                spec.unrecoverable_exit_codes@,
            ),
            action is Finish <==> final(self)@.phase is Over,
    {
        match event {
            HandlerEvent::SpawnFailed(error) => {
                self.phase = HandlerPhase::Over;
                fail("failed to start handler: ", error.as_str())
            },
            HandlerEvent::Spawned { child_id, stdout, stdin } => {
                self.guard = ProcessGroupGuard::new(child_id);
                if !stdout {
                    self.phase = HandlerPhase::Over;
                    HandlerAction::Finish(
                        Err(
                            HandlerError::Processing("failed to capture handler stdout".to_owned()),
                        ),
                    )
                } else if stdin {
                    self.phase = HandlerPhase::Feeding;
                    HandlerAction::Feed
                } else {
                    self.phase = HandlerPhase::Waiting;
                    HandlerAction::Wait
                }
            },
            HandlerEvent::PayloadFailed => {
                self.phase = HandlerPhase::Over;
                HandlerAction::Finish(Err(HandlerError::Payload))
            },
            HandlerEvent::Fed => {
                self.phase = HandlerPhase::Waiting;
                HandlerAction::Wait
            },
            HandlerEvent::FeedFailed { broken_pipe, error } => {
                if broken_pipe {
                    self.phase = HandlerPhase::Waiting;
                    HandlerAction::Wait
                } else {
                    self.phase = HandlerPhase::Over;
                    fail("failed to write job data to handler: ", error.as_str())
                }
            },
            HandlerEvent::Exited(status) => {
                self.exit = Some(status);
                self.phase = HandlerPhase::Collecting;
                HandlerAction::KillThenCollect(self.guard.kill_remaining_and_disarm())
            },
            HandlerEvent::WaitFailed(error) => {
                self.phase = HandlerPhase::Over;
                fail("failed to wait for handler: ", error.as_str())
            },
            HandlerEvent::Cancelled => {
                self.phase = HandlerPhase::Reaping;
                HandlerAction::KillThenReap(self.guard.kill())
            },
            HandlerEvent::Reaped => {
                self.phase = HandlerPhase::Over;
                HandlerAction::Finish(Err(HandlerError::WorkerClosed))
            },
            HandlerEvent::ReaderFailed(error) => {
                self.phase = HandlerPhase::Over;
                fail("stdout reader failed: ", error.as_str())
            },
            HandlerEvent::StdoutFailed(error) => {
                self.phase = HandlerPhase::Over;
                fail("failed to read handler stdout: ", error.as_str())
            },
            HandlerEvent::Stdout(output) => {
                self.phase = HandlerPhase::Over;
                let exit = self.exit.unwrap();
                HandlerAction::Finish(
                    judge_run(
                        exit,
                        &output,
                        spec.max_result_bytes,
                        &spec.unrecoverable_exit_codes,
                    ),
                )
            },
        }
    }
}

/// The state after `events`.
pub open spec fn run_of(events: Seq<HandlerEvent>) -> RunState
    decreases events.len(),
{
    if events.len() == 0 {
        RunState::start()
    } else {
        run_of(events.drop_last()).after(events.last())
    }
}

/// Whether `events` can happen one after the other from the start.
pub open spec fn possible_run(events: Seq<HandlerEvent>) -> bool
    decreases events.len(),
{
    events.len() > 0 ==> possible_run(events.drop_last()) && run_of(events.drop_last()).admits(
        events.last(),
    )
}

/// Every state that a run can reach is consistent. In particular a group whose leader was seen
/// to end is never signalled again, also not when the run is let go of.
pub proof fn law_runs_stay_consistent(events: Seq<HandlerEvent>)
    requires
        possible_run(events),
    ensures
        run_of(events).consistent(),
    decreases events.len(),
{
    if events.len() > 0 {
        law_runs_stay_consistent(events.drop_last());
    }
}

/// How many events may still happen in a phase, at most.
spec fn events_left(phase: HandlerPhase) -> nat {
    match phase {
        HandlerPhase::Starting => 4,
        HandlerPhase::Feeding => 3,
        HandlerPhase::Waiting => 2,
        HandlerPhase::Reaping => 1,
        HandlerPhase::Collecting => 1,
        HandlerPhase::Over => 0,
    }
}

proof fn lemma_events_run_out(events: Seq<HandlerEvent>)
    requires
        possible_run(events),
    ensures
        events.len() + events_left(run_of(events).phase) <= 4,
    decreases events.len(),
{
    if events.len() > 0 {
        lemma_events_run_out(events.drop_last());
    }
}

/// A run is over after four events at the latest.
pub proof fn law_runs_end(events: Seq<HandlerEvent>)
    requires
        possible_run(events),
    ensures
        events.len() <= 4,
        events.len() == 4 ==> run_of(events).phase is Over,
{
    lemma_events_run_out(events);
}

/// From its start on, the process group of a handler stays guarded until the handler is seen to
/// end, and it is then told to die: whatever comes of the run, the group is signalled before the
/// run is let go of.
pub proof fn law_group_is_always_killed(
    events: Seq<HandlerEvent>,
    child_id: Option<u32>,
    stdout: bool,
    stdin: bool,
)
    requires
        possible_run(events),
        events.len() > 0,
        events[0] == (HandlerEvent::Spawned { child_id, stdout, stdin }),
    ensures
        run_of(events).group == group_of(child_id) || exists|i: int|
            1 <= i < events.len() && (#[trigger] events[i]) is Exited && run_of(
                events.take(i),
            ).group == group_of(child_id),
    decreases events.len(),
{
    let rest = events.drop_last();
    if events.len() == 1 {
        assert(rest =~= Seq::<HandlerEvent>::empty());
    } else {
        assert(rest[0] == events[0]);
        law_group_is_always_killed(rest, child_id, stdout, stdin);
        if run_of(rest).group == group_of(child_id) {
            if events.last() is Exited {
                assert(events.take(events.len() - 1) =~= rest);
                assert(events[events.len() - 1] is Exited);
            } else if events.last() is Spawned {
                lemma_started_once(rest);
            }
        } else {
            let i = choose|i: int|
                1 <= i < rest.len() && (#[trigger] rest[i]) is Exited && run_of(
                    rest.take(i),
                ).group == group_of(child_id);
            assert(events[i] is Exited);
            assert(rest.take(i) =~= events.take(i));
        }
    }
}

/// A run that has begun is past its start.
proof fn lemma_started_once(events: Seq<HandlerEvent>)
    requires
        possible_run(events),
        events.len() > 0,
    ensures
        !(run_of(events).phase is Starting),
{
}

/// Only a handler that was seen to end has its output judged, and it is judged by that end.
pub proof fn law_output_is_judged_by_the_exit(events: Seq<HandlerEvent>)
    requires
        possible_run(events),
        events.len() > 0,
        events.last() is Stdout,
    ensures
        events.len() >= 3,
        events[events.len() - 2] == HandlerEvent::Exited(run_of(events.drop_last()).exit->0),
{
    let past = events.drop_last();
    lemma_collecting_follows_the_exit(past);
    let before = past.drop_last();
    assert(possible_run(past));
    assert(run_of(before).admits(past.last()));
    assert(before.len() > 0);
}

/// The output is awaited right after the handler was seen to end.
proof fn lemma_collecting_follows_the_exit(events: Seq<HandlerEvent>)
    requires
        possible_run(events),
        run_of(events).phase is Collecting,
    ensures
        events.len() > 0,
        events.last() == HandlerEvent::Exited(run_of(events).exit->0),
{
    if events.len() == 0 {
        assert(run_of(events) == RunState::start());
    }
}

/// A command is split into its executable and its arguments, in their order, and one without words
/// is refused.
pub proof fn law_command_is_run_word_by_word<'a, A>(
    spec: &'a HandlerSpec<A>,
    job: &JobInfo,
    invocation: Result<Invocation<'a, A>, HandlerError>,
)
    requires
        call_ensures(handler_invocation::<A>, (spec, job), invocation),
    ensures
        invocation is Ok <==> spec.command@.len() > 0,
        invocation matches Ok(i) ==> seq![*i.executable] + i.arguments@ == spec.command@,
        invocation is Err ==> (invocation->Err_0 matches HandlerError::InvalidConfig(words)
            && words@ == "handler command is empty"@),
{
}

/// Whether the environment holds a variable with this value.
pub open spec fn tells(
    environment: Seq<(String, String)>,
    name: Seq<char>,
    value: Seq<char>,
) -> bool {
    exists|k: int|
        0 <= k < environment.len() && (#[trigger] environment[k]).0@ == name && environment[k].1@
            == value
}

/// A handler is told its job by five variables: the id, the name and the queue as they are, and the
/// two numbers of attempts as numerals that read back as those numbers.
pub proof fn law_handler_is_told_its_job<'a, A>(
    spec: &'a HandlerSpec<A>,
    job: &JobInfo,
    invocation: Invocation<'a, A>,
) -> (numerals: (Seq<char>, Seq<char>))
    requires
        call_ensures(
            handler_invocation::<A>,
            (spec, job),
            Ok::<Invocation<'a, A>, HandlerError>(invocation),
        ),
    ensures
        invocation.environment@.len() == 5,
        tells(invocation.environment@, "KUEUESKI_JOB_ID"@, job.id@),
        tells(invocation.environment@, "KUEUESKI_JOB_NAME"@, job.name@),
        tells(invocation.environment@, "KUEUESKI_QUEUE"@, spec.queue@),
        tells(invocation.environment@, "KUEUESKI_ATTEMPTS_MADE"@, numerals.0),
        tells(invocation.environment@, "KUEUESKI_ATTEMPTS_STARTED"@, numerals.1),
        unsigned_value(numerals.0) == Some(job.attempts_made as nat),
        unsigned_value(numerals.1) == Some(job.attempts_started as nat),
        '0' <= numerals.0[0] <= '9',
        '0' <= numerals.1[0] <= '9',
{
    let environment = invocation.environment@;
    let told = variables_of(environment);
    assert(told.len() == environment.len());
    assert(told[0] == (environment[0].0@, environment[0].1@));
    assert(told[1] == (environment[1].0@, environment[1].1@));
    assert(told[2] == (environment[2].0@, environment[2].1@));
    assert(told[3] == (environment[3].0@, environment[3].1@));
    assert(told[4] == (environment[4].0@, environment[4].1@));
    law_decimal_is_read_back(job.attempts_made as nat);
    law_decimal_is_read_back(job.attempts_started as nat);
    lemma_signed_decimal_characters(job.attempts_made as int);
    lemma_signed_decimal_characters(job.attempts_started as int);
    let made = decimal(job.attempts_made as nat);
    let started = decimal(job.attempts_started as nat);
    assert('0' <= made[0] <= '9' && '0' <= started[0] <= '9');
    (made, started)
}

/// Whether two environments hold the same variables with the same values.
pub open spec fn same_environment(a: Seq<(String, String)>, b: Seq<(String, String)>) -> bool {
    forall|name: Seq<char>, value: Seq<char>| #[trigger] tells(a, name, value) == tells(b, name, value)
}

/// What a handler is told determines its job: jobs with the same environment are on the same queue
/// and have the same id, the same name and the same numbers of attempts.
pub proof fn law_environment_determines_the_job<'a, A>(
    first: &'a HandlerSpec<A>,
    second: &'a HandlerSpec<A>,
    one: &JobInfo,
    other: &JobInfo,
    a: Invocation<'a, A>,
    b: Invocation<'a, A>,
)
    requires
        call_ensures(
            handler_invocation::<A>,
            (first, one),
            Ok::<Invocation<'a, A>, HandlerError>(a),
        ),
        call_ensures(
            handler_invocation::<A>,
            (second, other),
            Ok::<Invocation<'a, A>, HandlerError>(b),
        ),
        same_environment(a.environment@, b.environment@),
    ensures
        first.queue@ == second.queue@,
        one.id@ == other.id@,
        one.name@ == other.name@,
        one.attempts_made == other.attempts_made,
        one.attempts_started == other.attempts_started,
{
    let m = law_handler_is_told_its_job(first, one, a);
    let n = law_handler_is_told_its_job(second, other, b);
    lemma_variables_have_one_value(second, other, b);
    assert(tells(b.environment@, "KUEUESKI_JOB_ID"@, one.id@));
    assert(tells(b.environment@, "KUEUESKI_JOB_NAME"@, one.name@));
    assert(tells(b.environment@, "KUEUESKI_QUEUE"@, first.queue@));
    assert(tells(b.environment@, "KUEUESKI_ATTEMPTS_MADE"@, m.0));
    assert(tells(b.environment@, "KUEUESKI_ATTEMPTS_STARTED"@, m.1));
}

/// No variable is set twice.
proof fn lemma_variables_have_one_value<'a, A>(
    spec: &'a HandlerSpec<A>,
    job: &JobInfo,
    invocation: Invocation<'a, A>,
)
    requires
        call_ensures(
            handler_invocation::<A>,
            (spec, job),
            Ok::<Invocation<'a, A>, HandlerError>(invocation),
        ),
    ensures
        forall|name: Seq<char>, a: Seq<char>, b: Seq<char>|
            #[trigger] tells(invocation.environment@, name, a) && #[trigger] tells(
                invocation.environment@,
                name,
                b,
            ) ==> a == b,
{
    let environment = invocation.environment@;
    let told = variables_of(environment);
    assert(told.len() == environment.len());
    assert(told[0] == (environment[0].0@, environment[0].1@));
    assert(told[1] == (environment[1].0@, environment[1].1@));
    assert(told[2] == (environment[2].0@, environment[2].1@));
    assert(told[3] == (environment[3].0@, environment[3].1@));
    assert(told[4] == (environment[4].0@, environment[4].1@));
    reveal_strlit("KUEUESKI_JOB_ID");
    reveal_strlit("KUEUESKI_JOB_NAME");
    reveal_strlit("KUEUESKI_QUEUE");
    reveal_strlit("KUEUESKI_ATTEMPTS_MADE");
    reveal_strlit("KUEUESKI_ATTEMPTS_STARTED");
    assert("KUEUESKI_JOB_ID"@.len() == 15);
    assert("KUEUESKI_JOB_NAME"@.len() == 17);
    assert("KUEUESKI_QUEUE"@.len() == 14);
    assert("KUEUESKI_ATTEMPTS_MADE"@.len() == 22);
    assert("KUEUESKI_ATTEMPTS_STARTED"@.len() == 25);
    assert forall|name: Seq<char>, a: Seq<char>, b: Seq<char>|
        #[trigger] tells(environment, name, a) && #[trigger] tells(environment, name, b) implies a
        == b by {
        let i = choose|k: int|
            0 <= k < environment.len() && (#[trigger] environment[k]).0@ == name
                && environment[k].1@ == a;
        let j = choose|k: int|
            0 <= k < environment.len() && (#[trigger] environment[k]).0@ == name
                && environment[k].1@ == b;
        assert(i == j);
    }
}

/// A handler reads the data of its job, whole and unchanged, and then the end of the line.
pub proof fn law_data_is_handed_on_as_a_line(data: Vec<u8>, payload: Vec<u8>)
    requires
        call_ensures(handler_payload, (data,), payload),
    ensures
        payload@.len() == data@.len() + 1,
        payload@.last() == '\n' as u8,
        payload@.drop_last() == data@,
{
}

/// A run is where its history has brought it: at the start before anything happened, and one event
/// further after each step.
pub proof fn law_run_follows_its_history<A>(
    fresh: HandlerRun,
    run: &mut HandlerRun,
    past: Seq<HandlerEvent>,
    event: HandlerEvent,
    spec: &HandlerSpec<A>,
    action: HandlerAction,
)
    requires
        call_ensures(HandlerRun::new, (), fresh),
        old(run)@ == run_of(past),
        call_ensures(HandlerRun::step::<A>, (run, event, spec), action),
    ensures
        fresh@ == run_of(Seq::empty()),
        final(run)@ == run_of(past.push(event)),
{
    assert(past.push(event).drop_last() == past);
}

/// Whether `event` may happen after `past`, which its last event decides.
pub open spec fn may_follow(past: Seq<HandlerEvent>, event: HandlerEvent) -> bool {
    let ends = event is Exited || event is WaitFailed || event is Cancelled;
    if past.len() == 0 {
        event is SpawnFailed || event is Spawned
    } else {
        match past.last() {
            HandlerEvent::Spawned { stdout, stdin, .. } => stdout && if stdin {
                event is PayloadFailed || event is Fed || event is FeedFailed
            } else {
                ends
            },
            HandlerEvent::Fed => ends,
            HandlerEvent::FeedFailed { broken_pipe, .. } => broken_pipe && ends,
            HandlerEvent::Exited(_) => event is ReaderFailed || event is StdoutFailed || event
                is Stdout,
            HandlerEvent::Cancelled => event is Reaped,
            _ => false,
        }
    }
}

/// What may happen in a run: the process starts, takes its data where it has standard input, which
/// may break off, then ends or is cancelled, and then its output is read or it is waited for. A
/// step can be taken with any event that may happen.
pub proof fn law_what_may_happen_in_a_run<A>(
    run: &mut HandlerRun,
    past: Seq<HandlerEvent>,
    event: HandlerEvent,
    spec: &HandlerSpec<A>,
    phase: HandlerPhase,
)
    requires
        possible_run(past),
        old(run)@ == run_of(past),
        call_ensures(HandlerRun::phase, (old(run),), phase),
    ensures
        possible_run(Seq::empty()),
        possible_run(past.push(event)) <==> may_follow(past, event),
        may_follow(past, event) ==> call_requires(HandlerRun::step::<A>, (run, event, spec)),
        past.len() == 0 ==> phase is Starting,
        phase is Over <==> forall|next: HandlerEvent| !#[trigger] may_follow(past, next),
{
    assert(past.push(event).drop_last() == past);
    law_runs_stay_consistent(past);
    lemma_phase_by_last_event(past);
    if phase is Over {
    } else {
        let failed = HandlerEvent::SpawnFailed(arbitrary());
        let reader = HandlerEvent::ReaderFailed(arbitrary());
        assert(may_follow(past, failed) || may_follow(past, HandlerEvent::Fed) || may_follow(
            past,
            HandlerEvent::Cancelled,
        ) || may_follow(past, HandlerEvent::Reaped) || may_follow(past, reader));
    }
}

proof fn lemma_phase_by_last_event(past: Seq<HandlerEvent>)
    requires
        possible_run(past),
    ensures
        forall|event: HandlerEvent|
            #[trigger] run_of(past).admits(event) <==> may_follow(past, event),
        run_of(past).phase is Starting <==> past.len() == 0,
{
    if past.len() > 0 {
        let before = past.drop_last();
        assert(run_of(before).admits(past.last()));
    }
}

/// The signals of a run go to the group of its process: the one on cancellation, the one after the
/// process was seen to end, and the one when the run is let go of, unless the process was seen to
/// end before.
pub proof fn law_signals_go_to_the_group_of_the_process<A>(
    run: &mut HandlerRun,
    past: Seq<HandlerEvent>,
    id: u32,
    event: HandlerEvent,
    spec: &HandlerSpec<A>,
    action: HandlerAction,
    address: Option<i32>,
)
    requires
        possible_run(past),
        past.len() > 0,
        past[0] matches HandlerEvent::Spawned { child_id: Some(child), .. } && child == id,
        id <= i32::MAX,
        old(run)@ == run_of(past),
        may_follow(past, event),
        call_ensures(HandlerRun::step::<A>, (run, event, spec), action),
        call_ensures(HandlerRun::kill, (old(run),), address),
    ensures
        event is Cancelled ==> action == HandlerAction::KillThenReap(Some((-(id as int)) as i32)),
        event is Exited ==> action == HandlerAction::KillThenCollect(Some((-(id as int)) as i32)),
        address is None <==> exists|i: int| 0 <= i < past.len() && (#[trigger] past[i]) is Exited,
        address is Some ==> address->0 + id == 0,
{
    lemma_group_by_history(past);
    lemma_phase_by_last_event(past);
    if event is Cancelled || event is Exited {
        if exists|i: int| 0 <= i < past.len() && (#[trigger] past[i]) is Exited {
            law_runs_stay_consistent(past);
            assert(run_of(past).exit is Some);
        }
    }
}

/// The group is the one of the process until the process was seen to end.
proof fn lemma_group_by_history(past: Seq<HandlerEvent>)
    requires
        possible_run(past),
        past.len() > 0,
        past[0] is Spawned,
    ensures
        (exists|i: int| 0 <= i < past.len() && (#[trigger] past[i]) is Exited) ==> run_of(past).group
            is None && run_of(past).exit is Some,
        !(exists|i: int| 0 <= i < past.len() && (#[trigger] past[i]) is Exited) ==> run_of(past).group
            == group_of(past[0]->child_id) && run_of(past).exit is None,
    decreases past.len(),
{
    let before = past.drop_last();
    if past.len() == 1 {
        assert(before == Seq::<HandlerEvent>::empty());
        assert(run_of(before) == RunState::start());
        assert(past.last() == past[0]);
    } else {
        assert(before[0] == past[0]);
        lemma_group_by_history(before);
        lemma_started_once(before);
        assert(run_of(before).admits(past.last()));
        if exists|i: int| 0 <= i < before.len() && (#[trigger] before[i]) is Exited {
            let i = choose|i: int| 0 <= i < before.len() && (#[trigger] before[i]) is Exited;
            assert(past[i] is Exited);
            law_runs_stay_consistent(before);
        } else if past.last() is Exited {
            assert(past[past.len() - 1] is Exited);
        } else {
            assert forall|i: int| 0 <= i < past.len() implies !((#[trigger] past[i]) is Exited) by {
                if i < before.len() {
                    assert(past[i] == before[i]);
                }
            }
        }
    }
}

/// Whether two outcomes are the same to whoever reads them.
pub open spec fn same_outcome(
    a: Result<HandlerResult, HandlerError>,
    b: Result<HandlerResult, HandlerError>,
) -> bool {
    match (a, b) {
        (Ok(HandlerResult::Null), Ok(HandlerResult::Null)) => true,
        (Ok(HandlerResult::Json(x)), Ok(HandlerResult::Json(y))) => x@ == y@,
        (Ok(HandlerResult::Text(x)), Ok(HandlerResult::Text(y))) => x@ == y@,
        (Err(HandlerError::InvalidConfig(x)), Err(HandlerError::InvalidConfig(y))) => x@ == y@,
        (Err(HandlerError::Processing(x)), Err(HandlerError::Processing(y))) => x@ == y@,
        (Err(HandlerError::Unrecoverable(x)), Err(HandlerError::Unrecoverable(y))) => x@ == y@,
        (Err(HandlerError::Payload), Err(HandlerError::Payload)) => true,
        (Err(HandlerError::WorkerClosed), Err(HandlerError::WorkerClosed)) => true,
        _ => false,
    }
}

/// A run whose output was read ends as its exit and its output are judged, whatever came before.
pub proof fn law_run_ends_as_it_is_judged<A>(
    run: &mut HandlerRun,
    past: Seq<HandlerEvent>,
    exit: ExitStatus,
    output: BoundedOutput,
    spec: &HandlerSpec<A>,
    action: HandlerAction,
    judged: Result<HandlerResult, HandlerError>,
)
    requires
        past.len() > 0,
        past.last() == HandlerEvent::Exited(exit),
        old(run)@ == run_of(past),
        call_ensures(HandlerRun::step::<A>, (run, HandlerEvent::Stdout(output), spec), action),
        call_ensures(
            judge_run,
            (exit, &output, spec.max_result_bytes, &spec.unrecoverable_exit_codes),
            judged,
        ),
    ensures
        action is Finish,
        same_outcome(action->Finish_0, judged),
{
}

/// Until then a run asks for its next move: to hand on the data where there is standard input, and
/// then to wait, also where the handler did not want the data.
pub proof fn law_run_moves_on<A>(
    run: &mut HandlerRun,
    event: HandlerEvent,
    spec: &HandlerSpec<A>,
    action: HandlerAction,
)
    requires
        call_ensures(HandlerRun::step::<A>, (run, event, spec), action),
    ensures
        event matches HandlerEvent::Spawned { stdout: true, stdin: true, .. } ==> action is Feed,
        event matches HandlerEvent::Spawned { stdout: true, stdin: false, .. } ==> action is Wait,
        event is Fed ==> action is Wait,
        event matches HandlerEvent::FeedFailed { broken_pipe: true, .. } ==> action is Wait,
        event is Exited ==> action is KillThenCollect,
        event is Cancelled ==> action is KillThenReap,
{
}

/// What goes wrong in a run ends it in words that keep the cause, so that the job may be tried
/// again. A job whose data cannot be written, and one whose worker is closed, end otherwise.
pub proof fn law_failed_runs_keep_their_cause<A>(
    run: &mut HandlerRun,
    event: HandlerEvent,
    spec: &HandlerSpec<A>,
    action: HandlerAction,
)
    requires
        call_ensures(HandlerRun::step::<A>, (run, event, spec), action),
    ensures
        event is SpawnFailed ==> ends_in_words(
            action,
            "failed to start handler: "@ + event->SpawnFailed_0@,
        ),
        event matches HandlerEvent::Spawned { stdout: false, .. } ==> ends_in_words(
            action,
            "failed to capture handler stdout"@,
        ),
        event matches HandlerEvent::FeedFailed { broken_pipe: false, .. } ==> ends_in_words(
            action,
            "failed to write job data to handler: "@ + event->error@,
        ),
        event is WaitFailed ==> ends_in_words(
            action,
            "failed to wait for handler: "@ + event->WaitFailed_0@,
        ),
        event is ReaderFailed ==> ends_in_words(
            action,
            "stdout reader failed: "@ + event->ReaderFailed_0@,
        ),
        event is StdoutFailed ==> ends_in_words(
            action,
            "failed to read handler stdout: "@ + event->StdoutFailed_0@,
        ),
        event is PayloadFailed ==> action == HandlerAction::Finish(Err(HandlerError::Payload)),
        event is Reaped ==> action == HandlerAction::Finish(Err(HandlerError::WorkerClosed)),
{
}

/// Whether `action` ends a run with a failure in these words that may be tried again.
pub open spec fn ends_in_words(action: HandlerAction, words: Seq<char>) -> bool {
    match action {
        HandlerAction::Finish(Err(HandlerError::Processing(reason))) => reason@ == words,
        _ => false,
    }
}

} // verus!
