use kueueski::bounded::BoundedOutput;
use kueueski::command::{
    handler_lookup, is_executable_file, validate_handler_command, FileFacts, HandlerLookup,
};
use kueueski::handler::{
    handler_invocation, handler_payload, HandlerAction, HandlerEvent, HandlerPhase, HandlerRun,
    HandlerSpec, JobInfo,
};
use kueueski::process::ProcessGroupGuard;
use kueueski::result::{
    choose_result, handler_failure_reason, judge_run, parse_handler_result, result_from_text,
    ExitStatus, HandlerError, HandlerResult,
};

fn spec(words: &[&str], codes: Vec<i32>, limit: usize) -> HandlerSpec<String> {
    HandlerSpec {
        queue: "emails".to_owned(),
        command: words.iter().map(|word| word.to_string()).collect(),
        unrecoverable_exit_codes: codes,
        max_result_bytes: limit,
    }
}

fn job() -> JobInfo {
    JobInfo {
        id: "7".to_owned(),
        name: "calculate".to_owned(),
        attempts_made: 0,
        attempts_started: 12,
    }
}

fn file(mode: u32) -> Option<FileFacts> {
    Some(FileFacts {
        is_file: true,
        mode: Some(mode),
    })
}

fn output(bytes: &[u8], limit: usize) -> BoundedOutput {
    let mut output = BoundedOutput::new();
    output.accept(bytes, limit);
    output
}

fn exit(code: i32) -> ExitStatus {
    ExitStatus {
        success: code == 0,
        code: Some(code),
    }
}

fn text(result: HandlerResult) -> String {
    match result {
        HandlerResult::Null => "null!".to_owned(),
        HandlerResult::Json(text) => format!("json:{text}"),
        HandlerResult::Text(text) => format!("text:{text}"),
    }
}

fn reason(action: HandlerAction) -> String {
    match action {
        HandlerAction::Finish(Err(HandlerError::Processing(reason))) => reason,
        other => panic!("{other:?}"),
    }
}

#[test]
fn looks_for_bare_names_only() {
    assert_eq!(handler_lookup(0), HandlerLookup::SearchPath);
    assert_eq!(handler_lookup(1), HandlerLookup::SearchPath);
    assert_eq!(handler_lookup(2), HandlerLookup::Direct);
}

#[test]
fn knows_executable_files() {
    assert!(!is_executable_file(None));
    for mode in [0o755, 0o100, 0o010, 0o001, 0o100_711] {
        assert!(is_executable_file(file(mode)));
    }
    for mode in [0, 0o644, 0o666, 0o100_644, 0o7000] {
        assert!(!is_executable_file(file(mode)));
    }
    assert!(!is_executable_file(Some(FileFacts {
        is_file: false,
        mode: Some(0o755)
    })));
    assert!(is_executable_file(Some(FileFacts {
        is_file: true,
        mode: None
    })));
}

#[test]
fn validates_handler_commands() {
    let failure = validate_handler_command(None, &vec![file(0o755)]).unwrap_err();
    assert_eq!(failure.message, "handler command is empty");
    assert!(validate_handler_command(Some("sh"), &vec![None, file(0o644), file(0o755)]).is_ok());
    for candidates in [vec![], vec![None, file(0o644)]] {
        let failure = validate_handler_command(Some("nosuch"), &candidates).unwrap_err();
        assert_eq!(
            failure.message,
            "handler executable was not found or is not executable: nosuch"
        );
    }
}

#[test]
fn starts_the_command_with_its_environment() {
    let spec = spec(&["sh", "-c", "exit 9"], vec![], 4);
    let job = job();
    let invocation = handler_invocation(&spec, &job).unwrap();
    assert_eq!(invocation.executable, "sh");
    assert_eq!(invocation.arguments, ["-c".to_owned(), "exit 9".to_owned()]);
    let expected = [
        ("KUEUESKI_JOB_ID", "7"),
        ("KUEUESKI_JOB_NAME", "calculate"),
        ("KUEUESKI_QUEUE", "emails"),
        ("KUEUESKI_ATTEMPTS_MADE", "0"),
        ("KUEUESKI_ATTEMPTS_STARTED", "12"),
    ];
    let environment: Vec<(&str, &str)> = invocation
        .environment
        .iter()
        .map(|(name, value)| (name.as_str(), value.as_str()))
        .collect();
    assert_eq!(environment, expected);
}

#[test]
fn refuses_an_empty_command() {
    let spec = spec(&[], vec![], 4);
    match handler_invocation(&spec, &job()) {
        Err(HandlerError::InvalidConfig(message)) => {
            assert_eq!(message, "handler command is empty")
        }
        other => panic!("{other:?}"),
    }
}

#[test]
fn payload_is_one_line() {
    assert_eq!(handler_payload(b"{\"a\":1}".to_vec()), b"{\"a\":1}\n");
    assert_eq!(handler_payload(Vec::new()), b"\n");
}

#[test]
fn keeps_output_up_to_the_limit() {
    let mut output = BoundedOutput::new();
    output.accept(b"12", 4);
    output.accept(b"34", 4);
    assert!(!output.exceeded_limit);
    assert_eq!(output.bytes, b"1234");
    output.accept(b"", 4);
    assert!(!output.exceeded_limit);
    output.accept(b"5", 4);
    assert!(output.exceeded_limit);
    assert_eq!(output.bytes, b"1234");
}

#[test]
fn output_is_bounded_however_it_is_cut() {
    let all = b"abcdefghij";
    for limit in 0..12_usize {
        for cut in 1..11_usize {
            let mut output = BoundedOutput::new();
            for chunk in all.chunks(cut) {
                output.accept(chunk, limit);
            }
            assert_eq!(output.bytes, all[..limit.min(10)]);
            assert_eq!(output.exceeded_limit, limit < 10);
        }
    }
}

#[test]
fn guards_the_process_group() {
    let mut guard = ProcessGroupGuard::new(Some(4242));
    assert_eq!(guard.kill(), Some(-4242));
    assert_eq!(guard.kill(), Some(-4242));
    assert_eq!(guard.kill_remaining_and_disarm(), Some(-4242));
    assert_eq!(guard.kill(), None);
    assert_eq!(guard.kill_remaining_and_disarm(), None);
    assert_eq!(ProcessGroupGuard::new(None).kill(), None);
    assert_eq!(ProcessGroupGuard::new(Some(u32::MAX)).kill(), None);
    assert_eq!(ProcessGroupGuard::new(Some(1 << 31)).kill(), None);
    assert_eq!(
        ProcessGroupGuard::new(Some(i32::MAX as u32)).kill(),
        Some(-i32::MAX)
    );
}

#[test]
fn reads_the_value_of_a_job() {
    let value = |bytes: &[u8]| text(parse_handler_result(bytes));
    assert_eq!(value(b""), "null!");
    assert_eq!(value(b" \n\t"), "null!");
    assert_eq!(value(b"{\"ok\":true}\n"), "json:{\"ok\":true}");
    assert_eq!(value(b"  42 "), "json:42");
    assert_eq!(value(b"null"), "json:null");
    assert_eq!(value(b"hello world\n"), "text:hello world");
    assert_eq!(value(b"{\"open\":"), "text:{\"open\":");
    assert_eq!(value(b"a\xffb"), "text:a\u{fffd}b");
    assert_eq!(value("\"caf\u{e9}\"".as_bytes()), "json:\"caf\u{e9}\"");
}

#[test]
fn white_space_around_output_does_not_matter() {
    for inner in ["x y", "[1]", ""] {
        let expected = text(result_from_text(inner));
        for around in ["\n", " \t", "\u{3000}"] {
            let padded = format!("{around}{inner}{around}");
            assert_eq!(text(result_from_text(&padded)), expected);
        }
    }
}

#[test]
fn chooses_between_json_and_text() {
    assert_eq!(text(choose_result("", true)), "null!");
    assert_eq!(text(choose_result("x", true)), "json:x");
    assert_eq!(text(choose_result("x", false)), "text:x");
}

#[test]
fn describes_failures() {
    assert_eq!(
        handler_failure_reason(Some(9)),
        "handler failed with exit code 9"
    );
    assert_eq!(
        handler_failure_reason(Some(-1)),
        "handler failed with exit code -1"
    );
    assert_eq!(
        handler_failure_reason(None),
        "handler was terminated by signal"
    );
}

#[test]
fn configured_exit_codes_skip_retries() {
    match judge_run(exit(9), &output(b"", 4), 4, &vec![9]) {
        Err(HandlerError::Unrecoverable(reason)) => {
            assert_eq!(reason, "handler failed with exit code 9")
        }
        other => panic!("{other:?}"),
    }
}

#[test]
fn other_failures_are_retried() {
    let killed = ExitStatus {
        success: false,
        code: None,
    };
    for (status, words) in [
        (exit(9), "handler failed with exit code 9"),
        (killed, "handler was terminated by signal"),
    ] {
        match judge_run(status, &output(b"", 4), 4, &vec![8, 10]) {
            Err(HandlerError::Processing(reason)) => assert_eq!(reason, words),
            other => panic!("{other:?}"),
        }
    }
}

#[test]
fn handler_result_output_is_bounded() {
    for status in [exit(0), exit(9)] {
        match judge_run(status, &output(b"12345", 4), 4, &vec![9]) {
            Err(HandlerError::Processing(reason)) => {
                assert!(reason.contains("exceeded the 4 byte result limit"));
                assert_eq!(reason, "handler stdout exceeded the 4 byte result limit");
            }
            other => panic!("{other:?}"),
        }
    }
    assert_eq!(
        text(judge_run(exit(0), &output(b"1234", 4), 4, &vec![]).unwrap()),
        "json:1234"
    );
}

fn spawned() -> HandlerEvent {
    HandlerEvent::Spawned {
        child_id: Some(77),
        stdout: true,
        stdin: true,
    }
}

#[test]
fn runs_a_handler_to_its_end() {
    let spec = spec(&["true"], vec![], 16);
    let mut run = HandlerRun::new();
    assert_eq!(run.kill(), None);
    assert_eq!(run.phase(), HandlerPhase::Starting);
    assert!(matches!(run.step(spawned(), &spec), HandlerAction::Feed));
    assert_eq!(run.phase(), HandlerPhase::Feeding);
    assert_eq!(run.kill(), Some(-77));
    assert!(matches!(
        run.step(HandlerEvent::Fed, &spec),
        HandlerAction::Wait
    ));
    assert_eq!(run.phase(), HandlerPhase::Waiting);
    match run.step(HandlerEvent::Exited(exit(0)), &spec) {
        HandlerAction::KillThenCollect(address) => assert_eq!(address, Some(-77)),
        other => panic!("{other:?}"),
    }
    assert_eq!(run.phase(), HandlerPhase::Collecting);
    assert_eq!(run.kill(), None);
    match run.step(HandlerEvent::Stdout(output(b"{}\n", 16)), &spec) {
        HandlerAction::Finish(Ok(result)) => assert_eq!(text(result), "json:{}"),
        other => panic!("{other:?}"),
    }
    assert_eq!(run.phase(), HandlerPhase::Over);
    assert_eq!(run.kill(), None);
}

#[test]
fn cancelling_kills_the_handler() {
    let spec = spec(&["true"], vec![], 16);
    let mut run = HandlerRun::new();
    run.step(spawned(), &spec);
    run.step(HandlerEvent::Fed, &spec);
    match run.step(HandlerEvent::Cancelled, &spec) {
        HandlerAction::KillThenReap(address) => assert_eq!(address, Some(-77)),
        other => panic!("{other:?}"),
    }
    assert_eq!(run.phase(), HandlerPhase::Reaping);
    assert!(matches!(
        run.step(HandlerEvent::Reaped, &spec),
        HandlerAction::Finish(Err(HandlerError::WorkerClosed))
    ));
    assert_eq!(run.kill(), Some(-77));
}

#[test]
fn failures_on_the_way_leave_the_group_to_kill() {
    let spec = spec(&["true"], vec![], 16);

    let mut run = HandlerRun::new();
    let action = run.step(HandlerEvent::SpawnFailed("gone".to_owned()), &spec);
    assert_eq!(reason(action), "failed to start handler: gone");
    assert_eq!(run.kill(), None);

    let mut run = HandlerRun::new();
    let action = run.step(
        HandlerEvent::Spawned {
            child_id: Some(77),
            stdout: false,
            stdin: true,
        },
        &spec,
    );
    assert_eq!(reason(action), "failed to capture handler stdout");
    assert_eq!(run.kill(), Some(-77));

    let mut run = HandlerRun::new();
    run.step(spawned(), &spec);
    assert!(matches!(
        run.step(HandlerEvent::PayloadFailed, &spec),
        HandlerAction::Finish(Err(HandlerError::Payload))
    ));
    assert_eq!(run.kill(), Some(-77));

    let mut run = HandlerRun::new();
    run.step(spawned(), &spec);
    let event = HandlerEvent::FeedFailed {
        broken_pipe: false,
        error: "full".to_owned(),
    };
    assert_eq!(
        reason(run.step(event, &spec)),
        "failed to write job data to handler: full"
    );
    assert_eq!(run.kill(), Some(-77));

    let mut run = HandlerRun::new();
    run.step(spawned(), &spec);
    run.step(HandlerEvent::Fed, &spec);
    let action = run.step(HandlerEvent::WaitFailed("lost".to_owned()), &spec);
    assert_eq!(reason(action), "failed to wait for handler: lost");
    assert_eq!(run.kill(), Some(-77));
}

#[test]
fn a_handler_need_not_read_its_data() {
    let spec = spec(&["true"], vec![], 16);
    let mut run = HandlerRun::new();
    run.step(spawned(), &spec);
    let event = HandlerEvent::FeedFailed {
        broken_pipe: true,
        error: "broken".to_owned(),
    };
    assert!(matches!(run.step(event, &spec), HandlerAction::Wait));

    let mut run = HandlerRun::new();
    let event = HandlerEvent::Spawned {
        child_id: None,
        stdout: true,
        stdin: false,
    };
    assert!(matches!(run.step(event, &spec), HandlerAction::Wait));
    assert_eq!(run.phase(), HandlerPhase::Waiting);
}

#[test]
fn output_that_cannot_be_read_fails_the_job() {
    let spec = spec(&["true"], vec![0], 16);
    for (event, words) in [
        (
            HandlerEvent::ReaderFailed("panic".to_owned()),
            "stdout reader failed: panic",
        ),
        (
            HandlerEvent::StdoutFailed("io".to_owned()),
            "failed to read handler stdout: io",
        ),
    ] {
        let mut run = HandlerRun::new();
        run.step(spawned(), &spec);
        run.step(HandlerEvent::Fed, &spec);
        run.step(HandlerEvent::Exited(exit(0)), &spec);
        assert_eq!(reason(run.step(event, &spec)), words);
        assert_eq!(run.kill(), None);
    }
}

fn nested(levels: usize) -> serde_json::Value {
    let mut value = serde_json::Value::Null;
    for level in 0..levels {
        value = if level % 2 == 0 {
            serde_json::Value::Array(vec![value])
        } else {
            let mut members = serde_json::Map::new();
            members.insert("inner".to_owned(), value);
            serde_json::Value::Object(members)
        };
    }
    value
}

#[test]
fn printed_values_are_returned_as_they_are() {
    let mut members = serde_json::Map::new();
    members.insert("a \"quoted\"\nkey".to_owned(), serde_json::Value::from(-1));
    members.insert("list".to_owned(), serde_json::Value::from(vec![1, 2, 3]));
    let values = [
        serde_json::Value::Null,
        serde_json::Value::from(true),
        serde_json::Value::from(false),
        serde_json::Value::from(0),
        serde_json::Value::from(i64::MIN),
        serde_json::Value::from(u64::MAX),
        serde_json::Value::from(""),
        serde_json::Value::from(" \u{1f}\\ \u{2028}\u{e9} "),
        serde_json::Value::Array(Vec::new()),
        serde_json::Value::Object(serde_json::Map::new()),
        serde_json::Value::Object(members),
        nested(127),
    ];
    for value in values {
        let printed = value.to_string();
        for (before, after) in [("", ""), ("", "\n"), (" \t\r\n", "\n\n ")] {
            let mut output = BoundedOutput::new();
            output.accept(format!("{before}{printed}{after}").as_bytes(), 4_096);
            let exit = ExitStatus {
                success: true,
                code: Some(0),
            };
            match judge_run(exit, &output, 4_096, &vec![]) {
                Ok(HandlerResult::Json(text)) => {
                    assert_eq!(text, printed);
                    let read: serde_json::Value = serde_json::from_str(&text).unwrap();
                    assert_eq!(read, value);
                }
                other => panic!("{other:?}"),
            }
        }
    }
    match parse_handler_result(nested(128).to_string().as_bytes()) {
        HandlerResult::Text(text) => assert_eq!(text, nested(128).to_string()),
        other => panic!("{other:?}"),
    }
}
