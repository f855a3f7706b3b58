use kueueski::json::quote_json;
use kueueski::output::{
    emit_worker_event, frame_action, frame_added, frame_event, print_action, print_added,
    print_status, Detail, OutputLine, StateCount, Status,
};
use serde_json::Value;

fn object(fields: Vec<(&str, Value)>) -> Value {
    let mut object = serde_json::Map::new();
    for (name, value) in fields {
        object.insert(name.to_owned(), value);
    }
    Value::Object(object)
}

fn stdout(line: OutputLine) -> String {
    match line {
        OutputLine::Stdout(text) => text,
        OutputLine::Stderr(text) => panic!("went to standard error: {text}"),
    }
}

fn stderr(line: OutputLine) -> String {
    match line {
        OutputLine::Stderr(text) => text,
        OutputLine::Stdout(text) => panic!("went to standard output: {text}"),
    }
}

#[test]
fn tells_events_in_json() {
    let line = stdout(emit_worker_event(
        true,
        "emails",
        "completed",
        Some("7"),
        Some(Detail::Json("{\"received\":{\"answer\":42}}".to_owned())),
    ));
    assert_eq!(
        line,
        "{\"detail\":{\"received\":{\"answer\":42}},\"event\":\"completed\",\"id\":\"7\",\
         \"queue\":\"emails\"}"
    );
    assert!(line.contains(r#""event":"completed""#));
    assert!(line.contains(r#""received":{"answer":42}"#));
}

#[test]
fn json_events_are_what_the_json_library_writes() {
    let names = ["q", "with \"quotes\"", "back\\slash", "tab\tnewline\nbell\u{7}", "\u{e9}\u{1f600}"];
    for name in names {
        for id in [None, Some("x\ny")] {
            let details: Vec<(Option<Detail>, Value)> = vec![
                (None, Value::Null),
                (Some(Detail::Words(name.to_owned())), Value::from(name)),
                (Some(Detail::Json("[1,2.5]".to_owned())), Value::from(vec![
                    Value::from(1),
                    Value::from(2.5),
                ])),
            ];
            for (detail, value) in details {
                let line = stdout(emit_worker_event(true, name, "failed", id, detail));
                let expected = object(vec![
                    ("event", Value::from("failed")),
                    ("queue", Value::from(name)),
                    ("id", id.map(Value::from).unwrap_or(Value::Null)),
                    ("detail", value),
                ]);
                assert_eq!(line, expected.to_string());
                assert_eq!(serde_json::from_str::<Value>(&line).unwrap(), expected);
                assert!(!line.contains('\n'));
            }
        }
    }
}

#[test]
fn frames_fields_that_are_json() {
    assert_eq!(
        frame_event("null", "\"ready\"", "null", "\"q\""),
        "{\"detail\":null,\"event\":\"ready\",\"id\":null,\"queue\":\"q\"}"
    );
    assert_eq!(frame_action("1", "2"), "{\"queue\":1,\"status\":2}");
    assert_eq!(
        frame_added("1", "2", "3"),
        "{\"id\":1,\"name\":2,\"queue\":3}"
    );
}

#[test]
fn tells_events_in_words() {
    assert_eq!(
        stderr(emit_worker_event(false, "emails", "active", Some("7"), None)),
        "active: job 7 on emails"
    );
    assert_eq!(
        stderr(emit_worker_event(
            false,
            "emails",
            "error",
            None,
            Some(Detail::Words("lost".to_owned()))
        )),
        "error: emails"
    );
}

#[test]
fn tells_what_was_done_to_a_queue() {
    assert_eq!(print_action(false, "emails", "paused"), "Queue emails paused");
    assert_eq!(
        print_action(true, "emails", "resumed"),
        "{\"queue\":\"emails\",\"status\":\"resumed\"}"
    );
    let line = print_action(true, "a\n\"b\"", "paused");
    let expected = object(vec![
        ("queue", Value::from("a\n\"b\"")),
        ("status", Value::from("paused")),
    ]);
    assert_eq!(line, expected.to_string());
}

#[test]
fn tells_which_job_was_added() {
    assert_eq!(
        print_added(false, "emails", "12", "send-email"),
        "Added job 12 (send-email) to emails"
    );
    let line = print_added(true, "emails", "12", "send\temail");
    let expected = object(vec![
        ("queue", Value::from("emails")),
        ("id", Value::from("12")),
        ("name", Value::from("send\temail")),
    ]);
    assert_eq!(line, expected.to_string());
}

fn count(state: &str, count: u64) -> StateCount {
    StateCount {
        state: state.to_owned(),
        count,
    }
}

fn status(counts: Vec<StateCount>) -> Status {
    Status {
        queue: "emails".to_owned(),
        paused: false,
        workers: 2,
        counts,
    }
}

#[test]
fn reports_the_state_of_a_queue() {
    let lines = print_status(&status(vec![
        count("waiting", 10),
        count("active", 0),
        count("waiting-children", 3),
        count("a-state-with-a-long-name", 18_446_744_073_709_551_615),
    ]));
    assert_eq!(
        lines,
        vec![
            "Queue:   emails",
            "Paused:  false",
            "Workers: 2",
            "Jobs:",
            "  a-state-with-a-long-name 18446744073709551615",
            "  active             0",
            "  waiting            10",
            "  waiting-children   3",
        ]
    );
    let name = "waiting";
    assert_eq!(lines[6], format!("  {name:<18} {}", 10));
}

#[test]
fn reports_an_empty_queue() {
    let mut status = status(Vec::new());
    status.paused = true;
    status.workers = 0;
    assert_eq!(
        print_status(&status),
        vec!["Queue:   emails", "Paused:  true", "Workers: 0", "Jobs:"]
    );
}

#[test]
fn report_does_not_depend_on_collection_order() {
    let first = print_status(&status(vec![count("b", 1), count("a", 2), count("\u{e9}", 3)]));
    let second = print_status(&status(vec![count("\u{e9}", 3), count("b", 1), count("a", 2)]));
    assert_eq!(first, second);
    assert_eq!(first[4], "  a                  2");
    assert_eq!(first[6], format!("  {:<18} 3", "\u{e9}"));
}

#[test]
fn quotes_texts_as_json_strings() {
    assert_eq!(quote_json(""), "\"\"");
    assert_eq!(quote_json("a\"b\\c/d"), "\"a\\\"b\\\\c/d\"");
    assert_eq!(quote_json("\u{8}\t\n\u{c}\r"), "\"\\b\\t\\n\\f\\r\"");
    assert_eq!(quote_json("\u{0}\u{b}\u{1f}"), "\"\\u0000\\u000b\\u001f\"");
    assert_eq!(quote_json("\u{7f}\u{e9}\u{1f600}"), "\"\u{7f}\u{e9}\u{1f600}\"");
}
