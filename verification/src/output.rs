//! What the tool prints: the events of a worker, the state of a queue, and what was done.

use crate::json::{
    json_string, json_text, lemma_more_members, lemma_plain_text, lemma_two_members, members_text,
    on_one_line, quote_json, JsonValue,
};
use crate::text::{
    decimal, decimal_text, law_decimal_is_read_back, lemma_signed_decimal_characters,
    lemma_text_le_total, lemma_text_le_transitive, pad_right, padded, sorts_before, text_le, unsigned_value,
};
use vstd::prelude::*;
use vstd::string::*;

verus! {

/// A line and the stream it goes to.
#[derive(Debug)]
pub enum OutputLine {
    Stdout(String),
    Stderr(String),
}

/// More about an event.
#[derive(Debug)]
pub enum Detail {
    /// A message in words.
    Words(String),
    /// The text of a JSON document.
    Json(String),
}

/// A detail as JSON text.
pub open spec fn detail_json(detail: Option<Detail>) -> Seq<char> {
    match detail {
        Some(Detail::Words(words)) => json_string(words@),
        Some(Detail::Json(text)) => text@,
        None => "null"@,
    }
}

/// An optional text as JSON text.
pub open spec fn optional_json(text: Option<Seq<char>>) -> Seq<char> {
    match text {
        Some(t) => json_string(t),
        None => "null"@,
    }
}

/// The JSON object of an event whose fields are given as JSON text.
pub open spec fn event_fields(
    detail: Seq<char>,
    event: Seq<char>,
    id: Seq<char>,
    queue: Seq<char>,
) -> Seq<char> {
    "{\"detail\":"@ + detail + ",\"event\":"@ + event + ",\"id\":"@ + id + ",\"queue\":"@ + queue
        + "}"@
}

/// Puts the fields of an event, given as JSON text, into one object.
pub fn frame_event(detail: &str, event: &str, id: &str, queue: &str) -> (object: String)
    ensures
        object@ == event_fields(detail@, event@, id@, queue@),
        on_one_line(detail@) && on_one_line(event@) && on_one_line(id@) && on_one_line(queue@)
            ==> on_one_line(object@),
{
    proof {
        reveal_strlit("{\"detail\":");
        reveal_strlit(",\"event\":");
        reveal_strlit(",\"id\":");
        reveal_strlit(",\"queue\":");
        reveal_strlit("}");
    }
    let mut object = "{\"detail\":".to_owned();
    object.append(detail);
    object.append(",\"event\":");
    object.append(event);
    object.append(",\"id\":");
    object.append(id);
    object.append(",\"queue\":");
    object.append(queue);
    object.append("}");
    object
}

/// The JSON object that tells of an event.
pub open spec fn event_object(
    queue: Seq<char>,
    event: Seq<char>,
    job_id: Option<Seq<char>>,
    detail: Option<Detail>,
) -> Seq<char> {
    event_fields(
        detail_json(detail),
        json_string(event),
        optional_json(job_id),
        json_string(queue),
    )
}

/// The sentence that tells of an event.
pub open spec fn event_sentence(
    queue: Seq<char>,
    event: Seq<char>,
    job_id: Option<Seq<char>>,
) -> Seq<char> {
    match job_id {
        Some(id) => event + ": job "@ + id + " on "@ + queue,
        None => event + ": "@ + queue,
    }
}

/// Whether `line` tells of an event: as JSON on standard output, or in words on standard error.
pub open spec fn event_line(
    line: OutputLine,
    as_json: bool,
    queue: Seq<char>,
    event: Seq<char>,
    job_id: Option<Seq<char>>,
    detail: Option<Detail>,
) -> bool {
    if as_json {
        line is Stdout && line->Stdout_0@ == event_object(queue, event, job_id, detail)
    } else {
        line is Stderr && line->Stderr_0@ == event_sentence(queue, event, job_id)
    }
}

/// The characters of an optional text.
pub open spec fn optional_str(text: Option<&str>) -> Option<Seq<char>> {
    match text {
        Some(t) => Some(t@),
        None => None,
    }
}

/// An optional text as JSON text.
fn optional_json_text(text: Option<&str>) -> (json: String)
    ensures
        json@ == optional_json(optional_str(text)),
        on_one_line(json@),
{
    proof {
        reveal_strlit("null");
    }
    match text {
        Some(t) => quote_json(t),
        None => "null".to_owned(),
    }
}

/// A detail as JSON text.
fn detail_json_text(detail: &Option<Detail>) -> (json: String)
    ensures
        json@ == detail_json(*detail),
        (detail matches Some(Detail::Json(text)) ==> on_one_line(text@)) ==> on_one_line(json@),
{
    proof {
        reveal_strlit("null");
    }
    match detail {
        Some(Detail::Words(words)) => quote_json(words.as_str()),
        Some(Detail::Json(text)) => text.clone(),
        None => "null".to_owned(),
    }
}

/// The line that tells of an event. A detail is told in JSON only.
pub fn emit_worker_event(
    as_json: bool,
    queue: &str,
    event: &str,
    job_id: Option<&str>,
    detail: Option<Detail>,
) -> (line: OutputLine)
    ensures
        event_line(line, as_json, queue@, event@, optional_str(job_id), detail),
        as_json && (detail matches Some(Detail::Json(text)) ==> on_one_line(text@)) ==> on_one_line(
            line->Stdout_0@,
        ),
{
    if as_json {
        let detail = detail_json_text(&detail);
        let event = quote_json(event);
        let id = optional_json_text(job_id);
        let queue = quote_json(queue);
        let line = frame_event(detail.as_str(), event.as_str(), id.as_str(), queue.as_str());
        OutputLine::Stdout(line)
    } else {
        let mut line = event.to_owned();
        match job_id {
            Some(id) => {
                line.append(": job ");
                line.append(id);
                line.append(" on ");
                line.append(queue);
            },
            None => {
                line.append(": ");
                line.append(queue);
            },
        }
        OutputLine::Stderr(line)
    }
}

/// The JSON object of a change to a queue whose fields are given as JSON text.
pub open spec fn action_fields(queue: Seq<char>, status: Seq<char>) -> Seq<char> {
    "{\"queue\":"@ + queue + ",\"status\":"@ + status + "}"@
}

/// Puts the fields of a change to a queue, given as JSON text, into one object.
pub fn frame_action(queue: &str, status: &str) -> (object: String)
    ensures
        object@ == action_fields(queue@, status@),
        on_one_line(queue@) && on_one_line(status@) ==> on_one_line(object@),
{
    proof {
        reveal_strlit("{\"queue\":");
        reveal_strlit(",\"status\":");
        reveal_strlit("}");
    }
    let mut object = "{\"queue\":".to_owned();
    object.append(queue);
    object.append(",\"status\":");
    object.append(status);
    object.append("}");
    object
}

/// What is printed of a change to the queue `queue`.
pub open spec fn action_text(as_json: bool, queue: Seq<char>, action: Seq<char>) -> Seq<char> {
    if as_json {
        action_fields(json_string(queue), json_string(action))
    } else {
        "Queue "@ + queue + " "@ + action
    }
}

/// The line that tells that `action` was done to the queue.
pub fn print_action(as_json: bool, queue: &str, action: &str) -> (line: String)
    ensures
        line@ == action_text(as_json, queue@, action@),
        as_json ==> on_one_line(line@),
{
    if as_json {
        frame_action(quote_json(queue).as_str(), quote_json(action).as_str())
    } else {
        let mut line = "Queue ".to_owned();
        line.append(queue);
        line.append(" ");
        line.append(action);
        line
    }
}

/// The JSON object of a new job whose fields are given as JSON text.
pub open spec fn added_fields(id: Seq<char>, name: Seq<char>, queue: Seq<char>) -> Seq<char> {
    "{\"id\":"@ + id + ",\"name\":"@ + name + ",\"queue\":"@ + queue + "}"@
}

/// Puts the fields of a new job, given as JSON text, into one object.
pub fn frame_added(id: &str, name: &str, queue: &str) -> (object: String)
    ensures
        object@ == added_fields(id@, name@, queue@),
        on_one_line(id@) && on_one_line(name@) && on_one_line(queue@) ==> on_one_line(object@),
{
    proof {
        reveal_strlit("{\"id\":");
        reveal_strlit(",\"name\":");
        reveal_strlit(",\"queue\":");
        reveal_strlit("}");
    }
    let mut object = "{\"id\":".to_owned();
    object.append(id);
    object.append(",\"name\":");
    object.append(name);
    object.append(",\"queue\":");
    object.append(queue);
    object.append("}");
    object
}

/// What is printed of a job that was added.
pub open spec fn added_text(
    as_json: bool,
    queue: Seq<char>,
    id: Seq<char>,
    name: Seq<char>,
) -> Seq<char> {
    if as_json {
        added_fields(json_string(id), json_string(name), json_string(queue))
    } else {
        "Added job "@ + id + " ("@ + name + ") to "@ + queue
    }
}

/// The line that tells that a job was added to the queue.
pub fn print_added(as_json: bool, queue: &str, id: &str, name: &str) -> (line: String)
    ensures
        line@ == added_text(as_json, queue@, id@, name@),
        as_json ==> on_one_line(line@),
{
    if as_json {
        let id = quote_json(id);
        let name = quote_json(name);
        let queue = quote_json(queue);
        frame_added(id.as_str(), name.as_str(), queue.as_str())
    } else {
        let mut line = "Added job ".to_owned();
        line.append(id);
        line.append(" (");
        line.append(name);
        line.append(") to ");
        line.append(queue);
        line
    }
}

/// How many jobs are in a state.
#[derive(Debug)]
pub struct StateCount {
    pub state: String,
    pub count: u64,
}

impl View for StateCount {
    type V = (Seq<char>, u64);

    open spec fn view(&self) -> (Seq<char>, u64) {
        (self.state@, self.count)
    }
}

/// The state of a queue. Each job state is counted once, in no particular order.
#[derive(Debug)]
pub struct Status {
    pub queue: String,
    pub paused: bool,
    pub workers: usize,
    pub counts: Vec<StateCount>,
}

/// The counts by themselves.
pub open spec fn counts_of(counts: Seq<StateCount>) -> Seq<(Seq<char>, u64)> {
    counts.map_values(|c: StateCount| c@)
}

/// Whether the counts are in the order of their states.
pub open spec fn sorted_by_state(counts: Seq<(Seq<char>, u64)>) -> bool {
    forall|i: int, j: int|
        0 <= i <= j < counts.len() ==> text_le((#[trigger] counts[i]).0, (#[trigger] counts[j]).0)
}

/// Whether no state is counted twice.
pub open spec fn states_distinct(counts: Seq<(Seq<char>, u64)>) -> bool {
    forall|i: int, j: int|
        0 <= i < j < counts.len() ==> (#[trigger] counts[i]).0 != (#[trigger] counts[j]).0
}

/// The line for one count: the state in a column of eighteen, then the number.
pub open spec fn count_line(count: (Seq<char>, u64)) -> Seq<char> {
    "  "@ + padded(count.0, 18) + " "@ + decimal(count.1 as nat)
}

/// The lines for a queue whose counts come in the order `counts`.
pub open spec fn status_lines(
    queue: Seq<char>,
    paused: bool,
    workers: nat,
    counts: Seq<(Seq<char>, u64)>,
) -> Seq<Seq<char>> {
    seq![
        "Queue:   "@ + queue,
        "Paused:  "@ + if paused {
            "true"@
        } else {
            "false"@
        },
        "Workers: "@ + decimal(workers),
        "Jobs:"@,
    ] + counts.map_values(|c: (Seq<char>, u64)| count_line(c))
}

/// The position at which `state` goes into the sorted `counts`: behind all that sort before it.
fn place_for(counts: &Vec<StateCount>, state: &str) -> (place: usize)
    requires
        sorted_by_state(counts_of(counts@)),
    ensures
        place <= counts@.len(),
        forall|i: int| 0 <= i < place ==> text_le(#[trigger] counts_of(counts@)[i].0, state@),
        forall|i: int|
            place <= i < counts@.len() ==> text_le(state@, #[trigger] counts_of(counts@)[i].0),
{
    let mut place: usize = counts.len();
    while place > 0 && !sorts_before(counts[place - 1].state.as_str(), state)
        invariant
            place <= counts@.len(),
            forall|i: int|
                place <= i < counts@.len() ==> text_le(
                    state@,
                    #[trigger] counts_of(counts@)[i].0,
                ),
        decreases place,
    {
        proof {
            lemma_text_le_total(counts@[place - 1].state@, state@);
        }
        place = place - 1;
    }
    proof {
        let view = counts_of(counts@);
        assert forall|i: int| 0 <= i < place implies text_le(#[trigger] view[i].0, state@) by {
            assert(view[place - 1].0 == counts@[place - 1].state@);
            assert(text_le(view[i].0, view[place - 1].0));
            lemma_text_le_transitive(view[i].0, view[place - 1].0, state@);
        }
    }
    place
}

/// The counts in the order of their states.
fn sort_counts(counts: &Vec<StateCount>) -> (sorted: Vec<StateCount>)
    ensures
        sorted_by_state(counts_of(sorted@)),
        counts_of(sorted@).to_multiset() == counts_of(counts@).to_multiset(),
{
    let mut sorted: Vec<StateCount> = Vec::new();
    let mut i: usize = 0;
    assert(counts_of(sorted@) =~= counts_of(counts@).take(0));
    while i < counts.len()
        invariant
            i <= counts.len(),
            sorted_by_state(counts_of(sorted@)),
            counts_of(sorted@).to_multiset() == counts_of(counts@).take(i as int).to_multiset(),
        decreases counts.len() - i,
    {
        let item = StateCount { state: counts[i].state.clone(), count: counts[i].count };
        let place: usize = place_for(&sorted, item.state.as_str());
        let ghost before = counts_of(sorted@);
        let ghost pair = item@;
        sorted.insert(place, item);
        proof {
            let after = counts_of(sorted@);
            assert(after =~= before.insert(place as int, pair));
            vstd::seq_lib::to_multiset_insert(before, place as int, pair);
            let taken = counts_of(counts@).take(i as int);
            assert(counts_of(counts@).take(i + 1) =~= taken.push(pair));
            broadcast use vstd::seq_lib::group_to_multiset_ensures;
            assert forall|a: int, b: int| 0 <= a <= b < after.len() implies text_le(
                (#[trigger] after[a]).0,
                (#[trigger] after[b]).0,
            ) by {
                lemma_text_le_total(pair.0, pair.0);
                let old_a = if a < place { a } else { a - 1 };
                let old_b = if b < place { b } else { b - 1 };
                if a != place {
                    assert(after[a] == before[old_a]);
                }
                if b != place {
                    assert(after[b] == before[old_b]);
                }
            }
        }
        i = i + 1;
    }
    assert(counts_of(counts@).take(i as int) =~= counts_of(counts@));
    sorted
}

/// The texts of some lines.
pub open spec fn texts_of(lines: Seq<String>) -> Seq<Seq<char>> {
    lines.map_values(|line: String| line@)
}

/// Whether `lines` tell of `status`, with the counts in the order of their states.
pub open spec fn status_report(lines: Seq<Seq<char>>, status: Status) -> bool {
    exists|order: Seq<(Seq<char>, u64)>|
        {
            &&& order.to_multiset() == counts_of(status.counts@).to_multiset()
            &&& sorted_by_state(order)
            &&& lines == #[trigger] status_lines(
                status.queue@,
                status.paused,
                status.workers as nat,
                order,
            )
        }
}

/// The lines that tell of a queue.
pub fn print_status(status: &Status) -> (lines: Vec<String>)
    ensures
        status_report(texts_of(lines@), *status),
{
    let mut lines: Vec<String> = Vec::new();
    let mut line = "Queue:   ".to_owned();
    line.append(status.queue.as_str());
    lines.push(line);
    let mut line = "Paused:  ".to_owned();
    line.append(
        if status.paused {
            "true"
        } else {
            "false"
        },
    );
    lines.push(line);
    let mut line = "Workers: ".to_owned();
    line.append(decimal_text(status.workers as u64).as_str());
    lines.push(line);
    lines.push("Jobs:".to_owned());
    let counts = sort_counts(&status.counts);
    let ghost order = counts_of(counts@);
    let ghost head = status_lines(
        status.queue@,
        status.paused,
        status.workers as nat,
        Seq::empty(),
    );
    assert(texts_of(lines@) =~= head);
    let mut i: usize = 0;
    while i < counts.len()
        invariant
            i <= counts.len(),
            order == counts_of(counts@),
            head == status_lines(
                status.queue@,
                status.paused,
                status.workers as nat,
                Seq::empty(),
            ),
            texts_of(lines@) == status_lines(
                status.queue@,
                status.paused,
                status.workers as nat,
                order.take(i as int),
            ),
        decreases counts.len() - i,
    {
        let mut line = "  ".to_owned();
        line.append(pad_right(counts[i].state.as_str(), 18).as_str());
        line.append(" ");
        line.append(decimal_text(counts[i].count).as_str());
        assert(line@ == count_line(order[i as int]));
        let ghost before = texts_of(lines@);
        lines.push(line);
        proof {
            assert(texts_of(lines@) =~= before.push(line@));
            assert(order.take(i + 1) =~= order.take(i as int).push(order[i as int]));
            assert(texts_of(lines@) =~= status_lines(
                status.queue@,
                status.paused,
                status.workers as nat,
                order.take(i + 1),
            ));
        }
        i = i + 1;
    }
    assert(order.take(i as int) =~= order);
    lines
}

/// An order in which no two counts tie.
spec fn count_le(a: (Seq<char>, u64), b: (Seq<char>, u64)) -> bool {
    if a.0 == b.0 {
        a.1 <= b.1
    } else {
        text_le(a.0, b.0)
    }
}

proof fn lemma_count_le_total_ordering()
    ensures
        vstd::relations::total_ordering(|a: (Seq<char>, u64), b: (Seq<char>, u64)| count_le(a, b)),
{
    let leq = |a: (Seq<char>, u64), b: (Seq<char>, u64)| count_le(a, b);
    assert forall|a: (Seq<char>, u64), b: (Seq<char>, u64)|
        #[trigger] leq(a, b) && #[trigger] leq(b, a) implies a == b by {
        lemma_text_le_total(a.0, b.0);
    }
    assert forall|a: (Seq<char>, u64), b: (Seq<char>, u64)|
        #[trigger] leq(a, b) || #[trigger] leq(b, a) by {
        lemma_text_le_total(a.0, b.0);
    }
    assert forall|a: (Seq<char>, u64), b: (Seq<char>, u64), c: (Seq<char>, u64)|
        #[trigger] leq(a, b) && #[trigger] leq(b, c) implies leq(a, c) by {
        lemma_text_le_total(a.0, b.0);
        lemma_text_le_total(b.0, c.0);
        if text_le(a.0, b.0) && text_le(b.0, c.0) {
            lemma_text_le_transitive(a.0, b.0, c.0);
        }
    }
}

/// A reordering of counts with distinct states has distinct states.
proof fn lemma_reordered_states_distinct(a: Seq<(Seq<char>, u64)>, b: Seq<(Seq<char>, u64)>)
    requires
        a.to_multiset() == b.to_multiset(),
        states_distinct(a),
    ensures
        states_distinct(b),
{
    broadcast use vstd::seq_lib::group_to_multiset_ensures;

    assert(a.no_duplicates());
    a.lemma_multiset_has_no_duplicates();
    b.lemma_multiset_has_no_duplicates_conv();
    assert forall|i: int, j: int| 0 <= i < j < b.len() implies (#[trigger] b[i]).0 != (
    #[trigger] b[j]).0 by {
        assert(b.contains(b[i]) && b.contains(b[j]));
        assert(a.to_multiset().count(b[i]) > 0 && a.to_multiset().count(b[j]) > 0);
        assert(a.contains(b[i]) && a.contains(b[j]));
        let p = choose|p: int| 0 <= p < a.len() && a[p] == b[i];
        let q = choose|q: int| 0 <= q < a.len() && a[q] == b[j];
        assert(p != q);
        if p < q {
            assert(a[p].0 != a[q].0);
        } else {
            assert(a[q].0 != a[p].0);
        }
    }
}

/// The report on a queue does not depend on the order in which its counts were collected.
pub proof fn law_status_report_ignores_collection_order(
    first: Status,
    second: Status,
    first_lines: Seq<Seq<char>>,
    second_lines: Seq<Seq<char>>,
)
    requires
        first.queue@ == second.queue@,
        first.paused == second.paused,
        first.workers == second.workers,
        counts_of(first.counts@).to_multiset() == counts_of(second.counts@).to_multiset(),
        states_distinct(counts_of(first.counts@)),
        status_report(first_lines, first),
        status_report(second_lines, second),
    ensures
        first_lines == second_lines,
{
    let a = choose|order: Seq<(Seq<char>, u64)>|
        {
            &&& order.to_multiset() == counts_of(first.counts@).to_multiset()
            &&& sorted_by_state(order)
            &&& first_lines == #[trigger] status_lines(
                first.queue@,
                first.paused,
                first.workers as nat,
                order,
            )
        };
    let b = choose|order: Seq<(Seq<char>, u64)>|
        {
            &&& order.to_multiset() == counts_of(second.counts@).to_multiset()
            &&& sorted_by_state(order)
            &&& second_lines == #[trigger] status_lines(
                second.queue@,
                second.paused,
                second.workers as nat,
                order,
            )
        };
    let leq = |x: (Seq<char>, u64), y: (Seq<char>, u64)| count_le(x, y);
    lemma_reordered_states_distinct(counts_of(first.counts@), a);
    lemma_reordered_states_distinct(counts_of(first.counts@), b);
    lemma_count_le_total_ordering();
    assert(vstd::relations::sorted_by(a, leq));
    assert(vstd::relations::sorted_by(b, leq));
    vstd::seq_lib::lemma_sorted_unique(a, b, leq);
}

/// An optional text as a JSON value.
pub open spec fn optional_value(text: Option<&str>) -> JsonValue {
    match text {
        Some(t) => JsonValue::Text(t@),
        None => JsonValue::Null,
    }
}

/// Whether `value` is the JSON value of a detail.
pub open spec fn is_value_of_detail(value: JsonValue, detail: Option<Detail>) -> bool {
    match detail {
        Some(Detail::Words(words)) => value == JsonValue::Text(words@),
        Some(Detail::Json(text)) => text@ == json_text(value),
        None => value is Null,
    }
}

/// In JSON an event is told on standard output as one object with four members: its detail, its
/// name, the id of its job and its queue.
pub proof fn law_events_are_json_objects(
    queue: &str,
    event: &str,
    job_id: Option<&str>,
    detail: Option<Detail>,
    value: JsonValue,
    line: OutputLine,
)
    requires
        call_ensures(emit_worker_event, (true, queue, event, job_id, detail), line),
        is_value_of_detail(value, detail),
    ensures
        line is Stdout,
        line->Stdout_0@ == json_text(
            JsonValue::Object(
                seq![
                    ("detail"@, value),
                    ("event"@, JsonValue::Text(event@)),
                    ("id"@, optional_value(job_id)),
                    ("queue"@, JsonValue::Text(queue@)),
                ],
            ),
        ),
{
    reveal_strlit("null");
    let id = optional_value(job_id);
    let name = JsonValue::Text(event@);
    let place = JsonValue::Text(queue@);
    assert(json_text(id) == optional_json(optional_str(job_id)));
    assert(json_text(value) == detail_json(detail));
    assert(json_text(name) == json_string(event@));
    assert(json_text(place) == json_string(queue@));
    lemma_event_fields(value, name, id, place);
}

proof fn lemma_event_fields(detail: JsonValue, event: JsonValue, id: JsonValue, queue: JsonValue)
    ensures
        event_fields(json_text(detail), json_text(event), json_text(id), json_text(queue))
            == json_text(
            JsonValue::Object(
                seq![("detail"@, detail), ("event"@, event), ("id"@, id), ("queue"@, queue)],
            ),
        ),
{
    let a = ("detail"@, detail);
    let b = ("event"@, event);
    let c = ("id"@, id);
    let d = ("queue"@, queue);
    lemma_keys();
    lemma_two_members(c, d);
    lemma_more_members(b, seq![c, d]);
    lemma_more_members(a, seq![b] + seq![c, d]);
    let all = seq![a, b, c, d];
    assert(seq![a] + (seq![b] + seq![c, d]) == all);
    assert(event_fields(json_text(detail), json_text(event), json_text(id), json_text(queue))
        =~= seq!['{'] + members_text(all) + seq!['}']);
}

proof fn lemma_action_fields(queue: JsonValue, status: JsonValue)
    ensures
        action_fields(json_text(queue), json_text(status)) == json_text(
            JsonValue::Object(seq![("queue"@, queue), ("status"@, status)]),
        ),
{
    lemma_keys();
    lemma_two_members(("queue"@, queue), ("status"@, status));
    assert(action_fields(json_text(queue), json_text(status)) =~= seq!['{'] + members_text(
        seq![("queue"@, queue), ("status"@, status)],
    ) + seq!['}']);
}

proof fn lemma_added_fields(id: JsonValue, name: JsonValue, queue: JsonValue)
    ensures
        added_fields(json_text(id), json_text(name), json_text(queue)) == json_text(
            JsonValue::Object(seq![("id"@, id), ("name"@, name), ("queue"@, queue)]),
        ),
{
    let a = ("id"@, id);
    let b = ("name"@, name);
    let c = ("queue"@, queue);
    lemma_keys();
    lemma_two_members(b, c);
    lemma_more_members(a, seq![b, c]);
    assert(seq![a] + seq![b, c] == seq![a, b, c]);
    assert(added_fields(json_text(id), json_text(name), json_text(queue)) =~= seq!['{']
        + members_text(seq![a, b, c]) + seq!['}']);
}

/// The names of members, and what stands before their values.
proof fn lemma_keys()
    ensures
        "{\"detail\":"@ == seq!['{'] + json_string("detail"@) + seq![':'],
        "{\"queue\":"@ == seq!['{'] + json_string("queue"@) + seq![':'],
        "{\"id\":"@ == seq!['{'] + json_string("id"@) + seq![':'],
        ",\"event\":"@ == seq![','] + json_string("event"@) + seq![':'],
        ",\"id\":"@ == seq![','] + json_string("id"@) + seq![':'],
        ",\"queue\":"@ == seq![','] + json_string("queue"@) + seq![':'],
        ",\"status\":"@ == seq![','] + json_string("status"@) + seq![':'],
        ",\"name\":"@ == seq![','] + json_string("name"@) + seq![':'],
        "}"@ == seq!['}'],
{
    reveal_strlit("{\"detail\":");
    reveal_strlit("{\"queue\":");
    reveal_strlit("{\"id\":");
    reveal_strlit(",\"event\":");
    reveal_strlit(",\"id\":");
    reveal_strlit(",\"queue\":");
    reveal_strlit(",\"status\":");
    reveal_strlit(",\"name\":");
    reveal_strlit("}");
    reveal_strlit("detail");
    reveal_strlit("event");
    reveal_strlit("id");
    reveal_strlit("queue");
    reveal_strlit("status");
    reveal_strlit("name");
    lemma_plain_text("detail"@);
    lemma_plain_text("event"@);
    lemma_plain_text("id"@);
    lemma_plain_text("queue"@);
    lemma_plain_text("status"@);
    lemma_plain_text("name"@);
}

/// Otherwise an event is told in words on standard error: its name, its job where it has one, and
/// its queue. A detail does not change them.
pub proof fn law_events_are_sentences(
    queue: &str,
    event: &str,
    job_id: Option<&str>,
    detail: Option<Detail>,
    line: OutputLine,
)
    requires
        call_ensures(emit_worker_event, (false, queue, event, job_id, detail), line),
    ensures
        line is Stderr,
        job_id is None ==> line->Stderr_0@ == event@ + ": "@ + queue@,
        job_id is Some ==> line->Stderr_0@ == event@ + ": job "@ + job_id->0@ + " on "@ + queue@,
{
}

/// A change to a queue is told in JSON as an object with the queue and what became of it, and
/// otherwise in words.
pub proof fn law_changes_are_told(queue: &str, action: &str, json: String, words: String)
    requires
        call_ensures(print_action, (true, queue, action), json),
        call_ensures(print_action, (false, queue, action), words),
    ensures
        json@ == json_text(
            JsonValue::Object(
                seq![
                    ("queue"@, JsonValue::Text(queue@)),
                    ("status"@, JsonValue::Text(action@)),
                ],
            ),
        ),
        words@ == "Queue "@ + queue@ + " "@ + action@,
{
    let place = JsonValue::Text(queue@);
    let status = JsonValue::Text(action@);
    assert(json_text(place) == json_string(queue@));
    assert(json_text(status) == json_string(action@));
    lemma_action_fields(place, status);
}

/// A new job is told in JSON as an object with its id, its name and its queue, and otherwise in
/// words.
pub proof fn law_new_jobs_are_told(queue: &str, id: &str, name: &str, json: String, words: String)
    requires
        call_ensures(print_added, (true, queue, id, name), json),
        call_ensures(print_added, (false, queue, id, name), words),
    ensures
        json@ == json_text(
            JsonValue::Object(
                seq![
                    ("id"@, JsonValue::Text(id@)),
                    ("name"@, JsonValue::Text(name@)),
                    ("queue"@, JsonValue::Text(queue@)),
                ],
            ),
        ),
        words@ == "Added job "@ + id@ + " ("@ + name@ + ") to "@ + queue@,
{
    let number = JsonValue::Text(id@);
    let title = JsonValue::Text(name@);
    let place = JsonValue::Text(queue@);
    assert(json_text(number) == json_string(id@));
    assert(json_text(title) == json_string(name@));
    assert(json_text(place) == json_string(queue@));
    lemma_added_fields(number, title, place);
}

/// Fields that are JSON make an object that is JSON, with those values in their places.
pub proof fn law_framed_fields_are_members(
    detail: &str,
    event: &str,
    id: &str,
    queue: &str,
    values: (JsonValue, JsonValue, JsonValue, JsonValue),
    told: String,
    changed: String,
    added: String,
)
    requires
        detail@ == json_text(values.0),
        event@ == json_text(values.1),
        id@ == json_text(values.2),
        queue@ == json_text(values.3),
        call_ensures(frame_event, (detail, event, id, queue), told),
        call_ensures(frame_action, (queue, event), changed),
        call_ensures(frame_added, (id, event, queue), added),
    ensures
        told@ == json_text(
            JsonValue::Object(
                seq![
                    ("detail"@, values.0),
                    ("event"@, values.1),
                    ("id"@, values.2),
                    ("queue"@, values.3),
                ],
            ),
        ),
        changed@ == json_text(
            JsonValue::Object(seq![("queue"@, values.3), ("status"@, values.1)]),
        ),
        added@ == json_text(
            JsonValue::Object(
                seq![("id"@, values.2), ("name"@, values.1), ("queue"@, values.3)],
            ),
        ),
{
    lemma_event_fields(values.0, values.1, values.2, values.3);
    lemma_action_fields(values.3, values.1);
    lemma_added_fields(values.2, values.1, values.3);
}

/// Where a count goes behind its state: the column of eighteen is filled up with spaces.
pub open spec fn tells_count(line: Seq<char>, state: Seq<char>, count: u64) -> bool {
    exists|spaces: Seq<char>, numeral: Seq<char>|
        {
            &&& line == #[trigger] ("  "@ + state + spaces + " "@ + numeral)
            &&& forall|i: int| 0 <= i < spaces.len() ==> #[trigger] spaces[i] == ' '
            &&& state.len() + spaces.len() == (if state.len() < 18 {
                18
            } else {
                state.len()
            })
            &&& unsigned_value(numeral) == Some(count as nat)
            &&& '0' <= numeral[0] <= '9'
        }
}

/// Whether a line behind the first four tells the count.
pub open spec fn has_line(lines: Seq<String>, count: StateCount) -> bool {
    exists|k: int|
        4 <= k < lines.len() && tells_count((#[trigger] lines[k])@, count.state@, count.count)
}

/// Whether a line tells one of the counts.
pub open spec fn tells_one_of(line: Seq<char>, counts: Seq<StateCount>) -> bool {
    exists|i: int|
        0 <= i < counts.len() && tells_count(line, (#[trigger] counts[i]).state@, counts[i].count)
}

/// The report tells the state of the queue: its name, whether it is paused, how many workers it
/// has, and then one line for each count. Each of these lines depends on nothing else.
pub proof fn law_report_tells_the_state(status: &Status, lines: Vec<String>)
    requires
        call_ensures(print_status, (status,), lines),
    ensures
        lines@.len() == 4 + status.counts@.len(),
        lines@[0]@ == "Queue:   "@ + status.queue@,
        status.paused ==> lines@[1]@ == "Paused:  true"@,
        !status.paused ==> lines@[1]@ == "Paused:  false"@,
        exists|numeral: Seq<char>|
            lines@[2]@ == #[trigger] ("Workers: "@ + numeral) && unsigned_value(numeral) == Some(
                status.workers as nat,
            ) && '0' <= numeral[0] <= '9',
        lines@[3]@ == "Jobs:"@,
        forall|i: int|
            0 <= i < status.counts@.len() ==> has_line(
                lines@,
                #[trigger] status.counts@[i],
            ),
        forall|k: int|
            4 <= k < lines@.len() ==> tells_one_of((#[trigger] lines@[k])@, status.counts@),
{
    broadcast use vstd::seq_lib::group_to_multiset_ensures;

    let counts = counts_of(status.counts@);
    let order = lemma_order_of_report(status, lines@);
    reveal_strlit("Paused:  ");
    reveal_strlit("true");
    reveal_strlit("false");
    reveal_strlit("Paused:  true");
    reveal_strlit("Paused:  false");
    assert("Paused:  "@ + "true"@ == "Paused:  true"@);
    assert("Paused:  "@ + "false"@ == "Paused:  false"@);
    law_decimal_is_read_back(status.workers as nat);
    lemma_signed_decimal_characters(status.workers as int);
    assert('0' <= decimal(status.workers as nat)[0] <= '9');
    assert(lines@[2]@ == "Workers: "@ + decimal(status.workers as nat));
    assert forall|i: int| 0 <= i < status.counts@.len() implies has_line(
        lines@,
        #[trigger] status.counts@[i],
    ) by {
        assert(counts[i] == status.counts@[i]@);
        assert(counts.contains(counts[i]));
        assert(order.to_multiset().count(counts[i]) > 0);
        assert(order.contains(counts[i]));
        let p = choose|p: int| 0 <= p < order.len() && order[p] == counts[i];
        lemma_count_line(order[p]);
        assert(lines@[p + 4]@ == count_line(order[p]));
    }
    assert forall|k: int| 4 <= k < lines@.len() implies tells_one_of(
        (#[trigger] lines@[k])@,
        status.counts@,
    ) by {
        let p = k - 4;
        assert(order.contains(order[p]));
        assert(counts.to_multiset().count(order[p]) > 0);
        assert(counts.contains(order[p]));
        let i = choose|i: int| 0 <= i < counts.len() && counts[i] == order[p];
        assert(counts[i] == status.counts@[i]@);
        lemma_count_line(order[p]);
        assert(lines@[p + 4]@ == count_line(order[p]));
        assert(tells_count(lines@[k]@, status.counts@[i].state@, status.counts@[i].count));
    }
}

/// The lines of a report, and the order in which they tell the counts.
proof fn lemma_order_of_report(status: &Status, lines: Seq<String>) -> (order: Seq<
    (Seq<char>, u64),
>)
    requires
        status_report(texts_of(lines), *status),
    ensures
        order.to_multiset() == counts_of(status.counts@).to_multiset(),
        order.len() == status.counts@.len(),
        sorted_by_state(order),
        lines.len() == 4 + order.len(),
        lines[0]@ == "Queue:   "@ + status.queue@,
        lines[1]@ == "Paused:  "@ + if status.paused {
            "true"@
        } else {
            "false"@
        },
        lines[2]@ == "Workers: "@ + decimal(status.workers as nat),
        lines[3]@ == "Jobs:"@,
        forall|p: int| #![trigger order[p]] 0 <= p < order.len() ==> lines[p + 4]@ == count_line(order[p]),
{
    broadcast use vstd::seq_lib::group_to_multiset_ensures;

    let counts = counts_of(status.counts@);
    let order = choose|order: Seq<(Seq<char>, u64)>|
        {
            &&& order.to_multiset() == counts.to_multiset()
            &&& sorted_by_state(order)
            &&& texts_of(lines) == #[trigger] status_lines(
                status.queue@,
                status.paused,
                status.workers as nat,
                order,
            )
        };
    let texts = texts_of(lines);
    assert(order.to_multiset().len() == order.len());
    assert(counts.to_multiset().len() == counts.len());
    assert(texts.len() == lines.len());
    assert(texts.len() == 4 + order.len());
    assert(lines[0]@ == texts[0] && lines[1]@ == texts[1] && lines[2]@ == texts[2] && lines[3]@
        == texts[3]);
    assert forall|p: int| #![trigger order[p]] 0 <= p < order.len() implies lines[p + 4]@ == count_line(
        order[p],
    ) by {
        assert(lines[p + 4]@ == texts[p + 4]);
    }
    order
}

proof fn lemma_count_line(count: (Seq<char>, u64))
    ensures
        tells_count(count_line(count), count.0, count.1),
{
    let spaces = padded(count.0, 18).skip(count.0.len() as int);
    let numeral = decimal(count.1 as nat);
    law_decimal_is_read_back(count.1 as nat);
    lemma_signed_decimal_characters(count.1 as int);
    assert('0' <= numeral[0] <= '9');
    assert(padded(count.0, 18) == count.0 + spaces);
    assert(count_line(count) == "  "@ + count.0 + spaces + " "@ + numeral);
}

/// The counts come in the order of their states: of two states the one that sorts strictly before
/// the other has its line before it, whatever the order in which they were collected.
pub proof fn law_counts_come_in_the_order_of_their_states(
    status: &Status,
    lines: Vec<String>,
    i: int,
    j: int,
)
    requires
        call_ensures(print_status, (status,), lines),
        0 <= i < status.counts@.len(),
        0 <= j < status.counts@.len(),
        !text_le(status.counts@[j].state@, status.counts@[i].state@),
    ensures
        exists|k: int, l: int|
            4 <= k < l < lines@.len() && tells_count(
                (#[trigger] lines@[k])@,
                status.counts@[i].state@,
                status.counts@[i].count,
            ) && tells_count(
                (#[trigger] lines@[l])@,
                status.counts@[j].state@,
                status.counts@[j].count,
            ),
{
    broadcast use vstd::seq_lib::group_to_multiset_ensures;

    let counts = counts_of(status.counts@);
    let order = lemma_order_of_report(status, lines@);
    assert(counts[i] == status.counts@[i]@ && counts[j] == status.counts@[j]@);
    assert(counts.contains(counts[i]) && counts.contains(counts[j]));
    assert(order.to_multiset().count(counts[i]) > 0 && order.to_multiset().count(counts[j]) > 0);
    assert(order.contains(counts[i]) && order.contains(counts[j]));
    let p = choose|p: int| 0 <= p < order.len() && order[p] == counts[i];
    let q = choose|q: int| 0 <= q < order.len() && order[q] == counts[j];
    assert(p < q) by {
        if q <= p {
            assert(text_le(order[q].0, order[p].0));
        }
    }
    lemma_count_line(order[p]);
    lemma_count_line(order[q]);
    assert(lines@[p + 4]@ == count_line(order[p]));
    assert(lines@[q + 4]@ == count_line(order[q]));
}

/// Statuses that differ in the name of the queue, in whether it is paused or in the number of its
/// workers have different reports.
pub proof fn law_different_states_are_reported_differently(
    first: &Status,
    second: &Status,
    first_lines: Vec<String>,
    second_lines: Vec<String>,
)
    requires
        call_ensures(print_status, (first,), first_lines),
        call_ensures(print_status, (second,), second_lines),
        texts_of(first_lines@) == texts_of(second_lines@),
    ensures
        first.queue@ == second.queue@,
        first.paused == second.paused,
        first.workers == second.workers,
        first.counts@.len() == second.counts@.len(),
{
    law_report_tells_the_state(first, first_lines);
    law_report_tells_the_state(second, second_lines);
    let a = texts_of(first_lines@);
    let b = texts_of(second_lines@);
    assert(a.len() == first_lines@.len() && b.len() == second_lines@.len());
    assert(a[0] == first_lines@[0]@ && b[0] == second_lines@[0]@);
    assert(a[1] == first_lines@[1]@ && b[1] == second_lines@[1]@);
    assert(a[2] == first_lines@[2]@ && b[2] == second_lines@[2]@);
    let head = "Queue:   "@;
    assert(a[0].skip(head.len() as int) == first.queue@);
    assert(b[0].skip(head.len() as int) == second.queue@);
    reveal_strlit("Paused:  true");
    reveal_strlit("Paused:  false");
    let workers = "Workers: "@;
    let m = choose|numeral: Seq<char>|
        first_lines@[2]@ == #[trigger] (workers + numeral) && unsigned_value(numeral) == Some(
            first.workers as nat,
        );
    let n = choose|numeral: Seq<char>|
        second_lines@[2]@ == #[trigger] (workers + numeral) && unsigned_value(numeral) == Some(
            second.workers as nat,
        );
    assert((workers + m).skip(workers.len() as int) == m);
    assert((workers + n).skip(workers.len() as int) == n);
}

/// Whether `line` tells, in JSON on standard output, of an event with these four members.
pub open spec fn tells_in_json(
    line: Option<OutputLine>,
    queue: Seq<char>,
    event: Seq<char>,
    id: JsonValue,
    detail: JsonValue,
) -> bool {
    line matches Some(OutputLine::Stdout(text)) && text@ == json_text(
        JsonValue::Object(
            seq![
                ("detail"@, detail),
                ("event"@, JsonValue::Text(event)),
                ("id"@, id),
                ("queue"@, JsonValue::Text(queue)),
            ],
        ),
    )
}

/// Whether `line` tells these words on standard error.
pub open spec fn tells_in_words(line: Option<OutputLine>, words: Seq<char>) -> bool {
    line matches Some(OutputLine::Stderr(text)) && text@ == words
}

/// What the line of an event is, in JSON and in words.
pub proof fn lemma_event_line(
    line: OutputLine,
    as_json: bool,
    queue: Seq<char>,
    event: Seq<char>,
    job_id: Option<Seq<char>>,
    detail: Option<Detail>,
    value: JsonValue,
)
    requires
        event_line(line, as_json, queue, event, job_id, detail),
    ensures
        as_json && is_value_of_detail(value, detail) && job_id is Some ==> tells_in_json(
            Some(line),
            queue,
            event,
            JsonValue::Text(job_id->0),
            value,
        ),
        as_json && is_value_of_detail(value, detail) && job_id is None ==> tells_in_json(
            Some(line),
            queue,
            event,
            JsonValue::Null,
            value,
        ),
        !as_json && job_id is Some ==> tells_in_words(
            Some(line),
            event + ": job "@ + job_id->0 + " on "@ + queue,
        ),
        !as_json && job_id is None ==> tells_in_words(Some(line), event + ": "@ + queue),
{
    reveal_strlit("null");
    let id = match job_id {
        Some(text) => JsonValue::Text(text),
        None => JsonValue::Null,
    };
    let name = JsonValue::Text(event);
    let place = JsonValue::Text(queue);
    assert(json_text(id) == optional_json(job_id));
    assert(json_text(name) == json_string(event));
    assert(json_text(place) == json_string(queue));
    if is_value_of_detail(value, detail) {
        assert(json_text(value) == detail_json(detail));
        lemma_event_fields(value, name, id, place);
    }
}

} // verus!
