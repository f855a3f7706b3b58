//! The data of a new job: the text of one JSON document.

use crate::failure::Failure;
use crate::json::{
    check_json, fits, is_json, json_complaint, json_text, members_text, writes_value, JsonValue,
};
use vstd::prelude::*;
use vstd::string::*;

verus! {

/// Where the data of a job comes from.
pub enum DataRead<P> {
    /// Nothing has to be read: the data, or what is wrong with it.
    Ready(Result<String, Failure>),
    /// It is the text on standard input.
    Stdin,
    /// It is the text of this file.
    File(P),
}

/// Whether `data` is what comes of the text `raw`: the text itself where it is JSON, and
/// otherwise the failure that says why not.
pub open spec fn data_of(data: Result<String, Failure>, raw: Seq<char>) -> bool {
    match json_complaint(raw) {
        None => data is Ok && data->Ok_0@ == raw,
        Some(complaint) => data is Err && data->Err_0.says_because(
            "job data is not valid JSON"@,
            complaint,
        ),
    }
}

/// Takes the text `raw` as job data unless there is a complaint about it.
pub fn accept_data(raw: String, complaint: Option<String>) -> (data: Result<String, Failure>)
    ensures
        match complaint {
            None => data is Ok && data->Ok_0@ == raw@,
            Some(words) => data is Err && data->Err_0.says_because(
                "job data is not valid JSON"@,
                words@,
            ),
        },
{
    match complaint {
        None => Ok(raw),
        Some(words) => Err(Failure::because("job data is not valid JSON".to_owned(), words)),
    }
}

/// Takes the text `raw` as job data where it is one JSON document.
pub fn parse_data(raw: String) -> (data: Result<String, Failure>)
    ensures
        data_of(data, raw@),
        writes_value(raw@) ==> data is Ok,
{
    let complaint = check_json(raw.as_str());
    accept_data(raw, complaint)
}

/// Finds the data of a job: the inline text, standard input where that text is `-`, the file, or
/// the empty object where nothing is given. Inline text and a file exclude each other. The text
/// that comes back is a JSON document.
pub fn read_data<P>(data: Option<String>, data_file: Option<P>) -> (read: DataRead<P>)
    requires
        data is None || data_file is None,
    ensures
        match (data, data_file) {
            (Some(text), _) => if text@ == "-"@ {
                read is Stdin
            } else {
                &&& read is Ready
                &&& data_of(read->Ready_0, text@)
                &&& writes_value(text@) ==> read->Ready_0 is Ok
            },
            (None, Some(path)) => read == DataRead::File(path),
            (None, None) => read is Ready && read->Ready_0 is Ok && data_of(read->Ready_0, "{}"@),
        },
{
    proof {
        lemma_empty_object();
    }
    match (data, data_file) {
        (Some(text), _) => if text == "-".to_owned() {
            DataRead::Stdin
        } else {
            DataRead::Ready(parse_data(text))
        },
        (None, Some(path)) => DataRead::File(path),
        (None, None) => DataRead::Ready(parse_data("{}".to_owned())),
    }
}

/// The empty object is written `{}`.
proof fn lemma_empty_object()
    ensures
        writes_value("{}"@),
{
    reveal_strlit("{}");
    let empty = JsonValue::Object(Seq::empty());
    assert(members_text(Seq::empty()) == Seq::<char>::empty());
    assert(json_text(empty) =~= "{}"@);
}

/// The failure to read job data from standard input.
pub fn unreadable_stdin(cause: String) -> (failure: Failure)
    ensures
        failure.says_because("failed to read JSON from stdin"@, cause@),
{
    Failure::because("failed to read JSON from stdin".to_owned(), cause)
}

/// The failure to read job data from the file shown as `path`.
pub fn unreadable_file(path: &str, cause: String) -> (failure: Failure)
    ensures
        failure.says_because("failed to read "@ + path@, cause@),
{
    let mut message = "failed to read ".to_owned();
    message.append(path);
    Failure::because(message, cause)
}

/// A text is taken as job data exactly where nothing is said against it, and then as it is. What
/// is said against it is kept.
pub proof fn law_data_is_taken_unless_complained_of(
    raw: String,
    complaint: Option<String>,
    data: Result<String, Failure>,
)
    requires
        call_ensures(accept_data, (raw, complaint), data),
    ensures
        data is Ok <==> complaint is None,
        data is Ok ==> data->Ok_0@ == raw@,
        data is Err ==> {
            &&& data->Err_0.message@ == "job data is not valid JSON"@
            &&& data->Err_0.cause is Some
            &&& data->Err_0.cause->0@ == complaint->0@
        },
{
}

/// Data that is accepted is the text itself, and every text that writes a JSON value is accepted.
/// What is refused has no other message than that it is no JSON.
pub proof fn law_json_is_taken_as_it_is(raw: String, value: JsonValue, data: Result<String, Failure>)
    requires
        call_ensures(parse_data, (raw,), data),
    ensures
        data is Ok ==> data->Ok_0@ == raw@,
        data is Ok <==> is_json(raw@),
        fits(value, 127) && raw@ == json_text(value) ==> data is Ok,
        data is Err ==> data->Err_0.message@ == "job data is not valid JSON"@
            && data->Err_0.cause is Some,
{
}

/// Data comes from the text on the command line, from standard input where that text is `-`, from
/// the file, or is the empty object where there is neither. A text is judged as `parse_data`
/// judges it.
pub proof fn law_data_comes_from_where_it_is_said<P>(
    text: String,
    path: P,
    inline: DataRead<P>,
    file: DataRead<P>,
    nothing: DataRead<P>,
    parsed: Result<String, Failure>,
)
    requires
        call_ensures(read_data::<P>, (Some(text), None::<P>), inline),
        call_ensures(read_data::<P>, (None::<String>, Some(path)), file),
        call_ensures(read_data::<P>, (None::<String>, None::<P>), nothing),
        call_ensures(parse_data, (text,), parsed),
    ensures
        text@ == seq!['-'] <==> inline is Stdin,
        text@ != seq!['-'] ==> {
            &&& inline is Ready
            &&& match (inline->Ready_0, parsed) {
                (Ok(a), Ok(b)) => a@ == b@ && a@ == text@,
                (Err(a), Err(b)) => a.message@ == b.message@ && a.cause->0@ == b.cause->0@,
                _ => false,
            }
        },
        file == DataRead::File(path),
        nothing is Ready,
        nothing->Ready_0 is Ok,
        nothing->Ready_0->Ok_0@ == json_text(JsonValue::Object(Seq::empty())),
        call_requires(read_data::<P>, (Some(text), None::<P>)),
        call_requires(read_data::<P>, (None::<String>, Some(path))),
        call_requires(read_data::<P>, (None::<String>, None::<P>)),
{
    reveal_strlit("-");
    assert("-"@ == seq!['-']);
    lemma_empty_object();
    reveal_strlit("{}");
    assert(members_text(Seq::empty()) == Seq::<char>::empty());
    assert(json_text(JsonValue::Object(Seq::empty())) =~= "{}"@);
}

/// Data that cannot be read is complained of by its source, and the cause is kept.
pub proof fn law_unreadable_sources_are_named(
    path: &str,
    cause: String,
    stdin: Failure,
    file: Failure,
)
    requires
        call_ensures(unreadable_stdin, (cause,), stdin),
        call_ensures(unreadable_file, (path, cause), file),
    ensures
        stdin.message@ == "failed to read JSON from stdin"@,
        file.message@ == "failed to read "@ + path@,
        stdin.cause matches Some(c) && c@ == cause@,
        file.cause matches Some(c) && c@ == cause@,
{
}

} // verus!
