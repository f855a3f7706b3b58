//! What a handler run amounts to: the value of the job, or why it failed.

use crate::bounded::BoundedOutput;
use crate::json::{
    check_json, fits, is_json, json_text, law_text_tells_the_value,
    law_white_space_around_a_value_is_trimmed, prints, JsonValue,
};
use crate::text::{
    all_white_space, decimal, decimal_text, law_signed_decimal_tells_the_number,
    law_trimming_cuts_white_space_only, law_trimming_leaves_the_inside, signed_decimal,
    signed_decimal_text, trim, trimmed,
};
use vstd::prelude::*;
use vstd::string::*;
use vstd::utf8::{
    decode_utf8, encode_utf8, encode_utf8_decode_utf8, encode_utf8_valid_utf8, valid_utf8,
};

verus! {

/// The value that a handler returns for its job.
#[derive(Debug)]
pub enum HandlerResult {
    /// The handler wrote nothing: JSON null.
    Null,
    /// The JSON document that this text writes.
    Json(String),
    /// This text itself, as a JSON string.
    Text(String),
}

/// Why a handler run failed.
#[derive(Debug)]
pub enum HandlerError {
    /// The handler is set up wrongly.
    InvalidConfig(String),
    /// The job may be tried again.
    Processing(String),
    /// The job must not be tried again.
    Unrecoverable(String),
    /// The data of the job could not be written as JSON.
    Payload,
    /// The worker was closed meanwhile.
    WorkerClosed,
}

/// How a handler ended: whether it succeeded, and its exit code unless a signal ended it.
#[derive(Clone, Copy, Debug, PartialEq, Eq, Structural)]
pub struct ExitStatus {
    pub success: bool,
    pub code: Option<i32>,
}

/// The text that bytes make, with replacement characters for what is not UTF-8.
pub uninterp spec fn lossy_text(bytes: Seq<u8>) -> Seq<char>;

/// `String::from_utf8_lossy` decodes UTF-8 and puts replacement characters in place of invalid
/// sequences. The text is a function of the bytes alone and bears the name `lossy_text`; for
/// valid UTF-8 it is the decoded text.
#[verifier::external_body]
fn decode_lossy(bytes: &[u8]) -> (text: String)
    ensures
        text@ == lossy_text(bytes@),
        valid_utf8(bytes@) ==> text@ == decode_utf8(bytes@),
{
    String::from_utf8_lossy(bytes).into_owned()
}

/// Whether `result` is the value that the output `text` stands for: null where there is only
/// white space, and otherwise what the text without the white space around it writes in JSON, or
/// that text where it is no JSON.
pub open spec fn result_of(result: HandlerResult, text: Seq<char>) -> bool {
    let inner = trimmed(text);
    if inner.len() == 0 {
        result is Null
    } else if is_json(inner) {
        result is Json && result->Json_0@ == inner
    } else {
        result is Text && result->Text_0@ == inner
    }
}

/// Whether `result` is the JSON value `value`.
pub open spec fn stands_for(result: HandlerResult, value: JsonValue) -> bool {
    match result {
        HandlerResult::Null => value is Null,
        HandlerResult::Json(text) => text@ == json_text(value),
        HandlerResult::Text(text) => value == JsonValue::Text(text@),
    }
}

/// Whether `result` is the value that a handler returns which wrote `bytes`: that of their text,
/// which is the decoded one for valid UTF-8, and the very value where they write one in JSON.
pub open spec fn value_of_output(result: HandlerResult, bytes: Seq<u8>) -> bool {
    &&& result_of(result, lossy_text(bytes))
    &&& valid_utf8(bytes) ==> {
        &&& result_of(result, decode_utf8(bytes))
        &&& forall|value: JsonValue| #[trigger]
            prints(decode_utf8(bytes), value) ==> stands_for(result, value)
    }
}

/// The value for an output of which `inner` is left without the white space around it.
pub fn choose_result(inner: &str, is_document: bool) -> (result: HandlerResult)
    ensures
        if inner@.len() == 0 {
            result is Null
        } else if is_document {
            result is Json && result->Json_0@ == inner@
        } else {
            result is Text && result->Text_0@ == inner@
        },
{
    if inner.is_empty() {
        HandlerResult::Null
    } else if is_document {
        HandlerResult::Json(inner.to_owned())
    } else {
        HandlerResult::Text(inner.to_owned())
    }
}

/// The value that an output in text form stands for.
pub fn result_from_text(text: &str) -> (result: HandlerResult)
    ensures
        result_of(result, text@),
        forall|value: JsonValue| #[trigger] prints(text@, value) ==> stands_for(result, value),
{
    let inner = trim(text);
    proof {
        assert forall|value: JsonValue| #[trigger] prints(text@, value) implies inner@ == json_text(
            value,
        ) && inner@.len() > 0 by {
            law_white_space_around_a_value_is_trimmed(text@, value);
        }
    }
    let is_document = check_json(inner).is_none();
    choose_result(inner, is_document)
}

/// The value that the output of a handler stands for.
pub fn parse_handler_result(stdout: &[u8]) -> (result: HandlerResult)
    ensures
        value_of_output(result, stdout@),
{
    let text = decode_lossy(stdout);
    result_from_text(text.as_str())
}

/// White space around the output of a handler does not matter.
pub proof fn law_white_space_around_output_does_not_matter(
    result: HandlerResult,
    before: Seq<char>,
    text: Seq<char>,
    after: Seq<char>,
)
    requires
        all_white_space(before),
        all_white_space(after),
    ensures
        result_of(result, before + text + after) == result_of(result, text),
{
    law_trimming_cuts_white_space_only(before, text, after);
}

/// How the failure of a handler with the exit code `exit_code` is described.
pub open spec fn failure_reason(exit_code: Option<i32>) -> Seq<char> {
    match exit_code {
        Some(code) => "handler failed with exit code "@ + signed_decimal(code as int),
        None => "handler was terminated by signal"@,
    }
}

/// Describes the failure of a handler.
pub fn handler_failure_reason(exit_code: Option<i32>) -> (reason: String)
    ensures
        reason@ == failure_reason(exit_code),
{
    match exit_code {
        Some(code) => {
            let mut reason = "handler failed with exit code ".to_owned();
            reason.append(signed_decimal_text(code).as_str());
            reason
        },
        None => "handler was terminated by signal".to_owned(),
    }
}

/// Whether `codes` lists the exit code.
fn lists_code(codes: &Vec<i32>, code: i32) -> (listed: bool)
    ensures
        listed == codes@.contains(code),
{
    let mut i: usize = 0;
    while i < codes.len()
        invariant
            i <= codes.len(),
            forall|k: int| 0 <= k < i ==> codes@[k] != code,
        decreases codes.len() - i,
    {
        if codes[i] == code {
            assert(codes@[i as int] == code);
            return true;
        }
        i = i + 1;
    }
    false
}

/// The complaint about a handler that wrote more than `limit` bytes.
pub open spec fn over_limit(limit: nat) -> Seq<char> {
    "handler stdout exceeded the "@ + decimal(limit) + " byte result limit"@
}

/// Whether `outcome` is what a handler run amounts to that ended with `exit` and wrote `output`.
/// Too much output fails the job whatever the exit; a listed exit code rules out another try.
pub open spec fn outcome_of(
    outcome: Result<HandlerResult, HandlerError>,
    exit: ExitStatus,
    output: BoundedOutput,
    limit: usize,
    unrecoverable: Seq<i32>,
) -> bool {
    if output.exceeded_limit {
        outcome matches Err(HandlerError::Processing(reason)) && reason@ == over_limit(
            limit as nat,
        )
    } else if exit.success {
        outcome matches Ok(result) && value_of_output(result, output.bytes@)
    } else if exit.code is Some && unrecoverable.contains(exit.code->0) {
        outcome matches Err(HandlerError::Unrecoverable(reason)) && reason@ == failure_reason(
            exit.code,
        )
    } else {
        outcome matches Err(HandlerError::Processing(reason)) && reason@ == failure_reason(
            exit.code,
        )
    }
}

/// Judges a handler run by its exit and its output.
pub fn judge_run(
    exit: ExitStatus,
    output: &BoundedOutput,
    limit: usize,
    unrecoverable: &Vec<i32>,
) -> (outcome: Result<HandlerResult, HandlerError>)
    ensures
        outcome_of(outcome, exit, *output, limit, unrecoverable@),
{
    if output.exceeded_limit {
        let mut reason = "handler stdout exceeded the ".to_owned();
        reason.append(decimal_text(limit as u64).as_str());
        reason.append(" byte result limit");
        return Err(HandlerError::Processing(reason));
    }
    if exit.success {
        return Ok(parse_handler_result(output.bytes.as_slice()));
    }
    let reason = handler_failure_reason(exit.code);
    let listed = match exit.code {
        Some(code) => lists_code(unrecoverable, code),
        None => false,
    };
    if listed {
        Err(HandlerError::Unrecoverable(reason))
    } else {
        Err(HandlerError::Processing(reason))
    }
}

/// A handler that ended well and wrote no more than the limit returns the value that its whole
/// output stands for, and nothing else returns a value.
pub proof fn law_value_stands_for_the_whole_output(
    outcome: Result<HandlerResult, HandlerError>,
    exit: ExitStatus,
    output: BoundedOutput,
    written: Seq<u8>,
    limit: usize,
    unrecoverable: Seq<i32>,
)
    requires
        output.keeps(written, limit as nat),
        outcome_of(outcome, exit, output, limit, unrecoverable),
    ensures
        outcome is Ok <==> exit.success && written.len() <= limit,
        outcome matches Ok(result) ==> value_of_output(result, written),
        written.len() > limit ==> (outcome matches Err(HandlerError::Processing(reason)) && reason@
            == over_limit(limit as nat)),
{
}

/// JSON that a handler prints in UTF-8, with any white space around it, is returned as that very
/// value, and as no other.
pub proof fn law_printed_value_is_returned(
    outcome: Result<HandlerResult, HandlerError>,
    exit: ExitStatus,
    output: BoundedOutput,
    written: Seq<u8>,
    limit: usize,
    unrecoverable: Seq<i32>,
    before: Seq<char>,
    value: JsonValue,
    after: Seq<char>,
)
    requires
        output.keeps(written, limit as nat),
        outcome_of(outcome, exit, output, limit, unrecoverable),
        exit.success,
        written.len() <= limit,
        written == encode_utf8(before + json_text(value) + after),
        all_white_space(before),
        all_white_space(after),
        fits(value, 127),
    ensures
        outcome is Ok,
        stands_for(outcome->Ok_0, value),
        forall|other: JsonValue| #[trigger] stands_for(outcome->Ok_0, other) ==> other == value,
{
    encode_utf8_valid_utf8(before + json_text(value) + after);
    encode_utf8_decode_utf8(before + json_text(value) + after);
    assert(prints(decode_utf8(written), value));
    assert forall|other: JsonValue| #[trigger] stands_for(outcome->Ok_0, other) implies other
        == value by {
        law_result_is_one_value(outcome->Ok_0, other, value);
    }
}

/// What a handler returns is one JSON value.
pub proof fn law_result_is_one_value(result: HandlerResult, a: JsonValue, b: JsonValue)
    requires
        stands_for(result, a),
        stands_for(result, b),
    ensures
        a == b,
{
    if result is Json {
        law_text_tells_the_value(a, b);
    }
}

/// A job is out of tries exactly where its handler failed, within the limit, with a listed code.
pub proof fn law_listed_exit_codes_rule_out_another_try(
    outcome: Result<HandlerResult, HandlerError>,
    exit: ExitStatus,
    output: BoundedOutput,
    limit: usize,
    unrecoverable: Seq<i32>,
)
    requires
        outcome_of(outcome, exit, output, limit, unrecoverable),
    ensures
        outcome matches Err(HandlerError::Unrecoverable(_)) <==> !output.exceeded_limit
            && !exit.success && exit.code is Some && unrecoverable.contains(exit.code->0),
{
}

/// Output is nothing where it is white space only; otherwise it is the JSON that its inside writes,
/// as it is written, or else that inside as a text.
pub proof fn law_output_is_json_or_text(text: &str, inner: &str, result: HandlerResult)
    requires
        call_ensures(result_from_text, (text,), result),
        call_ensures(trim, (text,), inner),
    ensures
        result is Null <==> inner@.len() == 0,
        all_white_space(text@) ==> result is Null,
        inner@.len() > 0 && is_json(inner@) ==> result is Json && result->Json_0@ == inner@,
        inner@.len() > 0 && !is_json(inner@) ==> result is Text && result->Text_0@ == inner@,
{
    if all_white_space(text@) {
        let around = law_trimming_leaves_the_inside(text, inner);
        if inner@.len() > 0 {
            assert(inner@[0] == text@[around.0.len() as int]);
        }
    }
}

/// The choice between the three forms is by the inside and by whether it is JSON.
pub proof fn law_form_of_a_result_is_chosen(inner: &str, is_document: bool, result: HandlerResult)
    requires
        call_ensures(choose_result, (inner, is_document), result),
    ensures
        result is Null <==> inner@.len() == 0,
        result is Json <==> inner@.len() > 0 && is_document,
        result is Json ==> result->Json_0@ == inner@,
        result is Text ==> result->Text_0@ == inner@,
{
}

/// Bytes that are valid UTF-8 amount to what their text amounts to.
pub proof fn law_bytes_amount_to_their_text(
    bytes: &[u8],
    text: &str,
    of_bytes: HandlerResult,
    of_text: HandlerResult,
)
    requires
        bytes@ == encode_utf8(text@),
        call_ensures(parse_handler_result, (bytes,), of_bytes),
        call_ensures(result_from_text, (text,), of_text),
    ensures
        match (of_bytes, of_text) {
            (HandlerResult::Null, HandlerResult::Null) => true,
            (HandlerResult::Json(a), HandlerResult::Json(b)) => a@ == b@,
            (HandlerResult::Text(a), HandlerResult::Text(b)) => a@ == b@,
            _ => false,
        },
{
    encode_utf8_valid_utf8(text@);
    encode_utf8_decode_utf8(text@);
}

/// The reason of a failure tells the exit code, by its numeral, and that there was none where a
/// signal ended the handler. Different codes have different reasons.
pub proof fn law_reasons_tell_the_exit_code(
    code: i32,
    other: i32,
    reason: String,
    other_reason: String,
    signal: String,
)
    requires
        call_ensures(handler_failure_reason, (Some(code),), reason),
        call_ensures(handler_failure_reason, (Some(other),), other_reason),
        call_ensures(handler_failure_reason, (None::<i32>,), signal),
    ensures
        reason@ == "handler failed with exit code "@ + signed_decimal(code as int),
        signal@ == "handler was terminated by signal"@,
        reason@ == other_reason@ <==> code == other,
{
    let words = "handler failed with exit code "@;
    assert(reason@.skip(words.len() as int) == signed_decimal(code as int));
    assert(other_reason@.skip(words.len() as int) == signed_decimal(other as int));
    if reason@ == other_reason@ {
        law_signed_decimal_tells_the_number(code as int, other as int);
    }
}

/// A run is judged by its output first: too much of it fails the job, with the limit in the words.
/// Then success returns a value. Any other end fails the job for the reason that tells it, for
/// good where its code is listed, and otherwise so that it may be tried again.
pub proof fn law_runs_are_judged_by_output_then_exit(
    exit: ExitStatus,
    output: &BoundedOutput,
    limit: usize,
    unrecoverable: &Vec<i32>,
    reason: String,
    outcome: Result<HandlerResult, HandlerError>,
)
    requires
        call_ensures(judge_run, (exit, output, limit, unrecoverable), outcome),
        call_ensures(handler_failure_reason, (exit.code,), reason),
    ensures
        outcome is Ok <==> exit.success && !output.exceeded_limit,
        output.exceeded_limit ==> (outcome matches Err(HandlerError::Processing(words)) && words@
            == "handler stdout exceeded the "@ + decimal(limit as nat) + " byte result limit"@),
        !output.exceeded_limit && !exit.success && exit.code is Some && (exists|i: int|
            0 <= i < unrecoverable@.len() && #[trigger] unrecoverable@[i] == exit.code->0)
            ==> (outcome matches Err(HandlerError::Unrecoverable(words)) && words@ == reason@),
        !output.exceeded_limit && !exit.success && (exit.code is None || forall|i: int|
            0 <= i < unrecoverable@.len() ==> #[trigger] unrecoverable@[i] != exit.code->0)
            ==> (outcome matches Err(HandlerError::Processing(words)) && words@ == reason@),
{
    if exit.code is Some {
        if exists|i: int| 0 <= i < unrecoverable@.len() && #[trigger] unrecoverable@[i]
            == exit.code->0 {
            let i = choose|i: int|
                0 <= i < unrecoverable@.len() && #[trigger] unrecoverable@[i] == exit.code->0;
            assert(unrecoverable@.contains(exit.code->0));
        }
    }
}

/// What a successful run returns is what its output amounts to.
pub proof fn law_success_returns_the_output(
    exit: ExitStatus,
    output: &BoundedOutput,
    limit: usize,
    unrecoverable: &Vec<i32>,
    text: &str,
    value: HandlerResult,
    outcome: Result<HandlerResult, HandlerError>,
)
    requires
        exit.success,
        !output.exceeded_limit,
        output.bytes@ == encode_utf8(text@),
        call_ensures(judge_run, (exit, output, limit, unrecoverable), outcome),
        call_ensures(result_from_text, (text,), value),
    ensures
        outcome is Ok,
        match (outcome->Ok_0, value) {
            (HandlerResult::Null, HandlerResult::Null) => true,
            (HandlerResult::Json(a), HandlerResult::Json(b)) => a@ == b@,
            (HandlerResult::Text(a), HandlerResult::Text(b)) => a@ == b@,
            _ => false,
        },
{
    encode_utf8_valid_utf8(text@);
    encode_utf8_decode_utf8(text@);
}

/// Any bytes, valid or not, amount to what the text amounts to that they are decoded to.
pub proof fn law_any_bytes_amount_to_their_decoding(
    bytes: &[u8],
    text: &str,
    of_bytes: HandlerResult,
    of_text: HandlerResult,
)
    requires
        text@ == lossy_text(bytes@),
        call_ensures(parse_handler_result, (bytes,), of_bytes),
        call_ensures(result_from_text, (text,), of_text),
    ensures
        match (of_bytes, of_text) {
            (HandlerResult::Null, HandlerResult::Null) => true,
            (HandlerResult::Json(a), HandlerResult::Json(b)) => a@ == b@,
            (HandlerResult::Text(a), HandlerResult::Text(b)) => a@ == b@,
            _ => false,
        },
{
}

/// A successful run returns what its bytes amount to, valid or not.
pub proof fn law_success_returns_what_the_bytes_amount_to(
    exit: ExitStatus,
    output: &BoundedOutput,
    limit: usize,
    unrecoverable: &Vec<i32>,
    text: &str,
    value: HandlerResult,
    outcome: Result<HandlerResult, HandlerError>,
)
    requires
        exit.success,
        !output.exceeded_limit,
        text@ == lossy_text(output.bytes@),
        call_ensures(judge_run, (exit, output, limit, unrecoverable), outcome),
        call_ensures(result_from_text, (text,), value),
    ensures
        outcome is Ok,
        match (outcome->Ok_0, value) {
            (HandlerResult::Null, HandlerResult::Null) => true,
            (HandlerResult::Json(a), HandlerResult::Json(b)) => a@ == b@,
            (HandlerResult::Text(a), HandlerResult::Text(b)) => a@ == b@,
            _ => false,
        },
{
}

} // verus!
