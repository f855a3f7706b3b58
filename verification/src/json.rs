//! JSON text, checked and written by `serde_json`.

use crate::text::{
    all_white_space, law_signed_decimal_tells_the_number, law_trimming_cuts_white_space_only,
    lemma_signed_decimal_characters, signed_decimal, trimmed, white_space,
};
use vstd::prelude::*;

verus! {

/// What `serde_json` has against a text, or nothing where the text is one JSON document.
pub uninterp spec fn json_complaint(text: Seq<char>) -> Option<Seq<char>>;

/// Whether `serde_json` reads `text` as one JSON document.
pub open spec fn is_json(text: Seq<char>) -> bool {
    json_complaint(text) is None
}

/// The hexadecimal digit for `d`, in lower case.
pub open spec fn hex_char(d: int) -> char {
    if d < 10 {
        ('0' as int + d) as char
    } else {
        ('a' as int + d - 10) as char
    }
}

/// How `c` is written in a JSON string: the quote, the backslash and the characters below the
/// space are escaped.
pub open spec fn escaped(c: char) -> Seq<char> {
    if c == '"' || c == '\\' {
        seq!['\\', c]
    } else if c == '\u{8}' {
        seq!['\\', 'b']
    } else if c == '\t' {
        seq!['\\', 't']
    } else if c == '\n' {
        seq!['\\', 'n']
    } else if c == '\u{c}' {
        seq!['\\', 'f']
    } else if c == '\r' {
        seq!['\\', 'r']
    } else if c >= ' ' {
        seq![c]
    } else {
        seq!['\\', 'u', '0', '0', hex_char(c as int / 16), hex_char(c as int % 16)]
    }
}

/// How a text is written in a JSON string, between the quotes.
pub open spec fn escaped_text(text: Seq<char>) -> Seq<char>
    decreases text.len(),
{
    if text.len() == 0 {
        Seq::empty()
    } else {
        escaped_text(text.drop_last()) + escaped(text.last())
    }
}

/// The JSON string that stands for a text, in its quotes.
pub open spec fn json_string(text: Seq<char>) -> Seq<char> {
    seq!['"'] + escaped_text(text) + seq!['"']
}

/// A JSON value whose numbers are whole. The members of an object stand in the order in which
/// they are written.
pub enum JsonValue {
    Null,
    Bool(bool),
    Number(int),
    Text(Seq<char>),
    List(Seq<JsonValue>),
    Object(Seq<(Seq<char>, JsonValue)>),
}

/// How a value is written, without white space between its parts.
pub open spec fn json_text(value: JsonValue) -> Seq<char>
    decreases value,
{
    match value {
        JsonValue::Null => "null"@,
        JsonValue::Bool(b) => if b {
            "true"@
        } else {
            "false"@
        },
        JsonValue::Number(n) => signed_decimal(n),
        JsonValue::Text(text) => json_string(text),
        JsonValue::List(items) => seq!['['] + items_text(items) + seq![']'],
        JsonValue::Object(members) => seq!['{'] + members_text(members) + seq!['}'],
    }
}

/// How the items of a list are written, with commas between them.
pub open spec fn items_text(items: Seq<JsonValue>) -> Seq<char>
    decreases items,
{
    if items.len() == 0 {
        Seq::empty()
    } else if items.len() == 1 {
        json_text(items[0])
    } else {
        json_text(items[0]) + seq![','] + items_text(items.subrange(1, items.len() as int))
    }
}

/// How the members of an object are written, with commas between them.
pub open spec fn members_text(members: Seq<(Seq<char>, JsonValue)>) -> Seq<char>
    decreases members,
{
    if members.len() == 0 {
        Seq::empty()
    } else {
        let first = json_string(members[0].0) + seq![':'] + json_text(members[0].1);
        if members.len() == 1 {
            first
        } else {
            first + seq![','] + members_text(members.subrange(1, members.len() as int))
        }
    }
}

/// Whether a value nests lists and objects `levels` deep at most, and its numbers fit in 64 bits,
/// with a sign or without.
pub open spec fn fits(value: JsonValue, levels: nat) -> bool
    decreases levels,
{
    match value {
        JsonValue::Number(n) => i64::MIN <= n <= u64::MAX,
        JsonValue::List(items) => levels > 0 && forall|i: int|
            0 <= i < items.len() ==> fits(#[trigger] items[i], (levels - 1) as nat),
        JsonValue::Object(members) => levels > 0 && forall|i: int|
            0 <= i < members.len() ==> fits((#[trigger] members[i]).1, (levels - 1) as nat),
        _ => true,
    }
}

/// Whether `text` writes a value.
pub open spec fn writes_value(text: Seq<char>) -> bool {
    exists|value: JsonValue| fits(value, 127) && text == #[trigger] json_text(value)
}

/// Whether `text` writes `value`, with any white space around it.
pub open spec fn prints(text: Seq<char>, value: JsonValue) -> bool {
    &&& fits(value, 127)
    &&& exists|before: Seq<char>, after: Seq<char>|
        all_white_space(before) && all_white_space(after) && text == #[trigger] (before + json_text(
            value,
        ) + after)
}

/// `serde_json::from_str` reads a text into a `serde_json::Value`. Whether it does, and the
/// words of its error where it does not, is a function of the text alone and bears the name
/// `json_complaint`. It accepts every value as `json_text` writes it that nests its lists and
/// objects 127 deep at most and whose numbers fit in 64 bits. The value itself is left out:
/// whoever holds an accepted text reads it once more.
#[verifier::external_body]
pub(crate) fn check_json(text: &str) -> (complaint: Option<String>)
    ensures
        json_complaint(text@) == (match complaint {
            Some(words) => Some(words@),
            None => None,
        }),
        writes_value(text@) ==> complaint is None,
{
    match serde_json::from_str::<serde_json::Value>(text) {
        Ok(_) => None,
        Err(error) => Some(error.to_string()),
    }
}

/// Whether `text` goes on one line: it holds no character below the space, so no newline either.
pub open spec fn on_one_line(text: Seq<char>) -> bool {
    forall|i: int| 0 <= i < text.len() ==> #[trigger] text[i] >= ' '
}

/// `serde_json::Value`, made from a text and displayed, is the JSON string of that text.
#[verifier::external_body]
fn display_string(text: &str) -> (quoted: String)
    ensures
        quoted@ == json_string(text@),
{
    serde_json::Value::from(text).to_string()
}

/// The JSON string of a text.
pub fn quote_json(text: &str) -> (quoted: String)
    ensures
        quoted@ == json_string(text@),
        on_one_line(quoted@),
{
    proof {
        law_strings_go_on_one_line(text@);
    }
    display_string(text)
}

/// The JSON string of any text goes on one line.
pub proof fn law_strings_go_on_one_line(text: Seq<char>)
    ensures
        on_one_line(json_string(text)),
{
    lemma_escaped_on_one_line(text);
}

proof fn lemma_escape_on_one_line(c: char)
    ensures
        on_one_line(escaped(c)),
{
    if !(c >= ' ') {
        assert(0 <= c as int / 16 < 2);
        assert(hex_char(c as int / 16) >= '0');
        assert(hex_char(c as int % 16) >= '0');
    }
}

proof fn lemma_escaped_on_one_line(text: Seq<char>)
    ensures
        on_one_line(escaped_text(text)),
    decreases text.len(),
{
    if text.len() > 0 {
        lemma_escaped_on_one_line(text.drop_last());
        lemma_escape_on_one_line(text.last());
    }
}

/// What is left of a text that writes a value, without the white space around it, is the value.
pub proof fn law_white_space_around_a_value_is_trimmed(text: Seq<char>, value: JsonValue)
    requires
        prints(text, value),
    ensures
        trimmed(text) == json_text(value),
        trimmed(text).len() > 0,
{
    let (before, after) = choose|before: Seq<char>, after: Seq<char>|
        all_white_space(before) && all_white_space(after) && text == #[trigger] (before + json_text(
            value,
        ) + after);
    lemma_value_has_no_white_space_around(value);
    law_trimming_cuts_white_space_only(before, json_text(value), after);
}

proof fn lemma_value_has_no_white_space_around(value: JsonValue)
    ensures
        json_text(value).len() > 0,
        !white_space(json_text(value)[0]),
        !white_space(json_text(value).last()),
{
    reveal_strlit("null");
    reveal_strlit("true");
    reveal_strlit("false");
    if let JsonValue::Number(n) = value {
        lemma_signed_decimal_characters(n);
    }
}

/// A text writes one value at most: different values are written differently.
pub proof fn law_text_tells_the_value(a: JsonValue, b: JsonValue)
    requires
        json_text(a) == json_text(b),
    ensures
        a == b,
{
    assert(json_text(a) + Seq::<char>::empty() == json_text(a));
    assert(json_text(b) + Seq::<char>::empty() == json_text(b));
    lemma_value_is_read(a, b, Seq::empty(), Seq::empty());
}

/// Whether `text` may follow a value: it is empty or begins with what ends an item or a member.
spec fn follows_value(text: Seq<char>) -> bool {
    text.len() == 0 || text[0] == ',' || text[0] == ']' || text[0] == '}'
}

proof fn lemma_hex_char(d: int, e: int)
    requires
        0 <= d < 16,
        0 <= e < 16,
        hex_char(d) == hex_char(e),
    ensures
        d == e,
{
}

/// The first character of a string is told by what it begins with.
proof fn lemma_escape_is_read(c: char, d: char, x: Seq<char>, y: Seq<char>)
    requires
        escaped(c) + x == escaped(d) + y,
    ensures
        c == d,
        x == y,
{
    let left = escaped(c) + x;
    let right = escaped(d) + y;
    assert(left[0] == escaped(c)[0] && right[0] == escaped(d)[0]);
    if escaped(c).len() > 1 && escaped(d).len() > 1 {
        assert(left[1] == escaped(c)[1] && right[1] == escaped(d)[1]);
        if escaped(c).len() == 6 && escaped(d).len() == 6 {
            assert(left[4] == escaped(c)[4] && right[4] == escaped(d)[4]);
            assert(left[5] == escaped(c)[5] && right[5] == escaped(d)[5]);
            lemma_hex_char(c as int / 16, d as int / 16);
            lemma_hex_char(c as int % 16, d as int % 16);
        }
    }
    assert(c == d);
    let n = escaped(c).len() as int;
    assert(left.skip(n) == x);
    assert(right.skip(n) == y);
}

proof fn lemma_escaped_from_the_left(text: Seq<char>)
    requires
        text.len() > 0,
    ensures
        escaped_text(text) == escaped(text[0]) + escaped_text(text.skip(1)),
    decreases text.len(),
{
    let rest = text.skip(1);
    if rest.len() == 0 {
        assert(text.drop_last() == Seq::<char>::empty());
        assert(escaped_text(text.drop_last()) == Seq::<char>::empty());
        assert(escaped_text(rest) == Seq::<char>::empty());
        assert(escaped_text(text) == escaped(text[0]) + escaped_text(rest));
    } else {
        let shorter = text.drop_last();
        lemma_escaped_from_the_left(shorter);
        assert(shorter.skip(1) == rest.drop_last());
        assert(escaped_text(text) == escaped(text[0]) + escaped_text(rest));
    }
}

/// A string is told by the text that begins with it.
proof fn lemma_string_is_read(s: Seq<char>, t: Seq<char>, x: Seq<char>, y: Seq<char>)
    requires
        escaped_text(s) + (seq!['"'] + x) == escaped_text(t) + (seq!['"'] + y),
    ensures
        s == t,
        x == y,
    decreases s.len(),
{
    let left = escaped_text(s) + (seq!['"'] + x);
    let right = escaped_text(t) + (seq!['"'] + y);
    if s.len() > 0 {
        lemma_escaped_from_the_left(s);
        assert(left == escaped(s[0]) + (escaped_text(s.skip(1)) + (seq!['"'] + x)));
        assert(left[0] == escaped(s[0])[0]);
    }
    if t.len() > 0 {
        lemma_escaped_from_the_left(t);
        assert(right == escaped(t[0]) + (escaped_text(t.skip(1)) + (seq!['"'] + y)));
        assert(right[0] == escaped(t[0])[0]);
    }
    if s.len() > 0 && t.len() > 0 {
        lemma_escape_is_read(
            s[0],
            t[0],
            escaped_text(s.skip(1)) + (seq!['"'] + x),
            escaped_text(t.skip(1)) + (seq!['"'] + y),
        );
        lemma_string_is_read(s.skip(1), t.skip(1), x, y);
        assert(s == seq![s[0]] + s.skip(1));
        assert(t == seq![t[0]] + t.skip(1));
    } else {
        assert(s.len() == 0 ==> left[0] == '"');
        assert(t.len() == 0 ==> right[0] == '"');
        assert(s.len() == 0 && t.len() == 0);
        assert(left.skip(1) == x);
        assert(right.skip(1) == y);
        assert(s == t);
    }
}

/// A quoted string is told by the text that begins with it.
proof fn lemma_quoted_string_is_read(s: Seq<char>, t: Seq<char>, x: Seq<char>, y: Seq<char>)
    requires
        json_string(s) + x == json_string(t) + y,
    ensures
        s == t,
        x == y,
{
    let left = json_string(s) + x;
    let right = json_string(t) + y;
    assert(left.skip(1) == escaped_text(s) + (seq!['"'] + x));
    assert(right.skip(1) == escaped_text(t) + (seq!['"'] + y));
    lemma_string_is_read(s, t, x, y);
}

/// What the first character of a value says about it.
proof fn lemma_first_character(value: JsonValue)
    ensures
        json_text(value).len() > 0,
        json_text(value)[0] == 'n' <==> value is Null,
        json_text(value)[0] == 't' <==> value == JsonValue::Bool(true),
        json_text(value)[0] == 'f' <==> value == JsonValue::Bool(false),
        json_text(value)[0] == '"' <==> value is Text,
        json_text(value)[0] == '[' <==> value is List,
        json_text(value)[0] == '{' <==> value is Object,
        json_text(value)[0] != ']' && json_text(value)[0] != '}',
{
    reveal_strlit("null");
    reveal_strlit("true");
    reveal_strlit("false");
    if let JsonValue::Number(n) = value {
        lemma_signed_decimal_characters(n);
        let text = signed_decimal(n);
        assert(n >= 0 ==> '0' <= text[0] <= '9');
    }
}

/// A value is told by the text that begins with it.
proof fn lemma_value_is_read(a: JsonValue, b: JsonValue, x: Seq<char>, y: Seq<char>)
    requires
        json_text(a) + x == json_text(b) + y,
        follows_value(x),
        follows_value(y),
    ensures
        a == b,
        x == y,
    decreases a,
{
    let left = json_text(a) + x;
    let right = json_text(b) + y;
    lemma_first_character(a);
    lemma_first_character(b);
    assert(left[0] == json_text(a)[0] && right[0] == json_text(b)[0]);
    match (a, b) {
        (JsonValue::Number(m), JsonValue::Number(n)) => {
            lemma_signed_decimal_is_read(m, n, x, y);
        },
        (JsonValue::Text(s), JsonValue::Text(t)) => {
            lemma_quoted_string_is_read(s, t, x, y);
        },
        (JsonValue::List(p), JsonValue::List(q)) => {
            assert(left.skip(1) == items_text(p) + (seq![']'] + x));
            assert(right.skip(1) == items_text(q) + (seq![']'] + y));
            lemma_items_are_read(p, q, x, y);
        },
        (JsonValue::Object(p), JsonValue::Object(q)) => {
            assert(left.skip(1) == members_text(p) + (seq!['}'] + x));
            assert(right.skip(1) == members_text(q) + (seq!['}'] + y));
            lemma_members_are_read(p, q, x, y);
        },
        _ => {
            assert(a == b);
            let n = json_text(a).len() as int;
            assert(left.skip(n) == x);
            assert(right.skip(n) == y);
        },
    }
}

/// What follows the first item of a list.
spec fn after_item(items: Seq<JsonValue>, x: Seq<char>) -> Seq<char> {
    if items.len() == 1 {
        seq![']'] + x
    } else {
        seq![','] + (items_text(items.subrange(1, items.len() as int)) + (seq![']'] + x))
    }
}

proof fn lemma_items_are_read(
    p: Seq<JsonValue>,
    q: Seq<JsonValue>,
    x: Seq<char>,
    y: Seq<char>,
)
    requires
        items_text(p) + (seq![']'] + x) == items_text(q) + (seq![']'] + y),
    ensures
        p == q,
        x == y,
    decreases p,
{
    let left = items_text(p) + (seq![']'] + x);
    let right = items_text(q) + (seq![']'] + y);
    if p.len() > 0 {
        lemma_first_character(p[0]);
        assert(left == json_text(p[0]) + after_item(p, x));
        assert(left[0] == json_text(p[0])[0]);
    }
    if q.len() > 0 {
        lemma_first_character(q[0]);
        assert(right == json_text(q[0]) + after_item(q, y));
        assert(right[0] == json_text(q[0])[0]);
    }
    assert(p.len() == 0 ==> left[0] == ']');
    assert(q.len() == 0 ==> right[0] == ']');
    if p.len() == 0 {
        assert(left.skip(1) == x);
        assert(right.skip(1) == y);
        assert(p == q);
    } else {
        lemma_value_is_read(p[0], q[0], after_item(p, x), after_item(q, y));
        let m = after_item(p, x);
        let n = after_item(q, y);
        assert(m[0] == n[0]);
        if p.len() == 1 {
            assert(m.skip(1) == x);
            assert(n.skip(1) == y);
            assert(p == q);
        } else {
            let rest = p.subrange(1, p.len() as int);
            let other = q.subrange(1, q.len() as int);
            assert(m.skip(1) == items_text(rest) + (seq![']'] + x));
            assert(n.skip(1) == items_text(other) + (seq![']'] + y));
            lemma_items_are_read(rest, other, x, y);
            assert(p == seq![p[0]] + rest);
            assert(q == seq![q[0]] + other);
        }
    }
}

/// What follows the first member of an object.
spec fn after_member(members: Seq<(Seq<char>, JsonValue)>, x: Seq<char>) -> Seq<char> {
    if members.len() == 1 {
        seq!['}'] + x
    } else {
        seq![','] + (members_text(members.subrange(1, members.len() as int)) + (seq!['}'] + x))
    }
}

proof fn lemma_members_are_read(
    p: Seq<(Seq<char>, JsonValue)>,
    q: Seq<(Seq<char>, JsonValue)>,
    x: Seq<char>,
    y: Seq<char>,
)
    requires
        members_text(p) + (seq!['}'] + x) == members_text(q) + (seq!['}'] + y),
    ensures
        p == q,
        x == y,
    decreases p,
{
    let left = members_text(p) + (seq!['}'] + x);
    let right = members_text(q) + (seq!['}'] + y);
    if p.len() > 0 {
        assert(left == json_string(p[0].0) + (seq![':'] + (json_text(p[0].1) + after_member(p, x))));
        assert(left[0] == '"');
    }
    if q.len() > 0 {
        assert(right == json_string(q[0].0) + (seq![':'] + (json_text(q[0].1) + after_member(
            q,
            y,
        ))));
        assert(right[0] == '"');
    }
    assert(p.len() == 0 ==> left[0] == '}');
    assert(q.len() == 0 ==> right[0] == '}');
    if p.len() == 0 {
        assert(left.skip(1) == x);
        assert(right.skip(1) == y);
        assert(p == q);
    } else {
        let a = json_text(p[0].1) + after_member(p, x);
        let b = json_text(q[0].1) + after_member(q, y);
        lemma_quoted_string_is_read(p[0].0, q[0].0, seq![':'] + a, seq![':'] + b);
        assert((seq![':'] + a).skip(1) == a);
        assert((seq![':'] + b).skip(1) == b);
        lemma_value_is_read(p[0].1, q[0].1, after_member(p, x), after_member(q, y));
        let m = after_member(p, x);
        let n = after_member(q, y);
        assert(m[0] == n[0]);
        assert(p[0] == q[0]);
        if p.len() == 1 {
            assert(m.skip(1) == x);
            assert(n.skip(1) == y);
            assert(p == q);
        } else {
            let rest = p.subrange(1, p.len() as int);
            let other = q.subrange(1, q.len() as int);
            assert(m.skip(1) == members_text(rest) + (seq!['}'] + x));
            assert(n.skip(1) == members_text(other) + (seq!['}'] + y));
            lemma_members_are_read(rest, other, x, y);
            assert(p == seq![p[0]] + rest);
            assert(q == seq![q[0]] + other);
        }
    }
}

/// A number is told by the text that begins with it.
proof fn lemma_signed_decimal_is_read(m: int, n: int, x: Seq<char>, y: Seq<char>)
    requires
        signed_decimal(m) + x == signed_decimal(n) + y,
        follows_value(x),
        follows_value(y),
    ensures
        m == n,
        x == y,
{
    let a = signed_decimal(m);
    let b = signed_decimal(n);
    let left = a + x;
    let right = b + y;
    lemma_signed_decimal_characters(m);
    lemma_signed_decimal_characters(n);
    assert(left[0] == a[0] && right[0] == b[0]);
    if a.len() < b.len() {
        assert(right[a.len() as int] == b[a.len() as int]);
        assert(x.len() > 0);
        assert(left[a.len() as int] == x[0]);
        assert(n >= 0 ==> '0' <= b[a.len() as int] <= '9');
        assert(n < 0 ==> b.skip(1)[a.len() - 1] == b[a.len() as int]);
    }
    if b.len() < a.len() {
        assert(left[b.len() as int] == a[b.len() as int]);
        assert(y.len() > 0);
        assert(right[b.len() as int] == y[0]);
        assert(m >= 0 ==> '0' <= a[b.len() as int] <= '9');
        assert(m < 0 ==> a.skip(1)[b.len() - 1] == a[b.len() as int]);
    }
    assert(a.len() == b.len());
    assert(left.take(a.len() as int) == a);
    assert(right.take(b.len() as int) == b);
    assert(left.skip(a.len() as int) == x);
    assert(right.skip(b.len() as int) == y);
    law_signed_decimal_tells_the_number(m, n);
}

/// A text without quotes, backslashes and characters below the space is not changed by quoting.
pub proof fn law_plain_texts_are_only_quoted(text: &str, quoted: String)
    requires
        call_ensures(quote_json, (text,), quoted),
        forall|i: int|
            0 <= i < text@.len() ==> #[trigger] text@[i] >= ' ' && text@[i] != '"' && text@[i]
                != '\\',
    ensures
        quoted@ == seq!['"'] + text@ + seq!['"'],
{
    lemma_plain_text(text@);
}

pub proof fn lemma_plain_text(text: Seq<char>)
    requires
        forall|i: int|
            0 <= i < text.len() ==> #[trigger] text[i] >= ' ' && text[i] != '"' && text[i] != '\\',
    ensures
        escaped_text(text) == text,
    decreases text.len(),
{
    if text.len() > 0 {
        let shorter = text.drop_last();
        assert forall|i: int| 0 <= i < shorter.len() implies #[trigger] shorter[i] >= ' '
            && shorter[i] != '"' && shorter[i] != '\\' by {
            assert(shorter[i] == text[i]);
        }
        lemma_plain_text(shorter);
        assert(text[text.len() - 1] >= ' ');
        assert(text == shorter + seq![text.last()]);
    } else {
        assert(text == Seq::<char>::empty());
    }
}

/// Different texts are quoted differently, and a quoted text begins and ends with a quote and is
/// one line.
pub proof fn law_quoting_tells_texts_apart(a: &str, b: &str, quoted: String, other: String)
    requires
        call_ensures(quote_json, (a,), quoted),
        call_ensures(quote_json, (b,), other),
    ensures
        quoted@ == other@ <==> a@ == b@,
        quoted@.len() >= a@.len() + 2,
        quoted@[0] == '"' && quoted@.last() == '"',
        forall|i: int| 0 <= i < quoted@.len() ==> #[trigger] quoted@[i] >= ' ',
{
    lemma_escapes_are_no_shorter(a@);
    if quoted@ == other@ {
        assert(json_string(a@) + Seq::<char>::empty() == json_string(a@));
        assert(json_string(b@) + Seq::<char>::empty() == json_string(b@));
        lemma_quoted_string_is_read(a@, b@, Seq::empty(), Seq::empty());
    }
}

proof fn lemma_escapes_are_no_shorter(text: Seq<char>)
    ensures
        escaped_text(text).len() >= text.len(),
    decreases text.len(),
{
    if text.len() > 0 {
        lemma_escapes_are_no_shorter(text.drop_last());
    }
}

/// How an object of two members is written.
pub proof fn lemma_two_members(a: (Seq<char>, JsonValue), b: (Seq<char>, JsonValue))
    ensures
        members_text(seq![a, b]) == json_string(a.0) + seq![':'] + json_text(a.1) + seq![',']
            + json_string(b.0) + seq![':'] + json_text(b.1),
{
    let two = seq![a, b];
    let one = two.subrange(1, 2);
    assert(one == seq![b]);
    assert(members_text(one) == json_string(b.0) + seq![':'] + json_text(b.1));
    assert(members_text(two) == json_string(a.0) + seq![':'] + json_text(a.1) + seq![',']
        + members_text(one));
    assert(members_text(two) =~= json_string(a.0) + seq![':'] + json_text(a.1) + seq![',']
        + json_string(b.0) + seq![':'] + json_text(b.1));
}

/// How an object is written that has one member more, in front of others.
pub proof fn lemma_more_members(a: (Seq<char>, JsonValue), rest: Seq<(Seq<char>, JsonValue)>)
    requires
        rest.len() > 0,
    ensures
        members_text(seq![a] + rest) == json_string(a.0) + seq![':'] + json_text(a.1) + seq![',']
            + members_text(rest),
{
    let all = seq![a] + rest;
    assert(all.subrange(1, all.len() as int) == rest);
    assert(all[0] == a);
}

/// Which values fit: all but numbers beyond 64 bits and lists and objects nested too deep.
pub proof fn law_what_fits(value: JsonValue, levels: nat)
    ensures
        value is Null || value is Bool || value is Text ==> fits(value, levels),
        value matches JsonValue::Number(n) ==> (fits(value, levels)
            <==> -0x8000_0000_0000_0000 <= n <= 0xffff_ffff_ffff_ffff),
        value matches JsonValue::List(items) ==> (fits(value, levels + 1) <==> forall|i: int|
            0 <= i < items.len() ==> fits(#[trigger] items[i], levels)),
        value matches JsonValue::Object(members) ==> (fits(value, levels + 1) <==> forall|i: int|
            0 <= i < members.len() ==> fits((#[trigger] members[i]).1, levels)),
{
}

/// A value that fits is printed by its text, with any white space around it.
pub proof fn law_values_are_printed_with_white_space(
    before: Seq<char>,
    value: JsonValue,
    after: Seq<char>,
)
    requires
        fits(value, 127),
        all_white_space(before),
        all_white_space(after),
    ensures
        prints(before + json_text(value) + after, value),
        writes_value(json_text(value)),
{
}

/// How values are written: words and numerals as they are, texts quoted, lists in brackets and
/// objects in braces, with commas between their parts and colons behind the names.
pub proof fn law_values_are_written_in_json(
    value: JsonValue,
    more: Seq<JsonValue>,
    name: Seq<char>,
    members: Seq<(Seq<char>, JsonValue)>,
    n: int,
)
    ensures
        json_text(JsonValue::Null) == "null"@,
        json_text(JsonValue::Bool(true)) == "true"@,
        json_text(JsonValue::Bool(false)) == "false"@,
        json_text(JsonValue::Number(n)) == signed_decimal(n),
        json_text(JsonValue::Text(name)) == json_string(name),
        json_text(JsonValue::List(Seq::empty())) == seq!['[', ']'],
        json_text(JsonValue::Object(Seq::empty())) == seq!['{', '}'],
        json_text(JsonValue::List(seq![value])) == seq!['['] + json_text(value) + seq![']'],
        more.len() > 0 ==> json_text(JsonValue::List(seq![value] + more)) == seq!['['] + json_text(
            value,
        ) + seq![','] + json_text(JsonValue::List(more)).skip(1),
        json_text(JsonValue::Object(seq![(name, value)])) == seq!['{'] + json_string(name)
            + seq![':'] + json_text(value) + seq!['}'],
        members.len() > 0 ==> json_text(JsonValue::Object(seq![(name, value)] + members))
            == seq!['{'] + json_string(name) + seq![':'] + json_text(value) + seq![',']
            + json_text(JsonValue::Object(members)).skip(1),
{
    assert(items_text(Seq::empty()) == Seq::<char>::empty());
    assert(members_text(Seq::empty()) == Seq::<char>::empty());
    assert(json_text(JsonValue::List(Seq::empty())) =~= seq!['[', ']']);
    assert(json_text(JsonValue::Object(Seq::empty())) =~= seq!['{', '}']);
    assert(items_text(seq![value]) == json_text(value));
    assert(members_text(seq![(name, value)]) == json_string(name) + seq![':'] + json_text(value));
    assert(json_text(JsonValue::Object(seq![(name, value)])) =~= seq!['{'] + json_string(name)
        + seq![':'] + json_text(value) + seq!['}']);
    if more.len() > 0 {
        let all = seq![value] + more;
        assert(all.subrange(1, all.len() as int) == more);
        assert(items_text(all) == json_text(value) + seq![','] + items_text(more));
        assert(json_text(JsonValue::List(more)).skip(1) =~= items_text(more) + seq![']']);
        assert(json_text(JsonValue::List(all)) =~= seq!['['] + json_text(value) + seq![',']
            + json_text(JsonValue::List(more)).skip(1));
    }
    if members.len() > 0 {
        lemma_more_members((name, value), members);
        assert(json_text(JsonValue::Object(members)).skip(1) =~= members_text(members) + seq!['}']);
        assert(json_text(JsonValue::Object(seq![(name, value)] + members)) =~= seq!['{']
            + json_string(name) + seq![':'] + json_text(value) + seq![',']
            + json_text(JsonValue::Object(members)).skip(1));
    }
}

/// How characters are escaped: quotes and backslashes by a backslash, the characters below the
/// space by a letter or by their number, and no others. A text is escaped character by character.
pub proof fn law_characters_are_escaped_one_by_one(a: Seq<char>, b: Seq<char>, c: char)
    ensures
        escaped_text(a + b) == escaped_text(a) + escaped_text(b),
        c >= ' ' && c != '"' && c != '\\' ==> escaped_text(seq![c]) == seq![c],
        c == '"' || c == '\\' ==> escaped_text(seq![c]) == seq!['\\', c],
        !(c >= ' ') ==> escaped_text(seq![c])[0] == '\\' && (escaped_text(seq![c]).len() == 2
            || escaped_text(seq![c]).len() == 6),
        escaped_text(seq!['\n']) == seq!['\\', 'n'],
        escaped_text(seq!['\t']) == seq!['\\', 't'],
        escaped_text(seq!['\r']) == seq!['\\', 'r'],
        escaped_text(seq!['\u{8}']) == seq!['\\', 'b'],
        escaped_text(seq!['\u{c}']) == seq!['\\', 'f'],
    decreases b.len(),
{
    lemma_escape_alone(c);
    lemma_escape_alone('\n');
    lemma_escape_alone('\t');
    lemma_escape_alone('\r');
    lemma_escape_alone('\u{8}');
    lemma_escape_alone('\u{c}');
    if b.len() == 0 {
        assert(a + b == a);
        assert(escaped_text(b) == Seq::<char>::empty());
        assert(escaped_text(a + b) == escaped_text(a) + escaped_text(b));
    } else {
        law_characters_are_escaped_one_by_one(a, b.drop_last(), c);
        assert((a + b).drop_last() == a + b.drop_last());
        assert(escaped_text(a + b) =~= escaped_text(a) + escaped_text(b));
    }
}

proof fn lemma_escape_alone(c: char)
    ensures
        escaped_text(seq![c]) == escaped(c),
{
    assert(seq![c].drop_last() == Seq::<char>::empty());
    assert(escaped_text(Seq::<char>::empty()) == Seq::<char>::empty());
    assert(escaped_text(seq![c]) =~= escaped(c));
}

} // verus!
