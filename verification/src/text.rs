//! Text: decimal numerals, prefixes, white space, padding and order.

use vstd::prelude::*;
use vstd::string::*;

verus! {

/// The characters of `text`, in order.
pub fn chars_of(text: &str) -> (chars: Vec<char>)
    ensures
        chars@ == text@,
{
    let mut chars: Vec<char> = Vec::new();
    for c in it: text.chars()
        invariant
            chars@ == it.seq().take(it.index()),
            it.seq() == text@,
    {
        chars.push(c);
    }
    chars
}

/// The character that stands for the digit `d`.
pub open spec fn digit_char(d: int) -> char {
    (d + '0' as int) as char
}

/// The decimal numeral of `n`, without leading zeros.
pub open spec fn decimal(n: nat) -> Seq<char>
    decreases n,
{
    if n < 10 {
        seq![digit_char(n as int)]
    } else {
        decimal(n / 10).push(digit_char((n % 10) as int))
    }
}

/// The decimal numeral of `i`, with a leading `-` where `i` is negative.
pub open spec fn signed_decimal(i: int) -> Seq<char> {
    if i < 0 {
        seq!['-'] + decimal((-i) as nat)
    } else {
        decimal(i as nat)
    }
}

/// The numeral of a single digit.
fn digit_text(d: u64) -> (text: &'static str)
    requires
        d < 10,
    ensures
        text@ == seq![digit_char(d as int)],
{
    proof {
        reveal_strlit("0");
        reveal_strlit("1");
        reveal_strlit("2");
        reveal_strlit("3");
        reveal_strlit("4");
        reveal_strlit("5");
        reveal_strlit("6");
        reveal_strlit("7");
        reveal_strlit("8");
        reveal_strlit("9");
    }
    match d {
        0 => "0",
        1 => "1",
        2 => "2",
        3 => "3",
        4 => "4",
        5 => "5",
        6 => "6",
        7 => "7",
        8 => "8",
        _ => "9",
    }
}

/// Writes `n` in decimal.
pub fn decimal_text(n: u64) -> (text: String)
    ensures
        text@ == decimal(n as nat),
    decreases n,
{
    if n < 10 {
        digit_text(n).to_owned()
    } else {
        let mut text = decimal_text(n / 10);
        text.append(digit_text(n % 10));
        text
    }
}

/// Writes `i` in decimal.
pub fn signed_decimal_text(i: i32) -> (text: String)
    ensures
        text@ == signed_decimal(i as int),
{
    if i < 0 {
        let magnitude: u64 = (-(i as i64)) as u64;
        let mut text = "-".to_owned();
        text.append(decimal_text(magnitude).as_str());
        proof {
            reveal_strlit("-");
        }
        text
    } else {
        decimal_text(i as u64)
    }
}

/// Whether every character of `s` is an ASCII digit.
pub open spec fn all_digits(s: Seq<char>) -> bool {
    forall|i: int| 0 <= i < s.len() ==> '0' <= #[trigger] s[i] <= '9'
}

/// The number that the digits `s` write in base ten.
pub open spec fn digits_value(s: Seq<char>) -> nat
    decreases s.len(),
{
    if s.len() == 0 {
        0
    } else {
        digits_value(s.drop_last()) * 10 + (s.last() as nat - '0' as nat) as nat
    }
}

/// What is left of `s` behind an optional leading `+`.
pub open spec fn without_plus(s: Seq<char>) -> Seq<char> {
    if s.len() > 0 && s[0] == '+' {
        s.skip(1)
    } else {
        s
    }
}

/// The number that `s` writes: an optional `+`, then one digit or more, and nothing else.
pub open spec fn unsigned_value(s: Seq<char>) -> Option<nat> {
    let digits = without_plus(s);
    if digits.len() > 0 && all_digits(digits) {
        Some(digits_value(digits))
    } else {
        None
    }
}

/// More digits never write a smaller number.
proof fn lemma_digits_value_grows(s: Seq<char>, n: int)
    requires
        all_digits(s),
        0 <= n <= s.len(),
    ensures
        digits_value(s.take(n)) <= digits_value(s),
    decreases s.len(),
{
    if n < s.len() {
        let shorter = s.drop_last();
        assert(shorter.take(n) == s.take(n));
        assert(all_digits(shorter)) by {
            assert forall|i: int| 0 <= i < shorter.len() implies '0' <= #[trigger] shorter[i]
                <= '9' by {
                assert(shorter[i] == s[i]);
            }
        }
        lemma_digits_value_grows(shorter, n);
    } else {
        assert(s.take(n) == s);
    }
}

/// Reads an unsigned decimal number that is at most `max`.
///
/// The text is an optional `+` and then digits only: white space, underscores and a `-` are
/// refused, as are the empty text and a `+` alone.
pub fn parse_unsigned(text: &str, max: u64) -> (number: Option<u64>)
    ensures
        number == (match unsigned_value(text@) {
            Some(v) => if v <= max {
                Some(v as u64)
            } else {
                None
            },
            None => None,
        }),
{
    let chars = chars_of(text);
    let start: usize = if chars.len() > 0 && chars[0] == '+' {
        1
    } else {
        0
    };
    let ghost digits = without_plus(text@);
    assert(digits == text@.skip(start as int));
    if chars.len() == start {
        return None;
    }
    let mut value: u64 = 0;
    let mut i: usize = start;
    while i < chars.len()
        invariant
            start <= i <= chars.len(),
            start <= 1,
            chars@ == text@,
            digits == text@.skip(start as int),
            digits == without_plus(text@),
            all_digits(digits.take(i - start)),
            value == digits_value(digits.take(i - start)),
            value <= max,
        decreases chars.len() - i,
    {
        let c = chars[i];
        assert(digits[i - start] == c);
        if c < '0' || c > '9' {
            assert(!all_digits(digits));
            return None;
        }
        let d: u64 = (c as u32 - '0' as u32) as u64;
        let ghost longer = digits.take(i + 1 - start);
        proof {
            assert(longer.drop_last() == digits.take(i - start));
            assert(longer.last() == c);
            assert forall|k: int| 0 <= k < longer.len() implies '0' <= #[trigger] longer[k]
                <= '9' by {
                if k < i - start {
                    assert(longer[k] == digits.take(i - start)[k]);
                }
            }
            assert(digits_value(longer) == value * 10 + d);
            if all_digits(digits) {
                lemma_digits_value_grows(digits, i + 1 - start);
            }
        }
        if value > max / 10 || d > max - value * 10 {
            return None;
        }
        value = value * 10 + d;
        i = i + 1;
    }
    assert(digits.take(digits.len() as int) == digits);
    Some(value)
}

proof fn lemma_decimal_digits(n: nat)
    ensures
        decimal(n).len() > 0,
        all_digits(decimal(n)),
        digits_value(decimal(n)) == n,
    decreases n,
{
    if n < 10 {
        let d = digit_char(n as int);
        assert(decimal(n).drop_last() =~= Seq::<char>::empty());
        assert(digits_value(Seq::empty()) == 0);
        assert('0' <= d <= '9');
    } else {
        lemma_decimal_digits(n / 10);
        let shorter = decimal(n / 10);
        let d = digit_char((n % 10) as int);
        assert(decimal(n).drop_last() =~= shorter);
        assert('0' <= d <= '9');
        assert forall|i: int| 0 <= i < decimal(n).len() implies '0' <= #[trigger] decimal(n)[i]
            <= '9' by {
            if i < shorter.len() {
                assert(decimal(n)[i] == shorter[i]);
            }
        }
    }
}

/// A number that was written in decimal is read back as it was.
pub proof fn law_decimal_is_read_back(n: nat)
    ensures
        unsigned_value(decimal(n)) == Some(n),
{
    lemma_decimal_digits(n);
    assert('0' <= decimal(n)[0] <= '9');
}

/// A numeral is made of digits, behind a `-` where the number is negative.
pub proof fn lemma_signed_decimal_characters(i: int)
    ensures
        signed_decimal(i).len() > 0,
        '0' <= signed_decimal(i).last() <= '9',
        i >= 0 ==> all_digits(signed_decimal(i)),
        i < 0 ==> signed_decimal(i)[0] == '-' && all_digits(signed_decimal(i).skip(1)),
{
    let n = if i < 0 {
        -i
    } else {
        i
    } as nat;
    lemma_decimal_digits(n);
    let digits = decimal(n);
    assert('0' <= digits[digits.len() - 1] <= '9');
    assert(i < 0 ==> signed_decimal(i).skip(1) == digits);
}

/// Different numbers have different numerals.
pub proof fn law_signed_decimal_tells_the_number(i: int, k: int)
    requires
        signed_decimal(i) == signed_decimal(k),
    ensures
        i == k,
{
    lemma_signed_decimal_characters(i);
    lemma_signed_decimal_characters(k);
    assert(i >= 0 ==> '0' <= signed_decimal(i)[0] <= '9');
    assert(k >= 0 ==> '0' <= signed_decimal(k)[0] <= '9');
    if i < 0 {
        assert(signed_decimal(i).skip(1) == decimal((-i) as nat));
        assert(signed_decimal(k).skip(1) == decimal((-k) as nat));
        lemma_decimal_digits((-i) as nat);
        lemma_decimal_digits((-k) as nat);
    } else {
        lemma_decimal_digits(i as nat);
        lemma_decimal_digits(k as nat);
    }
}

/// Whether `text` begins with `prefix`.
pub fn has_prefix(text: &str, prefix: &str) -> (found: bool)
    ensures
        found == prefix@.is_prefix_of(text@),
{
    let chars = chars_of(text);
    let wanted = chars_of(prefix);
    if wanted.len() > chars.len() {
        return false;
    }
    let mut i: usize = 0;
    while i < wanted.len()
        invariant
            0 <= i <= wanted.len() <= chars.len(),
            chars@ == text@,
            wanted@ == prefix@,
            forall|k: int| 0 <= k < i ==> wanted@[k] == chars@[k],
        decreases wanted.len() - i,
    {
        if wanted[i] != chars[i] {
            assert(prefix@[i as int] != text@.subrange(0, prefix@.len() as int)[i as int]);
            return false;
        }
        i = i + 1;
    }
    assert(prefix@ =~= text@.subrange(0, prefix@.len() as int));
    true
}

/// Whether `c` has the Unicode property White_Space.
pub open spec fn white_space(c: char) -> bool {
    ||| '\u{9}' <= c <= '\u{d}'
    ||| c == ' '
    ||| c == '\u{85}'
    ||| c == '\u{a0}'
    ||| c == '\u{1680}'
    ||| '\u{2000}' <= c <= '\u{200a}'
    ||| '\u{2028}' <= c <= '\u{2029}'
    ||| c == '\u{202f}'
    ||| c == '\u{205f}'
    ||| c == '\u{3000}'
}

/// Whether `c` is white space.
pub fn is_white_space(c: char) -> (found: bool)
    ensures
        found == white_space(c),
{
    match c {
        '\u{9}'..='\u{d}' => true,
        ' ' => true,
        '\u{85}' => true,
        '\u{a0}' => true,
        '\u{1680}' => true,
        '\u{2000}'..='\u{200a}' => true,
        '\u{2028}'..='\u{2029}' => true,
        '\u{202f}' => true,
        '\u{205f}' => true,
        '\u{3000}' => true,
        _ => false,
    }
}

/// `s` without the white space that it begins with.
pub open spec fn trim_start(s: Seq<char>) -> Seq<char>
    decreases s.len(),
{
    if s.len() > 0 && white_space(s[0]) {
        trim_start(s.skip(1))
    } else {
        s
    }
}

/// `s` without the white space that it ends with.
pub open spec fn trim_end(s: Seq<char>) -> Seq<char>
    decreases s.len(),
{
    if s.len() > 0 && white_space(s.last()) {
        trim_end(s.drop_last())
    } else {
        s
    }
}

/// `s` without the white space around it.
pub open spec fn trimmed(s: Seq<char>) -> Seq<char> {
    trim_end(trim_start(s))
}

proof fn lemma_trim_start_at(s: Seq<char>, n: int)
    requires
        0 <= n <= s.len(),
        forall|i: int| 0 <= i < n ==> white_space(#[trigger] s[i]),
        n < s.len() ==> !white_space(s[n]),
    ensures
        trim_start(s) == s.skip(n),
    decreases n,
{
    if n > 0 {
        assert(white_space(s[0]));
        let rest = s.skip(1);
        assert forall|i: int| 0 <= i < n - 1 implies white_space(#[trigger] rest[i]) by {
            assert(rest[i] == s[i + 1]);
        }
        lemma_trim_start_at(rest, n - 1);
        assert(rest.skip(n - 1) == s.skip(n));
    } else {
        assert(s.skip(0) == s);
    }
}

proof fn lemma_trim_end_at(s: Seq<char>, n: int)
    requires
        0 <= n <= s.len(),
        forall|i: int| n <= i < s.len() ==> white_space(#[trigger] s[i]),
        n > 0 ==> !white_space(s[n - 1]),
    ensures
        trim_end(s) == s.take(n),
    decreases s.len(),
{
    if n < s.len() {
        assert(white_space(s[s.len() - 1]));
        let rest = s.drop_last();
        assert forall|i: int| n <= i < rest.len() implies white_space(#[trigger] rest[i]) by {
            assert(rest[i] == s[i]);
        }
        lemma_trim_end_at(rest, n);
        assert(rest.take(n) == s.take(n));
    } else {
        assert(s.take(n) == s);
    }
}

/// Cuts the white space at both ends of `text`.
pub fn trim(text: &str) -> (inner: &str)
    ensures
        inner@ == trimmed(text@),
{
    let chars = chars_of(text);
    let mut start: usize = 0;
    while start < chars.len() && is_white_space(chars[start])
        invariant
            start <= chars.len(),
            forall|i: int| 0 <= i < start ==> white_space(#[trigger] chars@[i]),
        decreases chars.len() - start,
    {
        start = start + 1;
    }
    let mut end: usize = chars.len();
    while end > start && is_white_space(chars[end - 1])
        invariant
            start <= end <= chars.len(),
            forall|i: int| end <= i < chars.len() ==> white_space(#[trigger] chars@[i]),
        decreases end,
    {
        end = end - 1;
    }
    proof {
        lemma_trim_start_at(text@, start as int);
        let rest = text@.skip(start as int);
        assert forall|i: int| end - start <= i < rest.len() implies white_space(
            #[trigger] rest[i],
        ) by {
            assert(rest[i] == chars@[i + start]);
        }
        lemma_trim_end_at(rest, end - start);
        assert(rest.take(end - start) == text@.subrange(start as int, end as int));
    }
    text.substring_char(start, end)
}

/// Whether `s` is nothing but white space.
pub open spec fn all_white_space(s: Seq<char>) -> bool {
    forall|i: int| 0 <= i < s.len() ==> white_space(#[trigger] s[i])
}

proof fn lemma_trim_start_skips(before: Seq<char>, s: Seq<char>)
    requires
        all_white_space(before),
    ensures
        trim_start(before + s) == trim_start(s),
    decreases before.len(),
{
    if before.len() == 0 {
        assert(before + s =~= s);
    } else {
        let rest = before.skip(1);
        assert((before + s).skip(1) =~= rest + s);
        assert(white_space(before[0]));
        assert forall|i: int| 0 <= i < rest.len() implies white_space(#[trigger] rest[i]) by {
            assert(rest[i] == before[i + 1]);
        }
        lemma_trim_start_skips(rest, s);
    }
}

proof fn lemma_trim_end_skips(s: Seq<char>, after: Seq<char>)
    requires
        all_white_space(after),
    ensures
        trim_end(s + after) == trim_end(s),
    decreases after.len(),
{
    if after.len() == 0 {
        assert(s + after =~= s);
    } else {
        let rest = after.drop_last();
        assert((s + after).drop_last() =~= s + rest);
        assert(white_space(after[after.len() - 1]));
        assert forall|i: int| 0 <= i < rest.len() implies white_space(#[trigger] rest[i]) by {
            assert(rest[i] == after[i]);
        }
        lemma_trim_end_skips(s, rest);
    }
}

proof fn lemma_trim_start_keeps_end(s: Seq<char>, after: Seq<char>)
    requires
        all_white_space(after),
    ensures
        trim_end(trim_start(s + after)) == trim_end(trim_start(s)),
    decreases s.len(),
{
    if s.len() > 0 && white_space(s[0]) {
        assert((s + after).skip(1) =~= s.skip(1) + after);
        lemma_trim_start_keeps_end(s.skip(1), after);
    } else if s.len() > 0 {
        lemma_trim_end_skips(s, after);
    } else {
        assert(s + after =~= after + s);
        lemma_trim_start_skips(after, s);
    }
}

/// White space around a text is cut off, and nothing else is.
pub proof fn law_trimming_cuts_white_space_only(before: Seq<char>, s: Seq<char>, after: Seq<char>)
    requires
        all_white_space(before),
        all_white_space(after),
    ensures
        trimmed(before + s + after) == trimmed(s),
        s.len() > 0 && !white_space(s[0]) && !white_space(s.last()) ==> trimmed(
            before + s + after,
        ) == s,
{
    assert(before + s + after =~= before + (s + after));
    lemma_trim_start_skips(before, s + after);
    lemma_trim_start_keeps_end(s, after);
}

/// `s` with spaces behind it until it is `width` characters wide; a wider `s` stays as it is.
pub open spec fn padded(s: Seq<char>, width: nat) -> Seq<char> {
    if s.len() >= width {
        s
    } else {
        s + Seq::new((width - s.len()) as nat, |i: int| ' ')
    }
}

/// Pads `text` with spaces on the right to `width` characters.
pub fn pad_right(text: &str, width: usize) -> (line: String)
    ensures
        line@ == padded(text@, width as nat),
{
    let mut line = text.to_owned();
    let mut len: usize = text.unicode_len();
    while len < width
        invariant
            text@.len() <= len,
            len <= width || len == text@.len(),
            line@ == text@ + Seq::new((len - text@.len()) as nat, |i: int| ' '),
        decreases width - len,
    {
        proof {
            reveal_strlit(" ");
        }
        line.append(" ");
        len = len + 1;
    }
    line
}

/// Whether `a` comes no later than `b` in the order of Unicode code points.
pub open spec fn text_le(a: Seq<char>, b: Seq<char>) -> bool
    decreases a.len(),
{
    if a.len() == 0 {
        true
    } else if b.len() == 0 {
        false
    } else if a[0] != b[0] {
        a[0] < b[0]
    } else {
        text_le(a.skip(1), b.skip(1))
    }
}

proof fn lemma_text_le_after_equal(a: Seq<char>, b: Seq<char>, n: int)
    requires
        0 <= n <= a.len(),
        n <= b.len(),
        forall|i: int| 0 <= i < n ==> a[i] == b[i],
    ensures
        text_le(a, b) == text_le(a.skip(n), b.skip(n)),
    decreases n,
{
    if n == 0 {
        assert(a.skip(0) == a);
        assert(b.skip(0) == b);
    } else {
        lemma_text_le_after_equal(a.skip(1), b.skip(1), n - 1);
        assert(a.skip(1).skip(n - 1) == a.skip(n));
        assert(b.skip(1).skip(n - 1) == b.skip(n));
    }
}

/// Whether `a` sorts no later than `b`.
pub fn sorts_before(a: &str, b: &str) -> (found: bool)
    ensures
        found == text_le(a@, b@),
{
    let left = chars_of(a);
    let right = chars_of(b);
    let mut i: usize = 0;
    while i < left.len() && i < right.len() && left[i] == right[i]
        invariant
            i <= left.len(),
            i <= right.len(),
            forall|k: int| 0 <= k < i ==> left@[k] == right@[k],
        decreases left.len() - i,
    {
        i = i + 1;
    }
    proof {
        lemma_text_le_after_equal(a@, b@, i as int);
    }
    if i == left.len() {
        true
    } else if i == right.len() {
        false
    } else {
        left[i] < right[i]
    }
}

/// The order of texts is total: any two compare, and texts that sort both ways are equal.
pub proof fn lemma_text_le_total(a: Seq<char>, b: Seq<char>)
    ensures
        text_le(a, b) || text_le(b, a),
        text_le(a, b) && text_le(b, a) ==> a == b,
    decreases a.len(),
{
    if a.len() > 0 && b.len() > 0 {
        if a[0] == b[0] {
            lemma_text_le_total(a.skip(1), b.skip(1));
            if text_le(a, b) && text_le(b, a) {
                assert(a == seq![a[0]] + a.skip(1));
                assert(b == seq![b[0]] + b.skip(1));
            }
        }
    } else {
        assert(a.len() == b.len() ==> a == b);
    }
}

/// The order of texts is transitive.
pub proof fn lemma_text_le_transitive(a: Seq<char>, b: Seq<char>, c: Seq<char>)
    requires
        text_le(a, b),
        text_le(b, c),
    ensures
        text_le(a, c),
    decreases a.len(),
{
    if a.len() > 0 && a[0] == b[0] && b[0] == c[0] {
        lemma_text_le_transitive(a.skip(1), b.skip(1), c.skip(1));
    }
}

/// Numerals count in tens: a further digit makes ten times the number, and the digit more. Both
/// writing and reading keep to that, and a single digit stands for itself.
pub proof fn law_numerals_count_in_tens(
    n: u64,
    d: u64,
    longer: String,
    shorter: String,
    digit: String,
)
    requires
        0 < n,
        d < 10,
        n * 10 + d <= u64::MAX,
        call_ensures(decimal_text, ((n * 10 + d) as u64,), longer),
        call_ensures(decimal_text, (n,), shorter),
        call_ensures(decimal_text, (d,), digit),
    ensures
        longer@ == shorter@ + digit@,
        digit@.len() == 1,
        digit@[0] as int == '0' as int + d,
        longer@[0] != '0',
{
    assert((n * 10 + d) / 10 == n && (n * 10 + d) % 10 == d);
    assert(longer@ == shorter@.push(digit_char(d as int)));
    assert(digit@ == seq![digit_char(d as int)]);
    lemma_decimal_does_not_begin_with_zero((n * 10 + d) as nat);
}

proof fn lemma_decimal_does_not_begin_with_zero(n: nat)
    requires
        n > 0,
    ensures
        decimal(n).len() > 0,
        decimal(n)[0] != '0',
    decreases n,
{
    if n >= 10 {
        lemma_decimal_does_not_begin_with_zero(n / 10);
    }
}

/// A negative number is written as its counterpart behind a `-`.
pub proof fn law_negative_numbers_have_a_minus_sign(i: i32, negative: String, positive: String)
    requires
        i32::MIN < i < 0,
        call_ensures(signed_decimal_text, (i,), negative),
        call_ensures(signed_decimal_text, ((-i) as i32,), positive),
    ensures
        negative@ == seq!['-'] + positive@,
        positive@[0] != '-',
{
    lemma_signed_decimal_characters(-i);
    assert('0' <= signed_decimal(-i)[0] <= '9');
}

/// What is read from a text is read back from it with one more digit, ten times as large and the
/// digit more, as long as that is within the limit.
pub proof fn law_another_digit_counts(
    text: &str,
    longer: &str,
    d: u64,
    max: u64,
    number: Option<u64>,
    larger: Option<u64>,
)
    requires
        d < 10,
        longer@ == text@.push(('0' as int + d) as char),
        call_ensures(parse_unsigned, (text, max), number),
        call_ensures(parse_unsigned, (longer, max), larger),
    ensures
        number matches Some(n) ==> larger == (if n * 10 + d <= max {
            Some((n * 10 + d) as u64)
        } else {
            None
        }),
        text@.len() > 0 && text@ != seq!['+'] && number is None ==> larger is None,
        text@.len() == 0 || text@ == seq!['+'] ==> larger == (if d <= max {
            Some(d)
        } else {
            None
        }),
{
    let digits = without_plus(text@);
    let more = without_plus(longer@);
    let c = ('0' as int + d) as char;
    assert('0' <= c <= '9');
    if text@.len() > 0 {
        assert(more == digits.push(c));
        assert(more.drop_last() == digits);
        if digits.len() > 0 {
            if all_digits(digits) {
                assert forall|i: int| 0 <= i < more.len() implies '0' <= #[trigger] more[i]
                    <= '9' by {
                    if i < digits.len() {
                        assert(more[i] == digits[i]);
                    }
                }
            } else {
                let i = choose|i: int|
                    0 <= i < digits.len() && !('0' <= #[trigger] digits[i] <= '9');
                assert(more[i] == digits[i]);
            }
        } else {
            assert(text@ == seq!['+']);
        }
    }
    if text@.len() == 0 || text@ == seq!['+'] {
        assert(more == seq![c]);
        assert(more.drop_last() == Seq::<char>::empty());
        assert(digits_value(Seq::<char>::empty()) == 0);
    }
}

/// A text is no number where it is empty, a `+` alone, or holds anything but digits behind that.
pub proof fn law_only_digits_are_numbers(text: &str, max: u64, number: Option<u64>, i: int)
    requires
        call_ensures(parse_unsigned, (text, max), number),
        text@.len() == 0 || text@ == seq!['+'] || (0 <= i < text@.len() && !('0' <= text@[i]
            <= '9') && !(i == 0 && text@[0] == '+')),
    ensures
        number is None,
{
    let digits = without_plus(text@);
    if text@.len() > 0 && text@ != seq!['+'] {
        if text@[0] == '+' {
            assert(digits[i - 1] == text@[i]);
        } else {
            assert(digits[i] == text@[i]);
        }
    }
}

/// What is left of a text is its inside: nothing but white space was around it, and there is none
/// left at its ends.
pub proof fn law_trimming_leaves_the_inside(text: &str, inner: &str) -> (around: (
    Seq<char>,
    Seq<char>,
))
    requires
        call_ensures(trim, (text,), inner),
    ensures
        text@ == around.0 + inner@ + around.1,
        all_white_space(around.0),
        all_white_space(around.1),
        inner@.len() > 0 ==> !white_space(inner@[0]) && !white_space(inner@.last()),
{
    let before = lemma_trim_start_splits(text@);
    let middle = trim_start(text@);
    let after = lemma_trim_end_splits(middle);
    assert(text@ == before + inner@ + after);
    if inner@.len() > 0 {
        assert(inner@[0] == middle[0]);
    }
    (before, after)
}

proof fn lemma_trim_start_splits(s: Seq<char>) -> (before: Seq<char>)
    ensures
        s == before + trim_start(s),
        all_white_space(before),
        trim_start(s).len() > 0 ==> !white_space(trim_start(s)[0]),
    decreases s.len(),
{
    if s.len() > 0 && white_space(s[0]) {
        let rest = lemma_trim_start_splits(s.skip(1));
        let before = seq![s[0]] + rest;
        assert(s == seq![s[0]] + s.skip(1));
        assert(s == before + trim_start(s));
        before
    } else {
        Seq::empty()
    }
}

proof fn lemma_trim_end_splits(s: Seq<char>) -> (after: Seq<char>)
    ensures
        s == trim_end(s) + after,
        all_white_space(after),
        trim_end(s).len() > 0 ==> !white_space(trim_end(s).last()),
    decreases s.len(),
{
    if s.len() > 0 && white_space(s.last()) {
        let rest = lemma_trim_end_splits(s.drop_last());
        let after = rest.push(s.last());
        assert(s == s.drop_last().push(s.last()));
        assert(s == trim_end(s) + after);
        after
    } else {
        Seq::empty()
    }
}

/// A padded text begins with the text, goes on with spaces, and is as wide as was asked for
/// unless the text alone is wider.
pub proof fn law_padding_is_on_the_right(text: &str, width: usize, line: String)
    requires
        call_ensures(pad_right, (text, width), line),
    ensures
        text@.len() <= line@.len(),
        line@.take(text@.len() as int) == text@,
        forall|i: int| text@.len() <= i < line@.len() ==> #[trigger] line@[i] == ' ',
        line@.len() >= width,
        line@.len() == text@.len() || line@.len() == width,
{
}

/// Texts are ordered by the first character in which they differ, and a text comes before every
/// longer one that begins with it.
pub proof fn law_texts_are_ordered_by_the_first_difference(
    a: &str,
    b: &str,
    n: int,
    forth: bool,
    back: bool,
)
    requires
        call_ensures(sorts_before, (a, b), forth),
        call_ensures(sorts_before, (b, a), back),
        0 <= n <= a@.len(),
        n <= b@.len(),
        forall|i: int| 0 <= i < n ==> #[trigger] a@[i] == b@[i],
    ensures
        n < a@.len() && n < b@.len() && a@[n] < b@[n] ==> forth && !back,
        n == a@.len() && n < b@.len() ==> forth && !back,
        a@ == b@ ==> forth && back,
{
    lemma_text_le_after_equal(a@, b@, n);
    lemma_text_le_after_equal(b@, a@, n);
    lemma_text_le_total(a@, b@);
}

/// A text has a prefix exactly where it is the prefix and something more.
pub proof fn law_prefix_is_followed_by_the_rest(text: &str, prefix: &str, found: bool)
    requires
        call_ensures(has_prefix, (text, prefix), found),
    ensures
        found <==> exists|rest: Seq<char>| text@ == #[trigger] (prefix@ + rest),
{
    if found {
        let rest = text@.skip(prefix@.len() as int);
        assert(text@ == prefix@ + rest);
    }
    if exists|rest: Seq<char>| text@ == #[trigger] (prefix@ + rest) {
        let rest = choose|rest: Seq<char>| text@ == #[trigger] (prefix@ + rest);
        assert(text@.subrange(0, prefix@.len() as int) == prefix@);
    }
}

/// The characters of a text are all of them, in their order.
pub proof fn law_characters_are_those_of_the_text(text: &str, chars: Vec<char>)
    requires
        call_ensures(chars_of, (text,), chars),
    ensures
        chars@.len() == text@.len(),
        forall|i: int| 0 <= i < chars@.len() ==> #[trigger] chars@[i] == text@[i],
{
}

/// Of the ASCII characters the space and those from the tab to the carriage return are white
/// space. None beyond the ideographic space is, nor any letter or digit.
pub proof fn law_white_space_of_ascii(c: char, found: bool)
    requires
        call_ensures(is_white_space, (c,), found),
    ensures
        c < '\u{80}' ==> (found <==> c == ' ' || c == '\t' || c == '\n' || c == '\u{b}' || c
            == '\u{c}' || c == '\r'),
        c > '\u{3000}' ==> !found,
        c == '\u{a0}' || c == '\u{85}' || c == '\u{3000}' || c == '\u{2028}' || c == '\u{2029}'
            ==> found,
{
}

} // verus!
