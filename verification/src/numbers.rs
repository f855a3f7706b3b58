//! Positive numbers on the command line.

use crate::text::{
    decimal, digits_value, law_decimal_is_read_back, lemma_signed_decimal_characters,
    parse_unsigned, unsigned_value, without_plus,
};
use vstd::prelude::*;

verus! {

/// The complaint about a text that writes no number in range.
pub open spec fn not_a_number() -> Seq<char> {
    "must be a positive integer"@
}

/// The complaint about zero.
pub open spec fn below_one() -> Seq<char> {
    "must be 1 or greater"@
}

/// The positive number, at most `max`, that `value` writes, or the complaint about it.
pub open spec fn positive_number(value: Seq<char>, max: nat) -> Result<nat, Seq<char>> {
    match unsigned_value(value) {
        Some(n) => if n > max {
            Err(not_a_number())
        } else if n == 0 {
            Err(below_one())
        } else {
            Ok(n)
        },
        None => Err(not_a_number()),
    }
}

/// What is accepted is positive and within the limit.
pub proof fn law_positive_numbers_are_positive(value: Seq<char>, max: nat)
    ensures
        positive_number(value, max) matches Ok(n) ==> 1 <= n <= max,
{
}

/// Every positive number within the limit is accepted in its decimal form.
pub proof fn law_decimal_numbers_are_accepted(n: nat, max: nat)
    requires
        1 <= n <= max,
    ensures
        positive_number(decimal(n), max) == Ok::<nat, Seq<char>>(n),
{
    law_decimal_is_read_back(n);
}

/// Reads a positive number that is at most `max`.
fn parse_positive(value: &str, max: u64) -> (number: Result<u64, String>)
    ensures
        positive_number(value@, max as nat) == (match number {
            Ok(n) => Ok(n as nat),
            Err(e) => Err(e@),
        }),
{
    match parse_unsigned(value, max) {
        Some(parsed) => if parsed == 0 {
            Err("must be 1 or greater".to_owned())
        } else {
            Ok(parsed)
        },
        None => Err("must be a positive integer".to_owned()),
    }
}

/// Reads a positive `usize`.
pub fn parse_positive_usize(value: &str) -> (number: Result<usize, String>)
    ensures
        positive_number(value@, usize::MAX as nat) == (match number {
            Ok(n) => Ok(n as nat),
            Err(e) => Err(e@),
        }),
{
    match parse_positive(value, usize::MAX as u64) {
        Ok(n) => Ok(n as usize),
        Err(e) => Err(e),
    }
}

/// Reads a positive `u64`.
pub fn parse_positive_u64(value: &str) -> (number: Result<u64, String>)
    ensures
        positive_number(value@, u64::MAX as nat) == (match number {
            Ok(n) => Ok(n as nat),
            Err(e) => Err(e@),
        }),
{
    parse_positive(value, u64::MAX)
}

/// Reads a positive `u32`.
pub fn parse_positive_u32(value: &str) -> (number: Result<u32, String>)
    ensures
        positive_number(value@, u32::MAX as nat) == (match number {
            Ok(n) => Ok(n as nat),
            Err(e) => Err(e@),
        }),
{
    match parse_positive(value, u32::MAX as u64) {
        Ok(n) => Ok(n as u32),
        Err(e) => Err(e),
    }
}

/// A number that is accepted is the one that the text writes: its decimal form, which may have
/// zeros or a `+` before it, is accepted as that number, whatever the number is.
pub proof fn law_numbers_are_read_as_written(
    n: nat,
    plain: &str,
    signed: &str,
    padded: &str,
    results: (Result<u64, String>, Result<u64, String>, Result<u64, String>),
)
    requires
        1 <= n <= u64::MAX,
        plain@ == decimal(n),
        signed@ == seq!['+'] + decimal(n),
        padded@ == seq!['0'] + decimal(n),
        call_ensures(parse_positive_u64, (plain,), results.0),
        call_ensures(parse_positive_u64, (signed,), results.1),
        call_ensures(parse_positive_u64, (padded,), results.2),
    ensures
        results.0 == Ok::<u64, String>(n as u64),
        results.1 == Ok::<u64, String>(n as u64),
        results.2 == Ok::<u64, String>(n as u64),
{
    law_decimal_is_read_back(n);
    lemma_signed_decimal_characters(n as int);
    assert('0' <= decimal(n)[0] <= '9');
    lemma_signs_and_zeros(decimal(n));
}

/// The three widths agree: a number that fits is accepted, the same, by the wider ones, and one
/// that is refused for another reason than its size is refused by all in the same words.
pub proof fn law_widths_agree(
    value: &str,
    narrow: Result<u32, String>,
    native: Result<usize, String>,
    wide: Result<u64, String>,
)
    requires
        call_ensures(parse_positive_u32, (value,), narrow),
        call_ensures(parse_positive_usize, (value,), native),
        call_ensures(parse_positive_u64, (value,), wide),
    ensures
        narrow is Ok <==> wide is Ok && wide->Ok_0 <= u32::MAX,
        native is Ok <==> wide is Ok && wide->Ok_0 <= usize::MAX,
        narrow matches Ok(n) ==> wide->Ok_0 == n && n > 0,
        native matches Ok(n) ==> wide->Ok_0 == n && n > 0,
        wide matches Ok(n) ==> n > 0,
        wide matches Err(e) ==> narrow is Err && native is Err && narrow->Err_0@ == e@
            && native->Err_0@ == e@,
        wide is Ok && narrow is Err ==> narrow->Err_0@ == "must be a positive integer"@,
        wide is Ok && native is Err ==> native->Err_0@ == "must be a positive integer"@,
{
}

/// Zero, however it is written, is told apart from what is no number at all.
pub proof fn law_zero_and_nonsense_are_told_apart(value: &str, read: Result<u64, String>, i: int)
    requires
        call_ensures(parse_positive_u64, (value,), read),
    ensures
        value@.len() > 0 && (forall|k: int| 0 <= k < value@.len() ==> #[trigger] value@[k] == '0')
            ==> read is Err && read->Err_0@ == "must be 1 or greater"@,
        value@.len() == 0 ==> read is Err && read->Err_0@ == "must be a positive integer"@,
        0 <= i < value@.len() && !('0' <= value@[i] <= '9') && !(i == 0 && value@[0] == '+')
            ==> read is Err && read->Err_0@ == "must be a positive integer"@,
        unsigned_value(value@) matches Some(n) && n > u64::MAX ==> read is Err && read->Err_0@
            == "must be a positive integer"@,
{
    if value@.len() > 0 && forall|k: int| 0 <= k < value@.len() ==> #[trigger] value@[k] == '0' {
        assert(value@[0] == '0');
        lemma_zeros(value@);
    }
    if 0 <= i < value@.len() && !('0' <= value@[i] <= '9') && !(i == 0 && value@[0] == '+') {
        let digits = without_plus(value@);
        if value@[0] == '+' {
            assert(digits[i - 1] == value@[i]);
        } else {
            assert(digits[i] == value@[i]);
        }
    }
}

proof fn lemma_zeros(s: Seq<char>)
    requires
        forall|k: int| 0 <= k < s.len() ==> #[trigger] s[k] == '0',
    ensures
        digits_value(s) == 0,
    decreases s.len(),
{
    if s.len() > 0 {
        assert(s[s.len() - 1] == '0');
        let shorter = s.drop_last();
        assert forall|k: int| 0 <= k < shorter.len() implies #[trigger] shorter[k] == '0' by {
            assert(shorter[k] == s[k]);
        }
        lemma_zeros(shorter);
    }
}

/// A `+` or a zero before digits does not change what they write.
proof fn lemma_signs_and_zeros(digits: Seq<char>)
    requires
        unsigned_value(digits) is Some,
        digits.len() > 0,
        digits[0] != '+',
    ensures
        unsigned_value(seq!['+'] + digits) == unsigned_value(digits),
        unsigned_value(seq!['0'] + digits) == unsigned_value(digits),
{
    assert((seq!['+'] + digits).skip(1) == digits);
    let longer = seq!['0'] + digits;
    assert forall|i: int| 0 <= i < longer.len() implies '0' <= #[trigger] longer[i] <= '9' by {
        if i > 0 {
            assert(longer[i] == digits[i - 1]);
        }
    }
    lemma_leading_zero(digits);
}

proof fn lemma_leading_zero(digits: Seq<char>)
    ensures
        digits_value(seq!['0'] + digits) == digits_value(digits),
    decreases digits.len(),
{
    let longer = seq!['0'] + digits;
    if digits.len() == 0 {
        assert(longer.drop_last() == Seq::<char>::empty());
        assert(digits_value(Seq::<char>::empty()) == 0);
    } else {
        assert(longer.drop_last() == seq!['0'] + digits.drop_last());
        lemma_leading_zero(digits.drop_last());
    }
}

} // verus!
