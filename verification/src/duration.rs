//! Spans of time, as the command line writes them and as the queue takes them.

use crate::failure::Failure;
use crate::text::{chars_of, is_white_space, white_space};
use vstd::prelude::*;
use vstd::string::*;

verus! {

/// A span of time: whole seconds, and nanoseconds below one second.
#[derive(Clone, Copy, Debug)]
pub struct Duration {
    secs: u64,
    nanos: u32,
}

impl View for Duration {
    type V = nat;

    /// The span in nanoseconds.
    closed spec fn view(&self) -> nat {
        self.secs as nat * 1_000_000_000 + self.nanos as nat
    }
}

impl Duration {
    #[verifier::type_invariant]
    spec fn well_formed(self) -> bool {
        self.nanos < 1_000_000_000
    }

    /// The span in whole milliseconds.
    pub open spec fn millis(self) -> nat {
        self@ / 1_000_000
    }

    /// The span of `secs` seconds and `nanos` nanoseconds.
    pub fn new(secs: u64, nanos: u32) -> (span: Duration)
        requires
            nanos < 1_000_000_000,
        ensures
            span@ == secs as nat * 1_000_000_000 + nanos as nat,
    {
        Duration { secs, nanos }
    }

    /// The whole seconds of the span.
    pub fn as_secs(&self) -> (secs: u64)
        ensures
            secs == self@ / 1_000_000_000,
    {
        proof {
            use_type_invariant(self);
        }
        self.secs
    }

    /// The nanoseconds of the span beyond its whole seconds.
    pub fn subsec_nanos(&self) -> (nanos: u32)
        ensures
            nanos == self@ % 1_000_000_000,
    {
        proof {
            use_type_invariant(self);
        }
        self.nanos
    }

    /// The whole milliseconds of the span.
    pub fn as_millis(&self) -> (millis: u128)
        ensures
            millis == self.millis(),
    {
        proof {
            use_type_invariant(self);
        }
        self.secs as u128 * 1000 + (self.nanos / 1_000_000) as u128
    }

    /// The nanoseconds of the span.
    pub fn as_nanos(&self) -> (nanos: u128)
        ensures
            nanos == self@,
            nanos < (u64::MAX + 1) * 1_000_000_000,
    {
        proof {
            use_type_invariant(self);
        }
        self.secs as u128 * 1_000_000_000 + self.nanos as u128
    }

    /// Whether the span is empty.
    pub fn is_zero(&self) -> (zero: bool)
        ensures
            zero == (self@ == 0),
    {
        self.secs == 0 && self.nanos == 0
    }

    /// Whether the span is as long as `other` or longer.
    pub fn at_least(&self, other: &Duration) -> (longer: bool)
        ensures
            longer == (self@ >= other@),
    {
        proof {
            use_type_invariant(self);
            use_type_invariant(other);
        }
        self.secs > other.secs || (self.secs == other.secs && self.nanos >= other.nanos)
    }
}

/// What `duration_millis` says of a span called `name` that has too many milliseconds.
pub open spec fn too_large(name: Seq<char>) -> Seq<char> {
    name + " is too large"@
}

/// The whole milliseconds of a span, or the complaint that the span called `name` is too large.
pub fn duration_millis(duration: Duration, name: &str) -> (millis: Result<u64, Failure>)
    ensures
        millis is Ok <==> duration.millis() <= u64::MAX,
        millis matches Ok(m) ==> m == duration.millis(),
        millis matches Err(e) ==> e.says(too_large(name@)),
{
    let millis: u128 = duration.as_millis();
    if millis <= u64::MAX as u128 {
        Ok(millis as u64)
    } else {
        let mut message = name.to_owned();
        message.append(" is too large");
        Err(Failure::new(message))
    }
}

/// Whether `c` is an ASCII digit.
pub open spec fn is_digit(c: char) -> bool {
    '0' <= c <= '9'
}

/// Whether `c` is an ASCII letter.
pub open spec fn is_letter(c: char) -> bool {
    'a' <= c <= 'z' || 'A' <= c <= 'Z'
}

/// Whether `s` holds a letter.
pub open spec fn has_letter(s: Seq<char>) -> bool {
    exists|i: int| 0 <= i < s.len() && is_letter(#[trigger] s[i])
}

/// The terms of a text that writes a span, such as `1h ` and `30m` of `1h 30m`: a new one begins
/// at each digit that comes after a letter of the one before.
pub open spec fn terms(s: Seq<char>) -> Seq<Seq<char>>
    decreases s.len(),
{
    if s.len() == 0 {
        Seq::empty()
    } else {
        let before = terms(s.drop_last());
        if before.len() == 0 || (is_digit(s.last()) && has_letter(before.last())) {
            before.push(seq![s.last()])
        } else {
            before.drop_last().push(before.last().push(s.last()))
        }
    }
}

/// The number that the digits of `s` make, one behind the other.
pub open spec fn number_in(s: Seq<char>) -> nat
    decreases s.len(),
{
    if s.len() == 0 {
        0
    } else if is_digit(s.last()) {
        (number_in(s.drop_last()) * 10 + (s.last() as int - '0' as int)) as nat
    } else {
        number_in(s.drop_last())
    }
}

/// More seconds than a term stands for, with its fraction: as many years as its digits make, and
/// one more.
pub open spec fn most_seconds(term: Seq<char>) -> nat {
    (number_in(term) + 1) * 31_557_600
}

/// More seconds than terms stand for together.
pub open spec fn most_seconds_together(terms: Seq<Seq<char>>) -> nat
    decreases terms.len(),
{
    if terms.len() == 0 {
        0
    } else {
        most_seconds_together(terms.drop_last()) + most_seconds(terms.last())
    }
}

/// Where the first letter of `s` stands, or the length of `s` where there is none.
pub open spec fn letter_at(s: Seq<char>) -> nat
    decreases s.len(),
{
    if s.len() == 0 || is_letter(s[0]) {
        0
    } else {
        1 + letter_at(s.skip(1))
    }
}

/// Where the first white space of `s` stands, or the length of `s` where there is none.
pub open spec fn white_space_at(s: Seq<char>) -> nat
    decreases s.len(),
{
    if s.len() == 0 || white_space(s[0]) {
        0
    } else {
        1 + white_space_at(s.skip(1))
    }
}

/// Where the first point of `s` stands, or the length of `s` where there is none.
pub open spec fn point_at(s: Seq<char>) -> nat
    decreases s.len(),
{
    if s.len() == 0 || s[0] == '.' {
        0
    } else {
        1 + point_at(s.skip(1))
    }
}

/// How many characters of `s`, from its start on, are digits or white space.
pub open spec fn digits_end(s: Seq<char>) -> nat
    decreases s.len(),
{
    if s.len() > 0 && (is_digit(s[0]) || white_space(s[0])) {
        1 + digits_end(s.skip(1))
    } else {
        0
    }
}

/// How many digits `s` holds.
pub open spec fn digit_count(s: Seq<char>) -> nat
    decreases s.len(),
{
    if s.len() == 0 {
        0
    } else {
        digit_count(s.drop_last()) + if is_digit(s.last()) {
            1nat
        } else {
            0
        }
    }
}

/// A term up to the end of its unit, which is where white space follows its letters.
pub open spec fn bare_term(term: Seq<char>) -> Seq<char> {
    term.take((letter_at(term) + white_space_at(term.skip(letter_at(term) as int))) as int)
}

/// The digits behind the point of a term, with the white space among them.
pub open spec fn fraction_of(term: Seq<char>) -> Seq<char> {
    let rest = term.skip(point_at(term) as int + 1);
    rest.take(digits_end(rest) as int)
}

/// Whether a fraction that a term has is one that can be read: one to nineteen digits.
pub open spec fn fraction_is_read(term: Seq<char>) -> bool {
    point_at(term) < term.len() ==> 1 <= digit_count(fraction_of(term)) <= 19
}

/// A term without its fraction: `1s` for `1.5s`.
pub open spec fn whole_part(term: Seq<char>) -> Seq<char> {
    if point_at(term) < term.len() {
        term.take(point_at(term) as int) + term.skip(
            point_at(term) as int + 1 + fraction_of(term).len(),
        )
    } else {
        term
    }
}

/// The first span, in nanoseconds, whose seconds do not fit in 64 bits.
pub open spec fn span_limit() -> nat {
    (u64::MAX + 1) as nat * 1_000_000_000
}

/// Whether the spans that terms stand for, on top of `so_far` nanoseconds, meet the limit: the
/// last second before the limit is reached, and nanoseconds then make it exactly full. These are
/// those of a unit shorter than a second, or of a fraction. A term is added in two steps, without
/// its fraction and then with it; one that cannot be read, and one that goes beyond the limit,
/// ends the reading.
pub open spec fn meets_the_limit(terms: Seq<Seq<char>>, so_far: nat) -> bool
    decreases terms.len(),
{
    if terms.len() == 0 {
        false
    } else {
        let term = bare_term(terms[0]);
        let whole = whole_part(term);
        match humantime_duration(whole) {
            Ok(first) => {
                let halfway = so_far + first;
                // Whether the unit is shorter than a second.
                let short = first < number_in(whole) * 1_000_000_000;
                if !fraction_is_read(term) || (short && so_far % 1_000_000_000 + first > u64::MAX) {
                    false
                } else if halfway >= span_limit() {
                    halfway == span_limit() && short && first <= 1_000_000_000
                } else {
                    match humantime_duration(term) {
                        Ok(span) => if so_far + span >= span_limit() {
                            so_far + span == span_limit() && halfway + 1_000_000_000
                                >= span_limit()
                        } else {
                            humantime_duration(terms[0]) is Ok && meets_the_limit(
                                terms.skip(1),
                                so_far + span,
                            )
                        },
                        Err(_) => false,
                    }
                }
            },
            Err(_) => false,
        }
    }
}

/// Whether `s` is a single term at most: no digit comes after a letter.
pub open spec fn one_term(s: Seq<char>) -> bool {
    forall|i: int, j: int|
        0 <= i < j < s.len() && is_letter(#[trigger] s[i]) ==> !is_digit(#[trigger] s[j])
}

/// Whether `humantime` reads a text or says what is wrong with it. It fails on no other text than
/// one whose spans meet the limit, which takes several terms with numbers beyond the ordinary.
pub open spec fn safe_duration_text(s: Seq<char>) -> bool {
    ||| one_term(s)
    ||| most_seconds_together(terms(s)) < u64::MAX
    ||| !meets_the_limit(terms(s), 0)
}

/// `n`, or two to the power of 64 where `n` is larger.
spec fn capped(n: nat) -> nat {
    if n <= u64::MAX {
        n
    } else {
        (u64::MAX + 1) as nat
    }
}

/// `n`, or two to the power of 64 where `n` is larger.
fn cap(n: u128) -> (c: u128)
    ensures
        c == capped(n as nat),
{
    if n <= u64::MAX as u128 {
        n
    } else {
        u64::MAX as u128 + 1
    }
}

/// The number that the digits of a text make, as far as 64 bits count.
fn number_of(text: &str) -> (number: u128)
    ensures
        number == capped(number_in(text@)),
{
    let chars = chars_of(text);
    let mut number: u128 = 0;
    let mut i: usize = 0;
    while i < chars.len()
        invariant
            i <= chars.len(),
            number == capped(number_in(chars@.take(i as int))),
        decreases chars.len() - i,
    {
        let c = chars[i];
        assert(chars@.take(i + 1).drop_last() == chars@.take(i as int));
        if '0' <= c && c <= '9' {
            number = cap(number * 10 + (c as u32 - '0' as u32) as u128);
        }
        i = i + 1;
    }
    assert(chars@.take(i as int) == chars@);
    number
}

/// The texts of several pieces.
pub open spec fn views(pieces: Seq<&str>) -> Seq<Seq<char>> {
    pieces.map_values(|piece: &str| piece@)
}

/// Cuts a text into its terms.
fn split_terms<'a>(value: &'a str) -> (pieces: Vec<&'a str>)
    ensures
        views(pieces@) == terms(value@),
        forall|k: int| 0 <= k < pieces.len() ==> one_term(#[trigger] pieces@[k]@),
{
    let chars = chars_of(value);
    let mut pieces: Vec<&'a str> = Vec::new();
    if chars.len() == 0 {
        return pieces;
    }
    let mut start: usize = 0;
    let mut lettered: bool = false;
    let mut i: usize = 0;
    while i < chars.len()
        invariant
            chars@ == value@,
            start <= i <= chars.len(),
            i == 0 ==> pieces.len() == 0 && start == 0 && !lettered,
            i > 0 ==> start < i,
            i > 0 ==> terms(chars@.take(i as int)) == views(pieces@).push(
                chars@.subrange(start as int, i as int),
            ),
            one_term(chars@.subrange(start as int, i as int)),
            lettered == has_letter(chars@.subrange(start as int, i as int)),
            forall|k: int| 0 <= k < pieces.len() ==> one_term(#[trigger] pieces@[k]@),
        decreases chars.len() - i,
    {
        let c = chars[i];
        let ghost open = chars@.subrange(start as int, i as int);
        let ghost longer = chars@.take(i + 1);
        assert(longer.drop_last() == chars@.take(i as int));
        if '0' <= c && c <= '9' {
            if lettered {
                let ghost before = pieces@;
                pieces.push(value.substring_char(start, i));
                assert(views(pieces@) == views(before).push(open));
                start = i;
                lettered = false;
                assert(chars@.subrange(start as int, i + 1) == seq![c]);
                assert(terms(longer) == views(pieces@).push(seq![c]));
            } else {
                proof {
                    lemma_longer_term(chars@, start as int, i as int, views(pieces@));
                }
            }
        } else {
            proof {
                lemma_longer_term(chars@, start as int, i as int, views(pieces@));
            }
            if ('a' <= c && c <= 'z') || ('A' <= c && c <= 'Z') {
                lettered = true;
                assert(is_letter(chars@.subrange(start as int, i + 1).last()));
            }
        }
        i = i + 1;
    }
    let ghost before = pieces@;
    pieces.push(value.substring_char(start, i));
    assert(chars@.take(i as int) == chars@);
    assert(views(pieces@) == views(before).push(chars@.subrange(start as int, i as int)));
    pieces
}

/// A text is its only term exactly where no digit comes after a letter.
proof fn lemma_one_term(s: Seq<char>)
    ensures
        one_term(s) <==> terms(s).len() <= 1,
        one_term(s) && s.len() > 0 ==> terms(s) == seq![s],
    decreases s.len(),
{
    if s.len() > 0 {
        let before = s.drop_last();
        lemma_one_term(before);
        if one_term(s) {
            assert forall|i: int, j: int|
                0 <= i < j < before.len() && is_letter(#[trigger] before[i]) implies !is_digit(
                #[trigger] before[j],
            ) by {
                assert(before[i] == s[i] && before[j] == s[j]);
            }
            if is_digit(s.last()) && has_letter(before) {
                let i = choose|i: int| 0 <= i < before.len() && is_letter(#[trigger] before[i]);
                assert(is_letter(s[i]) && is_digit(s[s.len() - 1]));
            }
            assert(before.len() == 0 ==> terms(before) == Seq::<Seq<char>>::empty());
            assert(before.len() == 0 ==> seq![s.last()] == s);
            assert(before.len() > 0 ==> terms(before).drop_last() == Seq::<Seq<char>>::empty());
            assert(before.push(s.last()) == s);
            assert(terms(s) =~= seq![s]);
        } else if terms(s).len() <= 1 {
            assert(one_term(before));
            let (i, j) = choose|i: int, j: int|
                0 <= i < j < s.len() && is_letter(#[trigger] s[i]) && is_digit(#[trigger] s[j]);
            assert(is_letter(before[i]));
            assert(j < before.len() ==> is_digit(before[j]));
        }
    }
}

/// A character that begins no term makes the last one longer.
proof fn lemma_longer_term(s: Seq<char>, start: int, i: int, before: Seq<Seq<char>>)
    requires
        0 <= start <= i < s.len(),
        i == 0 ==> before.len() == 0,
        i > 0 ==> start < i && terms(s.take(i)) == before.push(s.subrange(start, i)),
        one_term(s.subrange(start, i)),
        !(is_digit(s[i]) && has_letter(s.subrange(start, i))),
    ensures
        terms(s.take(i + 1)) == before.push(s.subrange(start, i + 1)),
        one_term(s.subrange(start, i + 1)),
        !is_letter(s[i]) ==> has_letter(s.subrange(start, i + 1)) == has_letter(
            s.subrange(start, i),
        ),
{
    let open = s.subrange(start, i);
    let longer = s.subrange(start, i + 1);
    assert(s.take(i + 1).drop_last() == s.take(i));
    assert(longer.drop_last() == open);
    assert(longer == open.push(s[i]));
    if i == 0 {
        assert(terms(s.take(i)) == Seq::<Seq<char>>::empty());
        assert(open == Seq::<char>::empty());
        assert(longer == seq![s[i]]);
    } else {
        assert(terms(s.take(i)).last() == open);
        assert(terms(s.take(i)).drop_last() == before);
    }
    assert forall|k: int, m: int|
        0 <= k < m < longer.len() && is_letter(#[trigger] longer[k]) implies !is_digit(
        #[trigger] longer[m],
    ) by {
        assert(is_letter(open[k]));
        assert(m < open.len() ==> open[m] == longer[m]);
    }
    if !is_letter(s[i]) && has_letter(longer) {
        let k = choose|k: int| 0 <= k < longer.len() && is_letter(#[trigger] longer[k]);
        assert(is_letter(open[k]));
    }
    if has_letter(open) {
        let k = choose|k: int| 0 <= k < open.len() && is_letter(#[trigger] open[k]);
        assert(is_letter(longer[k]));
    }
}

/// More seconds than terms stand for together, as far as 64 bits count.
fn bound_of_terms(pieces: &Vec<&str>) -> (seconds: u128)
    ensures
        seconds == capped(most_seconds_together(views(pieces@))),
{
    let mut seconds: u128 = 0;
    let mut i: usize = 0;
    while i < pieces.len()
        invariant
            i <= pieces.len(),
            seconds == capped(most_seconds_together(views(pieces@).take(i as int))),
        decreases pieces.len() - i,
    {
        assert(views(pieces@).take(i + 1).drop_last() == views(pieces@).take(i as int));
        seconds = cap(seconds + (number_of(pieces[i]) + 1) * 31_557_600);
        i = i + 1;
    }
    assert(views(pieces@).take(i as int) == views(pieces@));
    seconds
}

/// Finds the end of the unit of a term.
fn end_of_unit(chars: &Vec<char>) -> (end: usize)
    ensures
        end <= chars.len(),
        chars@.take(end as int) == bare_term(chars@),
{
    let mut letter: usize = 0;
    assert(chars@.skip(0) == chars@);
    while letter < chars.len() && !(('a' <= chars[letter] && chars[letter] <= 'z') || ('A'
        <= chars[letter] && chars[letter] <= 'Z'))
        invariant
            letter <= chars.len(),
            letter_at(chars@) == letter + letter_at(chars@.skip(letter as int)),
        decreases chars.len() - letter,
    {
        assert(chars@.skip(letter as int).skip(1) == chars@.skip(letter + 1));
        letter = letter + 1;
    }
    let ghost rest = chars@.skip(letter as int);
    let mut end: usize = letter;
    assert(rest.skip(0) == rest);
    while end < chars.len() && !is_white_space(chars[end])
        invariant
            letter <= end <= chars.len(),
            rest == chars@.skip(letter as int),
            white_space_at(rest) == end - letter + white_space_at(rest.skip(end - letter)),
        decreases chars.len() - end,
    {
        assert(rest.skip(end - letter)[0] == chars@[end as int]);
        assert(rest.skip(end - letter).skip(1) == rest.skip(end - letter + 1));
        end = end + 1;
    }
    end
}

/// Finds the point of a term and the end of the digits behind it. Where there is no point, both
/// are the length of the term.
fn ends_of_fraction(chars: &Vec<char>) -> (ends: (usize, usize))
    ensures
        ends.0 == point_at(chars@) <= chars.len(),
        ends.0 < chars.len() ==> ends.1 == ends.0 + 1 + fraction_of(chars@).len(),
        ends.0 < chars.len() ==> chars@.subrange(ends.0 + 1, ends.1 as int) == fraction_of(chars@),
        ends.0 <= ends.1 <= chars.len(),
{
    let mut point: usize = 0;
    assert(chars@.skip(0) == chars@);
    while point < chars.len() && chars[point] != '.'
        invariant
            point <= chars.len(),
            point_at(chars@) == point + point_at(chars@.skip(point as int)),
        decreases chars.len() - point,
    {
        assert(chars@.skip(point as int).skip(1) == chars@.skip(point + 1));
        point = point + 1;
    }
    if point == chars.len() {
        return (point, point);
    }
    let ghost rest = chars@.skip(point + 1);
    let mut end: usize = point + 1;
    assert(rest.skip(0) == rest);
    while end < chars.len() && (('0' <= chars[end] && chars[end] <= '9') || is_white_space(
        chars[end],
    ))
        invariant
            point < end <= chars.len(),
            rest == chars@.skip(point + 1),
            digits_end(rest) == end - point - 1 + digits_end(rest.skip(end - point - 1)),
        decreases chars.len() - end,
    {
        assert(rest.skip(end - point - 1)[0] == chars@[end as int]);
        assert(rest.skip(end - point - 1).skip(1) == rest.skip(end - point));
        end = end + 1;
    }
    (point, end)
}

/// Counts the digits between two places.
fn count_digits(chars: &Vec<char>, from: usize, to: usize) -> (count: usize)
    requires
        from <= to <= chars.len(),
    ensures
        count == digit_count(chars@.subrange(from as int, to as int)),
{
    let mut count: usize = 0;
    let mut i: usize = from;
    while i < to
        invariant
            from <= i <= to <= chars.len(),
            count <= i - from,
            count == digit_count(chars@.subrange(from as int, i as int)),
        decreases to - i,
    {
        assert(chars@.subrange(from as int, i + 1).drop_last() == chars@.subrange(
            from as int,
            i as int,
        ));
        if '0' <= chars[i] && chars[i] <= '9' {
            count = count + 1;
        }
        i = i + 1;
    }
    count
}

/// A term up to the end of its unit, and that term without its fraction. The second is missing
/// where the fraction cannot be read.
fn parts_of_term<'a>(piece: &'a str) -> (parts: (&'a str, Option<String>))
    requires
        one_term(piece@),
    ensures
        parts.0@ == bare_term(piece@),
        parts.1 is Some <==> fraction_is_read(bare_term(piece@)),
        parts.1 matches Some(whole) ==> whole@ == whole_part(bare_term(piece@)),
        one_term(bare_term(piece@)),
        one_term(whole_part(bare_term(piece@))),
{
    let chars = chars_of(piece);
    let end = end_of_unit(&chars);
    let term = piece.substring_char(0, end);
    assert(term@ == chars@.take(end as int));
    let chars = chars_of(term);
    let (point, rest) = ends_of_fraction(&chars);
    proof {
        lemma_parts_are_terms(piece@);
    }
    if point == chars.len() {
        return (term, Some(term.to_owned()));
    }
    let digits: usize = count_digits(&chars, point + 1, rest);
    if digits == 0 || digits > 19 {
        return (term, None);
    }
    let mut whole = term.substring_char(0, point).to_owned();
    whole.append(term.substring_char(rest, chars.len()));
    assert(whole@ == whole_part(term@));
    (term, Some(whole))
}

/// The parts of a term are terms.
proof fn lemma_parts_are_terms(term: Seq<char>)
    requires
        one_term(term),
    ensures
        one_term(bare_term(term)),
        one_term(whole_part(bare_term(term))),
{
    lemma_places(term);
    let bare = bare_term(term);
    assert forall|i: int, j: int|
        0 <= i < j < bare.len() && is_letter(#[trigger] bare[i]) implies !is_digit(
        #[trigger] bare[j],
    ) by {
        assert(bare[i] == term[i] && bare[j] == term[j]);
    }
    lemma_places(bare);
    let point = point_at(bare) as int;
    if point < bare.len() {
        let whole = whole_part(bare);
        let gap = 1 + fraction_of(bare).len() as int;
        assert forall|i: int, j: int|
            0 <= i < j < whole.len() && is_letter(#[trigger] whole[i]) implies !is_digit(
            #[trigger] whole[j],
        ) by {
            let a = if i < point {
                i
            } else {
                i + gap
            };
            let b = if j < point {
                j
            } else {
                j + gap
            };
            assert(whole[i] == bare[a] && whole[j] == bare[b]);
        }
    }
}

/// The places of a text lie within it.
proof fn lemma_places(s: Seq<char>)
    ensures
        letter_at(s) + white_space_at(s.skip(letter_at(s) as int)) <= s.len(),
        point_at(s) <= s.len(),
        point_at(s) < s.len() ==> point_at(s) + 1 + fraction_of(s).len() <= s.len(),
{
    lemma_place_ends(s);
    lemma_place_ends(s.skip(letter_at(s) as int));
    if point_at(s) < s.len() {
        lemma_place_ends(s.skip(point_at(s) as int + 1));
    }
}

proof fn lemma_place_ends(s: Seq<char>)
    ensures
        letter_at(s) <= s.len(),
        white_space_at(s) <= s.len(),
        point_at(s) <= s.len(),
        digits_end(s) <= s.len(),
    decreases s.len(),
{
    if s.len() > 0 {
        lemma_place_ends(s.skip(1));
    }
}

/// Whether the spans of terms meet the limit.
fn finds_the_limit(pieces: &Vec<&str>) -> (found: bool)
    requires
        forall|k: int| 0 <= k < pieces.len() ==> one_term(#[trigger] pieces@[k]@),
    ensures
        found == meets_the_limit(views(pieces@), 0),
{
    let limit: u128 = (u64::MAX as u128 + 1) * 1_000_000_000;
    let mut so_far: u128 = 0;
    let mut i: usize = 0;
    assert(views(pieces@).skip(0) == views(pieces@));
    while i < pieces.len()
        invariant
            i <= pieces.len(),
            so_far < limit,
            limit == span_limit(),
            limit == (u64::MAX + 1) * 1_000_000_000,
            forall|k: int| 0 <= k < pieces.len() ==> one_term(#[trigger] pieces@[k]@),
            meets_the_limit(views(pieces@), 0) == meets_the_limit(
                views(pieces@).skip(i as int),
                so_far as nat,
            ),
        decreases pieces.len() - i,
    {
        let ghost rest = views(pieces@).skip(i as int);
        assert(rest[0] == pieces@[i as int]@);
        assert(rest.skip(1) == views(pieces@).skip(i + 1));
        let (term, whole) = parts_of_term(pieces[i]);
        let whole = match whole {
            Some(whole) => whole,
            None => {
                return false;
            },
        };
        let first: u128 = match humantime_parse(whole.as_str()) {
            Ok(span) => span.as_nanos(),
            Err(_) => {
                return false;
            },
        };
        let short = first < number_of(whole.as_str()) * 1_000_000_000;
        if short && so_far % 1_000_000_000 + first > u64::MAX as u128 {
            return false;
        }
        if so_far + first >= limit {
            return so_far + first == limit && short && first <= 1_000_000_000;
        }
        let span: u128 = match humantime_parse(term) {
            Ok(span) => span.as_nanos(),
            Err(_) => {
                return false;
            },
        };
        if so_far + span >= limit {
            return so_far + span == limit && so_far + first + 1_000_000_000 >= limit;
        }
        if humantime_parse(pieces[i]).is_err() {
            return false;
        }
        so_far = so_far + span;
        i = i + 1;
    }
    assert(views(pieces@).skip(i as int).len() == 0);
    false
}

/// Whether `value` may be handed to `parse_duration` and `parse_positive_duration`.
pub fn is_safe_duration_text(value: &str) -> (safe: bool)
    ensures
        safe == safe_duration_text(value@),
{
    let pieces = split_terms(value);
    proof {
        lemma_one_term(value@);
    }
    assert(pieces.len() == views(pieces@).len());
    pieces.len() <= 1 || bound_of_terms(&pieces) < u64::MAX as u128 || !finds_the_limit(&pieces)
}

/// What `humantime` makes of a text: a span in nanoseconds, or its complaint.
pub uninterp spec fn humantime_duration(text: Seq<char>) -> Result<nat, Seq<char>>;

/// `humantime::parse_duration` reads a span such as `1h 30m`. Its result, with the error in the
/// words of the error's `Display`, is a function of the text alone and bears the name
/// `humantime_duration`.
///
/// It adds up the terms one by one, each first without its fraction and then the fraction, and
/// reads them as it reads a text that is one of them alone. It panics where it has come to the
/// last second that 64 bits count and then adds nanoseconds that make exactly one second more:
/// those of a unit shorter than a second, or of a fraction. (The fraction of an hour or a longer
/// unit counts in whole seconds, and none is exactly one second.) A single term cannot do that,
/// nor can terms that stand for fewer seconds together. Such texts, whose spans meet the limit,
/// are left out, and no others.
#[verifier::external_body]
fn humantime_parse(text: &str) -> (span: Result<Duration, String>)
    requires
        safe_duration_text(text@),
    ensures
        humantime_duration(text@) == (match span {
            Ok(d) => Ok(d@),
            Err(e) => Err(e@),
        }),
{
    match humantime::parse_duration(text) {
        Ok(d) => Ok(Duration { secs: d.as_secs(), nanos: d.subsec_nanos() }),
        Err(e) => Err(e.to_string()),
    }
}

/// The complaint about a span below one millisecond.
pub open spec fn below_one_millisecond() -> Seq<char> {
    "must be at least 1 millisecond"@
}

/// Takes a span that was read only where it lasts one millisecond at least.
pub fn positive_duration(parsed: Result<Duration, String>) -> (span: Result<Duration, String>)
    ensures
        span is Ok <==> parsed is Ok && parsed->Ok_0.millis() > 0,
        span matches Ok(d) ==> d == parsed->Ok_0,
        span matches Err(e) ==> e@ == (match parsed {
            Ok(_) => below_one_millisecond(),
            Err(complaint) => complaint@,
        }),
{
    let duration = match parsed {
        Ok(duration) => duration,
        Err(complaint) => {
            return Err(complaint);
        },
    };
    if duration.as_millis() == 0 {
        Err("must be at least 1 millisecond".to_owned())
    } else {
        Ok(duration)
    }
}

/// Reads a span.
pub fn parse_duration(value: &str) -> (span: Result<Duration, String>)
    requires
        safe_duration_text(value@),
    ensures
        humantime_duration(value@) == (match span {
            Ok(d) => Ok(d@),
            Err(e) => Err(e@),
        }),
{
    humantime_parse(value)
}

/// Reads a span from any text. `None` stands for a text that is not safe, which is not read.
pub fn try_parse_duration(value: &str) -> (span: Option<Result<Duration, String>>)
    ensures
        span is Some <==> safe_duration_text(value@),
        span matches Some(read) ==> humantime_duration(value@) == (match read {
            Ok(d) => Ok(d@),
            Err(e) => Err(e@),
        }),
{
    if is_safe_duration_text(value) {
        Some(parse_duration(value))
    } else {
        None
    }
}

/// Whether `span` is what comes of reading `value` as a span of one millisecond or more.
pub open spec fn positive_span_of(span: Result<Duration, String>, value: Seq<char>) -> bool {
    match humantime_duration(value) {
        Ok(nanos) => if nanos < 1_000_000 {
            span is Err && span->Err_0@ == below_one_millisecond()
        } else {
            span is Ok && span->Ok_0@ == nanos
        },
        Err(complaint) => span is Err && span->Err_0@ == complaint,
    }
}

/// Reads a span of one millisecond or more.
pub fn parse_positive_duration(value: &str) -> (span: Result<Duration, String>)
    requires
        safe_duration_text(value@),
    ensures
        positive_span_of(span, value@),
{
    positive_duration(parse_duration(value))
}

/// Reads a span of one millisecond or more from any text. `None` stands for a text that is not
/// safe, which is not read.
pub fn try_parse_positive_duration(value: &str) -> (span: Option<Result<Duration, String>>)
    ensures
        span is Some <==> safe_duration_text(value@),
        span matches Some(read) ==> positive_span_of(read, value@),
{
    if is_safe_duration_text(value) {
        Some(parse_positive_duration(value))
    } else {
        None
    }
}

/// A span has the seconds and nanoseconds that it was made of, and everything else about it
/// follows from them.
pub proof fn law_spans_are_made_of_seconds_and_nanoseconds(
    secs: u64,
    nanos: u32,
    span: Duration,
    parts: (u64, u32),
    millis: u128,
    total: u128,
    zero: bool,
)
    requires
        nanos < 1_000_000_000,
        call_ensures(Duration::new, (secs, nanos), span),
        call_ensures(Duration::as_secs, (&span,), parts.0),
        call_ensures(Duration::subsec_nanos, (&span,), parts.1),
        call_ensures(Duration::as_millis, (&span,), millis),
        call_ensures(Duration::as_nanos, (&span,), total),
        call_ensures(Duration::is_zero, (&span,), zero),
    ensures
        parts == (secs, nanos),
        millis == secs * 1_000 + nanos / 1_000_000,
        total == secs * 1_000_000_000 + nanos,
        zero <==> secs == 0 && nanos == 0,
{
}

/// Spans compare by their seconds, and by their nanoseconds where those are the same.
pub proof fn law_spans_compare_by_seconds_first(
    first: (u64, u32),
    second: (u64, u32),
    a: Duration,
    b: Duration,
    longer: bool,
)
    requires
        first.1 < 1_000_000_000,
        second.1 < 1_000_000_000,
        call_ensures(Duration::new, (first.0, first.1), a),
        call_ensures(Duration::new, (second.0, second.1), b),
        call_ensures(Duration::at_least, (&a, &b), longer),
    ensures
        longer <==> first.0 > second.0 || (first.0 == second.0 && first.1 >= second.1),
{
}

/// Whether `millis` are the whole milliseconds of `span`.
pub open spec fn counts_millis(millis: int, span: Duration) -> bool {
    millis * 1_000_000 <= span@ < (millis + 1) * 1_000_000
}

/// A span is turned into its whole milliseconds exactly where 64 bits hold them, and otherwise the
/// complaint begins with its name.
pub proof fn law_spans_are_counted_in_milliseconds(
    span: Duration,
    name: &str,
    millis: Result<u64, Failure>,
)
    requires
        call_ensures(duration_millis, (span, name), millis),
    ensures
        millis is Ok <==> span@ < (u64::MAX + 1) * 1_000_000,
        millis matches Ok(m) ==> counts_millis(m as int, span),
        millis matches Err(e) ==> e.message@ == name@ + " is too large"@ && e.cause is None,
{
}

/// A span is positive where it lasts one millisecond at least, and it is then taken as it was read,
/// with what it has beyond whole milliseconds. What is wrong with a text is passed on.
pub proof fn law_positive_spans_are_taken_as_read(
    read: Result<Duration, String>,
    taken: Result<Duration, String>,
)
    requires
        call_ensures(positive_duration, (read,), taken),
    ensures
        taken is Ok <==> read is Ok && read->Ok_0@ >= 1_000_000,
        taken is Ok ==> taken->Ok_0 == read->Ok_0,
        read is Ok && taken is Err ==> taken->Err_0@ == "must be at least 1 millisecond"@,
        read is Err ==> taken is Err && taken->Err_0@ == read->Err_0@,
{
}

/// The two readings of a text agree: what is read as a span is read as a positive one where it
/// lasts one millisecond, with the same nanoseconds, and errors come in the same words.
pub proof fn law_readings_of_a_span_agree(
    value: &str,
    read: Result<Duration, String>,
    positive: Result<Duration, String>,
    tried: (Option<Result<Duration, String>>, Option<Result<Duration, String>>),
)
    requires
        call_ensures(parse_duration, (value,), read),
        call_ensures(parse_positive_duration, (value,), positive),
        call_ensures(try_parse_duration, (value,), tried.0),
        call_ensures(try_parse_positive_duration, (value,), tried.1),
    ensures
        positive is Ok <==> read is Ok && read->Ok_0@ >= 1_000_000,
        positive is Ok ==> positive->Ok_0@ == read->Ok_0@,
        read is Ok && positive is Err ==> positive->Err_0@ == "must be at least 1 millisecond"@,
        read is Err ==> positive is Err && positive->Err_0@ == read->Err_0@,
        tried.0 is Some <==> tried.1 is Some,
        tried.0 is Some ==> match (tried.0->0, read) {
            (Ok(a), Ok(b)) => a@ == b@,
            (Err(a), Err(b)) => a@ == b@,
            _ => false,
        },
        tried.1 is Some ==> match (tried.1->0, positive) {
            (Ok(a), Ok(b)) => a@ == b@,
            (Err(a), Err(b)) => a@ == b@,
            _ => false,
        },
{
}

/// Every text that holds eleven digits at most, and every text with no digit after a letter, is
/// read, or what is wrong with it is said.
pub proof fn law_ordinary_texts_are_read(
    value: &str,
    read: Option<Result<Duration, String>>,
    positive: Option<Result<Duration, String>>,
)
    requires
        digit_count(value@) <= 11 || one_term(value@),
        call_ensures(try_parse_duration, (value,), read),
        call_ensures(try_parse_positive_duration, (value,), positive),
    ensures
        read is Some,
        positive is Some,
        call_requires(parse_duration, (value,)),
        call_requires(parse_positive_duration, (value,)),
{
    if digit_count(value@) <= 11 {
        lemma_numbers_of_terms(value@);
        assert(power_of_ten(digit_count(value@)) <= 100_000_000_000) by {
            lemma_powers_grow(digit_count(value@), 11);
            reveal_with_fuel(power_of_ten, 12);
        }
    }
}

/// Ten to the power of `n`.
spec fn power_of_ten(n: nat) -> nat
    decreases n,
{
    if n == 0 {
        1
    } else {
        power_of_ten((n - 1) as nat) * 10
    }
}

proof fn lemma_powers_grow(m: nat, n: nat)
    requires
        m <= n,
    ensures
        power_of_ten(m) <= power_of_ten(n),
        1 <= power_of_ten(m),
    decreases n,
{
    if m < n {
        lemma_powers_grow(m, (n - 1) as nat);
    } else if m > 0 {
        lemma_powers_grow((m - 1) as nat, (m - 1) as nat);
    }
}

/// The numbers of all terms together, each with one more.
spec fn numbers_together(terms: Seq<Seq<char>>) -> nat
    decreases terms.len(),
{
    if terms.len() == 0 {
        0
    } else {
        numbers_together(terms.drop_last()) + number_in(terms.last()) + 1
    }
}

proof fn lemma_seconds_of_numbers(terms: Seq<Seq<char>>)
    ensures
        most_seconds_together(terms) == numbers_together(terms) * 31_557_600,
    decreases terms.len(),
{
    if terms.len() > 0 {
        lemma_seconds_of_numbers(terms.drop_last());
    }
}

/// The numbers of the terms are no larger than the digits allow.
proof fn lemma_numbers_of_terms(s: Seq<char>)
    ensures
        numbers_together(terms(s)) <= 2 * power_of_ten(digit_count(s)),
        most_seconds_together(terms(s)) <= 2 * power_of_ten(digit_count(s)) * 31_557_600,
        s.len() > 0 ==> terms(s).len() > 0,
        s.len() == 0 ==> terms(s).len() == 0,
        numbers_together(terms(s)) <= 1 || numbers_together(terms(s)) < 2 * power_of_ten(
            digit_count(s),
        ),
    decreases s.len(),
{
    lemma_powers_grow(digit_count(s), digit_count(s));
    if s.len() > 0 {
        let shorter = s.drop_last();
        lemma_numbers_of_terms(shorter);
        lemma_powers_grow(digit_count(shorter), digit_count(shorter));
        let before = terms(shorter);
        let c = s.last();
        if before.len() == 0 || (is_digit(c) && has_letter(before.last())) {
            assert(terms(s).drop_last() == before);
            assert(seq![c].drop_last() == Seq::<char>::empty());
            assert(number_in(Seq::<char>::empty()) == 0);
        } else {
            let longer = before.last().push(c);
            assert(longer.drop_last() == before.last());
            assert(terms(s).drop_last() == before.drop_last());
            assert(terms(s).last() == longer);
        }
    }
    lemma_seconds_of_numbers(terms(s));
}

/// The spans of terms together, each up to its unit.
pub open spec fn spans_together(terms: Seq<Seq<char>>) -> nat
    decreases terms.len(),
{
    if terms.len() == 0 {
        0
    } else {
        humantime_duration(bare_term(terms[0]))->Ok_0 + spans_together(terms.skip(1))
    }
}

/// A text whose terms can all be read, and whose spans stay below the limit together, is read.
pub proof fn law_totals_below_the_limit_are_read(
    value: &str,
    read: Option<Result<Duration, String>>,
)
    requires
        forall|i: int|
            0 <= i < terms(value@).len() ==> {
                let term = bare_term(#[trigger] terms(value@)[i]);
                &&& humantime_duration(term) is Ok
                &&& humantime_duration(whole_part(term)) matches Ok(first) ==> first
                    <= humantime_duration(term)->Ok_0
            },
        spans_together(terms(value@)) < (u64::MAX + 1) * 1_000_000_000,
        call_ensures(try_parse_duration, (value,), read),
    ensures
        read is Some,
{
    lemma_totals_below_the_limit(terms(value@), 0);
}

proof fn lemma_totals_below_the_limit(terms: Seq<Seq<char>>, so_far: nat)
    requires
        forall|i: int|
            0 <= i < terms.len() ==> {
                let term = bare_term(#[trigger] terms[i]);
                &&& humantime_duration(term) is Ok
                &&& humantime_duration(whole_part(term)) matches Ok(first) ==> first
                    <= humantime_duration(term)->Ok_0
            },
        so_far + spans_together(terms) < span_limit(),
    ensures
        !meets_the_limit(terms, so_far),
    decreases terms.len(),
{
    if terms.len() > 0 {
        let rest = terms.skip(1);
        assert forall|i: int| 0 <= i < rest.len() implies {
            let term = bare_term(#[trigger] rest[i]);
            &&& humantime_duration(term) is Ok
            &&& humantime_duration(whole_part(term)) matches Ok(first) ==> first
                <= humantime_duration(term)->Ok_0
        } by {
            assert(rest[i] == terms[i + 1]);
        }
        let first = terms[0];
        lemma_totals_below_the_limit(rest, so_far + humantime_duration(bare_term(first))->Ok_0);
    }
}

/// A text is safe exactly where it is read, and whatever is safe may be read.
pub proof fn law_safe_texts_are_read(
    value: &str,
    safe: bool,
    read: Option<Result<Duration, String>>,
)
    requires
        call_ensures(is_safe_duration_text, (value,), safe),
        call_ensures(try_parse_duration, (value,), read),
    ensures
        safe <==> read is Some,
        safe ==> call_requires(parse_duration, (value,)),
        safe ==> call_requires(parse_positive_duration, (value,)),
{
}

} // verus!
