//! The pattern compiler: from the text of a CLDR date pattern to its elements.
//!
//! A pattern is read once from left to right. A run of one field letter is a
//! field, chosen by the letter and the length of the run. Text between single
//! quotes is literal, and two single quotes in a row stand for one. `{0}` and
//! `{1}` are the placeholders of a pattern that joins a date and a time: a
//! `{` is followed by the index, and the character behind the index closes
//! the placeholder. Any other run of characters is literal text.

use vstd::prelude::*;
use super::layout::{DateTimeToken, PatternElement, PatternElementView, PatternView};
use super::layout::lemma_push_deep_view;

verus! {

/// Why a pattern does not compile.
#[derive(Clone, Copy, Debug, PartialEq, Eq, Structural)]
pub enum ParserError {
    /// A single quote opens literal text that no later quote closes.
    UnterminatedLiteral,
    /// A run of a field letter has a length that selects no field.
    UnsupportedField,
    /// A `{` is not followed by `0` or `1`.
    UnsupportedPlaceholder,
}

/// The letters that begin a field.
pub open spec fn is_field_letter(c: char) -> bool {
    c == 'M' || c == 'y' || c == 'd' || c == 'E' || c == 'H' || c == 'm' || c == 's' || c == 'z'
}

/// The characters that stand for themselves outside quotes.
pub open spec fn is_plain(c: char) -> bool {
    c != '\'' && c != '{' && !is_field_letter(c)
}

/// The field that `letter`, repeated `width` times, selects, if there is one.
pub open spec fn field_token(letter: char, width: int) -> Option<DateTimeToken> {
    if letter == 'M' {
        if width == 4 {
            Some(DateTimeToken::MonthNameLong)
        } else if width == 3 {
            Some(DateTimeToken::MonthNameAbbreviated)
        } else if width == 2 {
            Some(DateTimeToken::Month2digit)
        } else {
            None
        }
    } else if letter == 'y' {
        if width == 1 {
            Some(DateTimeToken::YearNumeric)
        } else if width == 2 {
            Some(DateTimeToken::Year2digit)
        } else {
            None
        }
    } else if letter == 'd' {
        if width == 1 {
            Some(DateTimeToken::DayNumeric)
        } else if width == 2 {
            Some(DateTimeToken::Day2digit)
        } else {
            None
        }
    } else if letter == 'E' {
        if width == 4 {
            Some(DateTimeToken::WeekDayWide)
        } else {
            None
        }
    } else if letter == 'H' {
        if width == 2 {
            Some(DateTimeToken::Hour2digit)
        } else {
            None
        }
    } else if letter == 'm' {
        if width == 2 {
            Some(DateTimeToken::Minute2digit)
        } else {
            None
        }
    } else if letter == 's' {
        if width == 2 {
            Some(DateTimeToken::Second2digit)
        } else {
            None
        }
    } else if letter == 'z' {
        if 1 <= width <= 3 {
            Some(DateTimeToken::ZoneShort)
        } else if width == 4 {
            Some(DateTimeToken::ZoneLong)
        } else {
            None
        }
    } else {
        None
    }
}

/// The end of the run of `c` that is under way at `i`: the first position from
/// `i` on that does not hold `c`.
pub open spec fn run_end(s: Seq<char>, c: char, i: int) -> int
    decreases s.len() - i,
{
    if 0 <= i < s.len() && s[i] == c {
        run_end(s, c, i + 1)
    } else {
        i
    }
}

/// The end of the literal run that is under way at `i`: the first position
/// from `i` on that does not hold a plain character.
pub open spec fn plain_end(s: Seq<char>, i: int) -> int
    decreases s.len() - i,
{
    if 0 <= i < s.len() && is_plain(s[i]) {
        plain_end(s, i + 1)
    } else {
        i
    }
}

/// Quoted text read from `i`, a position behind the opening quote: the text
/// up to the closing quote, each doubled quote in it taken as one, and the
/// position behind the closing quote. `None` where no quote closes the text.
pub open spec fn quoted_text(s: Seq<char>, i: int) -> Option<(Seq<char>, int)>
    decreases s.len() - i,
{
    if i < 0 || i >= s.len() {
        None
    } else if s[i] != '\'' {
        match quoted_text(s, i + 1) {
            Some((text, end)) => Some((seq![s[i]] + text, end)),
            None => None,
        }
    } else if i + 1 < s.len() && s[i + 1] == '\'' {
        match quoted_text(s, i + 2) {
            Some((text, end)) => Some((seq!['\''] + text, end)),
            None => None,
        }
    } else {
        Some((Seq::empty(), i + 1))
    }
}

/// The position behind the placeholder that begins at `i`: behind the brace,
/// the index and one more character, which stands for the closing brace and
/// is not looked at; the end of the text where that character is missing.
pub open spec fn placeholder_end(s: Seq<char>, i: int) -> int {
    if i + 3 <= s.len() {
        i + 3
    } else {
        s.len() as int
    }
}

/// The element that begins at `i` and the position behind it, or the reason
/// why no element begins there.
pub open spec fn element_at(s: Seq<char>, i: int) -> Result<(PatternElementView, int), ParserError>
    recommends
        0 <= i < s.len(),
{
    let c = s[i];
    if c == '\'' {
        if i + 1 < s.len() && s[i + 1] == '\'' {
            Ok((PatternElementView::Literal(seq!['\'']), i + 2))
        } else {
            match quoted_text(s, i + 1) {
                Some((text, end)) => Ok((PatternElementView::Literal(text), end)),
                None => Err(ParserError::UnterminatedLiteral),
            }
        }
    } else if c == '{' {
        if i + 1 < s.len() && s[i + 1] == '0' {
            Ok((PatternElementView::Token(DateTimeToken::Sub0), placeholder_end(s, i)))
        } else if i + 1 < s.len() && s[i + 1] == '1' {
            Ok((PatternElementView::Token(DateTimeToken::Sub1), placeholder_end(s, i)))
        } else {
            Err(ParserError::UnsupportedPlaceholder)
        }
    } else if is_field_letter(c) {
        let end = run_end(s, c, i + 1);
        match field_token(c, end - i) {
            Some(token) => Ok((PatternElementView::Token(token), end)),
            None => Err(ParserError::UnsupportedField),
        }
    } else {
        let end = plain_end(s, i + 1);
        Ok((PatternElementView::Literal(s.subrange(i, end)), end))
    }
}

/// A run ends at or behind the position it is followed from, inside the text.
pub proof fn lemma_run_end_bounds(s: Seq<char>, c: char, i: int)
    requires
        0 <= i <= s.len(),
    ensures
        i <= run_end(s, c, i) <= s.len(),
        forall|k: int| i <= k < run_end(s, c, i) ==> s[k] == c,
        run_end(s, c, i) < s.len() ==> s[run_end(s, c, i)] != c,
    decreases s.len() - i,
{
    if i < s.len() && s[i] == c {
        lemma_run_end_bounds(s, c, i + 1);
    }
}

/// A literal run ends at or behind the position it is followed from, inside
/// the text, and holds plain characters only.
pub proof fn lemma_plain_end_bounds(s: Seq<char>, i: int)
    requires
        0 <= i <= s.len(),
    ensures
        i <= plain_end(s, i) <= s.len(),
        forall|k: int| i <= k < plain_end(s, i) ==> is_plain(s[k]),
        plain_end(s, i) < s.len() ==> !is_plain(s[plain_end(s, i)]),
    decreases s.len() - i,
{
    if i < s.len() && is_plain(s[i]) {
        lemma_plain_end_bounds(s, i + 1);
    }
}

/// Quoted text ends behind its closing quote, inside the text.
pub proof fn lemma_quoted_text_bounds(s: Seq<char>, i: int)
    requires
        0 <= i,
    ensures
        quoted_text(s, i) matches Some((_, end)) ==> i < end <= s.len() && s[end - 1] == '\'',
    decreases s.len() - i,
{
    if i < s.len() {
        if s[i] != '\'' {
            lemma_quoted_text_bounds(s, i + 1);
        } else if i + 1 < s.len() && s[i + 1] == '\'' {
            lemma_quoted_text_bounds(s, i + 2);
        }
    }
}

/// Every element spans at least one character and ends inside the text.
pub proof fn lemma_element_advances(s: Seq<char>, i: int)
    requires
        0 <= i < s.len(),
    ensures
        element_at(s, i) matches Ok((_, next)) ==> i < next <= s.len(),
{
    lemma_run_end_bounds(s, s[i], i + 1);
    lemma_plain_end_bounds(s, i + 1);
    lemma_quoted_text_bounds(s, i + 1);
}

/// The elements of `s` from position `i` on, or the first error met.
pub open spec fn elements_from(s: Seq<char>, i: int) -> Result<PatternView, ParserError>
    decreases s.len() - i,
{
    if i < 0 || i >= s.len() {
        Ok(Seq::empty())
    } else {
        match element_at(s, i) {
            Err(e) => Err(e),
            Ok((element, next)) => {
                proof {
                    lemma_element_advances(s, i);
                }
                match elements_from(s, next) {
                    Ok(rest) => Ok(seq![element] + rest),
                    Err(e) => Err(e),
                }
            },
        }
    }
}

/// What a pattern compiles to: its elements in the order of the text, or the
/// first error met from the left.
pub open spec fn compile(s: Seq<char>) -> Result<PatternView, ParserError> {
    elements_from(s, 0)
}

/// How a field is read: where a field letter stands `width` times from `at`
/// on and not once more, the element at `at` is the field that the letter and
/// the width select, or there is none.
pub proof fn lemma_field_run(s: Seq<char>, at: int, width: int)
    requires
        0 <= at,
        1 <= width,
        at + width <= s.len(),
        is_field_letter(s[at]),
        forall|k: int| at <= k < at + width ==> #[trigger] s[k] == s[at],
        at + width < s.len() ==> s[at + width] != s[at],
    ensures
        element_at(s, at) == match field_token(s[at], width) {
            Some(token) => Ok::<(PatternElementView, int), ParserError>(
                (PatternElementView::Token(token), at + width),
            ),
            None => Err::<(PatternElementView, int), ParserError>(ParserError::UnsupportedField),
        },
{
    lemma_run_end_bounds(s, s[at], at + 1);
    let end = run_end(s, s[at], at + 1);
    if end < at + width {
        assert(s[end] == s[at]);
    }
    if end > at + width {
        assert(s[at + width] == s[at]);
    }
}

/// How literal text outside quotes is read: where plain characters stand
/// from `at` up to `end` and none at `end`, the element at `at` is the
/// literal of just these characters.
pub proof fn lemma_plain_run(s: Seq<char>, at: int, end: int)
    requires
        0 <= at < end <= s.len(),
        forall|k: int| at <= k < end ==> is_plain(#[trigger] s[k]),
        end < s.len() ==> !is_plain(s[end]),
    ensures
        element_at(s, at) == Ok::<(PatternElementView, int), ParserError>(
            (PatternElementView::Literal(s.subrange(at, end)), end),
        ),
{
    lemma_plain_end_bounds(s, at + 1);
    let found = plain_end(s, at + 1);
    if found < end {
        assert(is_plain(s[found]));
    }
    if found > end {
        assert(is_plain(s[end]));
    }
    assert(is_plain(s[at]));
}

/// How quoted text without a quote in it is read: where a quote stands at
/// `at`, the next one at `end`, and at least one character between them, the
/// element at `at` is the literal of the characters between the quotes.
pub proof fn lemma_quoted_run(s: Seq<char>, at: int, end: int)
    requires
        0 <= at,
        at + 1 < end < s.len(),
        s[at] == '\'',
        s[end] == '\'',
        forall|k: int| at < k < end ==> #[trigger] s[k] != '\'',
        end + 1 < s.len() ==> s[end + 1] != '\'',
    ensures
        element_at(s, at) == Ok::<(PatternElementView, int), ParserError>(
            (PatternElementView::Literal(s.subrange(at + 1, end)), end + 1),
        ),
{
    lemma_quoted_plain(s, at + 1, end);
}

/// Quoted text read from `from` up to its closing quote at `end`, where no
/// quote stands in between.
proof fn lemma_quoted_plain(s: Seq<char>, from: int, end: int)
    requires
        0 <= from <= end < s.len(),
        s[end] == '\'',
        forall|k: int| from <= k < end ==> #[trigger] s[k] != '\'',
        end + 1 < s.len() ==> s[end + 1] != '\'',
    ensures
        quoted_text(s, from) == Some((s.subrange(from, end), end + 1)),
    decreases end - from,
{
    if from < end {
        lemma_quoted_plain(s, from + 1, end);
        assert(seq![s[from]] + s.subrange(from + 1, end) =~= s.subrange(from, end));
    } else {
        assert(s.subrange(from, end) =~= Seq::<char>::empty());
    }
}

/// A field in front of elements that compile: the field that the run
/// selects, then those elements.
pub proof fn lemma_field_then(s: Seq<char>, at: int, width: int)
    requires
        0 <= at,
        1 <= width,
        at + width <= s.len(),
        is_field_letter(s[at]),
        forall|k: int| at <= k < at + width ==> #[trigger] s[k] == s[at],
        at + width < s.len() ==> s[at + width] != s[at],
        field_token(s[at], width) is Some,
        elements_from(s, at + width) is Ok,
    ensures
        elements_from(s, at) == Ok::<PatternView, ParserError>(
            seq![PatternElementView::Token(field_token(s[at], width).unwrap())] + elements_from(
                s,
                at + width,
            ).unwrap(),
        ),
{
    lemma_field_run(s, at, width);
}

/// Literal text outside quotes in front of elements that compile: the
/// literal of the run, then those elements.
pub proof fn lemma_plain_then(s: Seq<char>, at: int, end: int)
    requires
        0 <= at < end <= s.len(),
        forall|k: int| at <= k < end ==> is_plain(#[trigger] s[k]),
        end < s.len() ==> !is_plain(s[end]),
        elements_from(s, end) is Ok,
    ensures
        elements_from(s, at) == Ok::<PatternView, ParserError>(
            seq![PatternElementView::Literal(s.subrange(at, end))] + elements_from(
                s,
                end,
            ).unwrap(),
        ),
{
    lemma_plain_run(s, at, end);
}

/// A placeholder with its closing brace in front of elements that compile.
pub proof fn lemma_placeholder_then(s: Seq<char>, at: int)
    requires
        0 <= at,
        at + 3 <= s.len(),
        s[at] == '{',
        s[at + 1] == '0' || s[at + 1] == '1',
        elements_from(s, at + 3) is Ok,
    ensures
        elements_from(s, at) == Ok::<PatternView, ParserError>(
            seq![
                PatternElementView::Token(
                    if s[at + 1] == '0' {
                        DateTimeToken::Sub0
                    } else {
                        DateTimeToken::Sub1
                    },
                ),
            ] + elements_from(s, at + 3).unwrap(),
        ),
{
}

/// The scan that begins at `from` arrives at `to`: `to` is `from`, or the
/// place behind an element behind which the scan has arrived.
pub open spec fn scan_arrives(s: Seq<char>, from: int, to: int) -> bool
    decreases s.len() - from,
{
    if from == to {
        true
    } else if from < 0 || from >= s.len() || to < from {
        false
    } else {
        match element_at(s, from) {
            Ok((_, next)) => {
                proof {
                    lemma_element_advances(s, from);
                }
                scan_arrives(s, next, to)
            },
            Err(_) => false,
        }
    }
}

/// An error behind elements that compile is the error of the whole.
proof fn lemma_error_behind(s: Seq<char>, from: int, to: int, e: ParserError)
    requires
        scan_arrives(s, from, to),
        elements_from(s, to) == Err::<PatternView, ParserError>(e),
    ensures
        elements_from(s, from) == Err::<PatternView, ParserError>(e),
    decreases s.len() - from,
{
    if from != to {
        match element_at(s, from) {
            Ok((_, next)) => {
                lemma_element_advances(s, from);
                lemma_error_behind(s, next, to, e);
            },
            Err(_) => {},
        }
    }
}

/// The first error that the scan meets is the outcome: where the scan from
/// the left arrives at `at` and no element begins there, the pattern does not
/// compile, and the error is the reason why no element begins at `at`.
pub proof fn lemma_first_error_is_reported(s: Seq<char>, at: int, e: ParserError)
    requires
        0 <= at < s.len(),
        scan_arrives(s, 0, at),
        element_at(s, at) == Err::<(PatternElementView, int), ParserError>(e),
    ensures
        compile(s) == Err::<PatternView, ParserError>(e),
{
    lemma_error_behind(s, 0, at, e);
}

/// A run of a field letter whose length selects no field is never passed
/// over and never taken for another field: where the scan arrives at such a
/// run, the pattern does not compile.
pub proof fn lemma_unsupported_field_is_error(s: Seq<char>, at: int)
    requires
        0 <= at < s.len(),
        scan_arrives(s, 0, at),
        is_field_letter(s[at]),
        field_token(s[at], run_end(s, s[at], at + 1) - at) is None,
    ensures
        compile(s) == Err::<PatternView, ParserError>(ParserError::UnsupportedField),
{
    lemma_first_error_is_reported(s, at, ParserError::UnsupportedField);
}

/// A pattern that is one run of a field letter compiles to the field that
/// the letter and the length select, and does not compile where they select
/// none.
pub proof fn lemma_single_run(s: Seq<char>)
    requires
        s.len() >= 1,
        is_field_letter(s[0]),
        forall|k: int| 0 <= k < s.len() ==> #[trigger] s[k] == s[0],
    ensures
        compile(s) == match field_token(s[0], s.len() as int) {
            Some(token) => Ok::<PatternView, ParserError>(seq![PatternElementView::Token(token)]),
            None => Err::<PatternView, ParserError>(ParserError::UnsupportedField),
        },
{
    lemma_run_end_bounds(s, s[0], 1);
    let end = run_end(s, s[0], 1);
    if end < s.len() {
        assert(s[end] == s[0]);
    }
    assert(end == s.len());
    match field_token(s[0], s.len() as int) {
        Some(token) => {
            assert(elements_from(s, end) == Ok::<PatternView, ParserError>(Seq::empty()));
            assert(seq![PatternElementView::Token(token)] + Seq::<PatternElementView>::empty()
                =~= seq![PatternElementView::Token(token)]);
        },
        None => {},
    }
}

/// The empty pattern compiles to no element.
pub proof fn lemma_empty_pattern()
    ensures
        compile(Seq::<char>::empty()) == Ok::<PatternView, ParserError>(Seq::empty()),
{
}

/// No literal of a compiled pattern is empty.
pub proof fn lemma_literals_are_not_empty(s: Seq<char>, from: int)
    requires
        0 <= from,
        elements_from(s, from) is Ok,
    ensures
        forall|k: int|
            0 <= k < elements_from(s, from).unwrap().len() ==> (
            #[trigger] elements_from(s, from).unwrap()[k] matches PatternElementView::Literal(text)
                ==> text.len() > 0),
    decreases s.len() - from,
{
    if from < s.len() {
        lemma_element_advances(s, from);
        lemma_plain_end_bounds(s, from + 1);
        match element_at(s, from) {
            Ok((element, next)) => {
                lemma_literals_are_not_empty(s, next);
                let rest = elements_from(s, next).unwrap();
                let all = elements_from(s, from).unwrap();
                assert(all == seq![element] + rest);
                if s[from] == '\'' && !(from + 1 < s.len() && s[from + 1] == '\'') {
                    assert(quoted_text(s, from + 1) is Some);
                    assert(from + 1 < s.len());
                    assert(s[from + 1] != '\'');
                    assert(quoted_text(s, from + 1).unwrap().0.len() > 0);
                }
                assert forall|k: int| 0 <= k < all.len() implies (
                #[trigger] all[k] matches PatternElementView::Literal(text) ==> text.len()
                    > 0) by {
                    if k > 0 {
                        assert(all[k] == rest[k - 1]);
                    }
                }
            },
            Err(_) => {},
        }
    }
}

/// What the outcome of a compilation stands for: the views of the elements,
/// or the error.
pub open spec fn compiled_view(r: Result<Vec<PatternElement>, ParserError>) -> Result<
    PatternView,
    ParserError,
> {
    match r {
        Ok(elements) => Ok(elements.deep_view()),
        Err(e) => Err(e),
    }
}

/// The elements `done`, followed by the outcome of what is still to be read.
pub open spec fn followed_by(done: PatternView, rest: Result<PatternView, ParserError>) -> Result<
    PatternView,
    ParserError,
> {
    match rest {
        Ok(elements) => Ok(done + elements),
        Err(e) => Err(e),
    }
}

/// Reading one more element moves it from the text still to be read to the
/// elements that are done.
proof fn lemma_step(s: Seq<char>, i: int, done: PatternView)
    requires
        0 <= i < s.len(),
    ensures
        match element_at(s, i) {
            Ok((element, next)) => followed_by(done, elements_from(s, i)) == followed_by(
                done.push(element),
                elements_from(s, next),
            ),
            Err(e) => followed_by(done, elements_from(s, i)) == Err::<PatternView, ParserError>(e),
        },
{
    match element_at(s, i) {
        Ok((element, next)) => {
            match elements_from(s, next) {
                Ok(rest) => {
                    assert(done + (seq![element] + rest) =~= done.push(element) + rest);
                },
                Err(_) => {},
            }
        },
        Err(_) => {},
    }
}

/// Compiling is a function of the text: whatever two compilations of one
/// text give stands for the same elements in the same order, or is the same
/// error.
pub proof fn lemma_compile_is_deterministic(
    text: Seq<char>,
    first: Result<Vec<PatternElement>, ParserError>,
    second: Result<Vec<PatternElement>, ParserError>,
)
    requires
        compiled_view(first) == compile(text),
        compiled_view(second) == compile(text),
    ensures
        compiled_view(first) == compiled_view(second),
        first is Ok <==> second is Ok,
        first matches Ok(a) ==> second matches Ok(b) && a.len() == b.len() && forall|i: int|
            0 <= i < a.len() ==> a[i]@ == b[i]@,
        first matches Err(e) ==> second == Err::<Vec<PatternElement>, ParserError>(e),
{
    match (first, second) {
        (Ok(a), Ok(b)) => {
            assert(a.deep_view() == b.deep_view());
            assert(a.deep_view().len() == a.len());
            assert(b.deep_view().len() == b.len());
            assert forall|i: int| 0 <= i < a.len() implies a[i]@ == b[i]@ by {
                assert(a.deep_view()[i] == a[i]@);
                assert(b.deep_view()[i] == b[i]@);
            }
        },
        _ => {},
    }
}

/// The characters of `s`, in order.
pub(crate) fn chars_of(s: &str) -> (chars: Vec<char>)
    ensures
        chars@ == s@,
{
    let mut chars: Vec<char> = Vec::new();
    for c in it: s.chars()
        invariant
            chars@ == it.seq().take(it.index() as int),
            it.seq() == s@,
    {
        chars.push(c);
    }
    chars
}

fn starts_field(c: char) -> (b: bool)
    ensures
        b == is_field_letter(c),
{
    c == 'M' || c == 'y' || c == 'd' || c == 'E' || c == 'H' || c == 'm' || c == 's' || c == 'z'
}

/// The field that a letter, repeated `width` times, selects. There is none
/// for a letter that begins no field and for a width that the letter does
/// not have.
pub fn select_field(letter: char, width: usize) -> (token: Option<DateTimeToken>)
    ensures
        token == field_token(letter, width as int),
{
    if letter == 'M' {
        if width == 4 {
            Some(DateTimeToken::MonthNameLong)
        } else if width == 3 {
            Some(DateTimeToken::MonthNameAbbreviated)
        } else if width == 2 {
            Some(DateTimeToken::Month2digit)
        } else {
            None
        }
    } else if letter == 'y' {
        if width == 1 {
            Some(DateTimeToken::YearNumeric)
        } else if width == 2 {
            Some(DateTimeToken::Year2digit)
        } else {
            None
        }
    } else if letter == 'd' {
        if width == 1 {
            Some(DateTimeToken::DayNumeric)
        } else if width == 2 {
            Some(DateTimeToken::Day2digit)
        } else {
            None
        }
    } else if letter == 'E' {
        if width == 4 {
            Some(DateTimeToken::WeekDayWide)
        } else {
            None
        }
    } else if letter == 'H' {
        if width == 2 {
            Some(DateTimeToken::Hour2digit)
        } else {
            None
        }
    } else if letter == 'm' {
        if width == 2 {
            Some(DateTimeToken::Minute2digit)
        } else {
            None
        }
    } else if letter == 's' {
        if width == 2 {
            Some(DateTimeToken::Second2digit)
        } else {
            None
        }
    } else if letter == 'z' {
        if 1 <= width && width <= 3 {
            Some(DateTimeToken::ZoneShort)
        } else if width == 4 {
            Some(DateTimeToken::ZoneLong)
        } else {
            None
        }
    } else {
        None
    }
}

/// The characters from `start` up to `end`, as a string.
fn collect_literal(chars: &Vec<char>, start: usize, end: usize) -> (text: String)
    requires
        start <= end <= chars.len(),
    ensures
        text@ == chars@.subrange(start as int, end as int),
{
    let mut text = String::new();
    let mut k: usize = start;
    while k < end
        invariant
            start <= k <= end <= chars.len(),
            text@ == chars@.subrange(start as int, k as int),
        decreases end - k,
    {
        text.push(chars[k]);
        k += 1;
        assert(chars@.subrange(start as int, k as int) =~= chars@.subrange(
            start as int,
            k - 1,
        ).push(chars@[k - 1]));
    }
    text
}

/// Follows a run of `c` from `from` to its end.
fn scan_run(chars: &Vec<char>, c: char, from: usize) -> (end: usize)
    requires
        from <= chars.len(),
    ensures
        end == run_end(chars@, c, from as int),
        from <= end <= chars.len(),
{
    let mut k: usize = from;
    while k < chars.len() && chars[k] == c
        invariant
            from <= k <= chars.len(),
            run_end(chars@, c, from as int) == run_end(chars@, c, k as int),
        decreases chars.len() - k,
    {
        k += 1;
    }
    k
}

/// Follows a literal run from `from` to its end.
fn scan_plain(chars: &Vec<char>, from: usize) -> (end: usize)
    requires
        from <= chars.len(),
    ensures
        end == plain_end(chars@, from as int),
        from <= end <= chars.len(),
{
    let mut k: usize = from;
    while k < chars.len() && chars[k] != '\'' && chars[k] != '{' && !starts_field(chars[k])
        invariant
            from <= k <= chars.len(),
            plain_end(chars@, from as int) == plain_end(chars@, k as int),
        decreases chars.len() - k,
    {
        k += 1;
    }
    k
}

/// The text read so far, put in front of what the rest of the quoted text
/// gives.
spec fn quoted_after(read: Seq<char>, rest: Option<(Seq<char>, int)>) -> Option<(Seq<char>, int)> {
    match rest {
        Some((text, end)) => Some((read + text, end)),
        None => None,
    }
}

/// Reads quoted text from `from`, a position behind the opening quote.
fn scan_quoted(chars: &Vec<char>, from: usize) -> (r: Option<(String, usize)>)
    requires
        from <= chars.len(),
    ensures
        match r {
            Some((text, end)) => quoted_text(chars@, from as int) == Some((text@, end as int))
                && from < end <= chars.len(),
            None => quoted_text(chars@, from as int) is None,
        },
{
    let mut text = String::new();
    let mut k: usize = from;
    while k < chars.len()
        invariant
            from <= k <= chars.len(),
            quoted_text(chars@, from as int) == quoted_after(text@, quoted_text(chars@, k as int)),
        decreases chars.len() - k,
    {
        let ghost before = text@;
        let c = chars[k];
        if c != '\'' {
            text.push(c);
            proof {
                match quoted_text(chars@, k + 1) {
                    Some((rest, _)) => {
                        assert(before + (seq![c] + rest) =~= before.push(c) + rest);
                    },
                    None => {},
                }
            }
            k += 1;
        } else if k + 1 < chars.len() && chars[k + 1] == '\'' {
            text.push('\'');
            proof {
                match quoted_text(chars@, k + 2) {
                    Some((rest, _)) => {
                        assert(before + (seq!['\''] + rest) =~= before.push('\'') + rest);
                    },
                    None => {},
                }
            }
            k += 2;
        } else {
            assert(before + Seq::<char>::empty() =~= before);
            return Some((text, k + 1));
        }
    }
    None
}

/// Compiles the text of a pattern into its elements.
///
/// The result is `Ok` exactly for the patterns that [`compile`] accepts, and
/// then holds the elements that it gives, in order. Otherwise the error is the
/// first one met from the left.
pub fn parse_pattern(input: &str) -> (result: Result<Vec<PatternElement>, ParserError>)
    ensures
        compiled_view(result) == compile(input@),
{
    let chars = chars_of(input);
    let mut elements: Vec<PatternElement> = Vec::new();
    let mut i: usize = 0;
    assert(followed_by(elements.deep_view(), elements_from(chars@, 0)) == compile(chars@)) by {
        match elements_from(chars@, 0) {
            Ok(rest) => {
                assert(elements.deep_view() + rest =~= rest);
            },
            Err(_) => {},
        }
    }
    while i < chars.len()
        invariant
            i <= chars.len(),
            chars@ == input@,
            followed_by(elements.deep_view(), elements_from(chars@, i as int)) == compile(input@),
        decreases chars.len() - i,
    {
        let ghost done = elements;
        proof {
            lemma_step(chars@, i as int, elements.deep_view());
        }
        let c = chars[i];
        let element;
        let next;
        if c == '\'' {
            if i + 1 < chars.len() && chars[i + 1] == '\'' {
                let mut text = String::new();
                text.push('\'');
                assert(text@ =~= seq!['\'']);
                element = PatternElement::Literal(text);
                next = i + 2;
            } else {
                match scan_quoted(&chars, i + 1) {
                    Some((text, end)) => {
                        element = PatternElement::Literal(text);
                        next = end;
                    },
                    None => {
                        return Err(ParserError::UnterminatedLiteral);
                    },
                }
            }
        } else if c == '{' {
            if i + 1 < chars.len() && chars[i + 1] == '0' {
                element = PatternElement::Token(DateTimeToken::Sub0);
            } else if i + 1 < chars.len() && chars[i + 1] == '1' {
                element = PatternElement::Token(DateTimeToken::Sub1);
            } else {
                return Err(ParserError::UnsupportedPlaceholder);
            }
            next = if chars.len() - i >= 3 {
                i + 3
            } else {
                chars.len()
            };
        } else if starts_field(c) {
            let end = scan_run(&chars, c, i + 1);
            match select_field(c, end - i) {
                Some(token) => {
                    element = PatternElement::Token(token);
                    next = end;
                },
                None => {
                    return Err(ParserError::UnsupportedField);
                },
            }
        } else {
            let end = scan_plain(&chars, i + 1);
            element = PatternElement::Literal(collect_literal(&chars, i, end));
            next = end;
        }
        assert(element_at(chars@, i as int) == Ok::<_, ParserError>((element@, next as int)));
        elements.push(element);
        proof {
            lemma_push_deep_view(done, elements, element);
        }
        i = next;
    }
    assert(elements.deep_view() + Seq::<PatternElementView>::empty() =~= elements.deep_view());
    Ok(elements)
}

} // verus!
