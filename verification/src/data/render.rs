//! The renderer: from the elements of a pattern, a date and the names of a
//! locale to text.
//!
//! The elements are taken from left to right. A literal is written as it
//! stands. A numeric field is the decimal text of its number. A name field is
//! looked up in the lists that the locale has for names inside a date. The two
//! time zone fields are fixed texts: the date holds no zone.

use vstd::prelude::*;
use super::layout::{
    CalendarView,
    DateTimePattern,
    DateTimeToken,
    GregorianCalendar,
    NamesLength,
    PatternElement,
    PatternElementView,
    PatternView,
    Resource,
};
use super::numbers::{format_number, number_text};
use super::weekday::{day_of_week, get_day_of_week, month_index, month_slot};
use crate::{DateTime, FormatError};

verus! {

/// The text of the long time zone field.
pub open spec fn zone_long() -> Seq<char> {
    "Pacific Daylight Time"@
}

/// The text of the short time zone field.
pub open spec fn zone_short() -> Seq<char> {
    "PDT"@
}

/// No element is a placeholder.
pub open spec fn is_resolved(pattern: PatternView) -> bool {
    forall|i: int| 0 <= i < pattern.len() ==> !(#[trigger] pattern[i]).is_placeholder()
}

impl CalendarView {
    /// The locale has the list of names that the field reads, or the field
    /// reads none.
    pub open spec fn has_names_for(self, token: DateTimeToken) -> bool {
        match token {
            DateTimeToken::WeekDayWide => self.days.format.wide is Some,
            DateTimeToken::MonthNameLong => self.months.format.wide is Some,
            DateTimeToken::MonthNameAbbreviated => self.months.format.abbreviated is Some,
            _ => true,
        }
    }

    /// The locale has the list of names that the element reads, or the
    /// element reads none.
    pub open spec fn has_names_of(self, element: PatternElementView) -> bool {
        element matches PatternElementView::Token(token) ==> self.has_names_for(token)
    }

    /// The locale has every list of names that the pattern reads.
    pub open spec fn has_names(self, pattern: PatternView) -> bool {
        forall|i: int| 0 <= i < pattern.len() ==> self.has_names_of(#[trigger] pattern[i])
    }

    /// The text of one field for a date. A name is read from the lists for
    /// names inside a date: the wide day names at the day of the week, the
    /// wide or abbreviated month names at the place of the month. A
    /// placeholder has no text.
    pub open spec fn field_text(self, token: DateTimeToken, value: DateTime) -> Seq<char>
        recommends
            self.has_names_for(token),
            !token.is_placeholder(),
    {
        match token {
            DateTimeToken::WeekDayWide => self.days.format.wide.unwrap()[day_of_week(
                value.year as int,
                value.month as int,
                value.day as int,
            )],
            DateTimeToken::DayNumeric => number_text(value.day as nat, false),
            DateTimeToken::Day2digit => number_text(value.day as nat, true),
            DateTimeToken::MonthNameLong => self.months.format.wide.unwrap()[month_slot(
                value.month as int,
            )],
            DateTimeToken::MonthNameAbbreviated => self.months.format.abbreviated.unwrap()[
                month_slot(value.month as int)
            ],
            DateTimeToken::Month2digit => number_text(value.month as nat, true),
            DateTimeToken::YearNumeric => number_text(value.year as nat, false),
            DateTimeToken::Year2digit => number_text(value.year as nat, true),
            DateTimeToken::Hour2digit => number_text(value.hour as nat, true),
            DateTimeToken::Minute2digit => number_text(value.minute as nat, true),
            DateTimeToken::Second2digit => number_text(value.second as nat, true),
            DateTimeToken::ZoneLong => zone_long(),
            DateTimeToken::ZoneShort => zone_short(),
            DateTimeToken::Sub0 => Seq::empty(),
            DateTimeToken::Sub1 => Seq::empty(),
        }
    }

    /// The text of one element for a date.
    pub open spec fn element_text(self, element: PatternElementView, value: DateTime) -> Seq<
        char,
    > {
        match element {
            PatternElementView::Literal(text) => text,
            PatternElementView::Token(token) => self.field_text(token, value),
        }
    }

    /// The text of a pattern for a date: the texts of its elements, one
    /// behind the other.
    pub open spec fn pattern_text(self, pattern: PatternView, value: DateTime) -> Seq<char>
        decreases pattern.len(),
    {
        if pattern.len() == 0 {
            Seq::empty()
        } else {
            self.pattern_text(pattern.drop_last(), value) + self.element_text(
                pattern.last(),
                value,
            )
        }
    }

    /// What rendering a pattern without placeholders gives: its text, where
    /// the locale has every list of names that the pattern reads.
    pub open spec fn render(self, pattern: PatternView, value: DateTime) -> Result<
        Seq<char>,
        FormatError,
    >
        recommends
            is_resolved(pattern),
    {
        if self.has_names(pattern) {
            Ok(self.pattern_text(pattern, value))
        } else {
            Err(FormatError::LookupGap)
        }
    }

    /// Whether a pattern can be rendered with this locale: no placeholder is
    /// left in it, and the locale has the lists of names that it reads. A
    /// placeholder is reported before a missing list.
    pub open spec fn spec_check(self, pattern: PatternView) -> Result<(), FormatError> {
        if !is_resolved(pattern) {
            Err(FormatError::UnresolvedPlaceholder)
        } else if !self.has_names(pattern) {
            Err(FormatError::LookupGap)
        } else {
            Ok(())
        }
    }
}

impl GregorianCalendar {
    fn has_list_for(&self, token: DateTimeToken) -> (found: bool)
        ensures
            found == self@.has_names_for(token),
    {
        match token {
            DateTimeToken::WeekDayWide => self.days.get_list(false, NamesLength::WIDE).is_some(),
            DateTimeToken::MonthNameLong => self.months.get_list(
                false,
                NamesLength::WIDE,
            ).is_some(),
            DateTimeToken::MonthNameAbbreviated => self.months.get_list(
                false,
                NamesLength::ABBREVIATED,
            ).is_some(),
            _ => true,
        }
    }

    /// Tests whether a pattern can be rendered with this locale.
    pub fn check_pattern(&self, pattern: &[PatternElement]) -> (outcome: Result<(), FormatError>)
        ensures
            outcome == self@.spec_check(pattern.deep_view()),
    {
        let ghost elements = pattern.deep_view();
        let mut complete = true;
        let mut i: usize = 0;
        while i < pattern.len()
            invariant
                i <= pattern.len(),
                elements == pattern.deep_view(),
                is_resolved(elements.take(i as int)),
                complete == self@.has_names(elements.take(i as int)),
            decreases pattern.len() - i,
        {
            let ghost before = elements.take(i as int);
            let ghost upto = elements.take(i + 1);
            assert(elements[i as int] == pattern@[i as int]@);
            assert(upto[i as int] == elements[i as int]);
            assert(forall|j: int| 0 <= j < i ==> upto[j] == before[j]);
            match &pattern[i] {
                PatternElement::Literal(_) => {},
                PatternElement::Token(token) => {
                    if *token == DateTimeToken::Sub0 || *token == DateTimeToken::Sub1 {
                        return Err(FormatError::UnresolvedPlaceholder);
                    }
                    if !self.has_list_for(*token) {
                        complete = false;
                    }
                },
            }
            assert(complete == self@.has_names(upto)) by {
                if self@.has_names(upto) {
                    assert forall|j: int| 0 <= j < before.len() implies self@.has_names_of(
                        #[trigger] before[j],
                    ) by {
                        assert(upto[j] == before[j]);
                    }
                }
            }
            i += 1;
        }
        assert(elements.take(pattern.len() as int) =~= elements);
        if complete {
            Ok(())
        } else {
            Err(FormatError::LookupGap)
        }
    }

    /// Appends the text of one field to `text`, or reports that the locale
    /// lacks the list that the field reads.
    fn format_token(&self, text: &mut String, token: DateTimeToken, input: &DateTime) -> (found:
        bool)
        requires
            !token.is_placeholder(),
        ensures
            found == self@.has_names_for(token),
            found ==> final(text)@ == old(text)@ + self@.field_text(token, *input),
            !found ==> final(text)@ == old(text)@,
    {
        match token {
            DateTimeToken::WeekDayWide => {
                match self.days.get_list(false, NamesLength::WIDE) {
                    Some(names) => {
                        let weekday = get_day_of_week(input.year, input.month, input.day);
                        text.append(names.get(weekday).as_str());
                        true
                    },
                    None => false,
                }
            },
            DateTimeToken::DayNumeric => {
                format_number(text, input.day, false);
                true
            },
            DateTimeToken::Day2digit => {
                format_number(text, input.day, true);
                true
            },
            DateTimeToken::MonthNameLong => {
                match self.months.get_list(false, NamesLength::WIDE) {
                    Some(names) => {
                        text.append(names.get(month_index(input.month)).as_str());
                        true
                    },
                    None => false,
                }
            },
            DateTimeToken::MonthNameAbbreviated => {
                match self.months.get_list(false, NamesLength::ABBREVIATED) {
                    Some(names) => {
                        text.append(names.get(month_index(input.month)).as_str());
                        true
                    },
                    None => false,
                }
            },
            DateTimeToken::Month2digit => {
                format_number(text, input.month, true);
                true
            },
            DateTimeToken::YearNumeric => {
                format_number(text, input.year, false);
                true
            },
            DateTimeToken::Year2digit => {
                format_number(text, input.year, true);
                true
            },
            DateTimeToken::Hour2digit => {
                format_number(text, input.hour, true);
                true
            },
            DateTimeToken::Minute2digit => {
                format_number(text, input.minute, true);
                true
            },
            DateTimeToken::Second2digit => {
                format_number(text, input.second, true);
                true
            },
            DateTimeToken::ZoneLong => {
                text.append("Pacific Daylight Time");
                true
            },
            DateTimeToken::ZoneShort => {
                text.append("PDT");
                true
            },
            DateTimeToken::Sub0 => unreached(),
            DateTimeToken::Sub1 => unreached(),
        }
    }

    /// Renders a compiled pattern for a date and appends the text to
    /// `result`.
    ///
    /// The pattern holds no placeholder. Where the locale has every list of
    /// names that the pattern reads, the text of the pattern is appended.
    /// Where it lacks one, `result` is left as it was and the error is
    /// `LookupGap`.
    pub fn format_pattern(
        &self,
        result: &mut String,
        pattern: &[PatternElement],
        input: &DateTime,
    ) -> (outcome: Result<(), FormatError>)
        requires
            is_resolved(pattern.deep_view()),
        ensures
            match self@.render(pattern.deep_view(), *input) {
                Ok(text) => outcome is Ok && final(result)@ == old(result)@ + text,
                Err(e) => outcome == Err::<(), FormatError>(e) && final(result)@ == old(result)@,
            },
    {
        let ghost elements = pattern.deep_view();
        let mut text = String::new();
        let mut i: usize = 0;
        while i < pattern.len()
            invariant
                i <= pattern.len(),
                elements == pattern.deep_view(),
                is_resolved(elements),
                self@.has_names(elements.take(i as int)),
                text@ == self@.pattern_text(elements.take(i as int), *input),
            decreases pattern.len() - i,
        {
            let ghost before = elements.take(i as int);
            let ghost upto = elements.take(i + 1);
            assert(upto.drop_last() =~= before);
            assert(upto.last() == elements[i as int]);
            assert(elements[i as int] == pattern@[i as int]@);
            match &pattern[i] {
                PatternElement::Literal(literal) => {
                    text.append(literal.as_str());
                },
                PatternElement::Token(token) => {
                    if !self.format_token(&mut text, *token, input) {
                        assert(!self@.has_names(elements));
                        return Err(FormatError::LookupGap);
                    }
                },
            }
            i += 1;
        }
        assert(elements.take(pattern.len() as int) =~= elements);
        result.append(text.as_str());
        Ok(())
    }
}

/// A pattern made of two parts holds no placeholder exactly where neither
/// part holds one.
pub proof fn lemma_resolved_concat(front: PatternView, back: PatternView)
    ensures
        is_resolved(front + back) <==> is_resolved(front) && is_resolved(back),
{
    let whole = front + back;
    if is_resolved(whole) {
        assert forall|i: int| 0 <= i < front.len() implies !(#[trigger] front[i]).is_placeholder(
        ) by {
            assert(whole[i] == front[i]);
        }
        assert forall|i: int| 0 <= i < back.len() implies !(#[trigger] back[i]).is_placeholder(
        ) by {
            assert(whole[front.len() + i] == back[i]);
        }
    }
    if is_resolved(front) && is_resolved(back) {
        assert forall|i: int| 0 <= i < whole.len() implies !(#[trigger] whole[i]).is_placeholder(
        ) by {
            if i < front.len() {
                assert(whole[i] == front[i]);
            } else {
                assert(whole[i] == back[i - front.len()]);
            }
        }
    }
}

impl CalendarView {
    /// The locale has the names for a pattern made of two parts exactly
    /// where it has them for both parts.
    pub proof fn lemma_has_names_concat(self, front: PatternView, back: PatternView)
        ensures
            self.has_names(front + back) <==> self.has_names(front) && self.has_names(back),
    {
        let whole = front + back;
        if self.has_names(whole) {
            assert forall|i: int| 0 <= i < front.len() implies self.has_names_of(
                #[trigger] front[i],
            ) by {
                assert(whole[i] == front[i]);
            }
            assert forall|i: int| 0 <= i < back.len() implies self.has_names_of(
                #[trigger] back[i],
            ) by {
                assert(whole[front.len() + i] == back[i]);
            }
        }
        if self.has_names(front) && self.has_names(back) {
            assert forall|i: int| 0 <= i < whole.len() implies self.has_names_of(
                #[trigger] whole[i],
            ) by {
                if i < front.len() {
                    assert(whole[i] == front[i]);
                } else {
                    assert(whole[i] == back[i - front.len()]);
                }
            }
        }
    }

    /// The text of a pattern made of two parts is the text of the first
    /// followed by the text of the second.
    pub proof fn lemma_pattern_text_concat(
        self,
        front: PatternView,
        back: PatternView,
        value: DateTime,
    )
        ensures
            self.pattern_text(front + back, value) == self.pattern_text(front, value)
                + self.pattern_text(back, value),
        decreases back.len(),
    {
        if back.len() == 0 {
            assert(front + back =~= front);
            assert(self.pattern_text(front, value) + Seq::<char>::empty() =~= self.pattern_text(
                front,
                value,
            ));
        } else {
            let whole = front + back;
            assert(whole.drop_last() =~= front + back.drop_last());
            assert(whole.last() == back.last());
            self.lemma_pattern_text_concat(front, back.drop_last(), value);
            assert(self.pattern_text(front, value) + self.pattern_text(back.drop_last(), value)
                + self.element_text(back.last(), value) =~= self.pattern_text(front, value) + (
            self.pattern_text(back.drop_last(), value) + self.element_text(back.last(), value)));
        }
    }
}

impl Resource {
    /// Renders a pattern of the locale for a date and appends the text to
    /// `result`.
    ///
    /// A pattern that is still text is compiled first. What the pattern
    /// stands for holds no placeholder. On an error `result` is left as it
    /// was: `Compile` where the text does not compile, `LookupGap` where the
    /// locale lacks a list of names that the pattern reads.
    pub fn format_pattern(
        &self,
        result: &mut String,
        pattern: &DateTimePattern,
        input: &DateTime,
    ) -> (outcome: Result<(), FormatError>)
        requires
            pattern@.parsed() matches Ok(elements) ==> is_resolved(elements),
        ensures
            match pattern@.parsed() {
                Ok(elements) => match self@.render(elements, *input) {
                    Ok(text) => outcome is Ok && final(result)@ == old(result)@ + text,
                    Err(e) => outcome == Err::<(), FormatError>(e)
                        && final(result)@ == old(result)@,
                },
                Err(e) => outcome == Err::<(), FormatError>(FormatError::Compile(e))
                    && final(result)@ == old(result)@,
            },
    {
        let calendar_data = &self.main.pl.dates.calendars.gregorian;
        match pattern.to_parsed() {
            Ok(elements) => calendar_data.format_pattern(result, elements.as_slice(), input),
            Err(e) => Err(FormatError::Compile(e)),
        }
    }
}

} // verus!
