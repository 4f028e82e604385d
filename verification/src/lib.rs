//! Locale-aware rendering of calendar dates and times from CLDR patterns.
//!
//! A pattern such as `EEEE, d MMMM y` is compiled once into a sequence of
//! literal fragments and typed fields, and the compiled sequence is then
//! rendered against a date and the name tables of a locale.

pub mod data;
pub mod std_specs;

use vstd::prelude::*;
use data::layout::{
    CalendarView,
    DateTimePattern,
    DateTimePatternView,
    DateTimeToken,
    PatternElement,
    PatternElementView,
    PatternView,
    Resource,
};
use data::patterns::{compiled_view, ParserError};
use data::render::is_resolved;

verus! {

/// A date and a time of day, as plain numbers. No range is enforced: a
/// number outside its usual range is written as it is, and a month outside
/// 1 to 12 finds its name by wrapping around the year.
#[derive(Clone, Copy, Debug, PartialEq, Eq, Structural)]
pub struct DateTime {
    pub year: usize,
    /// 1 to 12
    pub month: usize,
    /// 1 to 31
    pub day: usize,
    /// 0 to 23
    pub hour: usize,
    pub minute: usize,
    pub second: usize,
}

impl DateTime {
    pub fn new(
        year: usize,
        month: usize,
        day: usize,
        hour: usize,
        minute: usize,
        second: usize,
    ) -> (value: Self)
        ensures
            value == (DateTime { year, month, day, hour, minute, second }),
    {
        Self { year, month, day, hour, minute, second }
    }
}

/// Why a formatter cannot be built or a pattern cannot be rendered.
#[derive(Clone, Copy, Debug, PartialEq, Eq, Structural)]
pub enum FormatError {
    /// Neither a date style nor a time style was asked for.
    Configuration,
    /// The locale lacks a list of names that the pattern reads, or there is
    /// no data for the locale.
    LookupGap,
    /// A pattern of the locale does not compile.
    Compile(data::patterns::ParserError),
    /// A placeholder is left in the pattern that was to be rendered.
    UnresolvedPlaceholder,
}

/// How much of a date is written out.
#[derive(Clone, Copy, Debug, PartialEq, Eq, Structural)]
pub enum DateStyle {
    FULL,
    LONG,
    MEDIUM,
    SHORT,
}

impl DateStyle {
    /// The index of the style in a table of patterns.
    pub open spec fn spec_idx(self) -> int {
        match self {
            DateStyle::FULL => 0,
            DateStyle::LONG => 1,
            DateStyle::MEDIUM => 2,
            DateStyle::SHORT => 3,
        }
    }

    pub fn idx(self) -> (i: usize)
        ensures
            i == self.spec_idx(),
            i < 4,
    {
        match self {
            Self::FULL => 0,
            Self::LONG => 1,
            Self::MEDIUM => 2,
            Self::SHORT => 3,
        }
    }
}

/// How much of a time of day is written out.
#[derive(Clone, Copy, Debug, PartialEq, Eq, Structural)]
pub enum TimeStyle {
    FULL,
    LONG,
    MEDIUM,
    SHORT,
}

impl TimeStyle {
    /// The index of the style in a table of patterns.
    pub open spec fn spec_idx(self) -> int {
        match self {
            TimeStyle::FULL => 0,
            TimeStyle::LONG => 1,
            TimeStyle::MEDIUM => 2,
            TimeStyle::SHORT => 3,
        }
    }

    pub fn idx(self) -> (i: usize)
        ensures
            i == self.spec_idx(),
            i < 4,
    {
        match self {
            Self::FULL => 0,
            Self::LONG => 1,
            Self::MEDIUM => 2,
            Self::SHORT => 3,
        }
    }
}

/// The pattern with the first occurrence of `placeholder` replaced by the
/// elements of `replacement`; the pattern itself where it holds none.
pub open spec fn splice(
    pattern: PatternView,
    placeholder: DateTimeToken,
    replacement: PatternView,
) -> PatternView {
    match pattern.index_of_first(PatternElementView::Token(placeholder)) {
        Some(at) => pattern.take(at) + replacement + pattern.skip(at + 1),
        None => pattern,
    }
}

/// A joining pattern with the date in the place of `{1}` and the time in the
/// place of `{0}`. The date goes in first, and the place of the time is then
/// looked for in what came of that.
pub open spec fn join(connector: PatternView, date: PatternView, time: PatternView) -> PatternView {
    splice(splice(connector, DateTimeToken::Sub1, date), DateTimeToken::Sub0, time)
}

/// [`splice`] with a replacement that may still have to be compiled: it is
/// compiled only where the pattern holds the placeholder.
pub open spec fn splice_compiled(
    pattern: PatternView,
    placeholder: DateTimeToken,
    replacement: DateTimePatternView,
) -> Result<PatternView, ParserError> {
    if pattern.contains(PatternElementView::Token(placeholder)) {
        match replacement.parsed() {
            Ok(elements) => Ok(splice(pattern, placeholder, elements)),
            Err(e) => Err(e),
        }
    } else {
        Ok(pattern)
    }
}

/// What joining the patterns of a date and a time gives: [`join`] of what the
/// three patterns stand for, or the first error met while compiling the
/// joining pattern, then the date, then the time.
pub open spec fn spec_date_time_pattern(
    connector: DateTimePatternView,
    date: DateTimePatternView,
    time: DateTimePatternView,
) -> Result<PatternView, ParserError> {
    match connector.parsed() {
        Err(e) => Err(e),
        Ok(joining) => match splice_compiled(joining, DateTimeToken::Sub1, date) {
            Err(e) => Err(e),
            Ok(with_date) => splice_compiled(with_date, DateTimeToken::Sub0, time),
        },
    }
}

/// Where the patterns compile, joining them is [`join`] of their elements.
pub proof fn lemma_date_time_pattern_is_join(
    connector: DateTimePatternView,
    date: DateTimePatternView,
    time: DateTimePatternView,
)
    requires
        connector.parsed() is Ok,
        date.parsed() is Ok,
        time.parsed() is Ok,
    ensures
        spec_date_time_pattern(connector, date, time) == Ok::<PatternView, ParserError>(
            join(connector.parsed().unwrap(), date.parsed().unwrap(), time.parsed().unwrap()),
        ),
{
    let joining = connector.parsed().unwrap();
    joining.index_of_first_ensures(PatternElementView::Token(DateTimeToken::Sub1));
    let with_date = splice(joining, DateTimeToken::Sub1, date.parsed().unwrap());
    with_date.index_of_first_ensures(PatternElementView::Token(DateTimeToken::Sub0));
}

/// Where the part in front of a placeholder does not hold it, the
/// replacement takes the place of just that placeholder.
pub proof fn lemma_splice_first(
    front: PatternView,
    placeholder: DateTimeToken,
    back: PatternView,
    replacement: PatternView,
)
    requires
        !front.contains(PatternElementView::Token(placeholder)),
    ensures
        splice(
            front + seq![PatternElementView::Token(placeholder)] + back,
            placeholder,
            replacement,
        ) == front + replacement + back,
{
    let needle = PatternElementView::Token(placeholder);
    let pattern = front + seq![needle] + back;
    let at = front.len() as int;
    assert(pattern[at] == needle);
    assert(pattern.contains(needle));
    pattern.index_of_first_ensures(needle);
    let found = pattern.index_of_first(needle).unwrap();
    if found < at {
        assert(pattern[found] == front[found]);
        assert(front.contains(needle));
    }
    assert(found == at);
    assert(pattern.take(at) =~= front);
    assert(pattern.skip(at + 1) =~= back);
}

/// A pattern without placeholders holds neither of them.
pub proof fn lemma_resolved_holds_none(pattern: PatternView, placeholder: DateTimeToken)
    requires
        is_resolved(pattern),
        placeholder.is_placeholder(),
    ensures
        !pattern.contains(PatternElementView::Token(placeholder)),
{
    if pattern.contains(PatternElementView::Token(placeholder)) {
        let i = choose|i: int|
            0 <= i < pattern.len() && pattern[i] == PatternElementView::Token(placeholder);
        assert(pattern[i].is_placeholder());
    }
}

/// Joining puts the date where `{1}` stands and the time where `{0}`
/// stands: for a joining pattern that holds `{1}` in front of `{0}` and no
/// other placeholder before them, and a date pattern without placeholders,
/// the outcome is the joining pattern with the two placeholders replaced.
pub proof fn lemma_join_date_first(
    front: PatternView,
    middle: PatternView,
    back: PatternView,
    date: PatternView,
    time: PatternView,
)
    requires
        is_resolved(front),
        is_resolved(middle),
        is_resolved(date),
    ensures
        join(
            front + seq![PatternElementView::Token(DateTimeToken::Sub1)] + middle + seq![
                PatternElementView::Token(DateTimeToken::Sub0),
            ] + back,
            date,
            time,
        ) == front + date + middle + time + back,
{
    let sub0 = seq![PatternElementView::Token(DateTimeToken::Sub0)];
    let sub1 = seq![PatternElementView::Token(DateTimeToken::Sub1)];
    let connector = front + sub1 + middle + sub0 + back;
    lemma_resolved_holds_none(front, DateTimeToken::Sub1);
    assert(connector =~= front + sub1 + (middle + sub0 + back));
    lemma_splice_first(front, DateTimeToken::Sub1, middle + sub0 + back, date);
    let with_date = front + date + (middle + sub0 + back);
    data::render::lemma_resolved_concat(front, date);
    data::render::lemma_resolved_concat(front + date, middle);
    lemma_resolved_holds_none(front + date + middle, DateTimeToken::Sub0);
    assert(with_date =~= (front + date + middle) + sub0 + back);
    lemma_splice_first(front + date + middle, DateTimeToken::Sub0, back, time);
}

/// The same with the two placeholders the other way round: `{0}` in front
/// of `{1}`.
pub proof fn lemma_join_time_first(
    front: PatternView,
    middle: PatternView,
    back: PatternView,
    date: PatternView,
    time: PatternView,
)
    requires
        is_resolved(front),
        is_resolved(middle),
    ensures
        join(
            front + seq![PatternElementView::Token(DateTimeToken::Sub0)] + middle + seq![
                PatternElementView::Token(DateTimeToken::Sub1),
            ] + back,
            date,
            time,
        ) == front + time + middle + date + back,
{
    let sub0 = seq![PatternElementView::Token(DateTimeToken::Sub0)];
    let sub1 = seq![PatternElementView::Token(DateTimeToken::Sub1)];
    let connector = front + sub0 + middle + sub1 + back;
    let before = front + sub0 + middle;
    lemma_resolved_holds_none(front, DateTimeToken::Sub1);
    lemma_resolved_holds_none(middle, DateTimeToken::Sub1);
    lemma_resolved_holds_none(front, DateTimeToken::Sub0);
    if before.contains(PatternElementView::Token(DateTimeToken::Sub1)) {
        let i = choose|i: int|
            0 <= i < before.len() && before[i] == PatternElementView::Token(DateTimeToken::Sub1);
        if i < front.len() {
            assert(front[i] == before[i]);
        } else if i > front.len() {
            assert(middle[i - front.len() - 1] == before[i]);
        }
    }
    assert(connector =~= before + sub1 + back);
    lemma_splice_first(before, DateTimeToken::Sub1, back, date);
    let with_date = before + date + back;
    assert(with_date =~= front + sub0 + (middle + date + back));
    lemma_splice_first(front, DateTimeToken::Sub0, middle + date + back, time);
    assert(front + time + (middle + date + back) =~= front + time + middle + date + back);
}

/// The text of a joined pattern is the text of the joining pattern with the
/// text of the date where `{1}` stands and the text of the time where `{0}`
/// stands.
pub proof fn lemma_joined_text(
    calendar: CalendarView,
    front: PatternView,
    middle: PatternView,
    back: PatternView,
    date: PatternView,
    time: PatternView,
    value: DateTime,
)
    requires
        is_resolved(front),
        is_resolved(middle),
        is_resolved(date),
    ensures
        calendar.pattern_text(
            join(
                front + seq![PatternElementView::Token(DateTimeToken::Sub1)] + middle + seq![
                    PatternElementView::Token(DateTimeToken::Sub0),
                ] + back,
                date,
                time,
            ),
            value,
        ) == calendar.pattern_text(front, value) + calendar.pattern_text(date, value)
            + calendar.pattern_text(middle, value) + calendar.pattern_text(time, value)
            + calendar.pattern_text(back, value),
{
    lemma_join_date_first(front, middle, back, date, time);
    calendar.lemma_pattern_text_concat(front, date, value);
    calendar.lemma_pattern_text_concat(front + date, middle, value);
    calendar.lemma_pattern_text_concat(front + date + middle, time, value);
    calendar.lemma_pattern_text_concat(front + date + middle + time, back, value);
}

/// The place of the first occurrence of `token` in the pattern.
fn find_token(pattern: &Vec<PatternElement>, token: DateTimeToken) -> (place: Option<usize>)
    ensures
        match place {
            Some(at) => pattern.deep_view().index_of_first(PatternElementView::Token(token))
                == Some(at as int) && at < pattern.len(),
            None => pattern.deep_view().index_of_first(PatternElementView::Token(token)) is None,
        },
{
    let ghost elements = pattern.deep_view();
    let ghost needle = PatternElementView::Token(token);
    let mut i: usize = 0;
    while i < pattern.len()
        invariant
            i <= pattern.len(),
            elements == pattern.deep_view(),
            needle == PatternElementView::Token(token),
            forall|j: int| 0 <= j < i ==> elements[j] != needle,
        decreases pattern.len() - i,
    {
        let found = match &pattern[i] {
            PatternElement::Token(t) => *t == token,
            PatternElement::Literal(_) => false,
        };
        if found {
            proof {
                assert(elements[i as int] == needle);
                assert(elements.contains(needle));
                elements.index_of_first_ensures(needle);
            }
            return Some(i);
        }
        i += 1;
    }
    proof {
        assert(!elements.contains(needle));
        elements.index_of_first_ensures(needle);
    }
    None
}

/// The pattern with the element at `at` replaced by the elements of
/// `replacement`.
fn replace_at(pattern: &Vec<PatternElement>, at: usize, replacement: &Vec<PatternElement>) -> (out:
    Vec<PatternElement>)
    requires
        at < pattern.len(),
    ensures
        out.deep_view() == pattern.deep_view().take(at as int) + replacement.deep_view()
            + pattern.deep_view().skip(at + 1),
{
    let mut out: Vec<PatternElement> = Vec::new();
    let mut i: usize = 0;
    while i < at
        invariant
            i <= at < pattern.len(),
            out@ == pattern@.take(i as int),
        decreases at - i,
    {
        out.push(pattern[i].clone());
        i += 1;
        assert(pattern@.take(i as int) =~= pattern@.take(i - 1).push(pattern@[i - 1]));
    }
    let mut j: usize = 0;
    while j < replacement.len()
        invariant
            j <= replacement.len(),
            at < pattern.len(),
            out@ == pattern@.take(at as int) + replacement@.take(j as int),
        decreases replacement.len() - j,
    {
        out.push(replacement[j].clone());
        j += 1;
        assert(replacement@.take(j as int) =~= replacement@.take(j - 1).push(replacement@[j - 1]));
        assert(out@ =~= pattern@.take(at as int) + replacement@.take(j as int));
    }
    assert(replacement@.take(replacement.len() as int) =~= replacement@);
    let mut k: usize = at + 1;
    while k < pattern.len()
        invariant
            at < k <= pattern.len(),
            out@ == pattern@.take(at as int) + replacement@ + pattern@.subrange(at + 1, k as int),
        decreases pattern.len() - k,
    {
        out.push(pattern[k].clone());
        k += 1;
        assert(pattern@.subrange(at + 1, k as int) =~= pattern@.subrange(at + 1, k - 1).push(
            pattern@[k - 1],
        ));
        assert(out@ =~= pattern@.take(at as int) + replacement@ + pattern@.subrange(
            at + 1,
            k as int,
        ));
    }
    assert(pattern@.subrange(at + 1, pattern.len() as int) =~= pattern@.skip(at + 1));
    assert(out.deep_view() =~= pattern.deep_view().take(at as int) + replacement.deep_view()
        + pattern.deep_view().skip(at + 1));
    out
}

/// Puts the elements of `replacement` in the place of the first occurrence
/// of `placeholder`, where there is one. The replacement is compiled only
/// then.
fn splice_pattern(
    pattern: Vec<PatternElement>,
    placeholder: DateTimeToken,
    replacement: &DateTimePattern,
) -> (result: Result<Vec<PatternElement>, ParserError>)
    ensures
        compiled_view(result) == splice_compiled(pattern.deep_view(), placeholder, replacement@),
{
    proof {
        pattern.deep_view().index_of_first_ensures(PatternElementView::Token(placeholder));
    }
    match find_token(&pattern, placeholder) {
        Some(at) => {
            match replacement.to_parsed() {
                Ok(elements) => Ok(replace_at(&pattern, at, &elements)),
                Err(e) => Err(e),
            }
        },
        None => Ok(pattern),
    }
}

/// Joins the patterns of a date style and a time style: in the joining
/// pattern `pattern`, the date pattern of `date_style` takes the place of
/// `{1}` and the time pattern of `time_style` that of `{0}`.
pub fn create_date_time_pattern(
    pattern: &DateTimePattern,
    date_style: DateStyle,
    time_style: TimeStyle,
    resource: &Resource,
) -> (result: Result<Vec<PatternElement>, ParserError>)
    ensures
        compiled_view(result) == spec_date_time_pattern(
            pattern@,
            resource@.date_formats.get(date_style.spec_idx()),
            resource@.time_formats.get(time_style.spec_idx()),
        ),
{
    let calendar_data = &resource.main.pl.dates.calendars.gregorian;
    let joining = match pattern.to_parsed() {
        Ok(elements) => elements,
        Err(e) => {
            return Err(e);
        },
    };
    let with_date = match splice_pattern(
        joining,
        DateTimeToken::Sub1,
        calendar_data.date_formats.get(date_style.idx()),
    ) {
        Ok(elements) => elements,
        Err(e) => {
            return Err(e);
        },
    };
    splice_pattern(with_date, DateTimeToken::Sub0, calendar_data.time_formats.get(time_style.idx()))
}

/// The pattern that the styles select in the patterns of a locale: the date
/// pattern or the time pattern of the style where one style is given, the two
/// joined by the joining pattern of the date style where both are given. No
/// style at all is an error, and so is a pattern that does not compile.
pub open spec fn selected_pattern(
    calendar: CalendarView,
    date_style: Option<DateStyle>,
    time_style: Option<TimeStyle>,
) -> Result<PatternView, FormatError> {
    let compiled = match (date_style, time_style) {
        (Some(date), Some(time)) => Some(
            spec_date_time_pattern(
                calendar.date_time_formats.get(date.spec_idx()),
                calendar.date_formats.get(date.spec_idx()),
                calendar.time_formats.get(time.spec_idx()),
            ),
        ),
        (Some(date), None) => Some(calendar.date_formats.get(date.spec_idx()).parsed()),
        (None, Some(time)) => Some(calendar.time_formats.get(time.spec_idx()).parsed()),
        (None, None) => None,
    };
    match compiled {
        None => Err(FormatError::Configuration),
        Some(Err(e)) => Err(FormatError::Compile(e)),
        Some(Ok(pattern)) => Ok(pattern),
    }
}

/// The pattern of the formatter that the styles ask for: the pattern they
/// select, where it can be rendered with the locale.
pub open spec fn formatter_pattern(
    calendar: CalendarView,
    date_style: Option<DateStyle>,
    time_style: Option<TimeStyle>,
) -> Result<PatternView, FormatError> {
    match selected_pattern(calendar, date_style, time_style) {
        Err(e) => Err(e),
        Ok(pattern) => match calendar.spec_check(pattern) {
            Err(e) => Err(e),
            Ok(()) => Ok(pattern),
        },
    }
}

/// A formatter of dates and times for one locale and one choice of styles.
///
/// It holds the compiled pattern of the styles and the data of the locale.
/// The pattern holds no placeholder, and the locale has every list of names
/// that the pattern reads: rendering cannot fail.
pub struct DateTimeFormat {
    pattern: Vec<PatternElement>,
    calendar_data: Resource,
}

impl DateTimeFormat {
    #[verifier::type_invariant]
    spec fn well_formed(&self) -> bool {
        self.calendar_data@.spec_check(self.pattern.deep_view()) is Ok
    }

    /// The elements of the pattern that the formatter renders.
    pub closed spec fn pattern(&self) -> PatternView {
        self.pattern.deep_view()
    }

    /// What the data of the locale stands for.
    pub closed spec fn calendar(&self) -> CalendarView {
        self.calendar_data@
    }

    /// A formatter for the given styles over the data of a locale.
    ///
    /// At least one style is given. The formatter renders the pattern that
    /// [`formatter_pattern`] gives; where that is an error, so is the
    /// result.
    pub fn new(
        _locale: &str,
        date_style: Option<DateStyle>,
        time_style: Option<TimeStyle>,
        data: Resource,
    ) -> (result: Result<Self, FormatError>)
        ensures
            match formatter_pattern(data@, date_style, time_style) {
                Ok(pattern) => result matches Ok(format) && format.pattern() == pattern
                    && format.calendar() == data@,
                Err(e) => result matches Err(error) && error == e,
            },
    {
        let calendar_data = &data.main.pl.dates.calendars.gregorian;
        let compiled = match (date_style, time_style) {
            (Some(date_style), Some(time_style)) => {
                let pattern = calendar_data.date_time_formats.get(date_style.idx());
                create_date_time_pattern(pattern, date_style, time_style, &data)
            },
            (Some(date_style), None) => calendar_data.date_formats.get(
                date_style.idx(),
            ).to_parsed(),
            (None, Some(time_style)) => calendar_data.time_formats.get(
                time_style.idx(),
            ).to_parsed(),
            (None, None) => {
                return Err(FormatError::Configuration);
            },
        };
        let pattern = match compiled {
            Ok(pattern) => pattern,
            Err(e) => {
                return Err(FormatError::Compile(e));
            },
        };
        match calendar_data.check_pattern(pattern.as_slice()) {
            Ok(()) => Ok(Self { pattern, calendar_data: data }),
            Err(e) => Err(e),
        }
    }

    /// A formatter for the given styles over the data that is built in for
    /// the locale.
    ///
    /// Polish, `pl`, is the locale that is built in; for any other the error
    /// is `LookupGap`. For Polish every choice of at least one style gives a
    /// formatter.
    pub fn new_from_static(
        locale: &str,
        date_style: Option<DateStyle>,
        time_style: Option<TimeStyle>,
    ) -> (result: Result<Self, FormatError>)
        ensures
            match result {
                Ok(format) => locale@ == "pl"@ && (date_style is Some || time_style is Some)
                    && format.calendar() == data::generated::pl::calendar() && format.pattern()
                    == data::generated::pl::pattern_for(date_style, time_style),
                Err(e) => if locale@ != "pl"@ {
                    e == FormatError::LookupGap
                } else {
                    e == FormatError::Configuration && date_style is None && time_style is None
                },
            },
    {
        match data::generated::get(locale) {
            Some(data) => {
                proof {
                    if date_style is Some || time_style is Some {
                        data::generated::pl::lemma_formatter(date_style, time_style);
                    }
                }
                Self::new(locale, date_style, time_style, data)
            },
            None => Err(FormatError::LookupGap),
        }
    }

    /// The text of the date in the styles and the locale of the formatter.
    pub fn format(&self, value: &DateTime) -> (text: String)
        ensures
            text@ == self.calendar().pattern_text(self.pattern(), *value),
    {
        proof {
            use_type_invariant(self);
        }
        let mut result = String::new();
        let calendar_data = &self.calendar_data.main.pl.dates.calendars.gregorian;
        let outcome = calendar_data.format_pattern(&mut result, self.pattern.as_slice(), value);
        assert(outcome is Ok);
        assert(Seq::<char>::empty() + self.calendar().pattern_text(self.pattern(), *value)
            =~= self.calendar().pattern_text(self.pattern(), *value));
        result
    }
}

} // verus!
