//! The elements of a compiled pattern and the name tables of a locale.

use vstd::prelude::*;
use super::patterns::{compile, compiled_view, parse_pattern, ParserError};

verus! {

/// One typed field of a date pattern: a field letter together with its width.
#[derive(Clone, Copy, Debug, PartialEq, Eq, Structural)]
pub enum DateTimeToken {
    /// `EEEE`
    WeekDayWide,
    /// `d`
    DayNumeric,
    /// `dd`
    Day2digit,
    /// `MMMM`
    MonthNameLong,
    /// `MMM`
    MonthNameAbbreviated,
    /// `MM`
    Month2digit,
    /// `y`
    YearNumeric,
    /// `yy`
    Year2digit,
    /// `HH`
    Hour2digit,
    /// `mm`
    Minute2digit,
    /// `ss`
    Second2digit,
    /// `zzzz`
    ZoneLong,
    /// `z`, `zz`, `zzz`
    ZoneShort,
    /// `{0}`: where the time goes in a pattern that joins a date and a time
    Sub0,
    /// `{1}`: where the date goes in a pattern that joins a date and a time
    Sub1,
}

impl DateTimeToken {
    /// The name of the variant, as text.
    pub open spec fn spec_name(self) -> Seq<char> {
        match self {
            DateTimeToken::WeekDayWide => "WeekDayWide"@,
            DateTimeToken::DayNumeric => "DayNumeric"@,
            DateTimeToken::Day2digit => "Day2digit"@,
            DateTimeToken::MonthNameLong => "MonthNameLong"@,
            DateTimeToken::MonthNameAbbreviated => "MonthNameAbbreviated"@,
            DateTimeToken::Month2digit => "Month2digit"@,
            DateTimeToken::YearNumeric => "YearNumeric"@,
            DateTimeToken::Year2digit => "Year2digit"@,
            DateTimeToken::Hour2digit => "Hour2digit"@,
            DateTimeToken::Minute2digit => "Minute2digit"@,
            DateTimeToken::Second2digit => "Second2digit"@,
            DateTimeToken::ZoneLong => "ZoneLong"@,
            DateTimeToken::ZoneShort => "ZoneShort"@,
            DateTimeToken::Sub0 => "Sub0"@,
            DateTimeToken::Sub1 => "Sub1"@,
        }
    }

    /// True of the two placeholders of a joining pattern.
    pub open spec fn is_placeholder(self) -> bool {
        self == DateTimeToken::Sub0 || self == DateTimeToken::Sub1
    }

    pub fn get_name(&self) -> (name: &'static str)
        ensures
            name@ == self.spec_name(),
    {
        match self {
            DateTimeToken::WeekDayWide => "WeekDayWide",
            DateTimeToken::DayNumeric => "DayNumeric",
            DateTimeToken::Day2digit => "Day2digit",
            DateTimeToken::MonthNameLong => "MonthNameLong",
            DateTimeToken::MonthNameAbbreviated => "MonthNameAbbreviated",
            DateTimeToken::Month2digit => "Month2digit",
            DateTimeToken::YearNumeric => "YearNumeric",
            DateTimeToken::Year2digit => "Year2digit",
            DateTimeToken::Hour2digit => "Hour2digit",
            DateTimeToken::Minute2digit => "Minute2digit",
            DateTimeToken::Second2digit => "Second2digit",
            DateTimeToken::ZoneLong => "ZoneLong",
            DateTimeToken::ZoneShort => "ZoneShort",
            DateTimeToken::Sub0 => "Sub0",
            DateTimeToken::Sub1 => "Sub1",
        }
    }
}

/// One element of a compiled pattern.
#[derive(Debug, PartialEq, Eq)]
pub enum PatternElement {
    /// Text that is written out as it stands.
    Literal(String),
    /// A field whose text comes from the date or from the locale.
    Token(DateTimeToken),
}

/// What a [`PatternElement`] stands for: the same element with its text as a
/// sequence of characters.
pub enum PatternElementView {
    Literal(Seq<char>),
    Token(DateTimeToken),
}

impl PatternElementView {
    /// The element is one of the two placeholders of a joining pattern.
    pub open spec fn is_placeholder(self) -> bool {
        self matches PatternElementView::Token(token) && token.is_placeholder()
    }
}

impl View for PatternElement {
    type V = PatternElementView;

    open spec fn view(&self) -> PatternElementView {
        match self {
            PatternElement::Literal(s) => PatternElementView::Literal(s@),
            PatternElement::Token(t) => PatternElementView::Token(*t),
        }
    }
}

impl DeepView for PatternElement {
    type V = PatternElementView;

    open spec fn deep_view(&self) -> PatternElementView {
        self@
    }
}

impl Clone for PatternElement {
    fn clone(&self) -> (res: Self)
        ensures
            res == *self,
    {
        match self {
            PatternElement::Literal(s) => PatternElement::Literal(s.clone()),
            PatternElement::Token(t) => PatternElement::Token(*t),
        }
    }
}

/// The elements of a pattern as the compiler and the renderer see them.
pub type PatternView = Seq<PatternElementView>;

/// Appending an element to a pattern appends its view to the pattern's view.
pub proof fn lemma_push_deep_view(p: Vec<PatternElement>, q: Vec<PatternElement>, e: PatternElement)
    requires
        q@ == p@.push(e),
    ensures
        q.deep_view() == p.deep_view().push(e@),
{
    assert(q.deep_view() =~= p.deep_view().push(e@));
}

/// A copy of the elements, in order.
pub fn clone_pattern(pattern: &[PatternElement]) -> (copy: Vec<PatternElement>)
    ensures
        copy@ == pattern@,
        copy.deep_view() == pattern.deep_view(),
{
    let mut copy: Vec<PatternElement> = Vec::new();
    let mut i: usize = 0;
    while i < pattern.len()
        invariant
            i <= pattern.len(),
            copy@ == pattern@.take(i as int),
        decreases pattern.len() - i,
    {
        copy.push(pattern[i].clone());
        i += 1;
        assert(pattern@.take(i as int) =~= pattern@.take(i - 1).push(pattern@[i - 1]));
    }
    assert(pattern@.take(pattern.len() as int) =~= pattern@);
    assert(copy.deep_view() =~= pattern.deep_view());
    copy
}

/// A pattern of a locale, as text or compiled.
#[derive(Debug, PartialEq, Eq)]
pub enum DateTimePattern {
    /// The text of the pattern, not yet compiled.
    Raw(String),
    /// The elements of the pattern.
    Parsed(Vec<PatternElement>),
}

/// What a [`DateTimePattern`] stands for: its text as characters, or the
/// views of its elements.
pub enum DateTimePatternView {
    Raw(Seq<char>),
    Parsed(PatternView),
}

impl DateTimePatternView {
    /// The elements of the pattern: those it holds, or those its text
    /// compiles to.
    pub open spec fn parsed(self) -> Result<PatternView, ParserError> {
        match self {
            DateTimePatternView::Raw(text) => compile(text),
            DateTimePatternView::Parsed(elements) => Ok(elements),
        }
    }

    /// The pattern is `other`, or the elements that `other` compiles to.
    pub open spec fn compiled_from(self, other: DateTimePatternView) -> bool {
        self == other || other.parsed() == Ok::<PatternView, ParserError>(self->Parsed_0)
            && self is Parsed
    }
}

impl View for DateTimePattern {
    type V = DateTimePatternView;

    open spec fn view(&self) -> DateTimePatternView {
        match self {
            DateTimePattern::Raw(text) => DateTimePatternView::Raw(text@),
            DateTimePattern::Parsed(elements) => DateTimePatternView::Parsed(elements.deep_view()),
        }
    }
}

impl DateTimePattern {
    /// The elements of the pattern: a copy of those it holds, or what its
    /// text compiles to.
    pub fn to_parsed(&self) -> (result: Result<Vec<PatternElement>, ParserError>)
        ensures
            compiled_view(result) == self@.parsed(),
    {
        match self {
            DateTimePattern::Raw(text) => parse_pattern(text.as_str()),
            DateTimePattern::Parsed(elements) => Ok(clone_pattern(elements.as_slice())),
        }
    }
}

impl Clone for DateTimePattern {
    fn clone(&self) -> (res: Self)
        ensures
            res@ == self@,
    {
        match self {
            DateTimePattern::Raw(text) => DateTimePattern::Raw(text.clone()),
            DateTimePattern::Parsed(elements) => DateTimePattern::Parsed(
                clone_pattern(elements.as_slice()),
            ),
        }
    }
}

/// The four patterns of one kind, one for each style.
#[derive(Debug, PartialEq, Eq)]
pub struct Formats {
    pub full: DateTimePattern,
    pub long: DateTimePattern,
    pub medium: DateTimePattern,
    pub short: DateTimePattern,
}

/// What a [`Formats`] stands for.
pub struct FormatsView {
    pub full: DateTimePatternView,
    pub long: DateTimePatternView,
    pub medium: DateTimePatternView,
    pub short: DateTimePatternView,
}

impl FormatsView {
    /// The pattern of the style with index `idx`: 0 is full, 1 long, 2
    /// medium, 3 short.
    pub open spec fn get(self, idx: int) -> DateTimePatternView
        recommends
            0 <= idx < 4,
    {
        if idx == 0 {
            self.full
        } else if idx == 1 {
            self.long
        } else if idx == 2 {
            self.medium
        } else {
            self.short
        }
    }

    /// The first error met when the four patterns are compiled in the order
    /// full, long, medium, short; `None` where all compile.
    pub open spec fn first_error(self) -> Option<ParserError> {
        if self.full.parsed() is Err {
            Some(self.full.parsed()->Err_0)
        } else if self.long.parsed() is Err {
            Some(self.long.parsed()->Err_0)
        } else if self.medium.parsed() is Err {
            Some(self.medium.parsed()->Err_0)
        } else if self.short.parsed() is Err {
            Some(self.short.parsed()->Err_0)
        } else {
            None
        }
    }

    /// The four patterns are compiled.
    pub open spec fn is_compiled(self) -> bool {
        self.full is Parsed && self.long is Parsed && self.medium is Parsed && self.short
            is Parsed
    }

    /// Each of the four patterns is that of `other` or what it compiles to:
    /// the patterns stand for the same elements as those of `other`.
    pub open spec fn same_patterns(self, other: FormatsView) -> bool {
        &&& self.full.compiled_from(other.full)
        &&& self.long.compiled_from(other.long)
        &&& self.medium.compiled_from(other.medium)
        &&& self.short.compiled_from(other.short)
    }
}

impl View for Formats {
    type V = FormatsView;

    open spec fn view(&self) -> FormatsView {
        FormatsView {
            full: self.full@,
            long: self.long@,
            medium: self.medium@,
            short: self.short@,
        }
    }
}

impl Formats {
    /// The pattern of the style with index `idx`: 0 is full, 1 long, 2 medium,
    /// 3 short.
    pub fn get(&self, idx: usize) -> (pattern: &DateTimePattern)
        requires
            idx < 4,
        ensures
            pattern@ == self@.get(idx as int),
    {
        if idx == 0 {
            &self.full
        } else if idx == 1 {
            &self.long
        } else if idx == 2 {
            &self.medium
        } else {
            &self.short
        }
    }
}

/// Compiles a pattern that is still text, in place.
fn compile_in_place(pattern: &mut DateTimePattern) -> (outcome: Result<(), ParserError>)
    ensures
        final(pattern)@.compiled_from(old(pattern)@),
        match outcome {
            Ok(()) => final(pattern)@ is Parsed,
            Err(e) => old(pattern)@.parsed() == Err::<PatternView, ParserError>(e)
                && final(pattern)@ == old(pattern)@,
        },
{
    let compiled = match pattern {
        DateTimePattern::Raw(text) => parse_pattern(text.as_str()),
        DateTimePattern::Parsed(_) => {
            return Ok(());
        },
    };
    match compiled {
        Ok(elements) => {
            *pattern = DateTimePattern::Parsed(elements);
            Ok(())
        },
        Err(e) => Err(e),
    }
}

/// Compiles each of the four patterns that is still text.
///
/// Each pattern is left as it was or replaced by what it compiles to. The
/// outcome is `Ok` where all four compile, and they are then all compiled.
/// Otherwise it is the first error met in the order full, long, medium,
/// short.
pub fn parse_formats(formats: &mut Formats) -> (outcome: Result<(), ParserError>)
    ensures
        final(formats)@.same_patterns(old(formats)@),
        match outcome {
            Ok(()) => old(formats)@.first_error() is None && final(formats)@.is_compiled(),
            Err(e) => old(formats)@.first_error() == Some(e),
        },
{
    match compile_in_place(&mut formats.full) {
        Ok(()) => {},
        Err(e) => {
            return Err(e);
        },
    }
    match compile_in_place(&mut formats.long) {
        Ok(()) => {},
        Err(e) => {
            return Err(e);
        },
    }
    match compile_in_place(&mut formats.medium) {
        Ok(()) => {},
        Err(e) => {
            return Err(e);
        },
    }
    compile_in_place(&mut formats.short)
}

/// Which of the lists of names of a context is asked for.
#[derive(Clone, Copy, Debug, PartialEq, Eq, Structural)]
pub enum NamesLength {
    ABBREVIATED,
    NARROW,
    SHORT,
    WIDE,
}

/// The names of the seven days of the week, from Sunday on.
#[derive(Debug, PartialEq, Eq)]
pub struct DayList {
    pub sun: String,
    pub mon: String,
    pub tue: String,
    pub wed: String,
    pub thu: String,
    pub fri: String,
    pub sat: String,
}

impl View for DayList {
    type V = Seq<Seq<char>>;

    /// The seven names in the order of the week days 0 to 6: Sunday first.
    open spec fn view(&self) -> Seq<Seq<char>> {
        seq![self.sun@, self.mon@, self.tue@, self.wed@, self.thu@, self.fri@, self.sat@]
    }
}

impl DayList {
    /// The name of the week day `idx`, where 0 is Sunday.
    pub fn get(&self, idx: usize) -> (name: &String)
        requires
            idx < 7,
        ensures
            name@ == self@[idx as int],
    {
        if idx == 0 {
            &self.sun
        } else if idx == 1 {
            &self.mon
        } else if idx == 2 {
            &self.tue
        } else if idx == 3 {
            &self.wed
        } else if idx == 4 {
            &self.thu
        } else if idx == 5 {
            &self.fri
        } else {
            &self.sat
        }
    }
}

/// The names of the twelve months, from January on.
#[derive(Debug, PartialEq, Eq)]
pub struct MonthList {
    pub m1: String,
    pub m2: String,
    pub m3: String,
    pub m4: String,
    pub m5: String,
    pub m6: String,
    pub m7: String,
    pub m8: String,
    pub m9: String,
    pub m10: String,
    pub m11: String,
    pub m12: String,
}

impl View for MonthList {
    type V = Seq<Seq<char>>;

    /// The twelve names in the order of the year: the name of month 1 is at
    /// index 0.
    open spec fn view(&self) -> Seq<Seq<char>> {
        seq![
            self.m1@,
            self.m2@,
            self.m3@,
            self.m4@,
            self.m5@,
            self.m6@,
            self.m7@,
            self.m8@,
            self.m9@,
            self.m10@,
            self.m11@,
            self.m12@,
        ]
    }
}

impl MonthList {
    /// The name at index `idx`: that of month `idx + 1`.
    pub fn get(&self, idx: usize) -> (name: &String)
        requires
            idx < 12,
        ensures
            name@ == self@[idx as int],
    {
        if idx == 0 {
            &self.m1
        } else if idx == 1 {
            &self.m2
        } else if idx == 2 {
            &self.m3
        } else if idx == 3 {
            &self.m4
        } else if idx == 4 {
            &self.m5
        } else if idx == 5 {
            &self.m6
        } else if idx == 6 {
            &self.m7
        } else if idx == 7 {
            &self.m8
        } else if idx == 8 {
            &self.m9
        } else if idx == 9 {
            &self.m10
        } else if idx == 10 {
            &self.m11
        } else {
            &self.m12
        }
    }
}

/// What the lists of names of one context stand for: for each length the
/// names in order, or `None` where the locale does not have the list.
pub struct NameLists {
    pub abbreviated: Option<Seq<Seq<char>>>,
    pub narrow: Option<Seq<Seq<char>>>,
    pub short: Option<Seq<Seq<char>>>,
    pub wide: Option<Seq<Seq<char>>>,
}

impl NameLists {
    /// The list of the given length.
    pub open spec fn get(self, length: NamesLength) -> Option<Seq<Seq<char>>> {
        match length {
            NamesLength::ABBREVIATED => self.abbreviated,
            NamesLength::NARROW => self.narrow,
            NamesLength::SHORT => self.short,
            NamesLength::WIDE => self.wide,
        }
    }

    /// Every list that is there has `count` names.
    pub open spec fn each_has(self, count: nat) -> bool {
        forall|length: NamesLength| #[trigger]
            self.get(length) matches Some(names) ==> names.len() == count
    }
}

/// What the names of the months or of the days of a locale stand for: the
/// lists of the names that stand alone and of those that stand inside a
/// date.
pub struct Names {
    pub stand_alone: NameLists,
    pub format: NameLists,
}

impl Names {
    /// The list of the given context and length.
    pub open spec fn list(self, stand_alone: bool, length: NamesLength) -> Option<Seq<Seq<char>>> {
        if stand_alone {
            self.stand_alone.get(length)
        } else {
            self.format.get(length)
        }
    }
}

/// The names of a list that may be missing.
pub open spec fn day_names(list: Option<DayList>) -> Option<Seq<Seq<char>>> {
    match list {
        Some(names) => Some(names@),
        None => None,
    }
}

/// The names of a list that may be missing.
pub open spec fn month_names(list: Option<MonthList>) -> Option<Seq<Seq<char>>> {
    match list {
        Some(names) => Some(names@),
        None => None,
    }
}

/// The lists of day names of one context. A list that the locale does not
/// have is `None`.
#[derive(Debug, PartialEq, Eq)]
pub struct DayTypes {
    pub abbreviated: Option<DayList>,
    pub narrow: Option<DayList>,
    pub short: Option<DayList>,
    pub wide: Option<DayList>,
}

impl View for DayTypes {
    type V = NameLists;

    open spec fn view(&self) -> NameLists {
        NameLists {
            abbreviated: day_names(self.abbreviated),
            narrow: day_names(self.narrow),
            short: day_names(self.short),
            wide: day_names(self.wide),
        }
    }
}

/// The lists of month names of one context. A list that the locale does not
/// have is `None`.
#[derive(Debug, PartialEq, Eq)]
pub struct MonthTypes {
    pub abbreviated: Option<MonthList>,
    pub narrow: Option<MonthList>,
    pub short: Option<MonthList>,
    pub wide: Option<MonthList>,
}

impl View for MonthTypes {
    type V = NameLists;

    open spec fn view(&self) -> NameLists {
        NameLists {
            abbreviated: month_names(self.abbreviated),
            narrow: month_names(self.narrow),
            short: month_names(self.short),
            wide: month_names(self.wide),
        }
    }
}

/// The day names of a locale: those that stand alone and those that stand
/// inside a date.
#[derive(Debug, PartialEq, Eq)]
pub struct Days {
    pub stand_alone: DayTypes,
    pub format: DayTypes,
}

impl View for Days {
    type V = Names;

    open spec fn view(&self) -> Names {
        Names { stand_alone: self.stand_alone@, format: self.format@ }
    }
}

impl Days {
    /// The list of the given context and length, if the locale has it.
    pub fn get_list(&self, stand_alone: bool, length: NamesLength) -> (list: Option<&DayList>)
        ensures
            match list {
                Some(names) => self@.list(stand_alone, length) == Some(names@),
                None => self@.list(stand_alone, length) is None,
            },
    {
        let context = if stand_alone {
            &self.stand_alone
        } else {
            &self.format
        };
        match length {
            NamesLength::ABBREVIATED => context.abbreviated.as_ref(),
            NamesLength::NARROW => context.narrow.as_ref(),
            NamesLength::SHORT => context.short.as_ref(),
            NamesLength::WIDE => context.wide.as_ref(),
        }
    }
}

/// The month names of a locale: those that stand alone and those that stand
/// inside a date.
#[derive(Debug, PartialEq, Eq)]
pub struct Months {
    pub stand_alone: MonthTypes,
    pub format: MonthTypes,
}

impl View for Months {
    type V = Names;

    open spec fn view(&self) -> Names {
        Names { stand_alone: self.stand_alone@, format: self.format@ }
    }
}

impl Months {
    /// The list of the given context and length, if the locale has it.
    pub fn get_list(&self, stand_alone: bool, length: NamesLength) -> (list: Option<&MonthList>)
        ensures
            match list {
                Some(names) => self@.list(stand_alone, length) == Some(names@),
                None => self@.list(stand_alone, length) is None,
            },
    {
        let context = if stand_alone {
            &self.stand_alone
        } else {
            &self.format
        };
        match length {
            NamesLength::ABBREVIATED => context.abbreviated.as_ref(),
            NamesLength::NARROW => context.narrow.as_ref(),
            NamesLength::SHORT => context.short.as_ref(),
            NamesLength::WIDE => context.wide.as_ref(),
        }
    }
}

/// The names and patterns of the Gregorian calendar in one locale.
#[derive(Debug, PartialEq, Eq)]
pub struct GregorianCalendar {
    pub months: Months,
    pub days: Days,
    pub date_formats: Formats,
    pub time_formats: Formats,
    pub date_time_formats: Formats,
}

/// What the data of a calendar stands for: the names of the months and of
/// the days, the patterns of dates and of times for the four styles, and the
/// patterns that join a date and a time.
pub struct CalendarView {
    pub months: Names,
    pub days: Names,
    pub date_formats: FormatsView,
    pub time_formats: FormatsView,
    pub date_time_formats: FormatsView,
}

impl CalendarView {
    /// Every list of month names that is there has twelve names, and every
    /// list of day names seven.
    pub open spec fn well_formed(self) -> bool {
        &&& self.months.stand_alone.each_has(12)
        &&& self.months.format.each_has(12)
        &&& self.days.stand_alone.each_has(7)
        &&& self.days.format.each_has(7)
    }

    /// The first error met when the patterns of dates, of times and the
    /// joining patterns are compiled in this order; `None` where all compile.
    pub open spec fn first_error(self) -> Option<ParserError> {
        if self.date_formats.first_error() is Some {
            self.date_formats.first_error()
        } else if self.time_formats.first_error() is Some {
            self.time_formats.first_error()
        } else {
            self.date_time_formats.first_error()
        }
    }

    /// The names are those of `other`, and each pattern is that of `other`
    /// or what it compiles to.
    pub open spec fn same_data(self, other: CalendarView) -> bool {
        &&& self.months == other.months
        &&& self.days == other.days
        &&& self.date_formats.same_patterns(other.date_formats)
        &&& self.time_formats.same_patterns(other.time_formats)
        &&& self.date_time_formats.same_patterns(other.date_time_formats)
    }

    /// Every pattern is compiled.
    pub open spec fn is_compiled(self) -> bool {
        self.date_formats.is_compiled() && self.time_formats.is_compiled()
            && self.date_time_formats.is_compiled()
    }
}

impl View for GregorianCalendar {
    type V = CalendarView;

    open spec fn view(&self) -> CalendarView {
        CalendarView {
            months: self.months@,
            days: self.days@,
            date_formats: self.date_formats@,
            time_formats: self.time_formats@,
            date_time_formats: self.date_time_formats@,
        }
    }
}

impl GregorianCalendar {
    /// The lists of a calendar have the length of the year and of the week,
    /// whatever names they hold.
    pub proof fn lemma_well_formed(&self)
        ensures
            self@.well_formed(),
    {
    }
}

#[derive(Debug, PartialEq, Eq)]
pub struct Calendar {
    pub gregorian: GregorianCalendar,
}

impl View for Calendar {
    type V = CalendarView;

    open spec fn view(&self) -> CalendarView {
        self.gregorian@
    }
}

#[derive(Debug, PartialEq, Eq)]
pub struct CalendarDates {
    pub calendars: Calendar,
}

impl View for CalendarDates {
    type V = CalendarView;

    open spec fn view(&self) -> CalendarView {
        self.calendars@
    }
}

#[derive(Debug, PartialEq, Eq)]
pub struct LocaleResource {
    pub dates: CalendarDates,
}

impl View for LocaleResource {
    type V = CalendarView;

    open spec fn view(&self) -> CalendarView {
        self.dates@
    }
}

#[derive(Debug, PartialEq, Eq)]
pub struct MainResource {
    pub pl: LocaleResource,
}

impl View for MainResource {
    type V = CalendarView;

    open spec fn view(&self) -> CalendarView {
        self.pl@
    }
}

/// The data of a locale, laid out as the CLDR lays it out.
#[derive(Debug, PartialEq, Eq)]
pub struct Resource {
    pub main: MainResource,
}

impl View for Resource {
    type V = CalendarView;

    /// What the calendar of the data stands for.
    open spec fn view(&self) -> CalendarView {
        self.main@
    }
}

/// Compiles every pattern of the data that is still text: the patterns of
/// dates, then those of times, then the joining patterns.
///
/// The names do not change, and each pattern is left as it was or replaced
/// by what it compiles to. The outcome is `Ok` where every pattern compiles,
/// and all are then compiled. Otherwise it is the first error met.
pub fn parse_all_formats(res: &mut Resource) -> (outcome: Result<(), ParserError>)
    ensures
        final(res)@.same_data(old(res)@),
        match outcome {
            Ok(()) => old(res)@.first_error() is None && final(res)@.is_compiled(),
            Err(e) => old(res)@.first_error() == Some(e),
        },
{
    match parse_formats(&mut res.main.pl.dates.calendars.gregorian.date_formats) {
        Ok(()) => {},
        Err(e) => {
            return Err(e);
        },
    }
    match parse_formats(&mut res.main.pl.dates.calendars.gregorian.time_formats) {
        Ok(()) => {},
        Err(e) => {
            return Err(e);
        },
    }
    parse_formats(&mut res.main.pl.dates.calendars.gregorian.date_time_formats)
}

} // verus!
