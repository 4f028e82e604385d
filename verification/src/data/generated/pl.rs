//! The names and patterns of the Polish locale.

use vstd::prelude::*;
use crate::data::layout::{
    Calendar,
    CalendarDates,
    CalendarView,
    DateTimePattern,
    DateTimePatternView,
    DateTimeToken,
    DayList,
    DayTypes,
    Days,
    Formats,
    FormatsView,
    GregorianCalendar,
    LocaleResource,
    MainResource,
    MonthList,
    MonthTypes,
    Months,
    NameLists,
    Names,
    PatternElement,
    PatternElementView,
    PatternView,
    Resource,
};
use crate::data::patterns::{
    compile,
    lemma_field_then,
    lemma_placeholder_then,
    lemma_plain_then,
    ParserError,
};
use crate::data::render::{is_resolved, lemma_resolved_concat};
use crate::{
    formatter_pattern,
    lemma_date_time_pattern_is_join,
    lemma_join_date_first,
    selected_pattern,
    DateStyle,
    FormatError,
    TimeStyle,
};

verus! {

/// The abbreviated month names, inside a date and alone.
pub open spec fn months_abbreviated() -> Seq<Seq<char>> {
    seq![
        "sty"@,
        "lut"@,
        "mar"@,
        "kwi"@,
        "maj"@,
        "cze"@,
        "lip"@,
        "sie"@,
        "wrz"@,
        "paź"@,
        "lis"@,
        "gru"@,
    ]
}

/// The narrow month names inside a date.
pub open spec fn months_narrow() -> Seq<Seq<char>> {
    seq!["s"@, "l"@, "m"@, "k"@, "m"@, "c"@, "l"@, "s"@, "w"@, "p"@, "l"@, "g"@]
}

/// The wide month names inside a date.
pub open spec fn months_wide() -> Seq<Seq<char>> {
    seq![
        "stycznia"@,
        "lutego"@,
        "marca"@,
        "kwietnia"@,
        "maja"@,
        "czerwca"@,
        "lipca"@,
        "sierpnia"@,
        "września"@,
        "października"@,
        "listopada"@,
        "grudnia"@,
    ]
}

/// The narrow month names that stand alone.
pub open spec fn months_alone_narrow() -> Seq<Seq<char>> {
    seq!["S"@, "L"@, "M"@, "K"@, "M"@, "C"@, "L"@, "S"@, "W"@, "P"@, "L"@, "G"@]
}

/// The wide month names that stand alone.
pub open spec fn months_alone_wide() -> Seq<Seq<char>> {
    seq![
        "styczeń"@,
        "luty"@,
        "marzec"@,
        "kwiecień"@,
        "maj"@,
        "czerwiec"@,
        "lipiec"@,
        "sierpień"@,
        "wrzesień"@,
        "październik"@,
        "listopad"@,
        "grudzień"@,
    ]
}

/// The abbreviated day names, from Sunday on, inside a date and alone.
pub open spec fn days_abbreviated() -> Seq<Seq<char>> {
    seq!["niedz."@, "pon."@, "wt."@, "śr."@, "czw."@, "pt."@, "sob."@]
}

/// The narrow day names inside a date.
pub open spec fn days_narrow() -> Seq<Seq<char>> {
    seq!["n"@, "p"@, "w"@, "ś"@, "c"@, "p"@, "s"@]
}

/// The short day names, inside a date and alone.
pub open spec fn days_short() -> Seq<Seq<char>> {
    seq!["nie"@, "pon"@, "wto"@, "śro"@, "czw"@, "pią"@, "sob"@]
}

/// The wide day names, inside a date and alone.
pub open spec fn days_wide() -> Seq<Seq<char>> {
    seq![
        "niedziela"@,
        "poniedziałek"@,
        "wtorek"@,
        "środa"@,
        "czwartek"@,
        "piątek"@,
        "sobota"@,
    ]
}

/// The narrow day names that stand alone.
pub open spec fn days_alone_narrow() -> Seq<Seq<char>> {
    seq!["N"@, "P"@, "W"@, "Ś"@, "C"@, "P"@, "S"@]
}

pub open spec fn field(token: DateTimeToken) -> PatternElementView {
    PatternElementView::Token(token)
}

pub open spec fn text(literal: Seq<char>) -> PatternElementView {
    PatternElementView::Literal(literal)
}

/// The date patterns, from full to short: `EEEE, d MMMM y`, `d MMMM y`,
/// `d MMM y` and `dd.MM.y`.
pub open spec fn date_patterns() -> Seq<PatternView> {
    seq![
        seq![
            field(DateTimeToken::WeekDayWide),
            text(", "@),
            field(DateTimeToken::DayNumeric),
            text(" "@),
            field(DateTimeToken::MonthNameLong),
            text(" "@),
            field(DateTimeToken::YearNumeric),
        ],
        seq![
            field(DateTimeToken::DayNumeric),
            text(" "@),
            field(DateTimeToken::MonthNameLong),
            text(" "@),
            field(DateTimeToken::YearNumeric),
        ],
        seq![
            field(DateTimeToken::DayNumeric),
            text(" "@),
            field(DateTimeToken::MonthNameAbbreviated),
            text(" "@),
            field(DateTimeToken::YearNumeric),
        ],
        seq![
            field(DateTimeToken::Day2digit),
            text("."@),
            field(DateTimeToken::Month2digit),
            text("."@),
            field(DateTimeToken::YearNumeric),
        ],
    ]
}

/// The time patterns, from full to short: `HH:mm:ss zzzz`, `HH:mm:ss z`,
/// `HH:mm:ss` and `HH:mm`.
pub open spec fn time_patterns() -> Seq<PatternView> {
    seq![
        seq![
            field(DateTimeToken::Hour2digit),
            text(":"@),
            field(DateTimeToken::Minute2digit),
            text(":"@),
            field(DateTimeToken::Second2digit),
            text(" "@),
            field(DateTimeToken::ZoneLong),
        ],
        seq![
            field(DateTimeToken::Hour2digit),
            text(":"@),
            field(DateTimeToken::Minute2digit),
            text(":"@),
            field(DateTimeToken::Second2digit),
            text(" "@),
            field(DateTimeToken::ZoneShort),
        ],
        seq![
            field(DateTimeToken::Hour2digit),
            text(":"@),
            field(DateTimeToken::Minute2digit),
            text(":"@),
            field(DateTimeToken::Second2digit),
        ],
        seq![
            field(DateTimeToken::Hour2digit),
            text(":"@),
            field(DateTimeToken::Minute2digit),
        ],
    ]
}

/// The joining patterns, from full to short: `{1} {0}` twice and `{1}, {0}`
/// twice.
pub open spec fn date_time_patterns() -> Seq<PatternView> {
    seq![
        seq![field(DateTimeToken::Sub1), text(" "@), field(DateTimeToken::Sub0)],
        seq![field(DateTimeToken::Sub1), text(" "@), field(DateTimeToken::Sub0)],
        seq![field(DateTimeToken::Sub1), text(", "@), field(DateTimeToken::Sub0)],
        seq![field(DateTimeToken::Sub1), text(", "@), field(DateTimeToken::Sub0)],
    ]
}

/// The four patterns, compiled.
pub open spec fn compiled(patterns: Seq<PatternView>) -> FormatsView
    recommends
        patterns.len() == 4,
{
    FormatsView {
        full: DateTimePatternView::Parsed(patterns[0]),
        long: DateTimePatternView::Parsed(patterns[1]),
        medium: DateTimePatternView::Parsed(patterns[2]),
        short: DateTimePatternView::Parsed(patterns[3]),
    }
}

/// The names of the months. There are no short ones.
pub open spec fn months() -> Names {
    Names {
        stand_alone: NameLists {
            abbreviated: Some(months_abbreviated()),
            narrow: Some(months_alone_narrow()),
            short: None,
            wide: Some(months_alone_wide()),
        },
        format: NameLists {
            abbreviated: Some(months_abbreviated()),
            narrow: Some(months_narrow()),
            short: None,
            wide: Some(months_wide()),
        },
    }
}

/// The names of the days.
pub open spec fn days() -> Names {
    Names {
        stand_alone: NameLists {
            abbreviated: Some(days_abbreviated()),
            narrow: Some(days_alone_narrow()),
            short: Some(days_short()),
            wide: Some(days_wide()),
        },
        format: NameLists {
            abbreviated: Some(days_abbreviated()),
            narrow: Some(days_narrow()),
            short: Some(days_short()),
            wide: Some(days_wide()),
        },
    }
}

/// What the Polish data stands for.
pub open spec fn calendar() -> CalendarView {
    CalendarView {
        months: months(),
        days: days(),
        date_formats: compiled(date_patterns()),
        time_formats: compiled(time_patterns()),
        date_time_formats: compiled(date_time_patterns()),
    }
}

fn month_list(names: [&'static str; 12]) -> (list: Option<MonthList>)
    ensures
        list matches Some(held) && held@ == Seq::new(12, |i: int| names[i]@),
{
    let list = MonthList {
        m1: names[0].to_owned(),
        m2: names[1].to_owned(),
        m3: names[2].to_owned(),
        m4: names[3].to_owned(),
        m5: names[4].to_owned(),
        m6: names[5].to_owned(),
        m7: names[6].to_owned(),
        m8: names[7].to_owned(),
        m9: names[8].to_owned(),
        m10: names[9].to_owned(),
        m11: names[10].to_owned(),
        m12: names[11].to_owned(),
    };
    assert(list@ =~= Seq::new(12, |i: int| names[i]@));
    Some(list)
}

fn day_list(names: [&'static str; 7]) -> (list: Option<DayList>)
    ensures
        list matches Some(held) && held@ == Seq::new(7, |i: int| names[i]@),
{
    let list = DayList {
        sun: names[0].to_owned(),
        mon: names[1].to_owned(),
        tue: names[2].to_owned(),
        wed: names[3].to_owned(),
        thu: names[4].to_owned(),
        fri: names[5].to_owned(),
        sat: names[6].to_owned(),
    };
    assert(list@ =~= Seq::new(7, |i: int| names[i]@));
    Some(list)
}

fn field_of(token: DateTimeToken) -> (element: PatternElement)
    ensures
        element@ == field(token),
{
    PatternElement::Token(token)
}

fn text_of(literal: &str) -> (element: PatternElement)
    ensures
        element@ == text(literal@),
{
    PatternElement::Literal(literal.to_owned())
}

fn month_tables() -> (tables: Months)
    ensures
        tables@ == months(),
{
    let format = MonthTypes {
        abbreviated: month_list(
            ["sty", "lut", "mar", "kwi", "maj", "cze", "lip", "sie", "wrz", "paź", "lis", "gru"],
        ),
        narrow: month_list(["s", "l", "m", "k", "m", "c", "l", "s", "w", "p", "l", "g"]),
        short: None,
        wide: month_list(
            [
                "stycznia",
                "lutego",
                "marca",
                "kwietnia",
                "maja",
                "czerwca",
                "lipca",
                "sierpnia",
                "września",
                "października",
                "listopada",
                "grudnia",
            ],
        ),
    };
    let stand_alone = MonthTypes {
        abbreviated: month_list(
            ["sty", "lut", "mar", "kwi", "maj", "cze", "lip", "sie", "wrz", "paź", "lis", "gru"],
        ),
        narrow: month_list(["S", "L", "M", "K", "M", "C", "L", "S", "W", "P", "L", "G"]),
        short: None,
        wide: month_list(
            [
                "styczeń",
                "luty",
                "marzec",
                "kwiecień",
                "maj",
                "czerwiec",
                "lipiec",
                "sierpień",
                "wrzesień",
                "październik",
                "listopad",
                "grudzień",
            ],
        ),
    };
    assert(format.abbreviated.unwrap()@ =~= months_abbreviated());
    assert(format.narrow.unwrap()@ =~= months_narrow());
    assert(format.wide.unwrap()@ =~= months_wide());
    assert(stand_alone.abbreviated.unwrap()@ =~= months_abbreviated());
    assert(stand_alone.narrow.unwrap()@ =~= months_alone_narrow());
    assert(stand_alone.wide.unwrap()@ =~= months_alone_wide());
    Months { stand_alone, format }
}

fn day_tables() -> (tables: Days)
    ensures
        tables@ == days(),
{
    let format = DayTypes {
        abbreviated: day_list(["niedz.", "pon.", "wt.", "śr.", "czw.", "pt.", "sob."]),
        narrow: day_list(["n", "p", "w", "ś", "c", "p", "s"]),
        short: day_list(["nie", "pon", "wto", "śro", "czw", "pią", "sob"]),
        wide: day_list(
            ["niedziela", "poniedziałek", "wtorek", "środa", "czwartek", "piątek", "sobota"],
        ),
    };
    let stand_alone = DayTypes {
        abbreviated: day_list(["niedz.", "pon.", "wt.", "śr.", "czw.", "pt.", "sob."]),
        narrow: day_list(["N", "P", "W", "Ś", "C", "P", "S"]),
        short: day_list(["nie", "pon", "wto", "śro", "czw", "pią", "sob"]),
        wide: day_list(
            ["niedziela", "poniedziałek", "wtorek", "środa", "czwartek", "piątek", "sobota"],
        ),
    };
    assert(format.abbreviated.unwrap()@ =~= days_abbreviated());
    assert(format.narrow.unwrap()@ =~= days_narrow());
    assert(format.short.unwrap()@ =~= days_short());
    assert(format.wide.unwrap()@ =~= days_wide());
    assert(stand_alone.abbreviated.unwrap()@ =~= days_abbreviated());
    assert(stand_alone.narrow.unwrap()@ =~= days_alone_narrow());
    assert(stand_alone.short.unwrap()@ =~= days_short());
    assert(stand_alone.wide.unwrap()@ =~= days_wide());
    Days { stand_alone, format }
}

fn date_formats() -> (formats: Formats)
    ensures
        formats@ == compiled(date_patterns()),
{
    let full = vec![
        field_of(DateTimeToken::WeekDayWide),
        text_of(", "),
        field_of(DateTimeToken::DayNumeric),
        text_of(" "),
        field_of(DateTimeToken::MonthNameLong),
        text_of(" "),
        field_of(DateTimeToken::YearNumeric),
    ];
    let long = vec![
        field_of(DateTimeToken::DayNumeric),
        text_of(" "),
        field_of(DateTimeToken::MonthNameLong),
        text_of(" "),
        field_of(DateTimeToken::YearNumeric),
    ];
    let medium = vec![
        field_of(DateTimeToken::DayNumeric),
        text_of(" "),
        field_of(DateTimeToken::MonthNameAbbreviated),
        text_of(" "),
        field_of(DateTimeToken::YearNumeric),
    ];
    let short = vec![
        field_of(DateTimeToken::Day2digit),
        text_of("."),
        field_of(DateTimeToken::Month2digit),
        text_of("."),
        field_of(DateTimeToken::YearNumeric),
    ];
    assert(full.deep_view() =~= date_patterns()[0]);
    assert(long.deep_view() =~= date_patterns()[1]);
    assert(medium.deep_view() =~= date_patterns()[2]);
    assert(short.deep_view() =~= date_patterns()[3]);
    Formats {
        full: DateTimePattern::Parsed(full),
        long: DateTimePattern::Parsed(long),
        medium: DateTimePattern::Parsed(medium),
        short: DateTimePattern::Parsed(short),
    }
}

fn time_formats() -> (formats: Formats)
    ensures
        formats@ == compiled(time_patterns()),
{
    let full = vec![
        field_of(DateTimeToken::Hour2digit),
        text_of(":"),
        field_of(DateTimeToken::Minute2digit),
        text_of(":"),
        field_of(DateTimeToken::Second2digit),
        text_of(" "),
        field_of(DateTimeToken::ZoneLong),
    ];
    let long = vec![
        field_of(DateTimeToken::Hour2digit),
        text_of(":"),
        field_of(DateTimeToken::Minute2digit),
        text_of(":"),
        field_of(DateTimeToken::Second2digit),
        text_of(" "),
        field_of(DateTimeToken::ZoneShort),
    ];
    let medium = vec![
        field_of(DateTimeToken::Hour2digit),
        text_of(":"),
        field_of(DateTimeToken::Minute2digit),
        text_of(":"),
        field_of(DateTimeToken::Second2digit),
    ];
    let short = vec![
        field_of(DateTimeToken::Hour2digit),
        text_of(":"),
        field_of(DateTimeToken::Minute2digit),
    ];
    assert(full.deep_view() =~= time_patterns()[0]);
    assert(long.deep_view() =~= time_patterns()[1]);
    assert(medium.deep_view() =~= time_patterns()[2]);
    assert(short.deep_view() =~= time_patterns()[3]);
    Formats {
        full: DateTimePattern::Parsed(full),
        long: DateTimePattern::Parsed(long),
        medium: DateTimePattern::Parsed(medium),
        short: DateTimePattern::Parsed(short),
    }
}

fn date_time_formats() -> (formats: Formats)
    ensures
        formats@ == compiled(date_time_patterns()),
{
    let full = vec![field_of(DateTimeToken::Sub1), text_of(" "), field_of(DateTimeToken::Sub0)];
    let long = vec![field_of(DateTimeToken::Sub1), text_of(" "), field_of(DateTimeToken::Sub0)];
    let medium = vec![field_of(DateTimeToken::Sub1), text_of(", "), field_of(DateTimeToken::Sub0)];
    let short = vec![field_of(DateTimeToken::Sub1), text_of(", "), field_of(DateTimeToken::Sub0)];
    assert(full.deep_view() =~= date_time_patterns()[0]);
    assert(long.deep_view() =~= date_time_patterns()[1]);
    assert(medium.deep_view() =~= date_time_patterns()[2]);
    assert(short.deep_view() =~= date_time_patterns()[3]);
    Formats {
        full: DateTimePattern::Parsed(full),
        long: DateTimePattern::Parsed(long),
        medium: DateTimePattern::Parsed(medium),
        short: DateTimePattern::Parsed(short),
    }
}

/// The data of the Polish locale.
pub fn resource() -> (resource: Resource)
    ensures
        resource@ == calendar(),
{
    Resource {
        main: MainResource {
            pl: LocaleResource {
                dates: CalendarDates {
                    calendars: Calendar {
                        gregorian: GregorianCalendar {
                            months: month_tables(),
                            days: day_tables(),
                            date_formats: date_formats(),
                            time_formats: time_formats(),
                            date_time_formats: date_time_formats(),
                        },
                    },
                },
            },
        },
    }
}

/// What stands between the date and the time in a joined pattern: a space
/// for the full and the long date style, a comma and a space for the other
/// two.
pub open spec fn joiner(date_style: DateStyle) -> PatternView {
    match date_style {
        DateStyle::FULL => seq![text(" "@)],
        DateStyle::LONG => seq![text(" "@)],
        DateStyle::MEDIUM => seq![text(", "@)],
        DateStyle::SHORT => seq![text(", "@)],
    }
}

/// The pattern that a formatter over the Polish data renders for the given
/// styles.
pub open spec fn pattern_for(
    date_style: Option<DateStyle>,
    time_style: Option<TimeStyle>,
) -> PatternView
    recommends
        date_style is Some || time_style is Some,
{
    match (date_style, time_style) {
        (Some(date), Some(time)) => date_patterns()[date.spec_idx()] + joiner(date)
            + time_patterns()[time.spec_idx()],
        (Some(date), None) => date_patterns()[date.spec_idx()],
        (None, Some(time)) => time_patterns()[time.spec_idx()],
        (None, None) => Seq::empty(),
    }
}

/// The Polish date and time patterns hold no placeholder, and the Polish
/// data has the lists of names that they read.
proof fn lemma_patterns_render(idx: int)
    requires
        0 <= idx < 4,
    ensures
        is_resolved(date_patterns()[idx]),
        is_resolved(time_patterns()[idx]),
        calendar().has_names(date_patterns()[idx]),
        calendar().has_names(time_patterns()[idx]),
{
}

/// Over the Polish data every choice of at least one style gives a
/// formatter: the date pattern, the time pattern, or the two with the joiner
/// of the date style between them.
pub proof fn lemma_formatter(date_style: Option<DateStyle>, time_style: Option<TimeStyle>)
    requires
        date_style is Some || time_style is Some,
    ensures
        formatter_pattern(calendar(), date_style, time_style) == Ok::<PatternView, FormatError>(
            pattern_for(date_style, time_style),
        ),
{
    let calendar = calendar();
    match (date_style, time_style) {
        (Some(date), Some(time)) => {
            let d = date.spec_idx();
            let t = time.spec_idx();
            let connector = calendar.date_time_formats.get(d);
            let date_pattern = calendar.date_formats.get(d);
            let time_pattern = calendar.time_formats.get(t);
            lemma_patterns_render(d);
            lemma_patterns_render(t);
            lemma_date_time_pattern_is_join(connector, date_pattern, time_pattern);
            let none = Seq::<PatternElementView>::empty();
            lemma_join_date_first(none, joiner(date), none, date_patterns()[d], time_patterns()[t]);
            assert(date_time_patterns()[d] =~= none + seq![field(DateTimeToken::Sub1)] + joiner(
                date,
            ) + seq![field(DateTimeToken::Sub0)] + none);
            let joined = date_patterns()[d] + joiner(date) + time_patterns()[t];
            assert(none + date_patterns()[d] + joiner(date) + time_patterns()[t] + none =~= joined);
            assert(selected_pattern(calendar, date_style, time_style) == Ok::<
                PatternView,
                FormatError,
            >(joined));
            lemma_resolved_concat(date_patterns()[d], joiner(date));
            lemma_resolved_concat(date_patterns()[d] + joiner(date), time_patterns()[t]);
            calendar.lemma_has_names_concat(date_patterns()[d], joiner(date));
            calendar.lemma_has_names_concat(
                date_patterns()[d] + joiner(date),
                time_patterns()[t],
            );
        },
        (Some(date), None) => {
            lemma_patterns_render(date.spec_idx());
        },
        (None, Some(time)) => {
            lemma_patterns_render(time.spec_idx());
        },
        (None, None) => {},
    }
}

/// The built-in date patterns are what the pattern texts of the CLDR compile
/// to.
pub proof fn lemma_date_patterns_compile()
    ensures
        compile("EEEE, d MMMM y"@) == Ok::<PatternView, ParserError>(date_patterns()[0]),
        compile("d MMMM y"@) == Ok::<PatternView, ParserError>(date_patterns()[1]),
        compile("d MMM y"@) == Ok::<PatternView, ParserError>(date_patterns()[2]),
        compile("dd.MM.y"@) == Ok::<PatternView, ParserError>(date_patterns()[3]),
{
    lemma_full_date();
    lemma_long_date();
    lemma_medium_date();
    lemma_short_date();
}

proof fn lemma_full_date()
    ensures
        compile("EEEE, d MMMM y"@) == Ok::<PatternView, ParserError>(date_patterns()[0]),
{
    let s = "EEEE, d MMMM y"@;
    reveal_strlit("EEEE, d MMMM y");
    reveal_strlit(" ");
    reveal_strlit(", ");
    lemma_field_then(s, 13, 1);
    lemma_plain_then(s, 12, 13);
    assert(s.subrange(12, 13) =~= " "@);
    lemma_field_then(s, 8, 4);
    lemma_plain_then(s, 7, 8);
    assert(s.subrange(7, 8) =~= " "@);
    lemma_field_then(s, 6, 1);
    lemma_plain_then(s, 4, 6);
    assert(s.subrange(4, 6) =~= ", "@);
    lemma_field_then(s, 0, 4);
    assert(compile(s).unwrap() =~= date_patterns()[0]);
}

proof fn lemma_long_date()
    ensures
        compile("d MMMM y"@) == Ok::<PatternView, ParserError>(date_patterns()[1]),
{
    let s = "d MMMM y"@;
    reveal_strlit("d MMMM y");
    reveal_strlit(" ");
    lemma_field_then(s, 7, 1);
    lemma_plain_then(s, 6, 7);
    assert(s.subrange(6, 7) =~= " "@);
    lemma_field_then(s, 2, 4);
    lemma_plain_then(s, 1, 2);
    assert(s.subrange(1, 2) =~= " "@);
    lemma_field_then(s, 0, 1);
    assert(compile(s).unwrap() =~= date_patterns()[1]);
}

proof fn lemma_medium_date()
    ensures
        compile("d MMM y"@) == Ok::<PatternView, ParserError>(date_patterns()[2]),
{
    let s = "d MMM y"@;
    reveal_strlit("d MMM y");
    reveal_strlit(" ");
    lemma_field_then(s, 6, 1);
    lemma_plain_then(s, 5, 6);
    assert(s.subrange(5, 6) =~= " "@);
    lemma_field_then(s, 2, 3);
    lemma_plain_then(s, 1, 2);
    assert(s.subrange(1, 2) =~= " "@);
    lemma_field_then(s, 0, 1);
    assert(compile(s).unwrap() =~= date_patterns()[2]);
}

proof fn lemma_short_date()
    ensures
        compile("dd.MM.y"@) == Ok::<PatternView, ParserError>(date_patterns()[3]),
{
    let s = "dd.MM.y"@;
    reveal_strlit("dd.MM.y");
    reveal_strlit(".");
    lemma_field_then(s, 6, 1);
    lemma_plain_then(s, 5, 6);
    assert(s.subrange(5, 6) =~= "."@);
    lemma_field_then(s, 3, 2);
    lemma_plain_then(s, 2, 3);
    assert(s.subrange(2, 3) =~= "."@);
    lemma_field_then(s, 0, 2);
    assert(compile(s).unwrap() =~= date_patterns()[3]);
}
/// The built-in time patterns are what the pattern texts of the CLDR compile
/// to.
pub proof fn lemma_time_patterns_compile()
    ensures
        compile("HH:mm:ss zzzz"@) == Ok::<PatternView, ParserError>(time_patterns()[0]),
        compile("HH:mm:ss z"@) == Ok::<PatternView, ParserError>(time_patterns()[1]),
        compile("HH:mm:ss"@) == Ok::<PatternView, ParserError>(time_patterns()[2]),
        compile("HH:mm"@) == Ok::<PatternView, ParserError>(time_patterns()[3]),
{
    lemma_full_time();
    lemma_long_time();
    lemma_medium_time();
    lemma_short_time();
}

proof fn lemma_full_time()
    ensures
        compile("HH:mm:ss zzzz"@) == Ok::<PatternView, ParserError>(time_patterns()[0]),
{
    let s = "HH:mm:ss zzzz"@;
    reveal_strlit("HH:mm:ss zzzz");
    reveal_strlit(" ");
    reveal_strlit(":");
    lemma_field_then(s, 9, 4);
    lemma_plain_then(s, 8, 9);
    assert(s.subrange(8, 9) =~= " "@);
    lemma_field_then(s, 6, 2);
    lemma_plain_then(s, 5, 6);
    assert(s.subrange(5, 6) =~= ":"@);
    lemma_field_then(s, 3, 2);
    lemma_plain_then(s, 2, 3);
    assert(s.subrange(2, 3) =~= ":"@);
    lemma_field_then(s, 0, 2);
    assert(compile(s).unwrap() =~= time_patterns()[0]);
}

proof fn lemma_long_time()
    ensures
        compile("HH:mm:ss z"@) == Ok::<PatternView, ParserError>(time_patterns()[1]),
{
    let s = "HH:mm:ss z"@;
    reveal_strlit("HH:mm:ss z");
    reveal_strlit(" ");
    reveal_strlit(":");
    lemma_field_then(s, 9, 1);
    lemma_plain_then(s, 8, 9);
    assert(s.subrange(8, 9) =~= " "@);
    lemma_field_then(s, 6, 2);
    lemma_plain_then(s, 5, 6);
    assert(s.subrange(5, 6) =~= ":"@);
    lemma_field_then(s, 3, 2);
    lemma_plain_then(s, 2, 3);
    assert(s.subrange(2, 3) =~= ":"@);
    lemma_field_then(s, 0, 2);
    assert(compile(s).unwrap() =~= time_patterns()[1]);
}

proof fn lemma_medium_time()
    ensures
        compile("HH:mm:ss"@) == Ok::<PatternView, ParserError>(time_patterns()[2]),
{
    let s = "HH:mm:ss"@;
    reveal_strlit("HH:mm:ss");
    reveal_strlit(":");
    lemma_field_then(s, 6, 2);
    lemma_plain_then(s, 5, 6);
    assert(s.subrange(5, 6) =~= ":"@);
    lemma_field_then(s, 3, 2);
    lemma_plain_then(s, 2, 3);
    assert(s.subrange(2, 3) =~= ":"@);
    lemma_field_then(s, 0, 2);
    assert(compile(s).unwrap() =~= time_patterns()[2]);
}

proof fn lemma_short_time()
    ensures
        compile("HH:mm"@) == Ok::<PatternView, ParserError>(time_patterns()[3]),
{
    let s = "HH:mm"@;
    reveal_strlit("HH:mm");
    reveal_strlit(":");
    lemma_field_then(s, 3, 2);
    lemma_plain_then(s, 2, 3);
    assert(s.subrange(2, 3) =~= ":"@);
    lemma_field_then(s, 0, 2);
    assert(compile(s).unwrap() =~= time_patterns()[3]);
}
/// The built-in joining patterns are what the pattern texts of the CLDR
/// compile to.
pub proof fn lemma_date_time_patterns_compile()
    ensures
        compile("{1} {0}"@) == Ok::<PatternView, ParserError>(date_time_patterns()[0]),
        compile("{1} {0}"@) == Ok::<PatternView, ParserError>(date_time_patterns()[1]),
        compile("{1}, {0}"@) == Ok::<PatternView, ParserError>(date_time_patterns()[2]),
        compile("{1}, {0}"@) == Ok::<PatternView, ParserError>(date_time_patterns()[3]),
{
    lemma_join_with_space();
    lemma_join_with_comma();
}

proof fn lemma_join_with_space()
    ensures
        compile("{1} {0}"@) == Ok::<PatternView, ParserError>(date_time_patterns()[0]),
{
    let s = "{1} {0}"@;
    reveal_strlit("{1} {0}");
    reveal_strlit(" ");
    lemma_placeholder_then(s, 4);
    lemma_plain_then(s, 3, 4);
    assert(s.subrange(3, 4) =~= " "@);
    lemma_placeholder_then(s, 0);
    assert(compile(s).unwrap() =~= date_time_patterns()[0]);
}

proof fn lemma_join_with_comma()
    ensures
        compile("{1}, {0}"@) == Ok::<PatternView, ParserError>(date_time_patterns()[2]),
{
    let s = "{1}, {0}"@;
    reveal_strlit("{1}, {0}");
    reveal_strlit(", ");
    lemma_placeholder_then(s, 5);
    lemma_plain_then(s, 3, 5);
    assert(s.subrange(3, 5) =~= ", "@);
    lemma_placeholder_then(s, 0);
    assert(compile(s).unwrap() =~= date_time_patterns()[2]);
}
} // verus!
