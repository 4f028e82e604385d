use unic_datetime::data::generated::{get, should_skip};
use unic_datetime::data::layout::{
    DateTimePattern, DateTimeToken, DayList, Formats, MonthList, NamesLength, PatternElement,
    Resource,
};
use unic_datetime::data::numbers::format_number;
use unic_datetime::data::patterns::{parse_pattern, ParserError};
use unic_datetime::data::weekday::{get_day_of_week, month_index};
use unic_datetime::{
    create_date_time_pattern, DateStyle, DateTime, DateTimeFormat, FormatError, TimeStyle,
};

fn polish() -> Resource {
    get("pl").unwrap()
}

fn render(pattern: &str, value: &DateTime) -> String {
    let elements = parse_pattern(pattern).unwrap();
    let data = polish();
    let mut result = String::new();
    data.main
        .pl
        .dates
        .calendars
        .gregorian
        .format_pattern(&mut result, &elements, value)
        .unwrap();
    result
}

fn number(num: usize, two_digit: bool) -> String {
    let mut result = String::new();
    format_number(&mut result, num, two_digit);
    result
}

#[test]
fn it_works() {
    let dt = DateTime::new(2019, 10, 29, 10, 23, 5);
    let dtf = DateTimeFormat::new_from_static("pl", Some(DateStyle::LONG), None).unwrap();
    assert_eq!(dtf.format(&dt), "29 października 2019");

    let dtf = DateTimeFormat::new_from_static("pl", Some(DateStyle::SHORT), None).unwrap();
    assert_eq!(dtf.format(&dt), "29.10.2019");

    let dtf =
        DateTimeFormat::new_from_static("pl", Some(DateStyle::MEDIUM), Some(TimeStyle::MEDIUM))
            .unwrap();
    assert_eq!(dtf.format(&dt), "29 paź 2019, 10:23:05");
}

#[test]
fn every_style_of_the_polish_locale() {
    let dt = DateTime::new(2019, 10, 29, 10, 23, 5);
    let cases: Vec<(Option<DateStyle>, Option<TimeStyle>, &str)> = vec![
        (Some(DateStyle::FULL), None, "wtorek, 29 października 2019"),
        (Some(DateStyle::LONG), None, "29 października 2019"),
        (Some(DateStyle::MEDIUM), None, "29 paź 2019"),
        (Some(DateStyle::SHORT), None, "29.10.2019"),
        (None, Some(TimeStyle::FULL), "10:23:05 Pacific Daylight Time"),
        (None, Some(TimeStyle::LONG), "10:23:05 PDT"),
        (None, Some(TimeStyle::MEDIUM), "10:23:05"),
        (None, Some(TimeStyle::SHORT), "10:23"),
        (
            Some(DateStyle::FULL),
            Some(TimeStyle::FULL),
            "wtorek, 29 października 2019 10:23:05 Pacific Daylight Time",
        ),
        (
            Some(DateStyle::LONG),
            Some(TimeStyle::LONG),
            "29 października 2019 10:23:05 PDT",
        ),
        (
            Some(DateStyle::MEDIUM),
            Some(TimeStyle::MEDIUM),
            "29 paź 2019, 10:23:05",
        ),
        (
            Some(DateStyle::SHORT),
            Some(TimeStyle::SHORT),
            "29.10.2019, 10:23",
        ),
        (
            Some(DateStyle::SHORT),
            Some(TimeStyle::FULL),
            "29.10.2019, 10:23:05 Pacific Daylight Time",
        ),
        (
            Some(DateStyle::FULL),
            Some(TimeStyle::SHORT),
            "wtorek, 29 października 2019 10:23",
        ),
    ];
    for (date_style, time_style, expected) in cases {
        let dtf = DateTimeFormat::new_from_static("pl", date_style, time_style).unwrap();
        assert_eq!(dtf.format(&dt), expected);
    }
}

#[test]
fn no_style_is_a_configuration_error() {
    assert!(matches!(
        DateTimeFormat::new_from_static("pl", None, None),
        Err(FormatError::Configuration)
    ));
    assert!(matches!(
        DateTimeFormat::new("pl", None, None, polish()),
        Err(FormatError::Configuration)
    ));
}

#[test]
fn a_locale_that_is_not_built_in_is_a_lookup_gap() {
    assert!(get("de").is_none());
    assert!(get("").is_none());
    assert!(get("pl-PL").is_none());
    assert!(get("pl").is_some());
    assert!(matches!(
        DateTimeFormat::new_from_static("de", Some(DateStyle::LONG), None),
        Err(FormatError::LookupGap)
    ));
    assert!(matches!(
        DateTimeFormat::new_from_static("de", None, None),
        Err(FormatError::LookupGap)
    ));
}

#[test]
fn a_missing_list_of_names_is_a_lookup_gap() {
    let mut data = polish();
    data.main.pl.dates.calendars.gregorian.months.format.wide = None;
    assert!(matches!(
        DateTimeFormat::new("pl", Some(DateStyle::LONG), None, data),
        Err(FormatError::LookupGap)
    ));

    let mut data = polish();
    data.main.pl.dates.calendars.gregorian.months.format.wide = None;
    let dtf = DateTimeFormat::new("pl", Some(DateStyle::MEDIUM), None, data).unwrap();
    assert_eq!(dtf.format(&DateTime::new(2019, 10, 29, 0, 0, 0)), "29 paź 2019");

    let mut data = polish();
    data.main.pl.dates.calendars.gregorian.days.format.wide = None;
    assert!(matches!(
        DateTimeFormat::new("pl", Some(DateStyle::FULL), Some(TimeStyle::SHORT), data),
        Err(FormatError::LookupGap)
    ));

    let mut data = polish();
    data.main.pl.dates.calendars.gregorian.months.format.abbreviated = None;
    let calendar = &data.main.pl.dates.calendars.gregorian;
    let elements = parse_pattern("d MMM y").unwrap();
    assert_eq!(calendar.check_pattern(&elements), Err(FormatError::LookupGap));
    let mut result = String::from("kept");
    assert_eq!(
        calendar.format_pattern(&mut result, &elements, &DateTime::new(2019, 10, 29, 0, 0, 0)),
        Err(FormatError::LookupGap)
    );
    assert_eq!(result, "kept");
}

#[test]
fn a_raw_pattern_is_compiled_when_the_formatter_is_built() {
    let mut data = polish();
    data.main.pl.dates.calendars.gregorian.date_formats.long =
        DateTimePattern::Raw("y-MM-dd".to_string());
    let dtf = DateTimeFormat::new("pl", Some(DateStyle::LONG), None, data).unwrap();
    assert_eq!(dtf.format(&DateTime::new(2019, 3, 7, 0, 0, 0)), "2019-03-07");

    let mut data = polish();
    data.main.pl.dates.calendars.gregorian.date_formats.long =
        DateTimePattern::Raw("y-MMMMM".to_string());
    assert!(matches!(
        DateTimeFormat::new("pl", Some(DateStyle::LONG), None, data),
        Err(FormatError::Compile(ParserError::UnsupportedField))
    ));

    let mut data = polish();
    data.main.pl.dates.calendars.gregorian.time_formats.short =
        DateTimePattern::Raw("HH 'h".to_string());
    assert!(matches!(
        DateTimeFormat::new("pl", Some(DateStyle::LONG), Some(TimeStyle::SHORT), data),
        Err(FormatError::Compile(ParserError::UnterminatedLiteral))
    ));

    let mut data = polish();
    data.main.pl.dates.calendars.gregorian.date_time_formats.long =
        DateTimePattern::Raw("{1} {2}".to_string());
    assert!(matches!(
        DateTimeFormat::new("pl", Some(DateStyle::LONG), Some(TimeStyle::SHORT), data),
        Err(FormatError::Compile(ParserError::UnsupportedPlaceholder))
    ));
}

#[test]
fn a_placeholder_left_in_the_pattern_is_an_error() {
    let mut data = polish();
    data.main.pl.dates.calendars.gregorian.date_formats.long =
        DateTimePattern::Raw("d {0}".to_string());
    assert!(matches!(
        DateTimeFormat::new("pl", Some(DateStyle::LONG), None, data),
        Err(FormatError::UnresolvedPlaceholder)
    ));

    let mut data = polish();
    data.main.pl.dates.calendars.gregorian.date_time_formats.full =
        DateTimePattern::Raw("{1} {1} {0}".to_string());
    assert!(matches!(
        DateTimeFormat::new("pl", Some(DateStyle::FULL), Some(TimeStyle::SHORT), data),
        Err(FormatError::UnresolvedPlaceholder)
    ));

    let data = polish();
    let calendar = &data.main.pl.dates.calendars.gregorian;
    assert_eq!(
        calendar.check_pattern(&parse_pattern("{1}, {0}").unwrap()),
        Err(FormatError::UnresolvedPlaceholder)
    );
    assert_eq!(
        calendar.check_pattern(&parse_pattern("EEEE, d MMMM y").unwrap()),
        Ok(())
    );
}

#[test]
fn joining_puts_the_date_and_the_time_in_their_places() {
    let data = polish();
    let joined = create_date_time_pattern(
        &DateTimePattern::Raw("{1} 'o' {0}".to_string()),
        DateStyle::SHORT,
        TimeStyle::SHORT,
        &data,
    )
    .unwrap();
    assert_eq!(
        joined,
        parse_pattern("dd.MM.y 'o' HH:mm").unwrap()
    );

    let joined = create_date_time_pattern(
        &DateTimePattern::Raw("{0} - {1}".to_string()),
        DateStyle::MEDIUM,
        TimeStyle::MEDIUM,
        &data,
    )
    .unwrap();
    assert_eq!(joined, parse_pattern("HH:mm:ss - d MMM y").unwrap());

    let joined = create_date_time_pattern(
        &DateTimePattern::Raw("'only' {0}".to_string()),
        DateStyle::MEDIUM,
        TimeStyle::SHORT,
        &data,
    )
    .unwrap();
    assert_eq!(
        joined,
        vec![
            PatternElement::Literal("only".to_string()),
            PatternElement::Literal(" ".to_string()),
            PatternElement::Token(DateTimeToken::Hour2digit),
            PatternElement::Literal(":".to_string()),
            PatternElement::Token(DateTimeToken::Minute2digit),
        ]
    );

    let joined = create_date_time_pattern(
        &DateTimePattern::Raw("{1} {1}".to_string()),
        DateStyle::SHORT,
        TimeStyle::SHORT,
        &data,
    )
    .unwrap();
    assert_eq!(
        joined,
        vec![
            PatternElement::Token(DateTimeToken::Day2digit),
            PatternElement::Literal(".".to_string()),
            PatternElement::Token(DateTimeToken::Month2digit),
            PatternElement::Literal(".".to_string()),
            PatternElement::Token(DateTimeToken::YearNumeric),
            PatternElement::Literal(" ".to_string()),
            PatternElement::Token(DateTimeToken::Sub1),
        ]
    );

    let joined = create_date_time_pattern(
        data.main.pl.dates.calendars.gregorian.date_time_formats.get(2),
        DateStyle::MEDIUM,
        TimeStyle::MEDIUM,
        &data,
    )
    .unwrap();
    assert_eq!(joined, parse_pattern("d MMM y, HH:mm:ss").unwrap());
}

#[test]
fn numbers_are_padded_to_two_digits_and_never_cut() {
    assert_eq!(number(0, false), "0");
    assert_eq!(number(0, true), "00");
    assert_eq!(number(5, false), "5");
    assert_eq!(number(5, true), "05");
    assert_eq!(number(9, true), "09");
    assert_eq!(number(10, true), "10");
    assert_eq!(number(10, false), "10");
    assert_eq!(number(99, true), "99");
    assert_eq!(number(100, true), "100");
    assert_eq!(number(2021, true), "2021");
    assert_eq!(number(2021, false), "2021");
    assert_eq!(number(1234567890, false), "1234567890");
    assert_eq!(number(usize::MAX, false), usize::MAX.to_string());
    let mut result = String::from("x");
    format_number(&mut result, 7, true);
    format_number(&mut result, 42, false);
    assert_eq!(result, "x0742");
}

#[test]
fn two_digit_year_is_padded_and_not_cut() {
    assert_eq!(render("yy", &DateTime::new(5, 1, 1, 0, 0, 0)), "05");
    assert_eq!(render("yy", &DateTime::new(2021, 1, 1, 0, 0, 0)), "2021");
    assert_eq!(render("y", &DateTime::new(5, 1, 1, 0, 0, 0)), "5");
    assert_eq!(render("y", &DateTime::new(2021, 1, 1, 0, 0, 0)), "2021");
}

#[test]
fn each_field_renders() {
    let dt = DateTime::new(2019, 3, 7, 4, 5, 6);
    assert_eq!(render("EEEE", &dt), "czwartek");
    assert_eq!(render("d", &dt), "7");
    assert_eq!(render("dd", &dt), "07");
    assert_eq!(render("MMMM", &dt), "marca");
    assert_eq!(render("MMM", &dt), "mar");
    assert_eq!(render("MM", &dt), "03");
    assert_eq!(render("y", &dt), "2019");
    assert_eq!(render("yy", &dt), "2019");
    assert_eq!(render("HH", &dt), "04");
    assert_eq!(render("mm", &dt), "05");
    assert_eq!(render("ss", &dt), "06");
    assert_eq!(render("zzzz", &dt), "Pacific Daylight Time");
    assert_eq!(render("z", &dt), "PDT");
    assert_eq!(render("zzz", &dt), "PDT");
    assert_eq!(render("'dnia' d. MMMM", &dt), "dnia 7. marca");
    assert_eq!(render("", &dt), "");
}

#[test]
fn every_month_has_its_name() {
    let wide = [
        "stycznia",
        "lutego",
        "marca",
        "kwietnia",
        "maja",
        "czerwca",
        "lipca",
        "sierpnia",
        "września",
        "października",
        "listopada",
        "grudnia",
    ];
    let abbreviated = [
        "sty", "lut", "mar", "kwi", "maj", "cze", "lip", "sie", "wrz", "paź", "lis", "gru",
    ];
    for month in 1..=12 {
        let dt = DateTime::new(2020, month, 15, 0, 0, 0);
        assert_eq!(month_index(month), month - 1);
        assert_eq!(render("MMMM", &dt), wide[month - 1]);
        assert_eq!(render("MMM", &dt), abbreviated[month - 1]);
    }
}

#[test]
fn values_out_of_range_are_rendered_not_refused() {
    assert_eq!(
        render("dd.MM.y HH:mm:ss", &DateTime::new(0, 13, 32, 24, 60, 61)),
        "32.13.0 24:60:61"
    );
    assert_eq!(render("dd HH", &DateTime::new(1, 1, 100, 123, 0, 0)), "100 123");
    assert_eq!(month_index(0), 11);
    assert_eq!(month_index(13), 0);
    assert_eq!(month_index(24), 11);
    assert_eq!(month_index(usize::MAX), (usize::MAX - 1) % 12);
    assert_eq!(render("MMMM", &DateTime::new(2020, 13, 1, 0, 0, 0)), "stycznia");
    assert_eq!(render("MMMM", &DateTime::new(2020, 0, 1, 0, 0, 0)), "grudnia");
    let text = render(
        "EEEE MMM",
        &DateTime::new(usize::MAX, usize::MAX, usize::MAX, 0, 0, 0),
    );
    let abbreviated = [
        "sty", "lut", "mar", "kwi", "maj", "cze", "lip", "sie", "wrz", "paź", "lis", "gru",
    ];
    assert!(text.ends_with(abbreviated[(usize::MAX - 1) % 12]));
}

#[test]
fn week_days_of_known_dates() {
    // Sunday is 0.
    assert_eq!(get_day_of_week(2019, 10, 29), 2);
    assert_eq!(get_day_of_week(2000, 1, 1), 6);
    assert_eq!(get_day_of_week(2000, 2, 29), 2);
    assert_eq!(get_day_of_week(2000, 3, 1), 3);
    assert_eq!(get_day_of_week(1970, 1, 1), 4);
    assert_eq!(get_day_of_week(2024, 2, 29), 4);
    assert_eq!(get_day_of_week(2024, 12, 31), 2);
    assert_eq!(get_day_of_week(2025, 1, 1), 3);
    assert_eq!(get_day_of_week(1900, 3, 1), 4);
    assert_eq!(get_day_of_week(1, 1, 1), 1);
    assert_eq!(get_day_of_week(0, 12, 31), 0);
    assert_eq!(get_day_of_week(0, 1, 1), 6);
    assert_eq!(get_day_of_week(0, 2, 29), 2);
    assert_eq!(get_day_of_week(0, 3, 1), 3);
    assert!(get_day_of_week(usize::MAX, usize::MAX, usize::MAX) < 7);
    assert!(get_day_of_week(usize::MAX, 1, usize::MAX) < 7);
}

#[test]
fn week_days_follow_each_other_through_a_year() {
    let lengths = [31, 29, 31, 30, 31, 30, 31, 31, 30, 31, 30, 31];
    let mut expected = get_day_of_week(2024, 1, 1);
    assert_eq!(expected, 1);
    for month in 1..=12 {
        for day in 1..=lengths[month - 1] {
            assert_eq!(get_day_of_week(2024, month, day), expected);
            expected = (expected + 1) % 7;
        }
    }
    assert_eq!(get_day_of_week(2025, 1, 1), expected);
}

#[test]
fn week_day_names_start_on_sunday() {
    let data = polish();
    let days = &data.main.pl.dates.calendars.gregorian.days;
    let wide = days.get_list(false, NamesLength::WIDE).unwrap();
    assert_eq!(wide.get(0), "niedziela");
    assert_eq!(wide.get(1), "poniedziałek");
    assert_eq!(wide.get(2), "wtorek");
    assert_eq!(wide.get(6), "sobota");
    assert_eq!(wide.sun, "niedziela");
    assert_eq!(wide.sat, "sobota");
    assert_eq!(
        render("EEEE", &DateTime::new(2019, 10, 27, 0, 0, 0)),
        "niedziela"
    );
    assert_eq!(
        render("EEEE", &DateTime::new(2019, 10, 28, 0, 0, 0)),
        "poniedziałek"
    );
    assert_eq!(
        render("EEEE", &DateTime::new(2019, 10, 29, 0, 0, 0)),
        "wtorek"
    );
    assert_eq!(
        render("EEEE", &DateTime::new(2019, 11, 2, 0, 0, 0)),
        "sobota"
    );
}

#[test]
fn lists_of_names_by_context_and_length() {
    let data = polish();
    let calendar = &data.main.pl.dates.calendars.gregorian;
    let months = &calendar.months;
    assert_eq!(months.get_list(false, NamesLength::WIDE).unwrap().get(9), "października");
    assert_eq!(months.get_list(true, NamesLength::WIDE).unwrap().get(9), "październik");
    assert_eq!(months.get_list(false, NamesLength::ABBREVIATED).unwrap().get(0), "sty");
    assert_eq!(months.get_list(false, NamesLength::NARROW).unwrap().get(11), "g");
    assert_eq!(months.get_list(true, NamesLength::NARROW).unwrap().get(11), "G");
    assert!(months.get_list(false, NamesLength::SHORT).is_none());
    assert!(months.get_list(true, NamesLength::SHORT).is_none());
    let days = &calendar.days;
    assert_eq!(days.get_list(false, NamesLength::ABBREVIATED).unwrap().get(3), "śr.");
    assert_eq!(days.get_list(false, NamesLength::SHORT).unwrap().get(5), "pią");
    assert_eq!(days.get_list(false, NamesLength::NARROW).unwrap().get(3), "ś");
    assert_eq!(days.get_list(true, NamesLength::NARROW).unwrap().get(3), "Ś");
    assert_eq!(days.get_list(true, NamesLength::WIDE).unwrap().get(4), "czwartek");
}

#[test]
fn month_and_day_lists_by_index() {
    let months = MonthList {
        m1: "a".to_string(),
        m2: "b".to_string(),
        m3: "c".to_string(),
        m4: "d".to_string(),
        m5: "e".to_string(),
        m6: "f".to_string(),
        m7: "g".to_string(),
        m8: "h".to_string(),
        m9: "i".to_string(),
        m10: "j".to_string(),
        m11: "k".to_string(),
        m12: "l".to_string(),
    };
    let expected = ["a", "b", "c", "d", "e", "f", "g", "h", "i", "j", "k", "l"];
    for idx in 0..12 {
        assert_eq!(months.get(idx), expected[idx]);
    }
    let days = DayList {
        sun: "0".to_string(),
        mon: "1".to_string(),
        tue: "2".to_string(),
        wed: "3".to_string(),
        thu: "4".to_string(),
        fri: "5".to_string(),
        sat: "6".to_string(),
    };
    for idx in 0..7 {
        assert_eq!(days.get(idx), &idx.to_string());
    }
}

#[test]
fn patterns_by_style_index() {
    let formats = Formats {
        full: DateTimePattern::Raw("EEEE".to_string()),
        long: DateTimePattern::Raw("MMMM".to_string()),
        medium: DateTimePattern::Raw("MMM".to_string()),
        short: DateTimePattern::Raw("MM".to_string()),
    };
    assert_eq!(formats.get(0), &DateTimePattern::Raw("EEEE".to_string()));
    assert_eq!(formats.get(1), &DateTimePattern::Raw("MMMM".to_string()));
    assert_eq!(formats.get(2), &DateTimePattern::Raw("MMM".to_string()));
    assert_eq!(formats.get(3), &DateTimePattern::Raw("MM".to_string()));
    assert_eq!(DateStyle::FULL.idx(), 0);
    assert_eq!(DateStyle::LONG.idx(), 1);
    assert_eq!(DateStyle::MEDIUM.idx(), 2);
    assert_eq!(DateStyle::SHORT.idx(), 3);
    assert_eq!(TimeStyle::FULL.idx(), 0);
    assert_eq!(TimeStyle::LONG.idx(), 1);
    assert_eq!(TimeStyle::MEDIUM.idx(), 2);
    assert_eq!(TimeStyle::SHORT.idx(), 3);
}

#[test]
fn a_pattern_as_text_or_compiled() {
    let raw = DateTimePattern::Raw("d MMM".to_string());
    let elements = raw.to_parsed().unwrap();
    assert_eq!(
        elements,
        vec![
            PatternElement::Token(DateTimeToken::DayNumeric),
            PatternElement::Literal(" ".to_string()),
            PatternElement::Token(DateTimeToken::MonthNameAbbreviated),
        ]
    );
    let parsed = DateTimePattern::Parsed(elements.clone());
    assert_eq!(parsed.to_parsed().unwrap(), elements);
    assert_eq!(parsed.clone(), parsed);
    assert_eq!(raw.clone(), raw);
    assert_eq!(
        DateTimePattern::Raw("ddd".to_string()).to_parsed(),
        Err(ParserError::UnsupportedField)
    );
}

#[test]
fn a_pattern_as_text_is_rendered_through_the_resource() {
    let data = polish();
    let dt = DateTime::new(2019, 10, 29, 10, 23, 5);
    let mut result = String::from("> ");
    data.format_pattern(&mut result, &DateTimePattern::Raw("d MMMM, HH:mm".to_string()), &dt)
        .unwrap();
    assert_eq!(result, "> 29 października, 10:23");
    assert_eq!(
        data.format_pattern(&mut result, &DateTimePattern::Raw("d 'x".to_string()), &dt),
        Err(FormatError::Compile(ParserError::UnterminatedLiteral))
    );
    assert_eq!(result, "> 29 października, 10:23");
    data.format_pattern(
        &mut result,
        data.main.pl.dates.calendars.gregorian.time_formats.get(3),
        &dt,
    )
    .unwrap();
    assert_eq!(result, "> 29 października, 10:2310:23");
}

#[test]
fn names_of_the_fields() {
    assert_eq!(DateTimeToken::WeekDayWide.get_name(), "WeekDayWide");
    assert_eq!(DateTimeToken::DayNumeric.get_name(), "DayNumeric");
    assert_eq!(DateTimeToken::Day2digit.get_name(), "Day2digit");
    assert_eq!(DateTimeToken::MonthNameLong.get_name(), "MonthNameLong");
    assert_eq!(
        DateTimeToken::MonthNameAbbreviated.get_name(),
        "MonthNameAbbreviated"
    );
    assert_eq!(DateTimeToken::Month2digit.get_name(), "Month2digit");
    assert_eq!(DateTimeToken::YearNumeric.get_name(), "YearNumeric");
    assert_eq!(DateTimeToken::Year2digit.get_name(), "Year2digit");
    assert_eq!(DateTimeToken::Hour2digit.get_name(), "Hour2digit");
    assert_eq!(DateTimeToken::Minute2digit.get_name(), "Minute2digit");
    assert_eq!(DateTimeToken::Second2digit.get_name(), "Second2digit");
    assert_eq!(DateTimeToken::ZoneLong.get_name(), "ZoneLong");
    assert_eq!(DateTimeToken::ZoneShort.get_name(), "ZoneShort");
    assert_eq!(DateTimeToken::Sub0.get_name(), "Sub0");
    assert_eq!(DateTimeToken::Sub1.get_name(), "Sub1");
}

#[test]
fn the_built_in_patterns_are_the_compiled_cldr_patterns() {
    let data = polish();
    let calendar = &data.main.pl.dates.calendars.gregorian;
    let dates = ["EEEE, d MMMM y", "d MMMM y", "d MMM y", "dd.MM.y"];
    let times = ["HH:mm:ss zzzz", "HH:mm:ss z", "HH:mm:ss", "HH:mm"];
    let joins = ["{1} {0}", "{1} {0}", "{1}, {0}", "{1}, {0}"];
    for idx in 0..4 {
        assert_eq!(
            calendar.date_formats.get(idx),
            &DateTimePattern::Parsed(parse_pattern(dates[idx]).unwrap())
        );
        assert_eq!(
            calendar.time_formats.get(idx),
            &DateTimePattern::Parsed(parse_pattern(times[idx]).unwrap())
        );
        assert_eq!(
            calendar.date_time_formats.get(idx),
            &DateTimePattern::Parsed(parse_pattern(joins[idx]).unwrap())
        );
    }
}

#[test]
fn a_date_keeps_its_fields() {
    let dt = DateTime::new(2019, 10, 29, 10, 23, 5);
    assert_eq!(dt.year, 2019);
    assert_eq!(dt.month, 10);
    assert_eq!(dt.day, 29);
    assert_eq!(dt.hour, 10);
    assert_eq!(dt.minute, 23);
    assert_eq!(dt.second, 5);
}

#[test]
fn a_locale_is_skipped_unless_it_is_named() {
    let includes: &[&str] = &["pl", "en-GB"];
    assert!(!should_skip("pl", Some(includes)));
    assert!(!should_skip("en-GB", Some(includes)));
    assert!(should_skip("en", Some(includes)));
    assert!(should_skip("p", Some(includes)));
    assert!(should_skip("", Some(includes)));
    assert!(should_skip("pl", Some(&[])));
    assert!(should_skip("pl", None));
}

#[test]
fn week_days_follow_each_other_through_four_centuries() {
    let mut expected = get_day_of_week(1800, 1, 1);
    assert_eq!(expected, 3);
    for year in 1800..2200 {
        let leap = year % 4 == 0 && (year % 100 != 0 || year % 400 == 0);
        let lengths = [31, if leap { 29 } else { 28 }, 31, 30, 31, 30, 31, 31, 30, 31, 30, 31];
        for month in 1..=12 {
            for day in 1..=lengths[month - 1] {
                assert_eq!(get_day_of_week(year, month, day), expected);
                expected = (expected + 1) % 7;
            }
        }
    }
    assert_eq!(get_day_of_week(2200, 1, 1), expected);
}

#[test]
fn numbers_read_back() {
    for num in (0..3000).chain([usize::MAX - 1, usize::MAX, 1 << 31, 99_999, 100_000]) {
        assert_eq!(number(num, false), num.to_string());
        assert_eq!(number(num, true), format!("{:0>2}", num));
        assert_eq!(number(num, true).parse::<usize>(), Ok(num));
    }
}
