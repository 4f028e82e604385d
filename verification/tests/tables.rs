use unic_datetime::data::generated::get;
use unic_datetime::data::layout::{DateTimePattern, DayList, DayTypes, Formats, MonthList};
use unic_datetime::data::patterns::{parse_pattern, ParserError};
use unic_datetime::data::tables::{
    serialize_calendar_data, serialize_day_list, serialize_day_names, serialize_dt_format,
    serialize_dt_formats, serialize_month_list, serialize_month_names,
};

fn days(names: [&str; 7]) -> DayList {
    DayList {
        sun: names[0].to_string(),
        mon: names[1].to_string(),
        tue: names[2].to_string(),
        wed: names[3].to_string(),
        thu: names[4].to_string(),
        fri: names[5].to_string(),
        sat: names[6].to_string(),
    }
}

fn months(names: [&str; 12]) -> MonthList {
    MonthList {
        m1: names[0].to_string(),
        m2: names[1].to_string(),
        m3: names[2].to_string(),
        m4: names[3].to_string(),
        m5: names[4].to_string(),
        m6: names[5].to_string(),
        m7: names[6].to_string(),
        m8: names[7].to_string(),
        m9: names[8].to_string(),
        m10: names[9].to_string(),
        m11: names[10].to_string(),
        m12: names[11].to_string(),
    }
}

#[test]
fn the_source_of_a_list_of_days() {
    let list = Some(days(["nie", "pon", "wto", "śro", "czw", "pią", "sob"]));
    let expected = "Some(DayList {
                                    sun: String::from(\"nie\"),
                                    mon: String::from(\"pon\"),
                                    tue: String::from(\"wto\"),
                                    wed: String::from(\"śro\"),
                                    thu: String::from(\"czw\"),
                                    fri: String::from(\"pią\"),
                                    sat: String::from(\"sob\"),
                                }),";
    assert_eq!(serialize_day_list(&list), expected);
    assert_eq!(serialize_day_list(&None), "None,");
}

#[test]
fn the_source_of_a_list_of_months() {
    let list = Some(months([
        "a", "b", "c", "d", "e", "f", "g", "h", "i", "j", "k", "l",
    ]));
    let mut expected = String::from("Some(MonthList {\n");
    for (idx, name) in ["a", "b", "c", "d", "e", "f", "g", "h", "i", "j", "k", "l"]
        .iter()
        .enumerate()
    {
        expected.push_str(&format!(
            "{}m{}: String::from(\"{}\"),\n",
            " ".repeat(36),
            idx + 1,
            name
        ));
    }
    expected.push_str(&format!("{}}}),", " ".repeat(32)));
    assert_eq!(serialize_month_list(&list), expected);
    assert_eq!(serialize_month_list(&None), "None,");
}

#[test]
fn quotes_and_backslashes_in_names_are_escaped() {
    let list = Some(days(["a\"b", "c\\d", "\"", "\\", "\\\"", "'", ""]));
    let text = serialize_day_list(&list);
    assert!(text.contains("sun: String::from(\"a\\\"b\"),\n"));
    assert!(text.contains("mon: String::from(\"c\\\\d\"),\n"));
    assert!(text.contains("tue: String::from(\"\\\"\"),\n"));
    assert!(text.contains("wed: String::from(\"\\\\\"),\n"));
    assert!(text.contains("thu: String::from(\"\\\\\\\"\"),\n"));
    assert!(text.contains("fri: String::from(\"'\"),\n"));
    assert!(text.contains("sat: String::from(\"\"),\n"));
}

#[test]
fn the_source_of_the_lists_of_a_context() {
    let lists = DayTypes {
        abbreviated: None,
        narrow: Some(days(["n", "p", "w", "ś", "c", "p", "s"])),
        short: None,
        wide: None,
    };
    let narrow = serialize_day_list(&lists.narrow);
    let expected = format!(
        "DayTypes {{\n{m}abbreviated: None,\n{m}narrow: {}\n{m}short: None,\n{m}wide: None,\n{}}}",
        narrow,
        " ".repeat(27),
        m = " ".repeat(32)
    );
    assert_eq!(serialize_day_names(&lists), expected);

    let data = get("pl").unwrap();
    let format = &data.main.pl.dates.calendars.gregorian.months.format;
    let text = serialize_month_names(format);
    assert!(text.starts_with("MonthTypes {\n"));
    assert!(text.contains(&format!(
        "{}abbreviated: Some(MonthList {{\n{}m1: String::from(\"sty\"),\n",
        " ".repeat(32),
        " ".repeat(36)
    )));
    assert!(text.contains(&format!("{}short: None,\n", " ".repeat(32))));
    assert!(text.contains("m10: String::from(\"października\"),\n"));
    assert!(text.ends_with(&format!("}}),\n{}}}", " ".repeat(27))));
}

#[test]
fn the_source_of_a_pattern() {
    let pattern = DateTimePattern::Raw("d 'r.' MMM".to_string());
    let expected = "DateTimePattern::Parsed(vec![
                                PatternElement::Token(DateTimeToken::DayNumeric),
                                PatternElement::Literal(String::from(\" \")),
                                PatternElement::Literal(String::from(\"r.\")),
                                PatternElement::Literal(String::from(\" \")),
                                PatternElement::Token(DateTimeToken::MonthNameAbbreviated),
                            ])";
    assert_eq!(serialize_dt_format(&pattern).unwrap(), expected);
    let compiled = DateTimePattern::Parsed(parse_pattern("d 'r.' MMM").unwrap());
    assert_eq!(serialize_dt_format(&compiled).unwrap(), expected);
    assert_eq!(
        serialize_dt_format(&DateTimePattern::Parsed(vec![])).unwrap(),
        format!("DateTimePattern::Parsed(vec![\n{}])", " ".repeat(28))
    );
    assert_eq!(
        serialize_dt_format(&DateTimePattern::Raw("ddd".to_string())),
        Err(ParserError::UnsupportedField)
    );
}

#[test]
fn the_source_of_the_patterns_of_a_kind() {
    let formats = Formats {
        full: DateTimePattern::Raw("y".to_string()),
        long: DateTimePattern::Raw("yy".to_string()),
        medium: DateTimePattern::Raw("MM".to_string()),
        short: DateTimePattern::Raw("dd".to_string()),
    };
    let one = |name: &str| {
        format!(
            "DateTimePattern::Parsed(vec![\n{}PatternElement::Token(DateTimeToken::{}),\n{}])",
            " ".repeat(32),
            name,
            " ".repeat(28)
        )
    };
    let expected = format!(
        "Formats {{\n{m}full: {},\n{m}long: {},\n{m}medium: {},\n{m}short: {},\n{}}},",
        one("YearNumeric"),
        one("Year2digit"),
        one("Month2digit"),
        one("Day2digit"),
        " ".repeat(24),
        m = " ".repeat(28)
    );
    assert_eq!(serialize_dt_formats(&formats).unwrap(), expected);

    let formats = Formats {
        full: DateTimePattern::Raw("y".to_string()),
        long: DateTimePattern::Raw("{9}".to_string()),
        medium: DateTimePattern::Raw("'".to_string()),
        short: DateTimePattern::Raw("dd".to_string()),
    };
    assert_eq!(
        serialize_dt_formats(&formats),
        Err(ParserError::UnsupportedPlaceholder)
    );
}

#[test]
fn the_source_of_the_data_of_a_locale() {
    let data = get("pl").unwrap();
    let calendar = &data.main.pl.dates.calendars.gregorian;
    let text = serialize_calendar_data(&data).unwrap();
    let head = "use unic_datetime::data::layout::*;

pub fn resource() -> Resource {
    Resource {
        main: MainResource {
            pl: LocaleResource {
                dates: CalendarDates {
                    calendars: Calendar {
                        gregorian: GregorianCalendar {
                        months: Months {
                           format: MonthTypes {
";
    assert!(text.starts_with(head));
    let tail = "                        },
                        },
                    },
                },
            },
        },
    }
}
";
    assert!(text.ends_with(tail));
    let expected = format!(
        "{}{b}months: Months {{\n{c}format: {},\n{c}stand_alone: {},\n{b}}},\n\
         {b}days: Days {{\n{c}format: {},\n{c}stand_alone: {},\n{b}}},\n\
         {b}date_formats: {}\n{b}time_formats: {}\n{b}date_time_formats: {}\n{}",
        &head[..head.find("                        months").unwrap()],
        serialize_month_names(&calendar.months.format),
        serialize_month_names(&calendar.months.stand_alone),
        serialize_day_names(&calendar.days.format),
        serialize_day_names(&calendar.days.stand_alone),
        serialize_dt_formats(&calendar.date_formats).unwrap(),
        serialize_dt_formats(&calendar.time_formats).unwrap(),
        serialize_dt_formats(&calendar.date_time_formats).unwrap(),
        &tail[tail.find('\n').unwrap() + 1..],
        b = " ".repeat(24),
        c = " ".repeat(27)
    );
    assert_eq!(text, expected);
    assert_eq!(text.matches("String::from(").count(), 6 * 12 + 8 * 7 + 9 + 9 + 4);
    assert_eq!(text.matches("PatternElement::Token(").count(), 13 + 13 + 8);

    let mut broken = get("pl").unwrap();
    broken.main.pl.dates.calendars.gregorian.time_formats.long =
        DateTimePattern::Raw("HH 'h".to_string());
    assert_eq!(
        serialize_calendar_data(&broken),
        Err(ParserError::UnterminatedLiteral)
    );
}
