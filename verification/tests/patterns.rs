use unic_datetime::data::layout::{DateTimeToken, PatternElement};
use unic_datetime::data::patterns::{parse_pattern, select_field, ParserError};

fn literal(text: &str) -> PatternElement {
    PatternElement::Literal(text.to_string())
}

fn token(t: DateTimeToken) -> PatternElement {
    PatternElement::Token(t)
}

#[test]
fn test_literal_patterns() {
    assert_eq!(parse_pattern("").unwrap(), vec![]);

    assert_eq!(
        parse_pattern("''").unwrap(),
        vec![PatternElement::Literal("'".to_string())]
    );

    assert_eq!(
        parse_pattern("'John'").unwrap(),
        vec![PatternElement::Literal("John".to_string())]
    );

    assert_eq!(
        parse_pattern("'John '' Smith'").unwrap(),
        vec![PatternElement::Literal("John ' Smith".to_string())]
    );

    assert_eq!(
        parse_pattern("'John' 'Smith'").unwrap(),
        vec![
            PatternElement::Literal("John".to_string()),
            PatternElement::Literal(" ".to_string()),
            PatternElement::Literal("Smith".to_string()),
        ]
    );
}

#[test]
fn test_tokens() {
    assert_eq!(
        parse_pattern("MMMM").unwrap(),
        vec![PatternElement::Token(DateTimeToken::MonthNameLong)]
    );

    assert_eq!(
        parse_pattern("MMMM.MMMM").unwrap(),
        vec![
            PatternElement::Token(DateTimeToken::MonthNameLong),
            PatternElement::Literal(".".to_string()),
            PatternElement::Token(DateTimeToken::MonthNameLong),
        ]
    );

    assert_eq!(
        parse_pattern("'Hello 'MMMM' Token'").unwrap(),
        vec![
            PatternElement::Literal("Hello ".to_string()),
            PatternElement::Token(DateTimeToken::MonthNameLong),
            PatternElement::Literal(" Token".to_string()),
        ]
    );

    assert_eq!(
        parse_pattern("EEEE, d MMMM y").unwrap(),
        vec![
            PatternElement::Token(DateTimeToken::WeekDayWide),
            PatternElement::Literal(", ".to_string()),
            PatternElement::Token(DateTimeToken::DayNumeric),
            PatternElement::Literal(" ".to_string()),
            PatternElement::Token(DateTimeToken::MonthNameLong),
            PatternElement::Literal(" ".to_string()),
            PatternElement::Token(DateTimeToken::YearNumeric),
        ]
    );
}

#[test]
fn test_replace() {
    assert_eq!(
        parse_pattern("{0} {1}").unwrap(),
        vec![
            PatternElement::Token(DateTimeToken::Sub0),
            PatternElement::Literal(" ".to_string()),
            PatternElement::Token(DateTimeToken::Sub1),
        ]
    );
}

#[test]
fn empty_pattern_has_no_elements() {
    assert_eq!(parse_pattern("").unwrap().len(), 0);
}

#[test]
fn trailing_literal_is_kept() {
    assert_eq!(
        parse_pattern("dd.MM.y r.").unwrap(),
        vec![
            token(DateTimeToken::Day2digit),
            literal("."),
            token(DateTimeToken::Month2digit),
            literal("."),
            token(DateTimeToken::YearNumeric),
            literal(" r."),
        ]
    );
    assert_eq!(parse_pattern("abc").unwrap(), vec![literal("abc")]);
}

#[test]
fn every_field_width() {
    let cases: Vec<(&str, DateTimeToken)> = vec![
        ("EEEE", DateTimeToken::WeekDayWide),
        ("d", DateTimeToken::DayNumeric),
        ("dd", DateTimeToken::Day2digit),
        ("MMMM", DateTimeToken::MonthNameLong),
        ("MMM", DateTimeToken::MonthNameAbbreviated),
        ("MM", DateTimeToken::Month2digit),
        ("y", DateTimeToken::YearNumeric),
        ("yy", DateTimeToken::Year2digit),
        ("HH", DateTimeToken::Hour2digit),
        ("mm", DateTimeToken::Minute2digit),
        ("ss", DateTimeToken::Second2digit),
        ("zzzz", DateTimeToken::ZoneLong),
        ("z", DateTimeToken::ZoneShort),
        ("zz", DateTimeToken::ZoneShort),
        ("zzz", DateTimeToken::ZoneShort),
    ];
    for (pattern, expected) in cases {
        assert_eq!(parse_pattern(pattern).unwrap(), vec![token(expected)]);
    }
}

#[test]
fn adjacent_fields_of_different_letters() {
    assert_eq!(
        parse_pattern("HHmmss").unwrap(),
        vec![
            token(DateTimeToken::Hour2digit),
            token(DateTimeToken::Minute2digit),
            token(DateTimeToken::Second2digit),
        ]
    );
    assert_eq!(
        parse_pattern("HH:mm:ss zzzz").unwrap(),
        vec![
            token(DateTimeToken::Hour2digit),
            literal(":"),
            token(DateTimeToken::Minute2digit),
            literal(":"),
            token(DateTimeToken::Second2digit),
            literal(" "),
            token(DateTimeToken::ZoneLong),
        ]
    );
}

#[test]
fn unsupported_widths_are_errors() {
    for pattern in [
        "M", "MMMMM", "yyy", "yyyy", "ddd", "E", "EE", "EEE", "EEEEE", "H", "HHH", "m", "mmm",
        "s", "sss", "zzzzz",
    ] {
        assert_eq!(parse_pattern(pattern), Err(ParserError::UnsupportedField));
    }
    assert_eq!(
        parse_pattern("d MMMMM y"),
        Err(ParserError::UnsupportedField)
    );
    assert_eq!(
        parse_pattern("'on' EEE"),
        Err(ParserError::UnsupportedField)
    );
}

#[test]
fn field_letters_inside_quotes_are_text() {
    assert_eq!(
        parse_pattern("'MMMMM yyy'").unwrap(),
        vec![literal("MMMMM yyy")]
    );
    assert_eq!(parse_pattern("'{2}'").unwrap(), vec![literal("{2}")]);
}

#[test]
fn unterminated_literal_is_an_error() {
    assert_eq!(parse_pattern("'"), Err(ParserError::UnterminatedLiteral));
    assert_eq!(
        parse_pattern("d 'open"),
        Err(ParserError::UnterminatedLiteral)
    );
    assert_eq!(
        parse_pattern("'John '' Smith"),
        Err(ParserError::UnterminatedLiteral)
    );
    assert_eq!(parse_pattern("'''"), Err(ParserError::UnterminatedLiteral));
}

#[test]
fn doubled_quotes() {
    assert_eq!(
        parse_pattern("''''").unwrap(),
        vec![literal("'"), literal("'")]
    );
    assert_eq!(parse_pattern("'a''b'").unwrap(), vec![literal("a'b")]);
    assert_eq!(
        parse_pattern("d''MM").unwrap(),
        vec![
            token(DateTimeToken::DayNumeric),
            literal("'"),
            token(DateTimeToken::Month2digit),
        ]
    );
    assert_eq!(parse_pattern("'a'''").unwrap(), vec![literal("a'")]);
}

#[test]
fn unsupported_placeholders_are_errors() {
    for pattern in ["{2}", "{9}", "{", "{}", "{a}", "{ 0}", "{{0}", "x{", "d {3} y"] {
        assert_eq!(
            parse_pattern(pattern),
            Err(ParserError::UnsupportedPlaceholder)
        );
    }
}

#[test]
fn the_character_behind_the_index_closes_a_placeholder() {
    assert_eq!(parse_pattern("{0").unwrap(), vec![token(DateTimeToken::Sub0)]);
    assert_eq!(parse_pattern("{1").unwrap(), vec![token(DateTimeToken::Sub1)]);
    assert_eq!(parse_pattern("{0x").unwrap(), vec![token(DateTimeToken::Sub0)]);
    assert_eq!(
        parse_pattern("{0 }").unwrap(),
        vec![token(DateTimeToken::Sub0), literal("}")]
    );
    assert_eq!(
        parse_pattern("{1d}d").unwrap(),
        vec![
            token(DateTimeToken::Sub1),
            literal("}"),
            token(DateTimeToken::DayNumeric),
        ]
    );
    assert_eq!(
        parse_pattern("{0}{1}").unwrap(),
        vec![token(DateTimeToken::Sub0), token(DateTimeToken::Sub1)]
    );
}

#[test]
fn placeholders_in_a_joining_pattern() {
    assert_eq!(
        parse_pattern("{1}, {0}").unwrap(),
        vec![
            token(DateTimeToken::Sub1),
            literal(", "),
            token(DateTimeToken::Sub0),
        ]
    );
    assert_eq!(
        parse_pattern("{1} 'o' {0}").unwrap(),
        vec![
            token(DateTimeToken::Sub1),
            literal(" "),
            literal("o"),
            literal(" "),
            token(DateTimeToken::Sub0),
        ]
    );
}

#[test]
fn the_first_error_from_the_left_is_reported() {
    assert_eq!(parse_pattern("MMMMM '"), Err(ParserError::UnsupportedField));
    assert_eq!(
        parse_pattern("' MMMMM"),
        Err(ParserError::UnterminatedLiteral)
    );
    assert_eq!(
        parse_pattern("{7} MMMMM"),
        Err(ParserError::UnsupportedPlaceholder)
    );
}

#[test]
fn text_beyond_ascii_is_literal() {
    assert_eq!(
        parse_pattern("d MMMM y 'г'.").unwrap(),
        vec![
            token(DateTimeToken::DayNumeric),
            literal(" "),
            token(DateTimeToken::MonthNameLong),
            literal(" "),
            token(DateTimeToken::YearNumeric),
            literal(" "),
            literal("г"),
            literal("."),
        ]
    );
    assert_eq!(
        parse_pattern("y年M月").err(),
        Some(ParserError::UnsupportedField)
    );
    assert_eq!(
        parse_pattern("y年MM月dd日").unwrap(),
        vec![
            token(DateTimeToken::YearNumeric),
            literal("年"),
            token(DateTimeToken::Month2digit),
            literal("月"),
            token(DateTimeToken::Day2digit),
            literal("日"),
        ]
    );
}

#[test]
fn compiling_twice_gives_equal_elements() {
    for pattern in ["EEEE, d MMMM y", "'John '' Smith'", "{1}, {0}", "", "HH:mm:ss z"] {
        assert_eq!(parse_pattern(pattern), parse_pattern(pattern));
    }
    assert_eq!(parse_pattern("MMMMM"), parse_pattern("MMMMM"));
}

/// A plain scanner written for the comparison below.
fn scan(pattern: &str) -> Result<Vec<PatternElement>, ParserError> {
    let chars: Vec<char> = pattern.chars().collect();
    let mut out = vec![];
    let mut i = 0;
    while i < chars.len() {
        let c = chars[i];
        if c == '\'' {
            if chars.get(i + 1) == Some(&'\'') {
                out.push(literal("'"));
                i += 2;
                continue;
            }
            let mut text = String::new();
            let mut k = i + 1;
            loop {
                match chars.get(k) {
                    None => return Err(ParserError::UnterminatedLiteral),
                    Some('\'') if chars.get(k + 1) == Some(&'\'') => {
                        text.push('\'');
                        k += 2;
                    }
                    Some('\'') => break,
                    Some(other) => {
                        text.push(*other);
                        k += 1;
                    }
                }
            }
            out.push(PatternElement::Literal(text));
            i = k + 1;
        } else if c == '{' {
            match chars.get(i + 1) {
                Some('0') => out.push(token(DateTimeToken::Sub0)),
                Some('1') => out.push(token(DateTimeToken::Sub1)),
                _ => return Err(ParserError::UnsupportedPlaceholder),
            }
            i += 3;
        } else if "MydEHmsz".contains(c) {
            let width = chars[i..].iter().take_while(|x| **x == c).count();
            let field = match (c, width) {
                ('M', 4) => DateTimeToken::MonthNameLong,
                ('M', 3) => DateTimeToken::MonthNameAbbreviated,
                ('M', 2) => DateTimeToken::Month2digit,
                ('y', 1) => DateTimeToken::YearNumeric,
                ('y', 2) => DateTimeToken::Year2digit,
                ('d', 1) => DateTimeToken::DayNumeric,
                ('d', 2) => DateTimeToken::Day2digit,
                ('E', 4) => DateTimeToken::WeekDayWide,
                ('H', 2) => DateTimeToken::Hour2digit,
                ('m', 2) => DateTimeToken::Minute2digit,
                ('s', 2) => DateTimeToken::Second2digit,
                ('z', 1) | ('z', 2) | ('z', 3) => DateTimeToken::ZoneShort,
                ('z', 4) => DateTimeToken::ZoneLong,
                _ => return Err(ParserError::UnsupportedField),
            };
            out.push(token(field));
            i += width;
        } else {
            let width = chars[i..]
                .iter()
                .take_while(|x| !"MydEHmsz'{".contains(**x))
                .count();
            out.push(PatternElement::Literal(chars[i..i + width].iter().collect()));
            i += width;
        }
    }
    Ok(out)
}

#[test]
fn many_patterns_agree_with_a_plain_scanner() {
    let alphabet: Vec<char> = "MMyyddEEEEHmsz'''{{01}} .,:-aż年".chars().collect();
    let mut state: u64 = 0x2545_f491_4f6c_dd1d;
    let mut compiled = 0;
    for round in 0..20000 {
        let mut pattern = String::new();
        let length = round % 12;
        for _ in 0..length {
            state ^= state << 13;
            state ^= state >> 7;
            state ^= state << 17;
            pattern.push(alphabet[(state % alphabet.len() as u64) as usize]);
        }
        let outcome = parse_pattern(&pattern);
        assert_eq!(outcome, scan(&pattern), "pattern {:?}", pattern);
        if outcome.is_ok() {
            compiled += 1;
        }
    }
    assert!(compiled > 1000);
}

#[test]
fn the_field_of_a_letter_and_a_width() {
    assert_eq!(select_field('M', 4), Some(DateTimeToken::MonthNameLong));
    assert_eq!(select_field('M', 3), Some(DateTimeToken::MonthNameAbbreviated));
    assert_eq!(select_field('M', 2), Some(DateTimeToken::Month2digit));
    assert_eq!(select_field('M', 1), None);
    assert_eq!(select_field('M', 5), None);
    assert_eq!(select_field('M', 0), None);
    assert_eq!(select_field('z', 3), Some(DateTimeToken::ZoneShort));
    assert_eq!(select_field('z', 4), Some(DateTimeToken::ZoneLong));
    assert_eq!(select_field('z', usize::MAX), None);
    for letter in ['a', 'G', 'h', 'D', 'e', 'Y', 'S', ' ', '1', '{', '\''] {
        for width in 0..6 {
            assert_eq!(select_field(letter, width), None);
        }
    }
}
