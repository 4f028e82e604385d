//! The data of a locale written out as Rust source.
//!
//! The source is a function `resource` that builds the data again from
//! string literals, so that a program can carry the data of its locales in
//! its own code instead of reading them when it starts.

use vstd::prelude::*;
use super::layout::{
    CalendarView,
    DateTimePattern,
    DayList,
    DayTypes,
    Formats,
    FormatsView,
    MonthList,
    MonthTypes,
    NameLists,
    PatternElement,
    PatternElementView,
    PatternView,
    Resource,
};
use super::layout::{day_names, month_names};
use super::patterns::{chars_of, ParserError};

verus! {

/// `count` spaces.
pub open spec fn indent(count: nat) -> Seq<char> {
    Seq::new(count, |i: int| ' ')
}

/// The characters of a text as they stand inside a string literal: a
/// backslash in front of each double quote and of each backslash.
pub open spec fn escaped(text: Seq<char>) -> Seq<char>
    decreases text.len(),
{
    if text.len() == 0 {
        Seq::empty()
    } else if text.last() == '"' || text.last() == '\\' {
        escaped(text.drop_last()).push('\\').push(text.last())
    } else {
        escaped(text.drop_last()).push(text.last())
    }
}

/// The text that escaped characters stand for: each backslash is dropped
/// and the character behind it kept.
pub open spec fn unescaped(source: Seq<char>) -> Seq<char>
    decreases source.len(),
{
    if source.len() == 0 {
        Seq::empty()
    } else if source.len() >= 2 && source[source.len() - 2] == '\\' && (source.last() == '"'
        || source.last() == '\\') {
        unescaped(source.take(source.len() - 2)).push(source.last())
    } else {
        unescaped(source.drop_last()).push(source.last())
    }
}

/// A string literal for a text, wrapped in what makes a `String` of it.
pub open spec fn string_source(text: Seq<char>) -> Seq<char> {
    "String::from(\""@ + escaped(text) + "\")"@
}

/// Escaped text stands for the text it was made from, and holds no double
/// quote but behind a backslash.
pub proof fn lemma_escaped_reads_back(text: Seq<char>)
    ensures
        unescaped(escaped(text)) == text,
        forall|i: int|
            0 <= i < escaped(text).len() && #[trigger] escaped(text)[i] == '"' ==> i > 0
                && escaped(text)[i - 1] == '\\',
    decreases text.len(),
{
    if text.len() > 0 {
        let front = text.drop_last();
        let last = text.last();
        lemma_escaped_reads_back(front);
        let source = escaped(text);
        if last == '"' || last == '\\' {
            assert(source.take(source.len() - 2) =~= escaped(front));
            assert(source[source.len() - 2] == '\\');
        } else {
            assert(source.drop_last() =~= escaped(front));
        }
        assert(front.push(last) =~= text);
    }
}

/// Appends `count` spaces.
fn put_indent(result: &mut String, count: usize)
    ensures
        final(result)@ == old(result)@ + indent(count as nat),
{
    let mut i: usize = 0;
    assert(old(result)@ + indent(0) =~= old(result)@);
    while i < count
        invariant
            i <= count,
            result@ == old(result)@ + indent(i as nat),
        decreases count - i,
    {
        result.push(' ');
        i += 1;
        assert(old(result)@ + indent(i as nat) =~= (old(result)@ + indent((i - 1) as nat)).push(
            ' ',
        ));
    }
}

/// Appends the string literal for a text.
fn put_string(result: &mut String, text: &str)
    ensures
        final(result)@ == old(result)@ + string_source(text@),
{
    result.append("String::from(\"");
    let chars = chars_of(text);
    let ghost start = result@;
    let mut i: usize = 0;
    assert(chars@.take(0) =~= Seq::<char>::empty());
    assert(start + escaped(Seq::<char>::empty()) =~= start);
    while i < chars.len()
        invariant
            i <= chars.len(),
            chars@ == text@,
            result@ == start + escaped(chars@.take(i as int)),
        decreases chars.len() - i,
    {
        let c = chars[i];
        let ghost done = chars@.take(i as int);
        let ghost next = chars@.take(i + 1);
        assert(next.drop_last() =~= done);
        assert(next.last() == c);
        if c == '"' || c == '\\' {
            result.push('\\');
            assert(start + escaped(next) =~= (start + escaped(done)).push('\\').push(c));
        } else {
            assert(start + escaped(next) =~= (start + escaped(done)).push(c));
        }
        result.push(c);
        i += 1;
    }
    assert(chars@.take(chars.len() as int) =~= chars@);
    assert(old(result)@ + "String::from(\""@ + escaped(text@) =~= start + escaped(text@));
    result.append("\")");
}

/// The names of the fields of a [`DayList`], in the order of the week.
pub open spec fn day_fields() -> Seq<Seq<char>> {
    seq!["sun"@, "mon"@, "tue"@, "wed"@, "thu"@, "fri"@, "sat"@]
}

/// The names of the fields of a [`MonthList`], in the order of the year.
pub open spec fn month_fields() -> Seq<Seq<char>> {
    seq!["m1"@, "m2"@, "m3"@, "m4"@, "m5"@, "m6"@, "m7"@, "m8"@, "m9"@, "m10"@, "m11"@, "m12"@]
}

/// The line that gives one field of a list its name.
pub open spec fn entry_source(field: Seq<char>, name: Seq<char>) -> Seq<char> {
    indent(36) + field + ": "@ + string_source(name) + ",\n"@
}

/// The lines of the first `count` fields of a list.
pub open spec fn entries_source(fields: Seq<Seq<char>>, names: Seq<Seq<char>>, count: nat) -> Seq<
    char,
>
    decreases count,
{
    if count == 0 {
        Seq::empty()
    } else {
        entries_source(fields, names, (count - 1) as nat) + entry_source(
            fields[count - 1],
            names[count - 1],
        )
    }
}

/// The source of a list of names that may be missing: `None,` or the
/// struct of the given type with a line for each field.
pub open spec fn list_source(
    struct_name: Seq<char>,
    fields: Seq<Seq<char>>,
    list: Option<Seq<Seq<char>>>,
) -> Seq<char> {
    match list {
        Some(names) => "Some("@ + struct_name + " {\n"@ + entries_source(
            fields,
            names,
            fields.len(),
        ) + indent(32) + "}),"@,
        None => "None,"@,
    }
}

/// The source of a list of day names.
pub open spec fn day_list_source(list: Option<Seq<Seq<char>>>) -> Seq<char> {
    list_source("DayList"@, day_fields(), list)
}

/// The source of a list of month names.
pub open spec fn month_list_source(list: Option<Seq<Seq<char>>>) -> Seq<char> {
    list_source("MonthList"@, month_fields(), list)
}

/// The source of the lists of one context: the struct of the given type
/// with a line for each length.
pub open spec fn lists_source(
    struct_name: Seq<char>,
    list_type: Seq<char>,
    fields: Seq<Seq<char>>,
    lists: NameLists,
) -> Seq<char> {
    struct_name + " {\n"@ + indent(32) + "abbreviated: "@ + list_source(
        list_type,
        fields,
        lists.abbreviated,
    ) + "\n"@ + indent(32) + "narrow: "@ + list_source(list_type, fields, lists.narrow) + "\n"@
        + indent(32) + "short: "@ + list_source(list_type, fields, lists.short) + "\n"@ + indent(32)
        + "wide: "@ + list_source(list_type, fields, lists.wide) + "\n"@ + indent(27) + "}"@
}

/// The source of the lists of day names of one context.
pub open spec fn day_names_source(lists: NameLists) -> Seq<char> {
    lists_source("DayTypes"@, "DayList"@, day_fields(), lists)
}

/// The source of the lists of month names of one context.
pub open spec fn month_names_source(lists: NameLists) -> Seq<char> {
    lists_source("MonthTypes"@, "MonthList"@, month_fields(), lists)
}

/// The line of one element of a pattern.
pub open spec fn element_source(element: PatternElementView) -> Seq<char> {
    match element {
        PatternElementView::Literal(text) => indent(32) + "PatternElement::Literal("@
            + string_source(text) + "),\n"@,
        PatternElementView::Token(token) => indent(32) + "PatternElement::Token(DateTimeToken::"@
            + token.spec_name() + "),\n"@,
    }
}

/// The lines of the elements of a pattern.
pub open spec fn elements_source(pattern: PatternView) -> Seq<char>
    decreases pattern.len(),
{
    if pattern.len() == 0 {
        Seq::empty()
    } else {
        elements_source(pattern.drop_last()) + element_source(pattern.last())
    }
}

/// The source of a compiled pattern.
pub open spec fn pattern_source(pattern: PatternView) -> Seq<char> {
    "DateTimePattern::Parsed(vec![\n"@ + elements_source(pattern) + indent(28) + "])"@
}

/// The source of the four patterns of one kind, each compiled; the first
/// error in the order full, long, medium, short where one does not compile.
pub open spec fn formats_source(formats: FormatsView) -> Result<Seq<char>, ParserError> {
    match formats.first_error() {
        Some(e) => Err(e),
        None => Ok(
            "Formats {\n"@ + indent(28) + "full: "@ + pattern_source(formats.full.parsed().unwrap())
                + ",\n"@ + indent(28) + "long: "@ + pattern_source(formats.long.parsed().unwrap())
                + ",\n"@ + indent(28) + "medium: "@ + pattern_source(
                formats.medium.parsed().unwrap(),
            ) + ",\n"@ + indent(28) + "short: "@ + pattern_source(formats.short.parsed().unwrap())
                + ",\n"@ + indent(24) + "},"@,
        ),
    }
}

/// The source of the names of the months or of the days: the field and
/// its struct, then the sources of the lists of the two contexts.
pub open spec fn names_source(name: Seq<char>, format: Seq<char>, stand_alone: Seq<char>) -> Seq<
    char,
> {
    indent(24) + name + " {\n"@ + indent(27) + "format: "@ + format + ",\n"@ + indent(27)
        + "stand_alone: "@ + stand_alone + ",\n"@ + indent(24) + "},\n"@
}

/// The source of the patterns of one kind: the field, then the source of
/// the patterns.
pub open spec fn formats_field_source(name: Seq<char>, formats: Seq<char>) -> Seq<char> {
    indent(24) + name + formats + "\n"@
}

/// What stands in front of the calendar in the source of the data.
pub open spec fn source_head() -> Seq<char> {
    "use unic_datetime::data::layout::*;\n\npub fn resource() -> Resource {\n"@ + indent(4)
        + "Resource {\n"@ + indent(8) + "main: MainResource {\n"@ + indent(12)
        + "pl: LocaleResource {\n"@ + indent(16) + "dates: CalendarDates {\n"@ + indent(20)
        + "calendars: Calendar {\n"@ + indent(24) + "gregorian: GregorianCalendar {\n"@
}

/// What stands behind the calendar in the source of the data.
pub open spec fn source_tail() -> Seq<char> {
    indent(24) + "},\n"@ + indent(20) + "},\n"@ + indent(16) + "},\n"@ + indent(12) + "},\n"@
        + indent(8) + "},\n"@ + indent(4) + "}\n}\n"@
}

/// The source of the data of a locale: a function `resource` that builds
/// the data with every pattern compiled; the first error where a pattern of
/// dates, of times or a joining pattern, in this order, does not compile.
pub open spec fn calendar_source(calendar: CalendarView) -> Result<Seq<char>, ParserError> {
    match calendar.first_error() {
        Some(e) => Err(e),
        None => Ok(
            source_head() + names_source(
                "months: Months"@,
                month_names_source(calendar.months.format),
                month_names_source(calendar.months.stand_alone),
            ) + names_source(
                "days: Days"@,
                day_names_source(calendar.days.format),
                day_names_source(calendar.days.stand_alone),
            ) + formats_field_source(
                "date_formats: "@,
                formats_source(calendar.date_formats).unwrap(),
            ) + formats_field_source(
                "time_formats: "@,
                formats_source(calendar.time_formats).unwrap(),
            ) + formats_field_source(
                "date_time_formats: "@,
                formats_source(calendar.date_time_formats).unwrap(),
            ) + source_tail(),
        ),
    }
}

/// Appends the line of one field of a list.
fn put_entry(result: &mut String, field: &str, name: &str)
    ensures
        final(result)@ == old(result)@ + entry_source(field@, name@),
{
    put_indent(result, 36);
    result.append(field);
    result.append(": ");
    put_string(result, name);
    result.append(",\n");
    assert(final(result)@ =~= old(result)@ + entry_source(field@, name@));
}

/// The source of a list of day names that may be missing.
pub fn serialize_day_list(list: &Option<DayList>) -> (source: String)
    ensures
        source@ == day_list_source(day_names(*list)),
{
    match list {
        Some(names) => {
            let fields = ["sun", "mon", "tue", "wed", "thu", "fri", "sat"];
            let mut result = "Some(DayList {\n".to_owned();
            let ghost start = result@;
            let ghost keys = day_fields();
            assert(keys =~= Seq::new(7, |k: int| fields@[k]@));
            let mut i: usize = 0;
            assert(start + entries_source(keys, names@, 0) =~= start);
            while i < 7
                invariant
                    i <= 7,
                    keys == day_fields(),
                    keys == Seq::new(7, |k: int| fields@[k]@),
                    result@ == start + entries_source(keys, names@, i as nat),
                decreases 7 - i,
            {
                put_entry(&mut result, fields[i], names.get(i).as_str());
                i += 1;
                assert(result@ =~= start + entries_source(keys, names@, i as nat)) by {
                    assert(keys[i - 1] == fields@[i - 1]@);
                }
            }
            put_indent(&mut result, 32);
            result.append("}),");
            proof {
                reveal_strlit("Some(DayList {\n");
                reveal_strlit("Some(");
                reveal_strlit("DayList");
                reveal_strlit(" {\n");
                assert("Some(DayList {\n"@ =~= "Some("@ + "DayList"@ + " {\n"@);
            }
            result
        },
        None => "None,".to_owned(),
    }
}

/// The source of a list of month names that may be missing.
pub fn serialize_month_list(list: &Option<MonthList>) -> (source: String)
    ensures
        source@ == month_list_source(month_names(*list)),
{
    match list {
        Some(names) => {
            let fields = [
                "m1",
                "m2",
                "m3",
                "m4",
                "m5",
                "m6",
                "m7",
                "m8",
                "m9",
                "m10",
                "m11",
                "m12",
            ];
            let mut result = "Some(MonthList {\n".to_owned();
            let ghost start = result@;
            let ghost keys = month_fields();
            assert(keys =~= Seq::new(12, |k: int| fields@[k]@));
            let mut i: usize = 0;
            assert(start + entries_source(keys, names@, 0) =~= start);
            while i < 12
                invariant
                    i <= 12,
                    keys == month_fields(),
                    keys == Seq::new(12, |k: int| fields@[k]@),
                    result@ == start + entries_source(keys, names@, i as nat),
                decreases 12 - i,
            {
                put_entry(&mut result, fields[i], names.get(i).as_str());
                i += 1;
                assert(result@ =~= start + entries_source(keys, names@, i as nat)) by {
                    assert(keys[i - 1] == fields@[i - 1]@);
                }
            }
            put_indent(&mut result, 32);
            result.append("}),");
            proof {
                reveal_strlit("Some(MonthList {\n");
                reveal_strlit("Some(");
                reveal_strlit("MonthList");
                reveal_strlit(" {\n");
                assert("Some(MonthList {\n"@ =~= "Some("@ + "MonthList"@ + " {\n"@);
            }
            result
        },
        None => "None,".to_owned(),
    }
}

/// Appends the line of one list of a context: the length, then the source
/// of the list.
fn put_list(result: &mut String, length: &str, list: &String)
    ensures
        final(result)@ == old(result)@ + indent(32) + length@ + list@ + "\n"@,
{
    put_indent(result, 32);
    result.append(length);
    result.append(list.as_str());
    result.append("\n");
}

/// The source of the lists of day names of one context.
pub fn serialize_day_names(days: &DayTypes) -> (source: String)
    ensures
        source@ == day_names_source(days@),
{
    let mut result = "DayTypes {\n".to_owned();
    put_list(&mut result, "abbreviated: ", &serialize_day_list(&days.abbreviated));
    put_list(&mut result, "narrow: ", &serialize_day_list(&days.narrow));
    put_list(&mut result, "short: ", &serialize_day_list(&days.short));
    put_list(&mut result, "wide: ", &serialize_day_list(&days.wide));
    put_indent(&mut result, 27);
    result.append("}");
    proof {
        reveal_strlit("DayTypes {\n");
        reveal_strlit("DayTypes");
        reveal_strlit(" {\n");
        assert("DayTypes {\n"@ =~= "DayTypes"@ + " {\n"@);
    }
    result
}

/// The source of the lists of month names of one context.
pub fn serialize_month_names(months: &MonthTypes) -> (source: String)
    ensures
        source@ == month_names_source(months@),
{
    let mut result = "MonthTypes {\n".to_owned();
    put_list(&mut result, "abbreviated: ", &serialize_month_list(&months.abbreviated));
    put_list(&mut result, "narrow: ", &serialize_month_list(&months.narrow));
    put_list(&mut result, "short: ", &serialize_month_list(&months.short));
    put_list(&mut result, "wide: ", &serialize_month_list(&months.wide));
    put_indent(&mut result, 27);
    result.append("}");
    proof {
        reveal_strlit("MonthTypes {\n");
        reveal_strlit("MonthTypes");
        reveal_strlit(" {\n");
        assert("MonthTypes {\n"@ =~= "MonthTypes"@ + " {\n"@);
    }
    result
}

/// Appends the line of one element of a pattern.
fn put_element(result: &mut String, element: &PatternElement)
    ensures
        final(result)@ == old(result)@ + element_source(element@),
{
    put_indent(result, 32);
    match element {
        PatternElement::Literal(text) => {
            result.append("PatternElement::Literal(");
            put_string(result, text.as_str());
        },
        PatternElement::Token(token) => {
            result.append("PatternElement::Token(DateTimeToken::");
            result.append(token.get_name());
        },
    }
    result.append("),\n");
    assert(final(result)@ =~= old(result)@ + element_source(element@));
}

/// The source of a pattern, compiled where it is still text.
pub fn serialize_dt_format(pattern: &DateTimePattern) -> (source: Result<String, ParserError>)
    ensures
        match pattern@.parsed() {
            Ok(elements) => source matches Ok(text) && text@ == pattern_source(elements),
            Err(e) => source matches Err(error) && error == e,
        },
{
    let elements = match pattern.to_parsed() {
        Ok(elements) => elements,
        Err(e) => {
            return Err(e);
        },
    };
    let ghost views = elements.deep_view();
    let mut result = "DateTimePattern::Parsed(vec![\n".to_owned();
    let ghost start = result@;
    let mut i: usize = 0;
    assert(start + elements_source(views.take(0)) =~= start);
    while i < elements.len()
        invariant
            i <= elements.len(),
            views == elements.deep_view(),
            result@ == start + elements_source(views.take(i as int)),
        decreases elements.len() - i,
    {
        put_element(&mut result, &elements[i]);
        i += 1;
        proof {
            let upto = views.take(i as int);
            assert(upto.drop_last() =~= views.take(i - 1));
            assert(upto.last() == elements@[i - 1]@);
            assert(result@ =~= start + elements_source(upto));
        }
    }
    assert(views.take(elements.len() as int) =~= views);
    put_indent(&mut result, 28);
    result.append("])");
    Ok(result)
}

/// Appends the line of the pattern of one style.
fn put_format(result: &mut String, style: &str, pattern: &String)
    ensures
        final(result)@ == old(result)@ + indent(28) + style@ + pattern@ + ",\n"@,
{
    put_indent(result, 28);
    result.append(style);
    result.append(pattern.as_str());
    result.append(",\n");
}

/// The source of the four patterns of one kind.
pub fn serialize_dt_formats(formats: &Formats) -> (source: Result<String, ParserError>)
    ensures
        match formats_source(formats@) {
            Ok(text) => source matches Ok(held) && held@ == text,
            Err(e) => source matches Err(error) && error == e,
        },
{
    let full = match serialize_dt_format(&formats.full) {
        Ok(text) => text,
        Err(e) => {
            return Err(e);
        },
    };
    let long = match serialize_dt_format(&formats.long) {
        Ok(text) => text,
        Err(e) => {
            return Err(e);
        },
    };
    let medium = match serialize_dt_format(&formats.medium) {
        Ok(text) => text,
        Err(e) => {
            return Err(e);
        },
    };
    let short = match serialize_dt_format(&formats.short) {
        Ok(text) => text,
        Err(e) => {
            return Err(e);
        },
    };
    let mut result = "Formats {\n".to_owned();
    put_format(&mut result, "full: ", &full);
    put_format(&mut result, "long: ", &long);
    put_format(&mut result, "medium: ", &medium);
    put_format(&mut result, "short: ", &short);
    put_indent(&mut result, 24);
    result.append("},");
    Ok(result)
}

/// Appends `count` spaces and a text.
fn put_line(result: &mut String, count: usize, text: &str)
    ensures
        final(result)@ == old(result)@ + indent(count as nat) + text@,
{
    put_indent(result, count);
    result.append(text);
}

/// Appends the source of the names of the months or of the days.
fn put_names(result: &mut String, name: &str, format: &String, stand_alone: &String)
    ensures
        final(result)@ == old(result)@ + names_source(name@, format@, stand_alone@),
{
    put_line(result, 24, name);
    result.append(" {\n");
    put_line(result, 27, "format: ");
    result.append(format.as_str());
    result.append(",\n");
    put_line(result, 27, "stand_alone: ");
    result.append(stand_alone.as_str());
    result.append(",\n");
    put_line(result, 24, "},\n");
    assert(final(result)@ =~= old(result)@ + names_source(name@, format@, stand_alone@));
}

/// Appends the source of the patterns of one kind.
fn put_formats(result: &mut String, name: &str, formats: &String)
    ensures
        final(result)@ == old(result)@ + formats_field_source(name@, formats@),
{
    put_line(result, 24, name);
    result.append(formats.as_str());
    result.append("\n");
    assert(final(result)@ =~= old(result)@ + formats_field_source(name@, formats@));
}

/// What stands in front of the calendar in the source of the data.
fn head() -> (source: String)
    ensures
        source@ == source_head(),
{
    let mut result =
        "use unic_datetime::data::layout::*;\n\npub fn resource() -> Resource {\n".to_owned();
    put_line(&mut result, 4, "Resource {\n");
    put_line(&mut result, 8, "main: MainResource {\n");
    put_line(&mut result, 12, "pl: LocaleResource {\n");
    put_line(&mut result, 16, "dates: CalendarDates {\n");
    put_line(&mut result, 20, "calendars: Calendar {\n");
    put_line(&mut result, 24, "gregorian: GregorianCalendar {\n");
    result
}

/// Appends what stands behind the calendar in the source of the data.
fn put_tail(result: &mut String)
    ensures
        final(result)@ == old(result)@ + source_tail(),
{
    put_line(result, 24, "},\n");
    put_line(result, 20, "},\n");
    put_line(result, 16, "},\n");
    put_line(result, 12, "},\n");
    put_line(result, 8, "},\n");
    put_line(result, 4, "}\n}\n");
    assert(final(result)@ =~= old(result)@ + source_tail());
}

/// The source of the data of a locale: Rust source of a function `resource`
/// that builds the data, with every pattern compiled.
pub fn serialize_calendar_data(data: &Resource) -> (source: Result<String, ParserError>)
    ensures
        match calendar_source(data@) {
            Ok(text) => source matches Ok(held) && held@ == text,
            Err(e) => source matches Err(error) && error == e,
        },
{
    let calendar = &data.main.pl.dates.calendars.gregorian;
    let date_formats = match serialize_dt_formats(&calendar.date_formats) {
        Ok(text) => text,
        Err(e) => {
            return Err(e);
        },
    };
    let time_formats = match serialize_dt_formats(&calendar.time_formats) {
        Ok(text) => text,
        Err(e) => {
            return Err(e);
        },
    };
    let date_time_formats = match serialize_dt_formats(&calendar.date_time_formats) {
        Ok(text) => text,
        Err(e) => {
            return Err(e);
        },
    };
    let mut result = head();
    put_names(
        &mut result,
        "months: Months",
        &serialize_month_names(&calendar.months.format),
        &serialize_month_names(&calendar.months.stand_alone),
    );
    put_names(
        &mut result,
        "days: Days",
        &serialize_day_names(&calendar.days.format),
        &serialize_day_names(&calendar.days.stand_alone),
    );
    put_formats(&mut result, "date_formats: ", &date_formats);
    put_formats(&mut result, "time_formats: ", &time_formats);
    put_formats(&mut result, "date_time_formats: ", &date_time_formats);
    put_tail(&mut result);
    Ok(result)
}

} // verus!
