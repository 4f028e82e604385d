//! The data of a locale from the JSON of the CLDR.
//!
//! The file `ca-gregorian.json` of a locale holds its calendar under the keys
//! `main`, the locale, `dates`, `calendars`, `gregorian`. Below stand the
//! names, under `months` and `days`, then `format` or `stand-alone`, then the
//! length of the list, then the key of each name; and the patterns, under
//! `dateFormats`, `timeFormats` and `dateTimeFormats`, then the style.
//!
//! The JSON itself is read by `serde_json`. This module knows where in the
//! document each piece stands.

use vstd::prelude::*;
use super::layout::{
    Calendar,
    CalendarDates,
    CalendarView,
    DateTimePattern,
    DateTimePatternView,
    DayList,
    DayTypes,
    Days,
    Formats,
    FormatsView,
    GregorianCalendar,
    LocaleResource,
    MainResource,
    MonthList,
    MonthTypes,
    Months,
    NameLists,
    Names,
    Resource,
};

verus! {

/// Why the data of a locale cannot be taken from a text.
#[derive(Clone, Copy, Debug, PartialEq, Eq, Structural)]
pub enum LoadError {
    /// The text is not JSON.
    Syntax,
    /// A list of names holds some of its names and lacks others.
    IncompleteList,
    /// The pattern of a style is missing.
    MissingPattern,
}

/// A path of object keys in a JSON document.
pub type Path = Seq<Seq<char>>;

/// The strings of a JSON document, each under the path that leads to it.
pub type Strings = Map<Path, Seq<char>>;

/// `serde_json::Value`: a JSON value. Nothing of its inside is seen here but
/// through [`json_strings`].
#[verifier::external_type_specification]
#[verifier::external_body]
pub struct ExValue(serde_json::Value);

/// `serde_json::Error`: why a text was not read as JSON. Nothing of it is
/// looked at.
#[verifier::external_type_specification]
#[verifier::external_body]
pub struct ExError(serde_json::Error);

/// The strings that a JSON value holds, each under the path of object keys
/// that leads to it from the value. A value that is a string holds itself
/// under the empty path. What stands inside an array is not counted.
pub uninterp spec fn json_strings(value: serde_json::Value) -> Map<Seq<Seq<char>>, Seq<char>>;

/// The strings of the JSON value that a text is read as, or `None` where the
/// text is not read as JSON.
pub uninterp spec fn json_document(text: Seq<char>) -> Option<Map<Seq<Seq<char>>, Seq<char>>>;

/// The strings of `strings` that stand below `path`, each under what is left
/// of its path behind `path`.
pub open spec fn sub_tree(strings: Strings, path: Path) -> Strings {
    Map::new(|rest: Path| strings.dom().contains(path + rest), |rest: Path| strings[path + rest])
}

/// The string at `path`, if there is one.
pub open spec fn text_at(strings: Strings, path: Path) -> Option<Seq<char>> {
    if strings.dom().contains(path) {
        Some(strings[path])
    } else {
        None
    }
}

/// `serde_json::from_str` for a `Value`: reads a text as JSON. The outcome
/// depends on the text alone; [`json_document`] is the name of what its
/// value holds.
#[verifier::external_body]
fn read_json(text: &str) -> (outcome: Result<serde_json::Value, serde_json::Error>)
    ensures
        match outcome {
            Ok(value) => json_document(text@) == Some(json_strings(value)),
            Err(_) => json_document(text@) is None,
        },
{
    serde_json::from_str(text)
}

/// `Value::get` with a key: the member of an object under the key, `None`
/// where the value is no object or has no such member. The strings of the
/// member are those that the value holds below the key.
#[verifier::external_body]
fn member<'a>(value: &'a serde_json::Value, key: &str) -> (inner: Option<&'a serde_json::Value>)
    ensures
        match inner {
            Some(found) => json_strings(*found) == sub_tree(json_strings(*value), seq![key@]),
            None => sub_tree(json_strings(*value), seq![key@]) == Map::<Path, Seq<char>>::empty(),
        },
{
    value.get(key)
}

/// `Value::as_str`: the text of a value that is a string, `None` for any
/// other value. A string holds itself under the empty path and nothing else.
#[verifier::external_body]
fn string_of<'a>(value: &'a serde_json::Value) -> (text: Option<&'a str>)
    ensures
        match text {
            Some(held) => json_strings(*value) == Map::<Path, Seq<char>>::empty().insert(
                Seq::empty(),
                held@,
            ),
            None => !json_strings(*value).dom().contains(Seq::empty()),
        },
{
    value.as_str()
}

/// Going down a path and then another is going down the two in a row.
pub proof fn lemma_sub_tree_twice(strings: Strings, first: Path, second: Path)
    ensures
        sub_tree(sub_tree(strings, first), second) == sub_tree(strings, first + second),
{
    assert forall|rest: Path| first + (second + rest) == (first + second) + rest by {
        assert(first + (second + rest) =~= (first + second) + rest);
    }
    assert(sub_tree(sub_tree(strings, first), second) =~= sub_tree(strings, first + second));
}

/// The string at a path below a path is the string at the two in a row.
pub proof fn lemma_text_at_sub_tree(strings: Strings, path: Path, rest: Path)
    ensures
        text_at(sub_tree(strings, path), rest) == text_at(strings, path + rest),
{
}

/// The strings below a value that may be missing: none where it is.
pub open spec fn strings_below(node: Option<&serde_json::Value>) -> Strings {
    match node {
        Some(value) => json_strings(*value),
        None => Map::empty(),
    }
}

/// The member under `key` of a value that may be missing.
fn child<'a>(node: Option<&'a serde_json::Value>, key: &str) -> (inner: Option<
    &'a serde_json::Value,
>)
    ensures
        strings_below(inner) == sub_tree(strings_below(node), seq![key@]),
{
    match node {
        Some(value) => member(value, key),
        None => {
            assert(sub_tree(Map::<Path, Seq<char>>::empty(), seq![key@]) =~= Map::<
                Path,
                Seq<char>,
            >::empty());
            None
        },
    }
}

/// The string under `key` of a value that may be missing.
fn string_at(node: Option<&serde_json::Value>, key: &str) -> (text: Option<String>)
    ensures
        match text {
            Some(held) => text_at(strings_below(node), seq![key@]) == Some(held@),
            None => text_at(strings_below(node), seq![key@]) is None,
        },
{
    let inner = child(node, key);
    proof {
        let none = Seq::<Seq<char>>::empty();
        assert(seq![key@] + none =~= seq![key@]);
        lemma_text_at_sub_tree(strings_below(node), seq![key@], none);
    }
    match inner {
        Some(value) => match string_of(value) {
            Some(text) => Some(text.to_owned()),
            None => None,
        },
        None => None,
    }
}

/// The keys of the names of a list of months, in the order of the year.
pub open spec fn month_keys() -> Seq<Seq<char>> {
    seq!["1"@, "2"@, "3"@, "4"@, "5"@, "6"@, "7"@, "8"@, "9"@, "10"@, "11"@, "12"@]
}

/// The keys of the names of a list of days, from Sunday on.
pub open spec fn day_keys() -> Seq<Seq<char>> {
    seq!["sun"@, "mon"@, "tue"@, "wed"@, "thu"@, "fri"@, "sat"@]
}

/// The list of names that stands at `path`: the names under the keys, in
/// the order of the keys. Where none of the keys holds a name there is no
/// list; where some do and others do not, the list is incomplete.
pub open spec fn list_at(strings: Strings, path: Path, keys: Seq<Seq<char>>) -> Result<
    Option<Seq<Seq<char>>>,
    LoadError,
> {
    if forall|i: int| 0 <= i < keys.len() ==> text_at(strings, path.push(#[trigger] keys[i]))
        is None {
        Ok(None)
    } else if forall|i: int|
        0 <= i < keys.len() ==> text_at(strings, path.push(#[trigger] keys[i])) is Some {
        Ok(Some(Seq::new(keys.len(), |i: int| strings[path.push(keys[i])])))
    } else {
        Err(LoadError::IncompleteList)
    }
}

/// The lists of one context that stand at `path`, each under the key of its
/// length; the first error in the order abbreviated, narrow, short, wide.
pub open spec fn lists_at(strings: Strings, path: Path, keys: Seq<Seq<char>>) -> Result<
    NameLists,
    LoadError,
> {
    match list_at(strings, path.push("abbreviated"@), keys) {
        Err(e) => Err(e),
        Ok(abbreviated) => match list_at(strings, path.push("narrow"@), keys) {
            Err(e) => Err(e),
            Ok(narrow) => match list_at(strings, path.push("short"@), keys) {
                Err(e) => Err(e),
                Ok(short) => match list_at(strings, path.push("wide"@), keys) {
                    Err(e) => Err(e),
                    Ok(wide) => Ok(NameLists { abbreviated, narrow, short, wide }),
                },
            },
        },
    }
}

/// The names that stand at `path`: the lists under `stand-alone` and those
/// under `format`; the first error in this order.
pub open spec fn names_at(strings: Strings, path: Path, keys: Seq<Seq<char>>) -> Result<
    Names,
    LoadError,
> {
    match lists_at(strings, path.push("stand-alone"@), keys) {
        Err(e) => Err(e),
        Ok(stand_alone) => match lists_at(strings, path.push("format"@), keys) {
            Err(e) => Err(e),
            Ok(format) => Ok(Names { stand_alone, format }),
        },
    }
}

/// The four patterns that stand at `path`, each as the text under the key of
/// its style. Every style has one.
pub open spec fn formats_at(strings: Strings, path: Path) -> Result<FormatsView, LoadError> {
    match (
        text_at(strings, path.push("full"@)),
        text_at(strings, path.push("long"@)),
        text_at(strings, path.push("medium"@)),
        text_at(strings, path.push("short"@)),
    ) {
        (Some(full), Some(long), Some(medium), Some(short)) => Ok(
            FormatsView {
                full: DateTimePatternView::Raw(full),
                long: DateTimePatternView::Raw(long),
                medium: DateTimePatternView::Raw(medium),
                short: DateTimePatternView::Raw(short),
            },
        ),
        _ => Err(LoadError::MissingPattern),
    }
}

/// The calendar that stands at `path`: the names of the months, those of
/// the days, then the patterns of dates, of times and the joining patterns;
/// the first error in this order.
pub open spec fn calendar_at(strings: Strings, path: Path) -> Result<CalendarView, LoadError> {
    match names_at(strings, path.push("months"@), month_keys()) {
        Err(e) => Err(e),
        Ok(months) => match names_at(strings, path.push("days"@), day_keys()) {
            Err(e) => Err(e),
            Ok(days) => match formats_at(strings, path.push("dateFormats"@)) {
                Err(e) => Err(e),
                Ok(date_formats) => match formats_at(strings, path.push("timeFormats"@)) {
                    Err(e) => Err(e),
                    Ok(time_formats) => match formats_at(strings, path.push("dateTimeFormats"@)) {
                        Err(e) => Err(e),
                        Ok(date_time_formats) => Ok(
                            CalendarView {
                                months,
                                days,
                                date_formats,
                                time_formats,
                                date_time_formats,
                            },
                        ),
                    },
                },
            },
        },
    }
}

/// Where the Gregorian calendar of a locale stands in a document.
pub open spec fn calendar_path(locale: Seq<char>) -> Path {
    seq!["main"@, locale, "dates"@, "calendars"@, "gregorian"@]
}

/// The data of the locale that a text holds: the calendar at its place in
/// the document that the text is read as.
pub open spec fn calendar_in(text: Seq<char>, locale: Seq<char>) -> Result<
    CalendarView,
    LoadError,
> {
    match json_document(text) {
        None => Err(LoadError::Syntax),
        Some(strings) => calendar_at(strings, calendar_path(locale)),
    }
}

/// What was found under each key decides what the list is.
proof fn lemma_list_at(
    strings: Strings,
    path: Path,
    keys: Seq<Seq<char>>,
    found: Seq<Option<Seq<char>>>,
)
    requires
        found.len() == keys.len(),
        forall|i: int|
            0 <= i < keys.len() ==> #[trigger] found[i] == text_at(strings, path.push(keys[i])),
    ensures
        (forall|i: int| 0 <= i < found.len() ==> (#[trigger] found[i]) is None) ==> list_at(
            strings,
            path,
            keys,
        ) == Ok::<Option<Seq<Seq<char>>>, LoadError>(None),
        (forall|i: int| 0 <= i < found.len() ==> (#[trigger] found[i]) is Some) && found.len() > 0
            ==> list_at(strings, path, keys) == Ok::<Option<Seq<Seq<char>>>, LoadError>(
            Some(Seq::new(found.len(), |i: int| found[i].unwrap())),
        ),
        (exists|i: int| 0 <= i < found.len() && (#[trigger] found[i]) is None) && (exists|i: int|
            0 <= i < found.len() && (#[trigger] found[i]) is Some) ==> list_at(strings, path, keys)
            == Err::<Option<Seq<Seq<char>>>, LoadError>(LoadError::IncompleteList),
{
    if forall|i: int| 0 <= i < found.len() ==> (#[trigger] found[i]) is None {
        assert forall|i: int| 0 <= i < keys.len() implies text_at(
            strings,
            path.push(#[trigger] keys[i]),
        ) is None by {
            assert(found[i] is None);
        }
    }
    if (forall|i: int| 0 <= i < found.len() ==> (#[trigger] found[i]) is Some) && found.len() > 0 {
        assert forall|i: int| 0 <= i < keys.len() implies text_at(
            strings,
            path.push(#[trigger] keys[i]),
        ) is Some by {
            assert(found[i] is Some);
        }
        assert(found[0] is Some);
        assert(text_at(strings, path.push(keys[0])) is Some);
        assert(Seq::new(keys.len(), |i: int| strings[path.push(keys[i])]) =~= Seq::new(
            found.len(),
            |i: int| found[i].unwrap(),
        )) by {
            assert forall|i: int| 0 <= i < keys.len() implies strings[path.push(keys[i])]
                == found[i].unwrap() by {
                assert(found[i] is Some);
            }
        }
    }
    if (exists|i: int| 0 <= i < found.len() && (#[trigger] found[i]) is None) && (exists|i: int|
        0 <= i < found.len() && (#[trigger] found[i]) is Some) {
        let a = choose|i: int| 0 <= i < found.len() && (#[trigger] found[i]) is None;
        let b = choose|i: int| 0 <= i < found.len() && (#[trigger] found[i]) is Some;
        assert(text_at(strings, path.push(keys[a])) is None);
        assert(text_at(strings, path.push(keys[b])) is Some);
    }
}

/// The view of a text that may be missing.
pub open spec fn text_view(text: Option<String>) -> Option<Seq<char>> {
    match text {
        Some(held) => Some(held@),
        None => None,
    }
}

/// The list of month names that a value holds: the names under the keys `1`
/// to `12`.
pub fn get_month_list(v: Option<&serde_json::Value>) -> (list: Result<Option<MonthList>, LoadError>)
    ensures
        match list {
            Ok(names) => list_at(strings_below(v), Seq::empty(), month_keys()) == Ok::<
                Option<Seq<Seq<char>>>,
                LoadError,
            >(super::layout::month_names(names)),
            Err(e) => list_at(strings_below(v), Seq::empty(), month_keys()) == Err::<
                Option<Seq<Seq<char>>>,
                LoadError,
            >(e),
        },
{
    let m1 = string_at(v, "1");
    let m2 = string_at(v, "2");
    let m3 = string_at(v, "3");
    let m4 = string_at(v, "4");
    let m5 = string_at(v, "5");
    let m6 = string_at(v, "6");
    let m7 = string_at(v, "7");
    let m8 = string_at(v, "8");
    let m9 = string_at(v, "9");
    let m10 = string_at(v, "10");
    let m11 = string_at(v, "11");
    let m12 = string_at(v, "12");
    proof {
        let found = seq![
            text_view(m1),
            text_view(m2),
            text_view(m3),
            text_view(m4),
            text_view(m5),
            text_view(m6),
            text_view(m7),
            text_view(m8),
            text_view(m9),
            text_view(m10),
            text_view(m11),
            text_view(m12),
        ];
        let none = Seq::<Seq<char>>::empty();
        assert forall|i: int| 0 <= i < 12 implies #[trigger] found[i] == text_at(
            strings_below(v),
            none.push(month_keys()[i]),
        ) by {
            assert(none.push(month_keys()[i]) =~= seq![month_keys()[i]]);
        }
        lemma_list_at(strings_below(v), none, month_keys(), found);
        assert(found[0] == text_view(m1));
        assert(found[1] == text_view(m2));
        assert(found[2] == text_view(m3));
        assert(found[3] == text_view(m4));
        assert(found[4] == text_view(m5));
        assert(found[5] == text_view(m6));
        assert(found[6] == text_view(m7));
        assert(found[7] == text_view(m8));
        assert(found[8] == text_view(m9));
        assert(found[9] == text_view(m10));
        assert(found[10] == text_view(m11));
        assert(found[11] == text_view(m12));
    }
    match (m1, m2, m3, m4, m5, m6, m7, m8, m9, m10, m11, m12) {
        (
            Some(m1),
            Some(m2),
            Some(m3),
            Some(m4),
            Some(m5),
            Some(m6),
            Some(m7),
            Some(m8),
            Some(m9),
            Some(m10),
            Some(m11),
            Some(m12),
        ) => {
            let list = MonthList { m1, m2, m3, m4, m5, m6, m7, m8, m9, m10, m11, m12 };
            proof {
                let found = seq![
                    Some(m1@),
                    Some(m2@),
                    Some(m3@),
                    Some(m4@),
                    Some(m5@),
                    Some(m6@),
                    Some(m7@),
                    Some(m8@),
                    Some(m9@),
                    Some(m10@),
                    Some(m11@),
                    Some(m12@),
                ];
                assert(list@ =~= Seq::new(12, |i: int| found[i].unwrap()));
            }
            Ok(Some(list))
        },
        (None, None, None, None, None, None, None, None, None, None, None, None) => Ok(None),
        _ => Err(LoadError::IncompleteList),
    }
}

/// The list of day names that a value holds: the names under the keys
/// `sun` to `sat`.
pub fn get_day_list(v: Option<&serde_json::Value>) -> (list: Result<Option<DayList>, LoadError>)
    ensures
        match list {
            Ok(names) => list_at(strings_below(v), Seq::empty(), day_keys()) == Ok::<
                Option<Seq<Seq<char>>>,
                LoadError,
            >(super::layout::day_names(names)),
            Err(e) => list_at(strings_below(v), Seq::empty(), day_keys()) == Err::<
                Option<Seq<Seq<char>>>,
                LoadError,
            >(e),
        },
{
    let sun = string_at(v, "sun");
    let mon = string_at(v, "mon");
    let tue = string_at(v, "tue");
    let wed = string_at(v, "wed");
    let thu = string_at(v, "thu");
    let fri = string_at(v, "fri");
    let sat = string_at(v, "sat");
    proof {
        let found = seq![
            text_view(sun),
            text_view(mon),
            text_view(tue),
            text_view(wed),
            text_view(thu),
            text_view(fri),
            text_view(sat),
        ];
        let none = Seq::<Seq<char>>::empty();
        assert forall|i: int| 0 <= i < 7 implies #[trigger] found[i] == text_at(
            strings_below(v),
            none.push(day_keys()[i]),
        ) by {
            assert(none.push(day_keys()[i]) =~= seq![day_keys()[i]]);
        }
        lemma_list_at(strings_below(v), none, day_keys(), found);
        assert(found[0] == text_view(sun));
        assert(found[1] == text_view(mon));
        assert(found[2] == text_view(tue));
        assert(found[3] == text_view(wed));
        assert(found[4] == text_view(thu));
        assert(found[5] == text_view(fri));
        assert(found[6] == text_view(sat));
    }
    match (sun, mon, tue, wed, thu, fri, sat) {
        (Some(sun), Some(mon), Some(tue), Some(wed), Some(thu), Some(fri), Some(sat)) => {
            let list = DayList { sun, mon, tue, wed, thu, fri, sat };
            proof {
                let found = seq![
                    Some(sun@),
                    Some(mon@),
                    Some(tue@),
                    Some(wed@),
                    Some(thu@),
                    Some(fri@),
                    Some(sat@),
                ];
                assert(list@ =~= Seq::new(7, |i: int| found[i].unwrap()));
            }
            Ok(Some(list))
        },
        (None, None, None, None, None, None, None) => Ok(None),
        _ => Err(LoadError::IncompleteList),
    }
}

/// A list below a path is the list at the path.
proof fn lemma_list_at_sub_tree(strings: Strings, path: Path, keys: Seq<Seq<char>>)
    ensures
        list_at(sub_tree(strings, path), Seq::empty(), keys) == list_at(strings, path, keys),
{
    let below = sub_tree(strings, path);
    let none = Seq::<Seq<char>>::empty();
    assert forall|i: int| 0 <= i < keys.len() implies text_at(below, none.push(#[trigger] keys[i]))
        == text_at(strings, path.push(keys[i])) by {
        assert(path + none.push(keys[i]) =~= path.push(keys[i]));
    }
    if forall|i: int| 0 <= i < keys.len() ==> text_at(below, none.push(#[trigger] keys[i]))
        is None {
        assert forall|i: int| 0 <= i < keys.len() implies text_at(
            strings,
            path.push(#[trigger] keys[i]),
        ) is None by {
            assert(text_at(below, none.push(keys[i])) is None);
        }
    } else if forall|i: int|
        0 <= i < keys.len() ==> text_at(below, none.push(#[trigger] keys[i])) is Some {
        assert forall|i: int| 0 <= i < keys.len() implies text_at(
            strings,
            path.push(#[trigger] keys[i]),
        ) is Some by {
            assert(text_at(below, none.push(keys[i])) is Some);
        }
        let i = choose|i: int|
            0 <= i < keys.len() && !(text_at(below, none.push(#[trigger] keys[i])) is None);
        assert(text_at(strings, path.push(keys[i])) is Some);
        assert(Seq::new(keys.len(), |i: int| below[none.push(keys[i])]) =~= Seq::new(
            keys.len(),
            |i: int| strings[path.push(keys[i])],
        )) by {
            assert forall|i: int| 0 <= i < keys.len() implies below[none.push(keys[i])]
                == strings[path.push(keys[i])] by {
                assert(path + none.push(keys[i]) =~= path.push(keys[i]));
                assert(text_at(below, none.push(keys[i])) is Some);
            }
        }
    } else {
        let i = choose|i: int|
            0 <= i < keys.len() && !(text_at(below, none.push(#[trigger] keys[i])) is None);
        let j = choose|j: int|
            0 <= j < keys.len() && !(text_at(below, none.push(#[trigger] keys[j])) is Some);
        assert(text_at(strings, path.push(keys[i])) is Some);
        assert(text_at(strings, path.push(keys[j])) is None);
    }
}

/// Lists below a path are the lists at the path.
proof fn lemma_lists_at_sub_tree(strings: Strings, path: Path, rest: Path, keys: Seq<Seq<char>>)
    ensures
        lists_at(sub_tree(strings, path), rest, keys) == lists_at(strings, path + rest, keys),
{
    lemma_list_below(strings, path, rest, "abbreviated"@, keys);
    lemma_list_below(strings, path, rest, "narrow"@, keys);
    lemma_list_below(strings, path, rest, "short"@, keys);
    lemma_list_below(strings, path, rest, "wide"@, keys);
}

/// The list under a key below a path is the list at the path and the key.
proof fn lemma_list_below(
    strings: Strings,
    path: Path,
    rest: Path,
    key: Seq<char>,
    keys: Seq<Seq<char>>,
)
    ensures
        list_at(sub_tree(strings, path), rest.push(key), keys) == list_at(
            strings,
            (path + rest).push(key),
            keys,
        ),
{
    let below = sub_tree(strings, path);
    lemma_list_at_sub_tree(below, rest.push(key), keys);
    lemma_list_at_sub_tree(strings, (path + rest).push(key), keys);
    lemma_sub_tree_twice(strings, path, rest.push(key));
    assert(path + rest.push(key) =~= (path + rest).push(key));
}

/// The lists of month names of one context that a value holds, each under
/// the key of its length.
pub fn get_months_data(v: Option<&serde_json::Value>) -> (lists: Result<MonthTypes, LoadError>)
    ensures
        match lists {
            Ok(held) => lists_at(strings_below(v), Seq::empty(), month_keys()) == Ok::<
                NameLists,
                LoadError,
            >(held@),
            Err(e) => lists_at(strings_below(v), Seq::empty(), month_keys()) == Err::<
                NameLists,
                LoadError,
            >(e),
        },
{
    proof {
        let none = Seq::<Seq<char>>::empty();
        lemma_list_at_sub_tree(strings_below(v), seq!["abbreviated"@], month_keys());
        assert(none.push("abbreviated"@) =~= seq!["abbreviated"@]);
        lemma_list_at_sub_tree(strings_below(v), seq!["narrow"@], month_keys());
        assert(none.push("narrow"@) =~= seq!["narrow"@]);
        lemma_list_at_sub_tree(strings_below(v), seq!["short"@], month_keys());
        assert(none.push("short"@) =~= seq!["short"@]);
        lemma_list_at_sub_tree(strings_below(v), seq!["wide"@], month_keys());
        assert(none.push("wide"@) =~= seq!["wide"@]);
    }
    let abbreviated = match get_month_list(child(v, "abbreviated")) {
        Ok(list) => list,
        Err(e) => {
            return Err(e);
        },
    };
    let narrow = match get_month_list(child(v, "narrow")) {
        Ok(list) => list,
        Err(e) => {
            return Err(e);
        },
    };
    let short = match get_month_list(child(v, "short")) {
        Ok(list) => list,
        Err(e) => {
            return Err(e);
        },
    };
    let wide = match get_month_list(child(v, "wide")) {
        Ok(list) => list,
        Err(e) => {
            return Err(e);
        },
    };
    Ok(MonthTypes { abbreviated, narrow, short, wide })
}

/// The lists of day names of one context that a value holds, each under the
/// key of its length.
pub fn get_days_data(v: Option<&serde_json::Value>) -> (lists: Result<DayTypes, LoadError>)
    ensures
        match lists {
            Ok(held) => lists_at(strings_below(v), Seq::empty(), day_keys()) == Ok::<
                NameLists,
                LoadError,
            >(held@),
            Err(e) => lists_at(strings_below(v), Seq::empty(), day_keys()) == Err::<
                NameLists,
                LoadError,
            >(e),
        },
{
    proof {
        let none = Seq::<Seq<char>>::empty();
        lemma_list_at_sub_tree(strings_below(v), seq!["abbreviated"@], day_keys());
        assert(none.push("abbreviated"@) =~= seq!["abbreviated"@]);
        lemma_list_at_sub_tree(strings_below(v), seq!["narrow"@], day_keys());
        assert(none.push("narrow"@) =~= seq!["narrow"@]);
        lemma_list_at_sub_tree(strings_below(v), seq!["short"@], day_keys());
        assert(none.push("short"@) =~= seq!["short"@]);
        lemma_list_at_sub_tree(strings_below(v), seq!["wide"@], day_keys());
        assert(none.push("wide"@) =~= seq!["wide"@]);
    }
    let abbreviated = match get_day_list(child(v, "abbreviated")) {
        Ok(list) => list,
        Err(e) => {
            return Err(e);
        },
    };
    let narrow = match get_day_list(child(v, "narrow")) {
        Ok(list) => list,
        Err(e) => {
            return Err(e);
        },
    };
    let short = match get_day_list(child(v, "short")) {
        Ok(list) => list,
        Err(e) => {
            return Err(e);
        },
    };
    let wide = match get_day_list(child(v, "wide")) {
        Ok(list) => list,
        Err(e) => {
            return Err(e);
        },
    };
    Ok(DayTypes { abbreviated, narrow, short, wide })
}

/// Names below a path are the names at the path.
proof fn lemma_names_at_sub_tree(strings: Strings, path: Path, rest: Path, keys: Seq<Seq<char>>)
    ensures
        names_at(sub_tree(strings, path), rest, keys) == names_at(strings, path + rest, keys),
{
    lemma_lists_at_sub_tree(strings, path, rest.push("stand-alone"@), keys);
    lemma_lists_at_sub_tree(strings, path, rest.push("format"@), keys);
    assert(path + rest.push("stand-alone"@) =~= (path + rest).push("stand-alone"@));
    assert(path + rest.push("format"@) =~= (path + rest).push("format"@));
}

/// Patterns below a path are the patterns at the path.
proof fn lemma_formats_at_sub_tree(strings: Strings, path: Path, rest: Path)
    ensures
        formats_at(sub_tree(strings, path), rest) == formats_at(strings, path + rest),
{
    assert(path + rest.push("full"@) =~= (path + rest).push("full"@));
    assert(path + rest.push("long"@) =~= (path + rest).push("long"@));
    assert(path + rest.push("medium"@) =~= (path + rest).push("medium"@));
    assert(path + rest.push("short"@) =~= (path + rest).push("short"@));
}

/// A calendar below a path is the calendar at the path.
proof fn lemma_calendar_at_sub_tree(strings: Strings, path: Path)
    ensures
        calendar_at(sub_tree(strings, path), Seq::empty()) == calendar_at(strings, path),
{
    let none = Seq::<Seq<char>>::empty();
    assert(path + none.push("months"@) =~= path.push("months"@));
    assert(path + none.push("days"@) =~= path.push("days"@));
    assert(path + none.push("dateFormats"@) =~= path.push("dateFormats"@));
    assert(path + none.push("timeFormats"@) =~= path.push("timeFormats"@));
    assert(path + none.push("dateTimeFormats"@) =~= path.push("dateTimeFormats"@));
    lemma_names_at_sub_tree(strings, path, none.push("months"@), month_keys());
    lemma_names_at_sub_tree(strings, path, none.push("days"@), day_keys());
    lemma_formats_at_sub_tree(strings, path, none.push("dateFormats"@));
    lemma_formats_at_sub_tree(strings, path, none.push("timeFormats"@));
    lemma_formats_at_sub_tree(strings, path, none.push("dateTimeFormats"@));
}

/// The month names that a value holds: the lists under `stand-alone` and
/// under `format`.
pub fn get_months(v: Option<&serde_json::Value>) -> (names: Result<Months, LoadError>)
    ensures
        match names {
            Ok(held) => names_at(strings_below(v), Seq::empty(), month_keys()) == Ok::<
                Names,
                LoadError,
            >(held@),
            Err(e) => names_at(strings_below(v), Seq::empty(), month_keys()) == Err::<
                Names,
                LoadError,
            >(e),
        },
{
    proof {
        let none = Seq::<Seq<char>>::empty();
        lemma_lists_at_sub_tree(strings_below(v), seq!["stand-alone"@], none, month_keys());
        lemma_lists_at_sub_tree(strings_below(v), seq!["format"@], none, month_keys());
        assert(seq!["stand-alone"@] + none =~= none.push("stand-alone"@));
        assert(seq!["format"@] + none =~= none.push("format"@));
    }
    let stand_alone = match get_months_data(child(v, "stand-alone")) {
        Ok(lists) => lists,
        Err(e) => {
            return Err(e);
        },
    };
    let format = match get_months_data(child(v, "format")) {
        Ok(lists) => lists,
        Err(e) => {
            return Err(e);
        },
    };
    Ok(Months { stand_alone, format })
}

/// The day names that a value holds: the lists under `stand-alone` and under
/// `format`.
pub fn get_days(v: Option<&serde_json::Value>) -> (names: Result<Days, LoadError>)
    ensures
        match names {
            Ok(held) => names_at(strings_below(v), Seq::empty(), day_keys()) == Ok::<
                Names,
                LoadError,
            >(held@),
            Err(e) => names_at(strings_below(v), Seq::empty(), day_keys()) == Err::<
                Names,
                LoadError,
            >(e),
        },
{
    proof {
        let none = Seq::<Seq<char>>::empty();
        lemma_lists_at_sub_tree(strings_below(v), seq!["stand-alone"@], none, day_keys());
        lemma_lists_at_sub_tree(strings_below(v), seq!["format"@], none, day_keys());
        assert(seq!["stand-alone"@] + none =~= none.push("stand-alone"@));
        assert(seq!["format"@] + none =~= none.push("format"@));
    }
    let stand_alone = match get_days_data(child(v, "stand-alone")) {
        Ok(lists) => lists,
        Err(e) => {
            return Err(e);
        },
    };
    let format = match get_days_data(child(v, "format")) {
        Ok(lists) => lists,
        Err(e) => {
            return Err(e);
        },
    };
    Ok(Days { stand_alone, format })
}

/// The four patterns that a value holds, each as the text under the key of
/// its style. They are not compiled.
pub fn get_format_patterns(v: Option<&serde_json::Value>) -> (formats: Result<Formats, LoadError>)
    ensures
        match formats {
            Ok(held) => formats_at(strings_below(v), Seq::empty()) == Ok::<
                FormatsView,
                LoadError,
            >(held@),
            Err(e) => formats_at(strings_below(v), Seq::empty()) == Err::<FormatsView, LoadError>(
                e,
            ),
        },
{
    proof {
        let none = Seq::<Seq<char>>::empty();
        assert(none.push("full"@) =~= seq!["full"@]);
        assert(none.push("long"@) =~= seq!["long"@]);
        assert(none.push("medium"@) =~= seq!["medium"@]);
        assert(none.push("short"@) =~= seq!["short"@]);
    }
    let full = string_at(v, "full");
    let long = string_at(v, "long");
    let medium = string_at(v, "medium");
    let short = string_at(v, "short");
    match (full, long, medium, short) {
        (Some(full), Some(long), Some(medium), Some(short)) => Ok(
            Formats {
                full: DateTimePattern::Raw(full),
                long: DateTimePattern::Raw(long),
                medium: DateTimePattern::Raw(medium),
                short: DateTimePattern::Raw(short),
            },
        ),
        _ => Err(LoadError::MissingPattern),
    }
}

/// The calendar that a value holds: its names and its patterns.
pub fn get_calendar(v: Option<&serde_json::Value>) -> (calendar: Result<
    GregorianCalendar,
    LoadError,
>)
    ensures
        match calendar {
            Ok(held) => calendar_at(strings_below(v), Seq::empty()) == Ok::<
                CalendarView,
                LoadError,
            >(held@),
            Err(e) => calendar_at(strings_below(v), Seq::empty()) == Err::<
                CalendarView,
                LoadError,
            >(e),
        },
{
    proof {
        let none = Seq::<Seq<char>>::empty();
        assert(seq!["months"@] + none =~= none.push("months"@));
        assert(seq!["days"@] + none =~= none.push("days"@));
        assert(seq!["dateFormats"@] + none =~= none.push("dateFormats"@));
        assert(seq!["timeFormats"@] + none =~= none.push("timeFormats"@));
        assert(seq!["dateTimeFormats"@] + none =~= none.push("dateTimeFormats"@));
        lemma_names_at_sub_tree(strings_below(v), seq!["months"@], none, month_keys());
        lemma_names_at_sub_tree(strings_below(v), seq!["days"@], none, day_keys());
        lemma_formats_at_sub_tree(strings_below(v), seq!["dateFormats"@], none);
        lemma_formats_at_sub_tree(strings_below(v), seq!["timeFormats"@], none);
        lemma_formats_at_sub_tree(strings_below(v), seq!["dateTimeFormats"@], none);
    }
    let months = match get_months(child(v, "months")) {
        Ok(names) => names,
        Err(e) => {
            return Err(e);
        },
    };
    let days = match get_days(child(v, "days")) {
        Ok(names) => names,
        Err(e) => {
            return Err(e);
        },
    };
    let date_formats = match get_format_patterns(child(v, "dateFormats")) {
        Ok(formats) => formats,
        Err(e) => {
            return Err(e);
        },
    };
    let time_formats = match get_format_patterns(child(v, "timeFormats")) {
        Ok(formats) => formats,
        Err(e) => {
            return Err(e);
        },
    };
    let date_time_formats = match get_format_patterns(child(v, "dateTimeFormats")) {
        Ok(formats) => formats,
        Err(e) => {
            return Err(e);
        },
    };
    Ok(GregorianCalendar { months, days, date_formats, time_formats, date_time_formats })
}

/// The data of a locale from a JSON document that has been read: the
/// calendar that stands at [`calendar_path`] in the document.
pub fn calendar_data(document: &serde_json::Value, locale: &str) -> (data: Result<
    Resource,
    LoadError,
>)
    ensures
        match data {
            Ok(resource) => calendar_at(json_strings(*document), calendar_path(locale@)) == Ok::<
                CalendarView,
                LoadError,
            >(resource@),
            Err(e) => calendar_at(json_strings(*document), calendar_path(locale@)) == Err::<
                CalendarView,
                LoadError,
            >(e),
        },
{
    let main = child(Some(document), "main");
    let of_locale = child(main, locale);
    let dates = child(of_locale, "dates");
    let calendars = child(dates, "calendars");
    let gregorian = child(calendars, "gregorian");
    proof {
        let strings = json_strings(*document);
        lemma_sub_tree_twice(strings, seq!["main"@], seq![locale@]);
        lemma_sub_tree_twice(strings, seq!["main"@] + seq![locale@], seq!["dates"@]);
        lemma_sub_tree_twice(
            strings,
            seq!["main"@] + seq![locale@] + seq!["dates"@],
            seq!["calendars"@],
        );
        lemma_sub_tree_twice(
            strings,
            seq!["main"@] + seq![locale@] + seq!["dates"@] + seq!["calendars"@],
            seq!["gregorian"@],
        );
        assert(seq!["main"@] + seq![locale@] + seq!["dates"@] + seq!["calendars"@] + seq![
            "gregorian"@,
        ] =~= calendar_path(locale@));
        lemma_calendar_at_sub_tree(strings, calendar_path(locale@));
    }
    match get_calendar(gregorian) {
        Ok(calendar) => Ok(
            Resource {
                main: MainResource {
                    pl: LocaleResource {
                        dates: CalendarDates { calendars: Calendar { gregorian: calendar } },
                    },
                },
            },
        ),
        Err(e) => Err(e),
    }
}

/// The data of a locale from the text of a JSON document.
///
/// The text is read as JSON by `serde_json`; a text that it does not take is
/// a `Syntax` error. What is then taken from the document is what
/// [`calendar_data`] takes.
pub fn parse_calendar_data(contents: &str, locale: &str) -> (data: Result<Resource, LoadError>)
    ensures
        match data {
            Ok(resource) => calendar_in(contents@, locale@) == Ok::<CalendarView, LoadError>(
                resource@,
            ),
            Err(e) => calendar_in(contents@, locale@) == Err::<CalendarView, LoadError>(e),
        },
{
    match read_json(contents) {
        Ok(document) => calendar_data(&document, locale),
        Err(_) => Err(LoadError::Syntax),
    }
}

} // verus!
