//! The locales whose data is built in.

pub mod pl;

use vstd::prelude::*;
use crate::data::layout::Resource;

verus! {

/// The data of a locale that is built in. Polish, `pl`, is the one there is.
pub fn get(locale: &str) -> (data: Option<Resource>)
    ensures
        data is Some <==> locale@ == "pl"@,
        data matches Some(resource) ==> resource@ == pl::calendar(),
{
    if locale.to_owned() == "pl".to_owned() {
        Some(pl::resource())
    } else {
        None
    }
}

/// The list names the locale.
pub open spec fn names_locale(includes: Seq<&str>, locale: Seq<char>) -> bool {
    exists|i: int| 0 <= i < includes.len() && (#[trigger] includes[i])@ == locale
}

/// Whether a locale is left out when data is built for a list of locales:
/// it is left out unless the list names it, and every locale is left out
/// where there is no list.
pub fn should_skip(locale: &str, include_locales: Option<&[&str]>) -> (skip: bool)
    ensures
        skip == match include_locales {
            Some(includes) => !names_locale(includes@, locale@),
            None => true,
        },
{
    match include_locales {
        Some(includes) => {
            let wanted = locale.to_owned();
            let mut i: usize = 0;
            while i < includes.len()
                invariant
                    i <= includes.len(),
                    include_locales == Some(includes),
                    wanted@ == locale@,
                    forall|j: int| 0 <= j < i ==> (#[trigger] includes@[j])@ != locale@,
                decreases includes.len() - i,
            {
                if includes[i].to_owned() == wanted {
                    assert(includes@[i as int]@ == locale@);
                    return false;
                }
                i += 1;
            }
            true
        },
        None => true,
    }
}

} // verus!
